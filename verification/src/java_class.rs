//! Classes as the registry holds them: loaded from a class file, or built in.

use vstd::prelude::*;
use crate::class_file::ClassFile;
use crate::constant::class_name_at;
use crate::error::Error;
use crate::table::{Key, Table};

pub mod builtin;
pub mod custom;
pub mod default;

verus! {

#[derive(Debug)]
pub enum JavaClass {
    BuiltIn(builtin::BuiltIn),
    Custom(ClassFile),
}

/// The registry of classes. The class with name id `n` stands under the key `(n, 0)`.
pub type ClassMap = Table<JavaClass>;

/// The key of the class with name id `name`.
pub open spec fn class_key(name: usize) -> Key {
    (name, 0)
}

/// The name id that `class` gives for itself.
pub open spec fn name_of(class: &JavaClass) -> Result<usize, Error> {
    match class {
        JavaClass::BuiltIn(class) => Ok(class.class_name),
        JavaClass::Custom(class) => class_name_at(class.cp_info@, class.this_class),
    }
}

impl JavaClass {
    /// The string id of the name of the class.
    pub fn this_class_name(&self) -> (r: Result<usize, Error>)
        ensures
            r == name_of(self),
    {
        match self {
            JavaClass::BuiltIn(class) => Ok(class.class_name),
            JavaClass::Custom(class) => class.this_class_name(),
        }
    }
}

} // verus!
