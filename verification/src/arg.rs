//! Arguments of host methods: their kinds and their values.

use vstd::prelude::*;
use crate::operand::{word_as_index, word_index};
use crate::text::{decimal_text, number_text, plain, signed_text, with_index};

verus! {

#[derive(Debug)]
pub enum ArgumentKind {
    I32,
    F32,
    String,
    Array(Box<ArgumentKind>),
}

/// The value of an argument; of a floating-point number its bits.
#[derive(Debug)]
pub enum ArgumentValue {
    I32(i32),
    F32(u32),
    String(String),
    Array(Box<ArgumentValue>),
}

#[derive(Debug)]
pub struct Argument {
    pub kind: ArgumentKind,
    pub value: ArgumentValue,
}

impl Argument {
    pub fn new(kind: ArgumentKind, value: ArgumentValue) -> (r: Self)
        ensures
            r.kind == kind,
            r.value == value,
    {
        Argument { kind, value }
    }
}

/// The name of a kind of argument.
pub open spec fn kind_text(kind: &ArgumentKind) -> Seq<char> {
    match kind {
        ArgumentKind::I32 => "i32"@,
        ArgumentKind::F32 => "f32"@,
        ArgumentKind::String => "String"@,
        ArgumentKind::Array(_) => "Array"@,
    }
}

impl ArgumentKind {
    /// The name of the kind.
    pub fn to_string(&self) -> (r: String)
        ensures
            r@ == kind_text(self),
    {
        match self {
            ArgumentKind::I32 => plain("i32"),
            ArgumentKind::F32 => plain("f32"),
            ArgumentKind::String => plain("String"),
            ArgumentKind::Array(_) => plain("Array"),
        }
    }
}

/// The text that shows the value of an argument: a number in decimal, a text as it is,
/// of a floating-point number its bits.
pub open spec fn value_text(value: &ArgumentValue) -> Seq<char> {
    match value {
        ArgumentValue::I32(v) => signed_text(*v),
        ArgumentValue::F32(bits) => "bits "@ + number_text(word_index(*bits)),
        ArgumentValue::String(text) => text@,
        ArgumentValue::Array(_) => "Array"@,
    }
}

impl ArgumentValue {
    /// The text that shows the value.
    pub fn to_string(&self) -> (r: String)
        ensures
            r@ == value_text(self),
    {
        match self {
            ArgumentValue::I32(v) => decimal_text(*v as i64),
            ArgumentValue::F32(bits) => with_index("bits ", word_as_index(*bits)),
            ArgumentValue::String(text) => text.clone(),
            ArgumentValue::Array(_) => plain("Array"),
        }
    }
}

} // verus!
