//! Classes loaded from class files.

pub use crate::class_file::ClassFile as Custom;
