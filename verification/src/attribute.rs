//! Attributes of classes, fields, methods and code, and the instructions of a method body.

pub mod code;
pub mod defs;
pub mod instruction;
