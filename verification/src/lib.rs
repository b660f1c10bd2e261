//! A small interpreter for a stack-based class-file virtual machine.
//!
//! The loader turns the bytes of a class file into a class model: [`utils`] reads
//! big-endian numbers, [`constant`] the constant pool, [`attribute`] the attributes and
//! the instructions of method bodies, [`field`], [`method`] and [`class_file`] the rest.
//! Texts are interned in a [`string_pool`].
//!
//! The engine runs the bytecode one instruction at a time: [`operand`] and
//! [`stackframe`] hold what one invocation owns and what the instructions that touch
//! nothing else do, [`object`] and [`array`] are the heaps, [`java_class`] is the registry
//! with its built-in classes, and [`context`] owns all of them and executes. The engine
//! reads no file and writes no line: it asks its host for classes and hands it what a
//! program prints. [`theorems`] states what holds of every run.

pub mod arg;
pub mod array;
pub mod attribute;
pub mod class_file;
pub mod constant;
pub mod context;
pub mod error;
pub mod field;
pub mod java_class;
pub mod listing;
pub mod method;
pub mod object;
pub mod operand;
pub mod operand_order;
pub mod option;
pub mod order;
pub mod stackframe;
pub mod string_pool;
pub mod table;
pub mod text;
pub mod theorems;
pub mod utils;
