//! Error taxonomy of the loader and of the execution engine.

use vstd::prelude::*;

verus! {

/// The class file bytes cannot be decoded.
#[derive(Clone, Copy, Debug, PartialEq, Eq, Structural)]
pub enum DecodeError {
    /// Fewer bytes are left than the next item needs.
    FileTooShort,
    /// A constant-pool entry starts with a tag that the format does not define.
    UnknownConstantTag(usize),
    /// The byte at the given position of a code array is no supported opcode.
    UnknownOpcode(usize, usize),
    /// The declared length of an attribute differs from the length of its body.
    MalformedAttributeLength,
    /// A stack-map frame starts with a reserved frame type.
    UnknownFrameType(usize),
    /// A verification type starts with a tag that the format does not define.
    UnknownVerificationType(usize),
}

/// A symbolic reference cannot be resolved.
#[derive(Clone, Copy, Debug, PartialEq, Eq, Structural)]
pub enum ResolutionError {
    /// The class with the given name id could not be supplied.
    ClassNotFound(usize),
    /// The constant-pool entry at the given index has not the variant that its role asks for.
    WrongConstant(usize),
    /// No method of the named class has the given name id.
    MethodNotFound(usize, usize),
    /// The class has no public method named `main` with a body.
    EntryNotFound,
    /// A class holds a reference to a constant-pool entry that is not of the variant
    /// that the reference asks for.
    UnresolvedReference,
}

/// The machine state does not fit the instruction.
#[derive(Clone, Copy, Debug, PartialEq, Eq, Structural)]
pub enum StateError {
    /// The operand stack holds fewer items than the instruction pops.
    StackUnderflow,
    /// A local-variable index lies outside the frame.
    LocalOutOfRange(usize),
    /// An operand has not the variant that the instruction expects.
    TypeMismatch,
    /// No frame is on the frame stack, or no caller below a returning frame.
    NoFrame,
    /// An object, array or static field that an operand names does not exist.
    DanglingReference,
    /// An array index or an array length is out of range.
    IndexOutOfBounds,
    /// The cursor of the current frame points outside its code array.
    CursorOutOfRange(usize),
}

/// A recognized feature that is not implemented.
#[derive(Clone, Copy, Debug, PartialEq, Eq, Structural)]
pub enum UnsupportedError {
    /// Constant-pool tag (method handle, method type, invoke dynamic).
    ConstantTag(usize),
    /// Attribute whose name, given by its string id, is not one of the format's names.
    Attribute(usize),
    /// The instruction at the given cursor cannot be executed.
    Instruction(usize),
    /// Field or array element type.
    Descriptor,
}

/// Everything that the loader and the engine can fail with.
#[derive(Clone, Copy, Debug, PartialEq, Eq, Structural)]
pub enum Error {
    DecodeError(DecodeError),
    ResolutionError(ResolutionError),
    StateError(StateError),
    /// Integer division or remainder by zero.
    ArithmeticError,
    UnsupportedError(UnsupportedError),
    /// A caller handed an index or id that does not denote what it must.
    InternalError,
}

} // verus!
