//! What the host chose for a run.

use vstd::prelude::*;
use crate::attribute::instruction::{instruction_text, Instruction};
use crate::operand::stack_text;
use crate::stackframe::Stackframe;

verus! {

/// How much the engine tells about a run: with `debug_mode` 1 each instruction before it
/// is executed, with 2 also the operand stack, with any other number nothing.
#[derive(Clone, Copy, Debug, PartialEq, Eq, Structural)]
pub struct RjOption {
    pub debug_mode: usize,
}

impl RjOption {
    /// The option that tells nothing.
    pub fn new() -> (r: RjOption)
        ensures
            r.debug_mode == 0,
    {
        RjOption { debug_mode: 0 }
    }
}

/// The operand stack of a frame, or of no frame.
pub open spec fn shown_stack(stackframe: Option<&Stackframe>) -> Seq<char> {
    match stackframe {
        Some(frame) => stack_text(frame.operand_stack@),
        None => Seq::empty(),
    }
}

/// What is told about `instruction` before it is executed in `stackframe`.
pub open spec fn debug_text(
    instruction: &Instruction,
    stackframe: Option<&Stackframe>,
    debug_mode: usize,
) -> Option<Seq<char>> {
    if debug_mode == 1 {
        Some("instruction: "@ + instruction_text(instruction))
    } else if debug_mode == 2 {
        Some(
            "instruction: "@ + instruction_text(instruction) + "\noperand_stack:\n"@ + shown_stack(
                stackframe,
            ) + "\n"@,
        )
    } else {
        None
    }
}

/// What the host is to write before `instruction` is executed in `stackframe`: with the
/// debug mode 1 the instruction, with 2 the instruction and the operand stack, else
/// nothing.
pub fn emit_debug_info(
    instruction: &Instruction,
    stackframe: Option<&Stackframe>,
    debug_mode: usize,
) -> (r:
    Option<String>)
    ensures
        match r {
            Some(text) => debug_text(instruction, stackframe, debug_mode) == Some(text@),
            None => debug_text(instruction, stackframe, debug_mode) is None,
        },
{
    if debug_mode == 1 {
        let mut text = String::from_str("instruction: ");
        let shown = instruction.to_string();
        text.append(shown.as_str());
        Some(text)
    } else if debug_mode == 2 {
        let mut text = String::from_str("instruction: ");
        let shown = instruction.to_string();
        text.append(shown.as_str());
        text.append("\noperand_stack:\n");
        let ghost head = text@;
        match stackframe {
            Some(frame) => {
                let stack = frame.operand_stack.to_string();
                text.append(stack.as_str());
            },
            None => {
                assert(text@ =~= head + Seq::<char>::empty());
            },
        }
        text.append("\n");
        Some(text)
    } else {
        None
    }
}

} // verus!
