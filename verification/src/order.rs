//! An opcode with its operand.

use vstd::prelude::*;
use crate::operand::Item;

verus! {

#[derive(Clone, Copy, Debug, PartialEq, Eq, Structural)]
pub enum Opecode {
    Iadd,
    Iconst,
    Ireturn,
    IfIcmple,
}

#[derive(Clone, Copy, Debug, PartialEq, Eq, Structural)]
pub struct Order {
    pub opecode: Opecode,
    pub operand: Item,
}

impl Order {
    pub fn new(opecode: Opecode, operand: Item) -> (r: Order)
        ensures
            r == (Order { opecode, operand }),
    {
        Order { opecode, operand }
    }
}

} // verus!
