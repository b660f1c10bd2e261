//! The partial order of operand items.

use std::cmp::Ordering;
use vstd::prelude::*;
use vstd::std_specs::cmp::PartialOrdSpecImpl;
use crate::operand::Item;

verus! {

/// How two 32-bit numbers compare.
pub open spec fn number_order(first: i32, second: i32) -> Ordering {
    if first < second {
        Ordering::Less
    } else if first > second {
        Ordering::Greater
    } else {
        Ordering::Equal
    }
}

/// How two ids compare.
pub open spec fn id_order(first: usize, second: usize) -> Ordering {
    if first < second {
        Ordering::Less
    } else if first > second {
        Ordering::Greater
    } else {
        Ordering::Equal
    }
}

/// How two halves of 64-bit values compare.
pub open spec fn half_order(first: u32, second: u32) -> Ordering {
    if first < second {
        Ordering::Less
    } else if first > second {
        Ordering::Greater
    } else {
        Ordering::Equal
    }
}

/// How two truth values compare: `false` lies below `true`.
pub open spec fn truth_order(first: bool, second: bool) -> Ordering {
    if first == second {
        Ordering::Equal
    } else if second {
        Ordering::Less
    } else {
        Ordering::Greater
    }
}

/// How two items compare: items of the same kind by what they hold; items of
/// different kinds, floating-point numbers, objects and arrays not at all.
pub open spec fn item_order(first: Item, second: Item) -> Option<Ordering> {
    match (first, second) {
        (Item::Null, Item::Null) => Some(Ordering::Equal),
        (Item::Int(left), Item::Int(right)) => Some(number_order(left, right)),
        (Item::Boolean(left), Item::Boolean(right)) => Some(truth_order(left, right)),
        (Item::Long(left), Item::Long(right)) => Some(half_order(left, right)),
        (Item::Classref(left), Item::Classref(right)) => Some(id_order(left, right)),
        (Item::Fieldref(left), Item::Fieldref(right)) => Some(id_order(left, right)),
        (Item::String(left), Item::String(right)) => Some(id_order(left, right)),
        _ => None,
    }
}

/// Computes `number_order`.
fn order_of_numbers(first: i32, second: i32) -> (r: Ordering)
    ensures
        r == number_order(first, second),
{
    if first < second {
        Ordering::Less
    } else if first > second {
        Ordering::Greater
    } else {
        Ordering::Equal
    }
}

/// Computes `id_order`.
fn order_of_ids(first: usize, second: usize) -> (r: Ordering)
    ensures
        r == id_order(first, second),
{
    if first < second {
        Ordering::Less
    } else if first > second {
        Ordering::Greater
    } else {
        Ordering::Equal
    }
}

/// Computes `half_order`.
fn order_of_halves(first: u32, second: u32) -> (r: Ordering)
    ensures
        r == half_order(first, second),
{
    if first < second {
        Ordering::Less
    } else if first > second {
        Ordering::Greater
    } else {
        Ordering::Equal
    }
}

/// Computes `truth_order`.
fn order_of_truths(first: bool, second: bool) -> (r: Ordering)
    ensures
        r == truth_order(first, second),
{
    if first == second {
        Ordering::Equal
    } else if second {
        Ordering::Less
    } else {
        Ordering::Greater
    }
}

impl PartialOrd for Item {
    fn partial_cmp(&self, other: &Item) -> (r: Option<Ordering>) {
        match (*self, *other) {
            (Item::Null, Item::Null) => Some(Ordering::Equal),
            (Item::Int(left), Item::Int(right)) => Some(order_of_numbers(left, right)),
            (Item::Boolean(left), Item::Boolean(right)) => Some(order_of_truths(left, right)),
            (Item::Long(left), Item::Long(right)) => Some(order_of_halves(left, right)),
            (Item::Classref(left), Item::Classref(right)) => Some(order_of_ids(left, right)),
            (Item::Fieldref(left), Item::Fieldref(right)) => Some(order_of_ids(left, right)),
            (Item::String(left), Item::String(right)) => Some(order_of_ids(left, right)),
            _ => None,
        }
    }
}

impl PartialOrdSpecImpl for Item {
    open spec fn obeys_partial_cmp_spec() -> bool {
        true
    }

    open spec fn partial_cmp_spec(&self, other: &Item) -> Option<Ordering> {
        item_order(*self, *other)
    }
}

} // verus!
