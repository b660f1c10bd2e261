//! Operand items and the operand stack with its arithmetic.

use vstd::prelude::*;
use crate::error::{Error, StateError};
use crate::text::{number_text, plain, push_index, signed_text, with_index, with_number};
use crate::utils::{high_half, join_long, long_value, low_half, split_long};

verus! {

/// One slot of an operand stack or of a local-variable array.
///
/// A 64-bit value takes two consecutive slots, the upper half first. A `Float` holds the
/// bits of a 32-bit IEEE 754 number, the two `Double` slots the bits of a 64-bit one.
#[derive(Clone, Copy, Debug, PartialEq, Eq, Structural)]
pub enum Item {
    Null,
    Int(i32),
    Long(u32),
    Float(u32),
    Double(u32),
    Boolean(bool),
    String(usize),
    Classref(usize),
    Fieldref(usize),
    Objectref(usize),
    Arrayref(usize),
}

impl Item {
    /// The item is one half of a 64-bit value.
    pub open spec fn is_wide(self) -> bool {
        self is Long || self is Double
    }

    /// Whether the item is one half of a 64-bit value.
    pub fn wide(&self) -> (r: bool)
        ensures
            r == self.is_wide(),
    {
        match self {
            Item::Long(_) => true,
            Item::Double(_) => true,
            _ => false,
        }
    }
}

/// Splits a 64-bit value into its two halves; the first is the upper one.
pub fn devide_i64_two_usize(input: i64) -> (r: (usize, usize))
    ensures
        r.0 == high_half(input),
        r.1 == low_half(input),
{
    let (high, low) = split_long(input);
    (high as usize, low as usize)
}

/// The signed 32-bit number congruent to `v` modulo 2^32.
pub open spec fn wrap_int(v: int) -> i32 {
    let m = v % 0x1_0000_0000;
    if m > i32::MAX {
        (m - 0x1_0000_0000) as i32
    } else {
        m as i32
    }
}

/// The signed 64-bit number congruent to `v` modulo 2^64.
pub open spec fn wrap_long(v: int) -> i64 {
    let m = v % 0x1_0000_0000_0000_0000;
    if m > i64::MAX {
        (m - 0x1_0000_0000_0000_0000) as i64
    } else {
        m as i64
    }
}

/// Quotient of `x` by `d` rounded towards zero, for `d != 0`.
pub open spec fn truncated_quotient(x: int, d: int) -> int {
    if x >= 0 && d > 0 {
        x / d
    } else if x < 0 && d < 0 {
        (-x) / (-d)
    } else if x < 0 {
        -((-x) / d)
    } else {
        -(x / (-d))
    }
}

/// Remainder of `x` by `d` with the sign of `x`, for `d != 0`.
pub open spec fn truncated_remainder(x: int, d: int) -> int {
    if x >= 0 && d > 0 {
        x % d
    } else if x < 0 && d < 0 {
        -((-x) % (-d))
    } else if x < 0 {
        -((-x) % d)
    } else {
        x % (-d)
    }
}

/// The five binary arithmetic operations of the instruction set.
#[derive(Clone, Copy, Debug, PartialEq, Eq, Structural)]
pub enum Arithmetic {
    Add,
    Sub,
    Mul,
    Div,
    Rem,
}

/// Result of a 32-bit operation: two's complement wrap, division rounded towards zero,
/// failure on a zero divisor.
pub open spec fn int_result(op: Arithmetic, first: i32, second: i32) -> Result<i32, Error> {
    match op {
        Arithmetic::Add => Ok(wrap_int(first + second)),
        Arithmetic::Sub => Ok(wrap_int(first - second)),
        Arithmetic::Mul => Ok(wrap_int(first * second)),
        Arithmetic::Div => if second == 0 {
            Err(Error::ArithmeticError)
        } else {
            Ok(wrap_int(truncated_quotient(first as int, second as int)))
        },
        Arithmetic::Rem => if second == 0 {
            Err(Error::ArithmeticError)
        } else {
            Ok(wrap_int(truncated_remainder(first as int, second as int)))
        },
    }
}

/// Result of a 64-bit operation, by the same rules as `int_result`.
pub open spec fn long_result(op: Arithmetic, first: i64, second: i64) -> Result<i64, Error> {
    match op {
        Arithmetic::Add => Ok(wrap_long(first + second)),
        Arithmetic::Sub => Ok(wrap_long(first - second)),
        Arithmetic::Mul => Ok(wrap_long(first * second)),
        Arithmetic::Div => if second == 0 {
            Err(Error::ArithmeticError)
        } else {
            Ok(wrap_long(truncated_quotient(first as int, second as int)))
        },
        Arithmetic::Rem => if second == 0 {
            Err(Error::ArithmeticError)
        } else {
            Ok(wrap_long(truncated_remainder(first as int, second as int)))
        },
    }
}

/// Sign of `first - second`: -1, 0 or 1.
pub open spec fn sign_of_difference(first: int, second: int) -> i32 {
    if first > second {
        1i32
    } else if first == second {
        0i32
    } else {
        -1i32
    }
}

/// The two topmost items as 32-bit operands, the deeper one first.
pub open spec fn int_operands(stack: Seq<Item>) -> Result<(i32, i32), Error> {
    if stack.len() < 2 {
        Err(Error::StateError(StateError::StackUnderflow))
    } else {
        match (stack[stack.len() - 2], stack[stack.len() - 1]) {
            (Item::Int(first), Item::Int(second)) => Ok((first, second)),
            _ => Err(Error::StateError(StateError::TypeMismatch)),
        }
    }
}

/// The bits of the two topmost items as 32-bit floating-point operands, the deeper one
/// first.
pub open spec fn float_operands(stack: Seq<Item>) -> Result<(u32, u32), Error> {
    if stack.len() < 2 {
        Err(Error::StateError(StateError::StackUnderflow))
    } else {
        match (stack[stack.len() - 2], stack[stack.len() - 1]) {
            (Item::Float(first), Item::Float(second)) => Ok((first, second)),
            _ => Err(Error::StateError(StateError::TypeMismatch)),
        }
    }
}

/// The four topmost items as two 64-bit operands, the deeper one first; of each the
/// upper half lies deeper.
pub open spec fn long_operands(stack: Seq<Item>) -> Result<(i64, i64), Error> {
    if stack.len() < 4 {
        Err(Error::StateError(StateError::StackUnderflow))
    } else {
        match (
            stack[stack.len() - 4],
            stack[stack.len() - 3],
            stack[stack.len() - 2],
            stack[stack.len() - 1],
        ) {
            (
                Item::Long(first_high),
                Item::Long(first_low),
                Item::Long(second_high),
                Item::Long(second_low),
            ) => Ok((long_value(first_high, first_low), long_value(second_high, second_low))),
            _ => Err(Error::StateError(StateError::TypeMismatch)),
        }
    }
}

/// `stack` without its `n` topmost items.
pub open spec fn without_top(stack: Seq<Item>, n: int) -> Seq<Item> {
    stack.subrange(0, stack.len() - n)
}

/// The two slots that hold `value`.
pub open spec fn long_items(value: i64) -> (Item, Item) {
    (Item::Long(high_half(value)), Item::Long(low_half(value)))
}

/// 32-bit operation on a stack: the operands leave, the result is handed out.
pub open spec fn int_binary(op: Arithmetic, stack: Seq<Item>) -> Result<(Seq<Item>, Item), Error> {
    match int_operands(stack) {
        Err(e) => Err(e),
        Ok((first, second)) => match int_result(op, first, second) {
            Err(e) => Err(e),
            Ok(value) => Ok((without_top(stack, 2), Item::Int(value))),
        },
    }
}

/// 64-bit operation on a stack: the operands leave, the two result slots are handed out.
pub open spec fn long_binary(op: Arithmetic, stack: Seq<Item>) -> Result<
    (Seq<Item>, (Item, Item)),
    Error,
> {
    match long_operands(stack) {
        Err(e) => Err(e),
        Ok((first, second)) => match long_result(op, first, second) {
            Err(e) => Err(e),
            Ok(value) => Ok((without_top(stack, 4), long_items(value))),
        },
    }
}

/// Comparison of two 64-bit operands: they leave, the sign of their difference is handed out.
pub open spec fn long_comparison(stack: Seq<Item>) -> Result<(Seq<Item>, Item), Error> {
    match long_operands(stack) {
        Err(e) => Err(e),
        Ok((first, second)) => Ok(
            (without_top(stack, 4), Item::Int(sign_of_difference(first as int, second as int))),
        ),
    }
}

/// Quotient and remainder rounded towards zero stay in a two's complement range that
/// holds the dividend, unless the least number is divided by -1.
pub proof fn lemma_truncated_bounds(x: int, d: int, limit: int)
    requires
        d != 0,
        limit > 0,
        -limit <= x < limit,
    ensures
        d != -1 ==> -limit <= truncated_quotient(x, d) < limit,
        d == -1 ==> truncated_quotient(x, d) == -x,
        -limit <= truncated_remainder(x, d) < limit,
        d == -1 ==> truncated_remainder(x, d) == 0,
{
    let ax = if x >= 0 { x } else { -x };
    let ad = if d > 0 { d } else { -d };
    assert(0 <= ax / ad <= ax) by (nonlinear_arith)
        requires
            ax >= 0,
            ad > 0,
    ;
    assert(0 <= ax % ad <= ax && ax % ad < ad) by (nonlinear_arith)
        requires
            ax >= 0,
            ad > 0,
    ;
    assert(ad == 1 ==> ax / ad == ax) by (nonlinear_arith)
        requires
            ax >= 0,
            ad > 0,
    ;
    assert(ad >= 2 && ax > 0 ==> ax / ad < ax) by (nonlinear_arith)
        requires
            ax >= 0,
            ad > 0,
    ;
}

/// A number inside the 32-bit range wraps to itself.
pub proof fn lemma_wrap_int_identity(v: int)
    requires
        i32::MIN <= v <= i32::MAX,
    ensures
        wrap_int(v) == v,
{
}

/// A number inside the 64-bit range wraps to itself.
pub proof fn lemma_wrap_long_identity(v: int)
    requires
        i64::MIN <= v <= i64::MAX,
    ensures
        wrap_long(v) == v,
{
}

/// Quotient of two 32-bit numbers, rounded towards zero and wrapped.
fn int_quotient(first: i32, second: i32) -> (v: i32)
    requires
        second != 0,
    ensures
        v == wrap_int(truncated_quotient(first as int, second as int)),
{
    proof {
        lemma_truncated_bounds(first as int, second as int, 0x8000_0000);
    }
    if second == -1 {
        0i32.wrapping_sub(first)
    } else {
        proof {
            lemma_wrap_int_identity(truncated_quotient(first as int, second as int));
        }
        match first.checked_div(second) {
            Some(v) => v,
            None => 0,
        }
    }
}

/// Remainder of two 32-bit numbers, with the sign of the dividend.
fn int_remainder(first: i32, second: i32) -> (v: i32)
    requires
        second != 0,
    ensures
        v == wrap_int(truncated_remainder(first as int, second as int)),
{
    proof {
        lemma_truncated_bounds(first as int, second as int, 0x8000_0000);
        lemma_wrap_int_identity(truncated_remainder(first as int, second as int));
    }
    if second == -1 {
        0
    } else {
        match first.checked_rem(second) {
            Some(v) => v,
            None => 0,
        }
    }
}

/// Quotient of two 64-bit numbers, rounded towards zero and wrapped.
fn long_quotient(first: i64, second: i64) -> (v: i64)
    requires
        second != 0,
    ensures
        v == wrap_long(truncated_quotient(first as int, second as int)),
{
    proof {
        lemma_truncated_bounds(first as int, second as int, 0x8000_0000_0000_0000);
    }
    if second == -1 {
        0i64.wrapping_sub(first)
    } else {
        proof {
            lemma_wrap_long_identity(truncated_quotient(first as int, second as int));
        }
        match first.checked_div(second) {
            Some(v) => v,
            None => 0,
        }
    }
}

/// Remainder of two 64-bit numbers, with the sign of the dividend.
fn long_remainder(first: i64, second: i64) -> (v: i64)
    requires
        second != 0,
    ensures
        v == wrap_long(truncated_remainder(first as int, second as int)),
{
    proof {
        lemma_truncated_bounds(first as int, second as int, 0x8000_0000_0000_0000);
        lemma_wrap_long_identity(truncated_remainder(first as int, second as int));
    }
    if second == -1 {
        0
    } else {
        match first.checked_rem(second) {
            Some(v) => v,
            None => 0,
        }
    }
}

/// Computes `int_result`.
pub fn compute_int(op: Arithmetic, first: i32, second: i32) -> (r: Result<i32, Error>)
    ensures
        r == int_result(op, first, second),
{
    match op {
        Arithmetic::Add => Ok(first.wrapping_add(second)),
        Arithmetic::Sub => Ok(first.wrapping_sub(second)),
        Arithmetic::Mul => Ok(first.wrapping_mul(second)),
        Arithmetic::Div => {
            if second == 0 {
                Err(Error::ArithmeticError)
            } else {
                Ok(int_quotient(first, second))
            }
        },
        Arithmetic::Rem => {
            if second == 0 {
                Err(Error::ArithmeticError)
            } else {
                Ok(int_remainder(first, second))
            }
        },
    }
}

/// Computes `long_result`.
pub fn compute_long(op: Arithmetic, first: i64, second: i64) -> (r: Result<i64, Error>)
    ensures
        r == long_result(op, first, second),
{
    match op {
        Arithmetic::Add => Ok(first.wrapping_add(second)),
        Arithmetic::Sub => Ok(first.wrapping_sub(second)),
        Arithmetic::Mul => Ok(first.wrapping_mul(second)),
        Arithmetic::Div => {
            if second == 0 {
                Err(Error::ArithmeticError)
            } else {
                Ok(long_quotient(first, second))
            }
        },
        Arithmetic::Rem => {
            if second == 0 {
                Err(Error::ArithmeticError)
            } else {
                Ok(long_remainder(first, second))
            }
        },
    }
}

/// The LIFO of items that instructions pass values through. The last element is the top.
#[derive(Debug)]
pub struct OperandStack {
    pub stack: Vec<Item>,
}

impl View for OperandStack {
    type V = Seq<Item>;

    open spec fn view(&self) -> Seq<Item> {
        self.stack@
    }
}

impl OperandStack {
    /// An empty stack.
    pub fn new() -> (r: Self)
        ensures
            r@ == Seq::<Item>::empty(),
    {
        OperandStack { stack: Vec::new() }
    }

    /// Removes the two topmost items, which must be `Int`, and hands them out, the deeper
    /// one first. On failure the stack is unchanged.
    pub fn extract_int_values(&mut self) -> (r: Result<(i32, i32), Error>)
        ensures
            r == int_operands(old(self)@),
            r is Ok ==> final(self)@ == without_top(old(self)@, 2),
            r is Err ==> final(self)@ == old(self)@,
    {
        let n = self.stack.len();
        if n < 2 {
            return Err(Error::StateError(StateError::StackUnderflow));
        }
        match (self.stack[n - 2], self.stack[n - 1]) {
            (Item::Int(first), Item::Int(second)) => {
                self.stack.truncate(n - 2);
                Ok((first, second))
            },
            _ => Err(Error::StateError(StateError::TypeMismatch)),
        }
    }

    /// Removes the two topmost items, which must be `Float`, and hands out their bits, the
    /// deeper one first. On failure the stack is unchanged.
    pub fn extract_float_values(&mut self) -> (r: Result<(u32, u32), Error>)
        ensures
            r == float_operands(old(self)@),
            r is Ok ==> final(self)@ == without_top(old(self)@, 2),
            r is Err ==> final(self)@ == old(self)@,
    {
        let n = self.stack.len();
        if n < 2 {
            return Err(Error::StateError(StateError::StackUnderflow));
        }
        match (self.stack[n - 2], self.stack[n - 1]) {
            (Item::Float(first), Item::Float(second)) => {
                self.stack.truncate(n - 2);
                Ok((first, second))
            },
            _ => Err(Error::StateError(StateError::TypeMismatch)),
        }
    }

    /// Removes the four topmost items, which must be `Long`, and hands out the two 64-bit
    /// values they hold, the deeper one first. On failure the stack is unchanged.
    pub fn extract_long_values_as_i64(&mut self) -> (r: Result<(i64, i64), Error>)
        ensures
            r == long_operands(old(self)@),
            r is Ok ==> final(self)@ == without_top(old(self)@, 4),
            r is Err ==> final(self)@ == old(self)@,
    {
        let n = self.stack.len();
        if n < 4 {
            return Err(Error::StateError(StateError::StackUnderflow));
        }
        match (self.stack[n - 4], self.stack[n - 3], self.stack[n - 2], self.stack[n - 1]) {
            (
                Item::Long(first_high),
                Item::Long(first_low),
                Item::Long(second_high),
                Item::Long(second_low),
            ) => {
                self.stack.truncate(n - 4);
                Ok((join_long(first_high, first_low), join_long(second_high, second_low)))
            },
            _ => Err(Error::StateError(StateError::TypeMismatch)),
        }
    }

    /// Pops two `Int` operands and hands out the result of `op` on them. On failure the
    /// stack is unchanged.
    pub fn int_operation(&mut self, op: Arithmetic) -> (r: Result<Item, Error>)
        ensures
            match r {
                Ok(item) => int_binary(op, old(self)@) == Ok::<(Seq<Item>, Item), Error>(
                    (final(self)@, item),
                ),
                Err(e) => int_binary(op, old(self)@) == Err::<(Seq<Item>, Item), Error>(e)
                    && final(self)@ == old(self)@,
            },
    {
        let n = self.stack.len();
        if n < 2 {
            return Err(Error::StateError(StateError::StackUnderflow));
        }
        match (self.stack[n - 2], self.stack[n - 1]) {
            (Item::Int(first), Item::Int(second)) => {
                let value = compute_int(op, first, second)?;
                self.stack.truncate(n - 2);
                Ok(Item::Int(value))
            },
            _ => Err(Error::StateError(StateError::TypeMismatch)),
        }
    }

    /// Pops two `Long` operands and hands out the two slots of the result of `op` on them,
    /// the upper half first. On failure the stack is unchanged.
    pub fn long_operation(&mut self, op: Arithmetic) -> (r: Result<(Item, Item), Error>)
        ensures
            match r {
                Ok(items) => long_binary(op, old(self)@) == Ok::<
                    (Seq<Item>, (Item, Item)),
                    Error,
                >((final(self)@, items)),
                Err(e) => long_binary(op, old(self)@) == Err::<(Seq<Item>, (Item, Item)), Error>(
                    e,
                ) && final(self)@ == old(self)@,
            },
    {
        let n = self.stack.len();
        if n < 4 {
            return Err(Error::StateError(StateError::StackUnderflow));
        }
        match (self.stack[n - 4], self.stack[n - 3], self.stack[n - 2], self.stack[n - 1]) {
            (
                Item::Long(first_high),
                Item::Long(first_low),
                Item::Long(second_high),
                Item::Long(second_low),
            ) => {
                let first = join_long(first_high, first_low);
                let second = join_long(second_high, second_low);
                let value = compute_long(op, first, second)?;
                self.stack.truncate(n - 4);
                let (high, low) = split_long(value);
                Ok((Item::Long(high), Item::Long(low)))
            },
            _ => Err(Error::StateError(StateError::TypeMismatch)),
        }
    }

    /// Pops two `Int`, hands out their wrapped sum.
    pub fn iadd(&mut self) -> (r: Result<Item, Error>)
        ensures
            match r {
                Ok(item) => int_binary(Arithmetic::Add, old(self)@) == Ok::<
                    (Seq<Item>, Item),
                    Error,
                >((final(self)@, item)),
                Err(e) => int_binary(Arithmetic::Add, old(self)@) == Err::<
                    (Seq<Item>, Item),
                    Error,
                >(e) && final(self)@ == old(self)@,
            },
    {
        self.int_operation(Arithmetic::Add)
    }

    /// Pops two `Int`, hands out their wrapped difference.
    pub fn isub(&mut self) -> (r: Result<Item, Error>)
        ensures
            match r {
                Ok(item) => int_binary(Arithmetic::Sub, old(self)@) == Ok::<
                    (Seq<Item>, Item),
                    Error,
                >((final(self)@, item)),
                Err(e) => int_binary(Arithmetic::Sub, old(self)@) == Err::<
                    (Seq<Item>, Item),
                    Error,
                >(e) && final(self)@ == old(self)@,
            },
    {
        self.int_operation(Arithmetic::Sub)
    }

    /// Pops two `Int`, hands out their wrapped product.
    pub fn imul(&mut self) -> (r: Result<Item, Error>)
        ensures
            match r {
                Ok(item) => int_binary(Arithmetic::Mul, old(self)@) == Ok::<
                    (Seq<Item>, Item),
                    Error,
                >((final(self)@, item)),
                Err(e) => int_binary(Arithmetic::Mul, old(self)@) == Err::<
                    (Seq<Item>, Item),
                    Error,
                >(e) && final(self)@ == old(self)@,
            },
    {
        self.int_operation(Arithmetic::Mul)
    }

    /// Pops two `Int`, hands out their quotient; fails on a zero divisor.
    pub fn idiv(&mut self) -> (r: Result<Item, Error>)
        ensures
            match r {
                Ok(item) => int_binary(Arithmetic::Div, old(self)@) == Ok::<
                    (Seq<Item>, Item),
                    Error,
                >((final(self)@, item)),
                Err(e) => int_binary(Arithmetic::Div, old(self)@) == Err::<
                    (Seq<Item>, Item),
                    Error,
                >(e) && final(self)@ == old(self)@,
            },
    {
        self.int_operation(Arithmetic::Div)
    }

    /// Pops two `Int`, hands out their remainder; fails on a zero divisor.
    pub fn irem(&mut self) -> (r: Result<Item, Error>)
        ensures
            match r {
                Ok(item) => int_binary(Arithmetic::Rem, old(self)@) == Ok::<
                    (Seq<Item>, Item),
                    Error,
                >((final(self)@, item)),
                Err(e) => int_binary(Arithmetic::Rem, old(self)@) == Err::<
                    (Seq<Item>, Item),
                    Error,
                >(e) && final(self)@ == old(self)@,
            },
    {
        self.int_operation(Arithmetic::Rem)
    }

    /// Pops two `Long`, hands out the slots of their wrapped sum.
    pub fn ladd(&mut self) -> (r: Result<(Item, Item), Error>)
        ensures
            match r {
                Ok(items) => long_binary(Arithmetic::Add, old(self)@) == Ok::<
                    (Seq<Item>, (Item, Item)),
                    Error,
                >((final(self)@, items)),
                Err(e) => long_binary(Arithmetic::Add, old(self)@) == Err::<
                    (Seq<Item>, (Item, Item)),
                    Error,
                >(e) && final(self)@ == old(self)@,
            },
    {
        self.long_operation(Arithmetic::Add)
    }

    /// Pops two `Long`, hands out the slots of their wrapped difference.
    pub fn lsub(&mut self) -> (r: Result<(Item, Item), Error>)
        ensures
            match r {
                Ok(items) => long_binary(Arithmetic::Sub, old(self)@) == Ok::<
                    (Seq<Item>, (Item, Item)),
                    Error,
                >((final(self)@, items)),
                Err(e) => long_binary(Arithmetic::Sub, old(self)@) == Err::<
                    (Seq<Item>, (Item, Item)),
                    Error,
                >(e) && final(self)@ == old(self)@,
            },
    {
        self.long_operation(Arithmetic::Sub)
    }

    /// Pops two `Long`, hands out the slots of their wrapped product.
    pub fn lmul(&mut self) -> (r: Result<(Item, Item), Error>)
        ensures
            match r {
                Ok(items) => long_binary(Arithmetic::Mul, old(self)@) == Ok::<
                    (Seq<Item>, (Item, Item)),
                    Error,
                >((final(self)@, items)),
                Err(e) => long_binary(Arithmetic::Mul, old(self)@) == Err::<
                    (Seq<Item>, (Item, Item)),
                    Error,
                >(e) && final(self)@ == old(self)@,
            },
    {
        self.long_operation(Arithmetic::Mul)
    }

    /// Pops two `Long`, hands out the slots of their quotient; fails on a zero divisor.
    pub fn ldiv(&mut self) -> (r: Result<(Item, Item), Error>)
        ensures
            match r {
                Ok(items) => long_binary(Arithmetic::Div, old(self)@) == Ok::<
                    (Seq<Item>, (Item, Item)),
                    Error,
                >((final(self)@, items)),
                Err(e) => long_binary(Arithmetic::Div, old(self)@) == Err::<
                    (Seq<Item>, (Item, Item)),
                    Error,
                >(e) && final(self)@ == old(self)@,
            },
    {
        self.long_operation(Arithmetic::Div)
    }

    /// Pops two `Long`, hands out the slots of their remainder; fails on a zero divisor.
    pub fn lrem(&mut self) -> (r: Result<(Item, Item), Error>)
        ensures
            match r {
                Ok(items) => long_binary(Arithmetic::Rem, old(self)@) == Ok::<
                    (Seq<Item>, (Item, Item)),
                    Error,
                >((final(self)@, items)),
                Err(e) => long_binary(Arithmetic::Rem, old(self)@) == Err::<
                    (Seq<Item>, (Item, Item)),
                    Error,
                >(e) && final(self)@ == old(self)@,
            },
    {
        self.long_operation(Arithmetic::Rem)
    }

    /// Pops two `Long`, hands out `Int` -1, 0 or 1 as the first is below, equal to or above
    /// the second.
    pub fn lcmp(&mut self) -> (r: Result<Item, Error>)
        ensures
            match r {
                Ok(item) => long_comparison(old(self)@) == Ok::<(Seq<Item>, Item), Error>(
                    (final(self)@, item),
                ),
                Err(e) => long_comparison(old(self)@) == Err::<(Seq<Item>, Item), Error>(e)
                    && final(self)@ == old(self)@,
            },
    {
        self.compare_longs()
    }

    /// Pops two `Long`, hands out `Int` -1, 0 or 1 as the first is below, equal to or above
    /// the second. On failure the stack is unchanged.
    pub fn compare_longs(&mut self) -> (r: Result<Item, Error>)
        ensures
            match r {
                Ok(item) => long_comparison(old(self)@) == Ok::<(Seq<Item>, Item), Error>(
                    (final(self)@, item),
                ),
                Err(e) => long_comparison(old(self)@) == Err::<(Seq<Item>, Item), Error>(e)
                    && final(self)@ == old(self)@,
            },
    {
        let (first, second) = self.extract_long_values_as_i64()?;
        Ok(self.compare_value(first, second))
    }

    /// `Int` -1, 0 or 1 as `first` is below, equal to or above `second`.
    pub fn compare_value(&self, first: i64, second: i64) -> (r: Item)
        ensures
            r == Item::Int(sign_of_difference(first as int, second as int)),
    {
        if first > second {
            Item::Int(1)
        } else if first == second {
            Item::Int(0)
        } else {
            Item::Int(-1)
        }
    }
}

/// A 32-bit number of bits as an index.
pub open spec fn word_index(bits: u32) -> usize {
    bits as usize
}

/// Computes `word_index`.
pub fn word_as_index(bits: u32) -> (r: usize)
    ensures
        r == word_index(bits),
{
    bits as usize
}

/// The text that shows `item`: its kind and what it holds; of a floating-point number
/// its bits.
pub open spec fn item_text(item: Item) -> Seq<char> {
    match item {
        Item::Null => "null"@,
        Item::Int(val) => "int: "@ + signed_text(val),
        Item::Long(val) => "long: "@ + number_text(word_index(val)),
        Item::Float(val) => "float: "@ + number_text(word_index(val)),
        Item::Double(val) => "double: "@ + number_text(word_index(val)),
        Item::Boolean(val) => if val {
            "boolean: true"@
        } else {
            "boolean: false"@
        },
        Item::String(val) => "string: "@ + number_text(val),
        Item::Classref(val) => "class_ref: "@ + number_text(val),
        Item::Fieldref(val) => "field_ref: "@ + number_text(val),
        Item::Objectref(val) => "object_ref: "@ + number_text(val),
        Item::Arrayref(val) => "array_ref "@ + number_text(val),
    }
}

impl Item {
    /// The text that shows the item.
    pub fn to_string(&self) -> (r: String)
        ensures
            r@ == item_text(*self),
    {
        match self {
            Item::Null => plain("null"),
            Item::Int(val) => with_number("int: ", *val),
            Item::Long(val) => with_index("long: ", word_as_index(*val)),
            Item::Float(val) => with_index("float: ", word_as_index(*val)),
            Item::Double(val) => with_index("double: ", word_as_index(*val)),
            Item::Boolean(val) => {
                if *val {
                    plain("boolean: true")
                } else {
                    plain("boolean: false")
                }
            },
            Item::String(val) => with_index("string: ", *val),
            Item::Classref(val) => with_index("class_ref: ", *val),
            Item::Fieldref(val) => with_index("field_ref: ", *val),
            Item::Objectref(val) => with_index("object_ref: ", *val),
            Item::Arrayref(val) => with_index("array_ref ", *val),
        }
    }
}

/// The lines that show the items of `stack` from the place `from` on, added to `text`:
/// for each item its place and its text.
pub open spec fn item_lines_from(stack: Seq<Item>, text: Seq<char>, from: int) -> Seq<char>
    decreases stack.len() - from,
{
    if from < 0 || from >= stack.len() {
        text
    } else {
        item_lines_from(
            stack,
            text + "#"@ + number_text(from as usize) + " "@ + item_text(stack[from]) + "\n"@,
            from + 1,
        )
    }
}

/// The text that shows an operand stack: its height, and a line for each item from the
/// deepest to the topmost.
pub open spec fn stack_text(stack: Seq<Item>) -> Seq<char> {
    item_lines_from(
        stack,
        "length: "@ + number_text(stack.len() as usize) + "\nitem ====================\n"@,
        0,
    ) + "========================"@
}

impl OperandStack {
    /// The text that shows the stack.
    pub fn to_string(&self) -> (r: String)
        ensures
            r@ == stack_text(self@),
    {
        let mut text = with_index("length: ", self.stack.len());
        text.append("\nitem ====================\n");
        let ghost head = text@;
        let mut i: usize = 0;
        while i < self.stack.len()
            invariant
                i <= self@.len(),
                item_lines_from(self@, head, 0) == item_lines_from(self@, text@, i as int),
            decreases self@.len() - i,
        {
            let ghost before = text@;
            text.append("#");
            push_index(&mut text, i);
            text.append(" ");
            let shown = self.stack[i].to_string();
            text.append(shown.as_str());
            text.append("\n");
            assert(text@ =~= before + "#"@ + number_text(i) + " "@ + item_text(self@[i as int])
                + "\n"@);
            i += 1;
        }
        text.append("========================");
        text
    }
}

} // verus!
