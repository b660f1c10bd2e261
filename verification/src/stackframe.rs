//! Frames: the local variables and the operand stack of one invocation, and what the
//! instructions that touch nothing else do to them.

use vstd::prelude::*;
use crate::attribute::instruction::{operand_bytes, Instruction};
use crate::error::{Error, StateError};
use crate::operand::{
    int_binary, long_binary, long_comparison, without_top, wrap_int, Arithmetic, Item,
    OperandStack,
};

verus! {

/// The state of one invocation: its local variables, its operand stack, the method that
/// runs (by the name id of its class and its place among the methods of that class), and
/// the entry of the code array that is executed next.
#[derive(Debug)]
pub struct Stackframe {
    pub local_variables: Vec<Item>,
    pub operand_stack: OperandStack,
    pub class_name_id: usize,
    pub method_index: usize,
    pub cursor: usize,
}

/// A frame with its lists as sequences.
pub struct FrameView {
    pub locals: Seq<Item>,
    pub stack: Seq<Item>,
    pub class_name_id: usize,
    pub method_index: usize,
    pub cursor: usize,
}

impl View for Stackframe {
    type V = FrameView;

    open spec fn view(&self) -> FrameView {
        FrameView {
            locals: self.local_variables@,
            stack: self.operand_stack@,
            class_name_id: self.class_name_id,
            method_index: self.method_index,
            cursor: self.cursor,
        }
    }
}

/// The view of each frame.
pub open spec fn frames_view(frames: Seq<Stackframe>) -> Seq<FrameView> {
    Seq::new(frames.len(), |i: int| frames[i]@)
}

/// The six comparisons of the branch instructions.
#[derive(Clone, Copy, Debug, PartialEq, Eq, Structural)]
pub enum Comparison {
    Equal,
    NotEqual,
    Less,
    GreaterOrEqual,
    Greater,
    LessOrEqual,
}

/// Whether `first` stands in the relation `comparison` to `second`.
pub open spec fn holds(comparison: Comparison, first: i32, second: i32) -> bool {
    match comparison {
        Comparison::Equal => first == second,
        Comparison::NotEqual => first != second,
        Comparison::Less => first < second,
        Comparison::GreaterOrEqual => first >= second,
        Comparison::Greater => first > second,
        Comparison::LessOrEqual => first <= second,
    }
}

/// Computes `holds`.
pub fn compare(comparison: Comparison, first: i32, second: i32) -> (r: bool)
    ensures
        r == holds(comparison, first, second),
{
    match comparison {
        Comparison::Equal => first == second,
        Comparison::NotEqual => first != second,
        Comparison::Less => first < second,
        Comparison::GreaterOrEqual => first >= second,
        Comparison::Greater => first > second,
        Comparison::LessOrEqual => first <= second,
    }
}

/// The number that a branch compares: that of an `Int`, or 0 and 1 for the two booleans.
pub open spec fn number_of(item: Item) -> Option<i32> {
    match item {
        Item::Int(value) => Some(value),
        Item::Boolean(value) => Some(
            if value {
                1i32
            } else {
                0i32
            },
        ),
        _ => None,
    }
}

/// Computes `number_of`.
pub fn number(item: Item) -> (r: Option<i32>)
    ensures
        r == number_of(item),
{
    match item {
        Item::Int(value) => Some(value),
        Item::Boolean(value) => Some(
            if value {
                1
            } else {
                0
            },
        ),
        _ => None,
    }
}

/// Where execution goes on after the instruction at `index` that does not branch: at
/// the last entry of its own encoding, so that the entry behind it comes next.
pub open spec fn following(index: usize, instruction: &Instruction) -> usize {
    if index + operand_bytes(instruction) > usize::MAX {
        usize::MAX
    } else {
        (index + operand_bytes(instruction)) as usize
    }
}

/// Computes `following` for an instruction that is no switch.
pub fn advance(index: usize, instruction: &Instruction) -> (r: usize)
    requires
        !(instruction is Lookupswitch),
    ensures
        r == following(index, instruction),
{
    index.saturating_add(instruction.counsume_index())
}

/// The target of the first pair of `table`, from place `from` on, whose key is `key`.
pub open spec fn case_from(table: Seq<(Option<i32>, usize)>, key: i32, from: int) -> Option<usize>
    decreases table.len() - from,
{
    if from < 0 || from >= table.len() {
        None
    } else if table[from].0 == Some(key) {
        Some(table[from].1)
    } else {
        case_from(table, key, from + 1)
    }
}

/// Where a switch with `table` goes on for `key`: at the target of the first pair with
/// that key, or else at the default target, which the first entry holds.
pub open spec fn switch_choice(table: Seq<(Option<i32>, usize)>, key: i32) -> Option<usize> {
    if table.len() == 0 {
        None
    } else {
        match case_from(table, key, 0) {
            Some(target) => Some(target),
            None => Some(table[0].1),
        }
    }
}

/// Computes `switch_choice`.
pub fn choose_case(table: &Vec<(Option<i32>, usize)>, key: i32) -> (r: Option<usize>)
    ensures
        r == switch_choice(table@, key),
{
    if table.len() == 0 {
        return None;
    }
    let mut i: usize = 0;
    while i < table.len()
        invariant
            i <= table@.len(),
            case_from(table@, key, 0) == case_from(table@, key, i as int),
        decreases table@.len() - i,
    {
        let (candidate, target) = table[i];
        match candidate {
            Some(value) => {
                if value == key {
                    return Some(target);
                }
            },
            None => {},
        }
        i += 1;
    }
    Some(table[0].1)
}

/// What an instruction makes of a frame: its local variables, its operand stack, and the
/// entry behind which execution goes on.
pub type Effect = Result<(Seq<Item>, Seq<Item>, usize), Error>;

/// The failure for a stack that holds fewer items than an instruction pops.
pub open spec fn underflow() -> Error {
    Error::StateError(StateError::StackUnderflow)
}

/// The failure for an operand of the wrong variant.
pub open spec fn mismatch() -> Error {
    Error::StateError(StateError::TypeMismatch)
}

/// Pushing `item`.
pub open spec fn push_effect(
    locals: Seq<Item>,
    stack: Seq<Item>,
    item: Item,
    next: usize,
) -> Effect {
    Ok((locals, stack.push(item), next))
}

/// Pushing the local variable `place`.
pub open spec fn load_effect(
    locals: Seq<Item>,
    stack: Seq<Item>,
    place: usize,
    next: usize,
) -> Effect {
    if place < locals.len() {
        Ok((locals, stack.push(locals[place as int]), next))
    } else {
        Err(Error::StateError(StateError::LocalOutOfRange(place)))
    }
}

/// Pushing the two local variables at `place`, which hold a 64-bit value.
pub open spec fn load_wide_effect(
    locals: Seq<Item>,
    stack: Seq<Item>,
    place: usize,
    next: usize,
) -> Effect {
    if place + 1 < locals.len() {
        Ok((locals, stack.push(locals[place as int]).push(locals[place + 1]), next))
    } else {
        Err(Error::StateError(StateError::LocalOutOfRange(place)))
    }
}

/// Popping one item into the local variable `place`.
pub open spec fn store_effect(
    locals: Seq<Item>,
    stack: Seq<Item>,
    place: usize,
    next: usize,
) -> Effect {
    if stack.len() < 1 {
        Err(underflow())
    } else if place >= locals.len() {
        Err(Error::StateError(StateError::LocalOutOfRange(place)))
    } else {
        Ok((locals.update(place as int, stack.last()), stack.drop_last(), next))
    }
}

/// Popping the two slots of a 64-bit value into the two local variables at `place`.
pub open spec fn store_wide_effect(
    locals: Seq<Item>,
    stack: Seq<Item>,
    place: usize,
    next: usize,
) -> Effect {
    if stack.len() < 2 {
        Err(underflow())
    } else if place + 1 >= locals.len() {
        Err(Error::StateError(StateError::LocalOutOfRange(place)))
    } else {
        Ok(
            (
                locals.update(place as int, stack[stack.len() - 2]).update(
                    place + 1,
                    stack[stack.len() - 1],
                ),
                without_top(stack, 2),
                next,
            ),
        )
    }
}

/// A 32-bit operation: two operands leave, the result comes.
pub open spec fn int_effect(
    locals: Seq<Item>,
    stack: Seq<Item>,
    op: Arithmetic,
    next: usize,
) -> Effect {
    match int_binary(op, stack) {
        Err(e) => Err(e),
        Ok((rest, item)) => Ok((locals, rest.push(item), next)),
    }
}

/// A 64-bit operation: four slots leave, the two slots of the result come.
pub open spec fn long_effect(
    locals: Seq<Item>,
    stack: Seq<Item>,
    op: Arithmetic,
    next: usize,
) -> Effect {
    match long_binary(op, stack) {
        Err(e) => Err(e),
        Ok((rest, items)) => Ok((locals, rest.push(items.0).push(items.1), next)),
    }
}

/// The comparison of two 64-bit values: four slots leave, the sign comes.
pub open spec fn long_comparison_effect(
    locals: Seq<Item>,
    stack: Seq<Item>,
    next: usize,
) -> Effect {
    match long_comparison(stack) {
        Err(e) => Err(e),
        Ok((rest, item)) => Ok((locals, rest.push(item), next)),
    }
}

/// Adding `amount` to the `Int` in the local variable `place`.
pub open spec fn increment_effect(
    locals: Seq<Item>,
    stack: Seq<Item>,
    place: usize,
    amount: i32,
    next: usize,
) -> Effect {
    if place >= locals.len() {
        Err(Error::StateError(StateError::LocalOutOfRange(place)))
    } else {
        match locals[place as int] {
            Item::Int(value) => Ok(
                (locals.update(place as int, Item::Int(wrap_int(value + amount))), stack, next),
            ),
            _ => Err(mismatch()),
        }
    }
}

/// A branch on the topmost item against zero.
pub open spec fn branch_effect(
    locals: Seq<Item>,
    stack: Seq<Item>,
    comparison: Comparison,
    taken: usize,
    other: usize,
) -> Effect {
    if stack.len() < 1 {
        Err(underflow())
    } else {
        match number_of(stack.last()) {
            None => Err(mismatch()),
            Some(value) => Ok(
                (
                    locals,
                    stack.drop_last(),
                    if holds(comparison, value, 0) {
                        taken
                    } else {
                        other
                    },
                ),
            ),
        }
    }
}

/// A branch on the two topmost items, the deeper one first.
pub open spec fn branch_pair_effect(
    locals: Seq<Item>,
    stack: Seq<Item>,
    comparison: Comparison,
    taken: usize,
    other: usize,
) -> Effect {
    if stack.len() < 2 {
        Err(underflow())
    } else {
        match (number_of(stack[stack.len() - 2]), number_of(stack[stack.len() - 1])) {
            (Some(first), Some(second)) => Ok(
                (
                    locals,
                    without_top(stack, 2),
                    if holds(comparison, first, second) {
                        taken
                    } else {
                        other
                    },
                ),
            ),
            _ => Err(mismatch()),
        }
    }
}

/// A switch on the topmost item.
pub open spec fn switch_effect(
    locals: Seq<Item>,
    stack: Seq<Item>,
    table: Seq<(Option<i32>, usize)>,
) -> Effect {
    if stack.len() < 1 {
        Err(underflow())
    } else {
        match stack.last() {
            Item::Int(key) => match switch_choice(table, key) {
                Some(target) => Ok((locals, stack.drop_last(), target)),
                None => Err(Error::InternalError),
            },
            _ => Err(mismatch()),
        }
    }
}

/// Dropping the topmost item.
pub open spec fn pop_effect(locals: Seq<Item>, stack: Seq<Item>, next: usize) -> Effect {
    if stack.len() < 1 {
        Err(underflow())
    } else {
        Ok((locals, stack.drop_last(), next))
    }
}

/// Pushing the topmost item once more.
pub open spec fn dup_effect(locals: Seq<Item>, stack: Seq<Item>, next: usize) -> Effect {
    if stack.len() < 1 {
        Err(underflow())
    } else {
        Ok((locals, stack.push(stack.last()), next))
    }
}

/// What `instruction`, found at entry `index`, makes of a frame with the local variables
/// `locals` and the operand stack `stack`, if it is one of the instructions that touch
/// nothing but the frame.
pub open spec fn local_effect(
    instruction: &Instruction,
    locals: Seq<Item>,
    stack: Seq<Item>,
    index: usize,
) -> Option<Effect> {
    let next = following(index, instruction);
    match instruction {
        Instruction::IconstN(value) => Some(push_effect(locals, stack, Item::Int(*value), next)),
        Instruction::Bipush(value) => Some(push_effect(locals, stack, Item::Int(*value), next)),
        Instruction::Sipush(value) => Some(push_effect(locals, stack, Item::Int(*value), next)),
        Instruction::LconstN(value) => Some(
            Ok((locals, stack.push(Item::Long(0)).push(Item::Long(low_word(*value))), next)),
        ),
        Instruction::Iload(place) => Some(load_effect(locals, stack, *place, next)),
        Instruction::IloadN(place) => Some(load_effect(locals, stack, *place, next)),
        Instruction::Aload(place) => Some(load_effect(locals, stack, *place, next)),
        Instruction::AloadN(place) => Some(load_effect(locals, stack, *place, next)),
        Instruction::LloadN(place) => Some(load_wide_effect(locals, stack, *place, next)),
        Instruction::Istore(place) => Some(store_effect(locals, stack, *place, next)),
        Instruction::IstoreN(place) => Some(store_effect(locals, stack, *place, next)),
        Instruction::Astore(place) => Some(store_effect(locals, stack, *place, next)),
        Instruction::AstoreN(place) => Some(store_effect(locals, stack, *place, next)),
        Instruction::LstoreN(place) => Some(store_wide_effect(locals, stack, *place, next)),
        Instruction::Pop => Some(pop_effect(locals, stack, next)),
        Instruction::Dup => Some(dup_effect(locals, stack, next)),
        Instruction::Iadd => Some(int_effect(locals, stack, Arithmetic::Add, next)),
        Instruction::Isub => Some(int_effect(locals, stack, Arithmetic::Sub, next)),
        Instruction::Imul => Some(int_effect(locals, stack, Arithmetic::Mul, next)),
        Instruction::Idiv => Some(int_effect(locals, stack, Arithmetic::Div, next)),
        Instruction::Irem => Some(int_effect(locals, stack, Arithmetic::Rem, next)),
        Instruction::Ladd => Some(long_effect(locals, stack, Arithmetic::Add, next)),
        Instruction::Lsub => Some(long_effect(locals, stack, Arithmetic::Sub, next)),
        Instruction::Lmul => Some(long_effect(locals, stack, Arithmetic::Mul, next)),
        Instruction::Ldiv => Some(long_effect(locals, stack, Arithmetic::Div, next)),
        Instruction::Lrem => Some(long_effect(locals, stack, Arithmetic::Rem, next)),
        Instruction::Iinc(place, amount) => Some(
            increment_effect(locals, stack, *place, *amount, next),
        ),
        Instruction::Lcmp => Some(long_comparison_effect(locals, stack, next)),
        Instruction::Ifeq(taken, other) => Some(
            branch_effect(locals, stack, Comparison::Equal, *taken, *other),
        ),
        Instruction::Ifne(taken, other) => Some(
            branch_effect(locals, stack, Comparison::NotEqual, *taken, *other),
        ),
        Instruction::Iflt(taken, other) => Some(
            branch_effect(locals, stack, Comparison::Less, *taken, *other),
        ),
        Instruction::Ifge(taken, other) => Some(
            branch_effect(locals, stack, Comparison::GreaterOrEqual, *taken, *other),
        ),
        Instruction::Ifgt(taken, other) => Some(
            branch_effect(locals, stack, Comparison::Greater, *taken, *other),
        ),
        Instruction::Ifle(taken, other) => Some(
            branch_effect(locals, stack, Comparison::LessOrEqual, *taken, *other),
        ),
        Instruction::Ificmpeq(taken, other) => Some(
            branch_pair_effect(locals, stack, Comparison::Equal, *taken, *other),
        ),
        Instruction::Ificmpne(taken, other) => Some(
            branch_pair_effect(locals, stack, Comparison::NotEqual, *taken, *other),
        ),
        Instruction::Ificmplt(taken, other) => Some(
            branch_pair_effect(locals, stack, Comparison::Less, *taken, *other),
        ),
        Instruction::Ificmpge(taken, other) => Some(
            branch_pair_effect(locals, stack, Comparison::GreaterOrEqual, *taken, *other),
        ),
        Instruction::Ificmpgt(taken, other) => Some(
            branch_pair_effect(locals, stack, Comparison::Greater, *taken, *other),
        ),
        Instruction::Ificmple(taken, other) => Some(
            branch_pair_effect(locals, stack, Comparison::LessOrEqual, *taken, *other),
        ),
        Instruction::Goto(target) => Some(Ok((locals, stack, *target))),
        Instruction::Lookupswitch(table) => Some(switch_effect(locals, stack, table@)),
        Instruction::Noope => Some(Ok((locals, stack, next))),
        _ => None,
    }
}

/// The lower 32 bits of a small constant.
pub open spec fn low_word(value: usize) -> u32 {
    value as u32
}

/// Computes `low_word` for the constants that the instruction set has.
pub fn small_word(value: usize) -> (r: u32)
    ensures
        r == low_word(value),
{
    #[verifier::truncate]
    (value as u32)
}

impl Stackframe {
    /// A frame with `variables_number` local variables, all `Null`, and an empty operand
    /// stack, at the start of the first method of the class with name id 0.
    pub fn new(variables_number: usize) -> (r: Self)
        ensures
            r@.locals == Seq::new(variables_number as nat, |i: int| Item::Null),
            r@.stack == Seq::<Item>::empty(),
            r.class_name_id == 0,
            r.method_index == 0,
            r.cursor == 0,
    {
        let mut local_variables: Vec<Item> = Vec::new();
        let mut i: usize = 0;
        while i < variables_number
            invariant
                i <= variables_number,
                local_variables@ == Seq::new(i as nat, |i: int| Item::Null),
            decreases variables_number - i,
        {
            local_variables.push(Item::Null);
            i += 1;
            assert(local_variables@ =~= Seq::new(i as nat, |i: int| Item::Null));
        }
        Stackframe {
            local_variables,
            operand_stack: OperandStack::new(),
            class_name_id: 0,
            method_index: 0,
            cursor: 0,
        }
    }

    /// The frame with the local variables and the operand stack replaced.
    pub open spec fn with(self, locals: Seq<Item>, stack: Seq<Item>) -> FrameView {
        FrameView { locals, stack, ..self@ }
    }

    /// The frame is as `effect` says, if that is a success, and as `before` if not.
    pub open spec fn follows(self, before: Stackframe, effect: Effect) -> bool {
        match effect {
            Ok((locals, stack, _)) => self@ == before.with(locals, stack),
            Err(_) => self@ == before@,
        }
    }

    /// Pushes `item`.
    pub fn push(&mut self, item: Item)
        ensures
            final(self)@ == old(self).with(old(self)@.locals, old(self)@.stack.push(item)),
    {
        self.operand_stack.stack.push(item);
    }

    /// Pops the topmost item, if there is one.
    pub fn pop(&mut self) -> (r: Result<Item, Error>)
        ensures
            match r {
                Ok(item) => old(self)@.stack.len() >= 1 && item == old(self)@.stack.last()
                    && final(self)@ == old(self).with(
                    old(self)@.locals,
                    old(self)@.stack.drop_last(),
                ),
                Err(e) => old(self)@.stack.len() == 0 && e == underflow()
                    && final(self)@ == old(self)@,
            },
    {
        match self.operand_stack.stack.pop() {
            Some(item) => Ok(item),
            None => Err(Error::StateError(StateError::StackUnderflow)),
        }
    }

    /// The `n`-th item from the top of the stack, the topmost being the first.
    pub fn peek(&self, n: usize) -> (r: Result<Item, Error>)
        requires
            n >= 1,
        ensures
            match r {
                Ok(item) => self@.stack.len() >= n && item == self@.stack[self@.stack.len() - n],
                Err(e) => self@.stack.len() < n && e == underflow(),
            },
    {
        let depth = self.operand_stack.stack.len();
        if depth >= n {
            Ok(self.operand_stack.stack[depth - n])
        } else {
            Err(Error::StateError(StateError::StackUnderflow))
        }
    }

    /// Drops the `n` topmost items, of which the stack holds that many.
    pub fn drop_top(&mut self, n: usize)
        requires
            old(self)@.stack.len() >= n,
        ensures
            final(self)@ == old(self).with(old(self)@.locals, without_top(old(self)@.stack, n as int)),
    {
        let depth = self.operand_stack.stack.len();
        self.operand_stack.stack.truncate(depth - n);
    }

    fn load(&mut self, place: usize, next: usize) -> (r: Result<usize, Error>)
        ensures
            final(self).follows(*old(self), load_effect(old(self)@.locals, old(self)@.stack, place, next)),
            agrees(r, load_effect(old(self)@.locals, old(self)@.stack, place, next)),
    {
        if place < self.local_variables.len() {
            let item = self.local_variables[place];
            self.operand_stack.stack.push(item);
            Ok(next)
        } else {
            Err(Error::StateError(StateError::LocalOutOfRange(place)))
        }
    }

    fn load_wide(&mut self, place: usize, next: usize) -> (r: Result<usize, Error>)
        ensures
            final(self).follows(
                *old(self),
                load_wide_effect(old(self)@.locals, old(self)@.stack, place, next),
            ),
            agrees(r, load_wide_effect(old(self)@.locals, old(self)@.stack, place, next)),
    {
        let count = self.local_variables.len();
        if count >= 2 && place <= count - 2 {
            let first = self.local_variables[place];
            let second = self.local_variables[place + 1];
            self.operand_stack.stack.push(first);
            self.operand_stack.stack.push(second);
            Ok(next)
        } else {
            Err(Error::StateError(StateError::LocalOutOfRange(place)))
        }
    }

    fn store(&mut self, place: usize, next: usize) -> (r: Result<usize, Error>)
        ensures
            final(self).follows(
                *old(self),
                store_effect(old(self)@.locals, old(self)@.stack, place, next),
            ),
            agrees(r, store_effect(old(self)@.locals, old(self)@.stack, place, next)),
    {
        let item = self.peek(1)?;
        if place >= self.local_variables.len() {
            return Err(Error::StateError(StateError::LocalOutOfRange(place)));
        }
        self.drop_top(1);
        self.local_variables.set(place, item);
        assert(without_top(old(self)@.stack, 1) =~= old(self)@.stack.drop_last());
        Ok(next)
    }

    fn store_wide(&mut self, place: usize, next: usize) -> (r: Result<usize, Error>)
        ensures
            final(self).follows(
                *old(self),
                store_wide_effect(old(self)@.locals, old(self)@.stack, place, next),
            ),
            agrees(r, store_wide_effect(old(self)@.locals, old(self)@.stack, place, next)),
    {
        let first = self.peek(2)?;
        let second = self.peek(1)?;
        let count = self.local_variables.len();
        if count < 2 || place > count - 2 {
            return Err(Error::StateError(StateError::LocalOutOfRange(place)));
        }
        self.drop_top(2);
        self.local_variables.set(place, first);
        self.local_variables.set(place + 1, second);
        Ok(next)
    }

    fn int_operation(&mut self, op: Arithmetic, next: usize) -> (r: Result<usize, Error>)
        ensures
            final(self).follows(*old(self), int_effect(old(self)@.locals, old(self)@.stack, op, next)),
            agrees(r, int_effect(old(self)@.locals, old(self)@.stack, op, next)),
    {
        let item = self.operand_stack.int_operation(op)?;
        self.operand_stack.stack.push(item);
        Ok(next)
    }

    fn long_operation(&mut self, op: Arithmetic, next: usize) -> (r: Result<usize, Error>)
        ensures
            final(self).follows(
                *old(self),
                long_effect(old(self)@.locals, old(self)@.stack, op, next),
            ),
            agrees(r, long_effect(old(self)@.locals, old(self)@.stack, op, next)),
    {
        let (first, second) = self.operand_stack.long_operation(op)?;
        self.operand_stack.stack.push(first);
        self.operand_stack.stack.push(second);
        Ok(next)
    }

    fn long_comparison(&mut self, next: usize) -> (r: Result<usize, Error>)
        ensures
            final(self).follows(
                *old(self),
                long_comparison_effect(old(self)@.locals, old(self)@.stack, next),
            ),
            agrees(r, long_comparison_effect(old(self)@.locals, old(self)@.stack, next)),
    {
        let item = self.operand_stack.compare_longs()?;
        self.operand_stack.stack.push(item);
        Ok(next)
    }

    fn increment(&mut self, place: usize, amount: i32, next: usize) -> (r: Result<usize, Error>)
        ensures
            final(self).follows(
                *old(self),
                increment_effect(old(self)@.locals, old(self)@.stack, place, amount, next),
            ),
            agrees(r, increment_effect(old(self)@.locals, old(self)@.stack, place, amount, next)),
    {
        if place >= self.local_variables.len() {
            return Err(Error::StateError(StateError::LocalOutOfRange(place)));
        }
        match self.local_variables[place] {
            Item::Int(value) => {
                self.local_variables.set(place, Item::Int(value.wrapping_add(amount)));
                Ok(next)
            },
            _ => Err(Error::StateError(StateError::TypeMismatch)),
        }
    }

    fn branch(&mut self, comparison: Comparison, taken: usize, other: usize) -> (r: Result<
        usize,
        Error,
    >)
        ensures
            final(self).follows(
                *old(self),
                branch_effect(old(self)@.locals, old(self)@.stack, comparison, taken, other),
            ),
            agrees(r, branch_effect(old(self)@.locals, old(self)@.stack, comparison, taken, other)),
    {
        let item = self.peek(1)?;
        match number(item) {
            None => Err(Error::StateError(StateError::TypeMismatch)),
            Some(value) => {
                self.drop_top(1);
                assert(without_top(old(self)@.stack, 1) =~= old(self)@.stack.drop_last());
                if compare(comparison, value, 0) {
                    Ok(taken)
                } else {
                    Ok(other)
                }
            },
        }
    }

    fn branch_pair(&mut self, comparison: Comparison, taken: usize, other: usize) -> (r: Result<
        usize,
        Error,
    >)
        ensures
            final(self).follows(
                *old(self),
                branch_pair_effect(old(self)@.locals, old(self)@.stack, comparison, taken, other),
            ),
            agrees(
                r,
                branch_pair_effect(old(self)@.locals, old(self)@.stack, comparison, taken, other),
            ),
    {
        let first = self.peek(2)?;
        let second = self.peek(1)?;
        match (number(first), number(second)) {
            (Some(first), Some(second)) => {
                self.drop_top(2);
                if compare(comparison, first, second) {
                    Ok(taken)
                } else {
                    Ok(other)
                }
            },
            _ => Err(Error::StateError(StateError::TypeMismatch)),
        }
    }

    fn switch(&mut self, table: &Vec<(Option<i32>, usize)>) -> (r: Result<usize, Error>)
        ensures
            final(self).follows(
                *old(self),
                switch_effect(old(self)@.locals, old(self)@.stack, table@),
            ),
            agrees(r, switch_effect(old(self)@.locals, old(self)@.stack, table@)),
    {
        match self.peek(1)? {
            Item::Int(key) => match choose_case(table, key) {
                Some(target) => {
                    self.drop_top(1);
                    assert(without_top(old(self)@.stack, 1) =~= old(self)@.stack.drop_last());
                    Ok(target)
                },
                None => Err(Error::InternalError),
            },
            _ => Err(Error::StateError(StateError::TypeMismatch)),
        }
    }

    fn discard(&mut self, next: usize) -> (r: Result<usize, Error>)
        ensures
            final(self).follows(*old(self), pop_effect(old(self)@.locals, old(self)@.stack, next)),
            agrees(r, pop_effect(old(self)@.locals, old(self)@.stack, next)),
    {
        let _ = self.pop()?;
        Ok(next)
    }

    fn duplicate(&mut self, next: usize) -> (r: Result<usize, Error>)
        ensures
            final(self).follows(*old(self), dup_effect(old(self)@.locals, old(self)@.stack, next)),
            agrees(r, dup_effect(old(self)@.locals, old(self)@.stack, next)),
    {
        let item = self.peek(1)?;
        self.operand_stack.stack.push(item);
        Ok(next)
    }

    fn constant(&mut self, item: Item, next: usize) -> (r: Result<usize, Error>)
        ensures
            final(self).follows(
                *old(self),
                push_effect(old(self)@.locals, old(self)@.stack, item, next),
            ),
            agrees(r, push_effect(old(self)@.locals, old(self)@.stack, item, next)),
    {
        self.operand_stack.stack.push(item);
        Ok(next)
    }

    fn long_constant(&mut self, value: usize, next: usize) -> (r: Result<usize, Error>)
        ensures
            r == Ok::<usize, Error>(next),
            final(self)@ == old(self).with(
                old(self)@.locals,
                old(self)@.stack.push(Item::Long(0)).push(Item::Long(low_word(value))),
            ),
    {
        self.operand_stack.stack.push(Item::Long(0));
        self.operand_stack.stack.push(Item::Long(small_word(value)));
        Ok(next)
    }

    /// Executes `instruction`, found at entry `index` of the code array, if it is one of
    /// the instructions that touch nothing but the frame; else hands out `None`. A
    /// success holds the entry behind which execution goes on. On failure, and on `None`,
    /// the frame is unchanged.
    pub fn execute(&mut self, instruction: &Instruction, index: usize) -> (r: Option<
        Result<usize, Error>,
    >)
        ensures
            match local_effect(instruction, old(self)@.locals, old(self)@.stack, index) {
                None => r is None && final(self)@ == old(self)@,
                Some(effect) => r matches Some(outcome) && agrees(outcome, effect)
                    && final(self).follows(*old(self), effect),
            },
    {
        if let Instruction::Lookupswitch(table) = instruction {
            return Some(self.switch(table));
        }
        let next = advance(index, instruction);
        match instruction {
            Instruction::IconstN(value) => Some(self.constant(Item::Int(*value), next)),
            Instruction::Bipush(value) => Some(self.constant(Item::Int(*value), next)),
            Instruction::Sipush(value) => Some(self.constant(Item::Int(*value), next)),
            Instruction::LconstN(value) => Some(self.long_constant(*value, next)),
            Instruction::Iload(place) => Some(self.load(*place, next)),
            Instruction::IloadN(place) => Some(self.load(*place, next)),
            Instruction::Aload(place) => Some(self.load(*place, next)),
            Instruction::AloadN(place) => Some(self.load(*place, next)),
            Instruction::LloadN(place) => Some(self.load_wide(*place, next)),
            Instruction::Istore(place) => Some(self.store(*place, next)),
            Instruction::IstoreN(place) => Some(self.store(*place, next)),
            Instruction::Astore(place) => Some(self.store(*place, next)),
            Instruction::AstoreN(place) => Some(self.store(*place, next)),
            Instruction::LstoreN(place) => Some(self.store_wide(*place, next)),
            Instruction::Pop => Some(self.discard(next)),
            Instruction::Dup => Some(self.duplicate(next)),
            Instruction::Iadd => Some(self.int_operation(Arithmetic::Add, next)),
            Instruction::Isub => Some(self.int_operation(Arithmetic::Sub, next)),
            Instruction::Imul => Some(self.int_operation(Arithmetic::Mul, next)),
            Instruction::Idiv => Some(self.int_operation(Arithmetic::Div, next)),
            Instruction::Irem => Some(self.int_operation(Arithmetic::Rem, next)),
            Instruction::Ladd => Some(self.long_operation(Arithmetic::Add, next)),
            Instruction::Lsub => Some(self.long_operation(Arithmetic::Sub, next)),
            Instruction::Lmul => Some(self.long_operation(Arithmetic::Mul, next)),
            Instruction::Ldiv => Some(self.long_operation(Arithmetic::Div, next)),
            Instruction::Lrem => Some(self.long_operation(Arithmetic::Rem, next)),
            Instruction::Iinc(place, amount) => Some(self.increment(*place, *amount, next)),
            Instruction::Lcmp => Some(self.long_comparison(next)),
            Instruction::Ifeq(taken, other) => Some(
                self.branch(Comparison::Equal, *taken, *other),
            ),
            Instruction::Ifne(taken, other) => Some(
                self.branch(Comparison::NotEqual, *taken, *other),
            ),
            Instruction::Iflt(taken, other) => Some(self.branch(Comparison::Less, *taken, *other)),
            Instruction::Ifge(taken, other) => Some(
                self.branch(Comparison::GreaterOrEqual, *taken, *other),
            ),
            Instruction::Ifgt(taken, other) => Some(
                self.branch(Comparison::Greater, *taken, *other),
            ),
            Instruction::Ifle(taken, other) => Some(
                self.branch(Comparison::LessOrEqual, *taken, *other),
            ),
            Instruction::Ificmpeq(taken, other) => Some(
                self.branch_pair(Comparison::Equal, *taken, *other),
            ),
            Instruction::Ificmpne(taken, other) => Some(
                self.branch_pair(Comparison::NotEqual, *taken, *other),
            ),
            Instruction::Ificmplt(taken, other) => Some(
                self.branch_pair(Comparison::Less, *taken, *other),
            ),
            Instruction::Ificmpge(taken, other) => Some(
                self.branch_pair(Comparison::GreaterOrEqual, *taken, *other),
            ),
            Instruction::Ificmpgt(taken, other) => Some(
                self.branch_pair(Comparison::Greater, *taken, *other),
            ),
            Instruction::Ificmple(taken, other) => Some(
                self.branch_pair(Comparison::LessOrEqual, *taken, *other),
            ),
            Instruction::Goto(target) => Some(Ok(*target)),
            Instruction::Noope => Some(Ok(next)),
            _ => None,
        }
    }
}

/// `outcome` is the failure of `effect`, or the entry that its success names.
pub open spec fn agrees(outcome: Result<usize, Error>, effect: Effect) -> bool {
    match effect {
        Ok((_, _, next)) => outcome == Ok::<usize, Error>(next),
        Err(e) => outcome == Err::<usize, Error>(e),
    }
}

} // verus!
