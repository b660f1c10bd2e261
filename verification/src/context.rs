//! The execution context: the registry of classes, the heaps, the static fields and the
//! frame stack, and what each instruction does to them.

use vstd::prelude::*;
use crate::array::{
    with_element, with_reference, Array, ArrayMap, ArrayView, primitive_type_of,
    PrimitiveArrayType,
};
use crate::attribute::instruction::Instruction;
use crate::class_file::{join_index, wide_index, ClassFile};
use crate::constant::{
    class_and_field_name_at, class_name_at, loadable_at, method_at, utf8_id_at, wide_loadable_at,
    ConstPoolItem,
};
use crate::error::{Error, ResolutionError, StateError, UnsupportedError};
use crate::field::{descriptor_of, initial_item, BaseType, FieldDescriptor, FieldDescriptorView};
use crate::java_class::builtin::{
    builtin_effect, method_from, parameter_slots_of, text_at, BuiltInMethod, Output, OutputView,
};
use crate::java_class::{class_key, ClassMap, JavaClass};
use crate::method::parameter_slots;
use crate::object::{FieldMap, ObjectMap, Objectref, ObjectrefView};
use crate::operand::{without_top, Item, OperandStack};
use crate::stackframe::{following, frames_view, local_effect, FrameView, Stackframe};
use crate::string_pool::{id_of, interned, StringPool};
use crate::table::{Key, Table};

verus! {

/// Static fields: from class name id and field name id to the one or two slots of the
/// field's value.
pub type StaticFields = Table<(Item, Item)>;

/// Everything that one run of a program owns.
#[derive(Debug)]
pub struct Context {
    /// The registry of classes, built in and loaded.
    pub class_map: ClassMap,
    /// A counter that the engine leaves alone; a context starts with 0.
    pub program_count: usize,
    /// The frames of the invocations that have not returned, the current one last.
    pub stack_frames: Vec<Stackframe>,
    /// The directory in which the host looks for the classes that the engine asks for.
    pub root_path: String,
    pub static_fields: StaticFields,
    pub object_map: ObjectMap,
    pub array_map: ArrayMap,
}

/// What the engine asks of its host after a step.
#[derive(Debug)]
pub enum Event {
    /// Nothing: the next step can follow.
    Continue,
    /// Write one line.
    Print(Output),
    /// Supply the class with this name id, then step again.
    LoadClass(usize),
    /// The last frame has returned.
    Finished,
}

/// An event with its text as a sequence.
pub enum EventView {
    Continue,
    Print(OutputView),
    LoadClass(usize),
    Finished,
}

impl View for Event {
    type V = EventView;

    open spec fn view(&self) -> EventView {
        match self {
            Event::Continue => EventView::Continue,
            Event::Print(output) => EventView::Print(output@),
            Event::LoadClass(name) => EventView::LoadClass(*name),
            Event::Finished => EventView::Finished,
        }
    }
}

/// The part of a context that instructions change: the frames from the oldest to the
/// current one, the static fields, the objects and the arrays.
pub struct Machine {
    pub frames: Seq<FrameView>,
    pub statics: Map<Key, (Item, Item)>,
    pub objects: Seq<ObjectrefView>,
    pub arrays: Seq<ArrayView>,
}

/// What a step gives: the machine and the string pool afterwards, and the event.
pub type Step = Result<(Machine, EventView, Seq<Seq<char>>), Error>;

/// The entry that is executed after the one behind which execution goes on.
pub open spec fn next_cursor(update: usize) -> usize {
    if update == usize::MAX {
        usize::MAX
    } else {
        (update + 1) as usize
    }
}

/// The current frame of a machine that has one.
pub open spec fn top(machine: Machine) -> FrameView {
    machine.frames.last()
}

/// The machine with its current frame replaced.
pub open spec fn with_top(machine: Machine, frame: FrameView) -> Machine {
    Machine { frames: machine.frames.update(machine.frames.len() - 1, frame), ..machine }
}

/// The machine after its current frame got the operand stack `stack` and moved on
/// behind the entry `update`.
pub open spec fn moved(machine: Machine, stack: Seq<Item>, update: usize) -> Machine {
    with_top(machine, FrameView { stack, cursor: next_cursor(update), ..top(machine) })
}

/// A step that asks nothing of the host and leaves the string pool alone.
pub open spec fn quiet(machine: Machine, texts: Seq<Seq<char>>) -> Step {
    Ok((machine, EventView::Continue, texts))
}

/// The class `name` must be supplied before the current class `this` can refer to it.
pub open spec fn is_missing(classes: Map<Key, JavaClass>, this: usize, name: usize) -> bool {
    name != this && !classes.contains_key(class_key(name))
}

/// A failure of the state.
pub open spec fn state(error: StateError) -> Error {
    Error::StateError(error)
}

/// `stack` with the one or two slots of `value` pushed: the second where the first is
/// half of a 64-bit value.
pub open spec fn with_value(stack: Seq<Item>, value: (Item, Item)) -> Seq<Item> {
    if value.0.is_wide() {
        stack.push(value.0).push(value.1)
    } else {
        stack.push(value.0)
    }
}

/// The value on top of `stack`, in one or two slots, and the number of its slots: two
/// where the topmost item is half of a 64-bit value.
pub open spec fn value_on_top(stack: Seq<Item>) -> Result<((Item, Item), int), Error> {
    if stack.len() < 1 {
        Err(state(StateError::StackUnderflow))
    } else if stack.last().is_wide() {
        if stack.len() < 2 {
            Err(state(StateError::StackUnderflow))
        } else {
            Ok(((stack[stack.len() - 2], stack[stack.len() - 1]), 2))
        }
    } else {
        Ok(((stack.last(), Item::Null), 1))
    }
}

/// Loading a one-slot constant.
pub open spec fn ldc_step(
    machine: Machine,
    texts: Seq<Seq<char>>,
    pool: Seq<ConstPoolItem>,
    constant: usize,
    update: usize,
) -> Step {
    match loadable_at(pool, constant) {
        Err(e) => Err(e),
        Ok(item) => quiet(moved(machine, top(machine).stack.push(item), update), texts),
    }
}

/// Loading a two-slot constant.
pub open spec fn ldc2_step(
    machine: Machine,
    texts: Seq<Seq<char>>,
    pool: Seq<ConstPoolItem>,
    constant: usize,
    update: usize,
) -> Step {
    match wide_loadable_at(pool, constant) {
        Err(e) => Err(e),
        Ok((first, second)) => quiet(
            moved(machine, top(machine).stack.push(first).push(second), update),
            texts,
        ),
    }
}

/// Reading the static field `key`.
pub open spec fn getstatic_step(
    machine: Machine,
    texts: Seq<Seq<char>>,
    key: Key,
    update: usize,
) -> Step {
    if machine.statics.contains_key(key) {
        quiet(moved(machine, with_value(top(machine).stack, machine.statics[key]), update), texts)
    } else {
        Err(state(StateError::DanglingReference))
    }
}

/// Assigning the value on top of the stack to the static field `key`.
pub open spec fn putstatic_step(
    machine: Machine,
    texts: Seq<Seq<char>>,
    key: Key,
    update: usize,
) -> Step {
    match value_on_top(top(machine).stack) {
        Err(e) => Err(e),
        Ok((value, slots)) => quiet(
            Machine {
                statics: machine.statics.insert(key, value),
                ..moved(machine, without_top(top(machine).stack, slots), update)
            },
            texts,
        ),
    }
}

/// The object that the item `reference` names, which must be of the class `class_name`.
pub open spec fn object_of(
    objects: Seq<ObjectrefView>,
    reference: Item,
    class_name: usize,
) -> Result<
    usize,
    Error,
> {
    match reference {
        Item::Objectref(id) => if id >= objects.len() {
            Err(state(StateError::DanglingReference))
        } else if objects[id as int].class_name_id != class_name {
            Err(state(StateError::TypeMismatch))
        } else {
            Ok(id)
        },
        _ => Err(state(StateError::TypeMismatch)),
    }
}

/// Reading the field `field` of the object on top of the stack.
pub open spec fn getfield_step(
    machine: Machine,
    texts: Seq<Seq<char>>,
    class_name: usize,
    field: usize,
    update: usize,
) -> Step {
    let stack = top(machine).stack;
    if stack.len() < 1 {
        Err(state(StateError::StackUnderflow))
    } else {
        match object_of(machine.objects, stack.last(), class_name) {
            Err(e) => Err(e),
            Ok(id) => {
                let fields = machine.objects[id as int].field_map;
                if fields.contains_key((field, id)) {
                    quiet(
                        moved(machine, with_value(stack.drop_last(), fields[(field, id)]), update),
                        texts,
                    )
                } else {
                    Err(state(StateError::DanglingReference))
                }
            },
        }
    }
}

/// Assigning the value on top of the stack to the field `field` of the object below it.
pub open spec fn putfield_step(
    machine: Machine,
    texts: Seq<Seq<char>>,
    class_name: usize,
    field: usize,
    update: usize,
) -> Step {
    let stack = top(machine).stack;
    match value_on_top(stack) {
        Err(e) => Err(e),
        Ok((value, slots)) => if stack.len() < slots + 1 {
            Err(state(StateError::StackUnderflow))
        } else {
            match object_of(machine.objects, stack[stack.len() - slots - 1], class_name) {
                Err(e) => Err(e),
                Ok(id) => quiet(
                    Machine {
                        objects: machine.objects.update(
                            id as int,
                            ObjectrefView {
                                field_map: machine.objects[id as int].field_map.insert(
                                    (field, id),
                                    value,
                                ),
                                ..machine.objects[id as int]
                            },
                        ),
                        ..moved(machine, without_top(stack, slots + 1), update)
                    },
                    texts,
                ),
            }
        },
    }
}

/// The length that the topmost item gives for a new array.
pub open spec fn length_on_top(stack: Seq<Item>) -> Result<usize, Error> {
    if stack.len() < 1 {
        Err(state(StateError::StackUnderflow))
    } else {
        match stack.last() {
            Item::Int(length) => if length < 0 {
                Err(state(StateError::IndexOutOfBounds))
            } else {
                Ok(length as usize)
            },
            _ => Err(state(StateError::TypeMismatch)),
        }
    }
}

/// Creating an array of primitive values of the type with the code `code`.
pub open spec fn newarray_step(
    machine: Machine,
    texts: Seq<Seq<char>>,
    code: usize,
    index: usize,
    update: usize,
) -> Step {
    let stack = top(machine).stack;
    match primitive_type_of(code) {
        None => Err(Error::UnsupportedError(UnsupportedError::Instruction(index))),
        Some(kind) => match length_on_top(stack) {
            Err(e) => Err(e),
            Ok(length) => quiet(
                Machine {
                    arrays: machine.arrays.push(
                        ArrayView::Primitive(Seq::new(length as nat, |i: int| kind.initial())),
                    ),
                    ..moved(
                        machine,
                        stack.drop_last().push(Item::Arrayref(machine.arrays.len() as usize)),
                        update,
                    )
                },
                texts,
            ),
        },
    }
}

/// An object of the class `class_name` that has no fields yet and is not initialized.
pub open spec fn blank_object(class_name: usize) -> ObjectrefView {
    ObjectrefView { class_name_id: class_name, field_map: Map::empty(), is_initialized: false }
}

/// Creating an array of `length` new objects of the class `class_name`.
pub open spec fn anewarray_step(
    machine: Machine,
    texts: Seq<Seq<char>>,
    class_name: usize,
    update: usize,
) -> Step {
    let stack = top(machine).stack;
    match length_on_top(stack) {
        Err(e) => Err(e),
        Ok(length) => quiet(
            Machine {
                objects: machine.objects + Seq::new(
                    length as nat,
                    |i: int| blank_object(class_name),
                ),
                arrays: machine.arrays.push(
                    ArrayView::Custom(
                        Seq::new(length as nat, |i: int| (machine.objects.len() + i) as usize),
                    ),
                ),
                ..moved(
                    machine,
                    stack.drop_last().push(Item::Arrayref(machine.arrays.len() as usize)),
                    update,
                )
            },
            texts,
        ),
    }
}

/// The array and the index that the two topmost items of `stack` name.
pub open spec fn element_on_top(stack: Seq<Item>) -> Result<(usize, usize), Error> {
    if stack.len() < 2 {
        Err(state(StateError::StackUnderflow))
    } else {
        match (stack[stack.len() - 2], stack[stack.len() - 1]) {
            (Item::Arrayref(array), Item::Int(index)) => if index < 0 {
                Err(state(StateError::IndexOutOfBounds))
            } else {
                Ok((array, index as usize))
            },
            _ => Err(state(StateError::TypeMismatch)),
        }
    }
}

/// Reading an element of an array of primitive values.
pub open spec fn iaload_step(machine: Machine, texts: Seq<Seq<char>>, update: usize) -> Step {
    let stack = top(machine).stack;
    match element_on_top(stack) {
        Err(e) => Err(e),
        Ok((array, index)) => if array >= machine.arrays.len() {
            Err(state(StateError::DanglingReference))
        } else {
            match machine.arrays[array as int] {
                ArrayView::Primitive(items) => if index >= items.len() {
                    Err(state(StateError::IndexOutOfBounds))
                } else {
                    let rest = without_top(stack, 2).push(items[index as int].0);
                    quiet(
                        moved(
                            machine,
                            if items[index as int].1 is Null {
                                rest
                            } else {
                                rest.push(items[index as int].1)
                            },
                            update,
                        ),
                        texts,
                    )
                },
                _ => Err(state(StateError::TypeMismatch)),
            }
        },
    }
}

/// Reading an element of an array of objects or of arrays.
pub open spec fn aaload_step(machine: Machine, texts: Seq<Seq<char>>, update: usize) -> Step {
    let stack = top(machine).stack;
    match element_on_top(stack) {
        Err(e) => Err(e),
        Ok((array, index)) => if array >= machine.arrays.len() {
            Err(state(StateError::DanglingReference))
        } else {
            match machine.arrays[array as int] {
                ArrayView::Custom(ids) => if index >= ids.len() {
                    Err(state(StateError::IndexOutOfBounds))
                } else {
                    quiet(
                        moved(
                            machine,
                            without_top(stack, 2).push(Item::Objectref(ids[index as int])),
                            update,
                        ),
                        texts,
                    )
                },
                ArrayView::Array(ids) => if index >= ids.len() {
                    Err(state(StateError::IndexOutOfBounds))
                } else {
                    quiet(
                        moved(
                            machine,
                            without_top(stack, 2).push(Item::Arrayref(ids[index as int])),
                            update,
                        ),
                        texts,
                    )
                },
                _ => Err(state(StateError::TypeMismatch)),
            }
        },
    }
}

/// Storing the topmost item into an array of primitive values.
pub open spec fn iastore_step(machine: Machine, texts: Seq<Seq<char>>, update: usize) -> Step {
    let stack = top(machine).stack;
    if stack.len() < 3 {
        Err(state(StateError::StackUnderflow))
    } else {
        match element_on_top(stack.drop_last()) {
            Err(e) => Err(e),
            Ok((array, index)) => match with_element(
                machine.arrays,
                array,
                index,
                (stack.last(), Item::Null),
            ) {
                None => Err(state(StateError::IndexOutOfBounds)),
                Some(arrays) => quiet(
                    Machine { arrays, ..moved(machine, without_top(stack, 3), update) },
                    texts,
                ),
            },
        }
    }
}

/// Storing the topmost item into an array of objects or of arrays.
pub open spec fn aastore_step(machine: Machine, texts: Seq<Seq<char>>, update: usize) -> Step {
    let stack = top(machine).stack;
    if stack.len() < 3 {
        Err(state(StateError::StackUnderflow))
    } else {
        match element_on_top(stack.drop_last()) {
            Err(e) => Err(e),
            Ok((array, index)) => {
                let stored = match stack.last() {
                    Item::Objectref(id) => with_reference(machine.arrays, array, index, id, false),
                    Item::Arrayref(id) => with_reference(machine.arrays, array, index, id, true),
                    _ => None,
                };
                match stored {
                    None => Err(state(StateError::IndexOutOfBounds)),
                    Some(arrays) => quiet(
                        Machine { arrays, ..moved(machine, without_top(stack, 3), update) },
                        texts,
                    ),
                }
            },
        }
    }
}

/// Returning a value: the current frame leaves, and its topmost item goes onto the
/// operand stack of the frame below.
pub open spec fn value_return_step(machine: Machine, texts: Seq<Seq<char>>) -> Step {
    let depth = machine.frames.len();
    if depth < 2 {
        Err(state(StateError::NoFrame))
    } else if top(machine).stack.len() < 1 {
        Err(state(StateError::StackUnderflow))
    } else {
        let caller = machine.frames[depth - 2];
        quiet(
            Machine {
                frames: machine.frames.drop_last().update(
                    depth - 2,
                    FrameView { stack: caller.stack.push(top(machine).stack.last()), ..caller },
                ),
                ..machine
            },
            texts,
        )
    }
}

/// Returning without a value: the current frame leaves.
pub open spec fn return_step(machine: Machine, texts: Seq<Seq<char>>) -> Step {
    Ok(
        (
            Machine { frames: machine.frames.drop_last(), ..machine },
            if machine.frames.len() == 1 {
                EventView::Finished
            } else {
                EventView::Continue
            },
            texts,
        ),
    )
}

/// The views of frames of which one was replaced.
pub proof fn lemma_frames_update(frames: Seq<Stackframe>, place: int, frame: Stackframe)
    requires
        0 <= place < frames.len(),
    ensures
        frames_view(frames.update(place, frame)) == frames_view(frames).update(place, frame@),
{
    assert(frames_view(frames.update(place, frame)) =~= frames_view(frames).update(place, frame@));
}

/// The views of frames with one more frame.
pub proof fn lemma_frames_push(frames: Seq<Stackframe>, frame: Stackframe)
    ensures
        frames_view(frames.push(frame)) == frames_view(frames).push(frame@),
{
    assert(frames_view(frames.push(frame)) =~= frames_view(frames).push(frame@));
}

/// The views of frames without the last frame.
pub proof fn lemma_frames_drop(frames: Seq<Stackframe>)
    requires
        frames.len() >= 1,
    ensures
        frames_view(frames.drop_last()) == frames_view(frames).drop_last(),
{
    assert(frames_view(frames.drop_last()) =~= frames_view(frames).drop_last());
}

/// Computes `next_cursor`.
pub fn cursor_after(update: usize) -> (r: usize)
    ensures
        r == next_cursor(update),
{
    update.saturating_add(1)
}

impl Context {
    /// The registry, the static fields and the heaps are well formed.
    pub open spec fn wf(&self) -> bool {
        &&& self.class_map.wf()
        &&& self.static_fields.wf()
        &&& self.object_map.wf()
        &&& self.array_map.wf()
    }

    /// The part of the context that instructions change.
    pub open spec fn machine(&self) -> Machine {
        Machine {
            frames: frames_view(self.stack_frames@),
            statics: self.static_fields@,
            objects: self.object_map@,
            arrays: self.array_map@,
        }
    }

    /// The context is what `step` makes of `before`, and `result` is what `step` hands
    /// out: after a failure the machine is as it was. What instructions do not touch
    /// stays in either case.
    pub open spec fn follows(
        &self,
        before: Context,
        result: Result<Event, Error>,
        step: Step,
    ) -> bool {
        &&& self.wf()
        &&& self.class_map@ == before.class_map@
        &&& self.root_path == before.root_path
        &&& self.program_count == before.program_count
        &&& match step {
            Ok((machine, event, _)) => result matches Ok(e) && e@ == event && self.machine()
                == machine,
            Err(e) => result matches Err(x) && x == e && self.machine() == before.machine(),
        }
    }

    /// Gives the current frame the operand stack that it has without its `drop` topmost
    /// items and with `first` and `second` pushed, where they are given, and moves it on
    /// behind the entry `update`.
    fn settle(&mut self, drop: usize, first: Option<Item>, second: Option<Item>, update: usize)
        requires
            old(self).wf(),
            old(self).stack_frames@.len() >= 1,
            top(old(self).machine()).stack.len() >= drop,
        ensures
            final(self).wf(),
            final(self).class_map == old(self).class_map,
            final(self).root_path == old(self).root_path,
            final(self).program_count == old(self).program_count,
            final(self).static_fields == old(self).static_fields,
            final(self).object_map == old(self).object_map,
            final(self).array_map == old(self).array_map,
            final(self).machine() == moved(
                old(self).machine(),
                with_items(without_top(top(old(self).machine()).stack, drop as int), first, second),
                update,
            ),
    {
        let depth = self.stack_frames.len();
        let frame = &mut self.stack_frames[depth - 1];
        frame.drop_top(drop);
        match first {
            Some(item) => {
                frame.push(item);
            },
            None => {},
        }
        match second {
            Some(item) => {
                frame.push(item);
            },
            None => {},
        }
        frame.cursor = cursor_after(update);
        proof {
            lemma_frames_update(old(self).stack_frames@, depth - 1, self.stack_frames@[depth - 1]);
            assert(self.stack_frames@ =~= old(self).stack_frames@.update(
                depth - 1,
                self.stack_frames@[depth - 1],
            ));
        }
    }

    /// The item at depth `n` of the current operand stack, the topmost being the first.
    fn peek(&self, n: usize) -> (r: Result<Item, Error>)
        requires
            n >= 1,
            self.stack_frames@.len() >= 1,
        ensures
            match r {
                Ok(item) => top(self.machine()).stack.len() >= n && item == top(
                    self.machine(),
                ).stack[top(self.machine()).stack.len() - n],
                Err(e) => top(self.machine()).stack.len() < n && e == state(
                    StateError::StackUnderflow,
                ),
            },
    {
        let depth = self.stack_frames.len();
        self.stack_frames[depth - 1].peek(n)
    }

    /// Fails unless the current operand stack holds `n` items.
    fn need(&self, n: usize) -> (r: Result<(), Error>)
        requires
            self.stack_frames@.len() >= 1,
        ensures
            match r {
                Ok(_) => top(self.machine()).stack.len() >= n,
                Err(e) => top(self.machine()).stack.len() < n && e == state(
                    StateError::StackUnderflow,
                ),
            },
    {
        let depth = self.stack_frames.len();
        if self.stack_frames[depth - 1].operand_stack.stack.len() >= n {
            Ok(())
        } else {
            Err(Error::StateError(StateError::StackUnderflow))
        }
    }

    /// The value on top of the current operand stack and the number of its slots.
    fn peek_value(&self) -> (r: Result<((Item, Item), usize), Error>)
        requires
            self.stack_frames@.len() >= 1,
        ensures
            match r {
                Ok((value, slots)) => value_on_top(top(self.machine()).stack) == Ok::<
                    ((Item, Item), int),
                    Error,
                >((value, slots as int)) && 1 <= slots <= 2 && slots <= top(
                    self.machine(),
                ).stack.len(),
                Err(e) => value_on_top(top(self.machine()).stack) == Err::<
                    ((Item, Item), int),
                    Error,
                >(e),
            },
    {
        let last = self.peek(1)?;
        if last.wide() {
            let first = self.peek(2)?;
            Ok(((first, last), 2))
        } else {
            Ok(((last, Item::Null), 1))
        }
    }

    /// The second slot of `value`, where its first slot is half of a 64-bit value.
    fn second_slot(value: (Item, Item)) -> (r: Option<Item>)
        ensures
            r == if value.0.is_wide() {
                Some(value.1)
            } else {
                None::<Item>
            },
    {
        if value.0.wide() {
            Some(value.1)
        } else {
            None
        }
    }

    fn ldc(
        &mut self,
        texts: Ghost<Seq<Seq<char>>>,
        class_file: &ClassFile,
        constant: usize,
        update: usize,
    ) -> (r:
        Result<Event, Error>)
        requires
            old(self).wf(),
            old(self).stack_frames@.len() >= 1,
        ensures
            final(self).follows(
                *old(self),
                r,
                ldc_step(old(self).machine(), texts@, class_file.cp_info@, constant, update),
            ),
    {
        let item = class_file.cp_info.get_operand_stack_item(constant)?;
        self.settle(0, Some(item), None, update);
        assert(without_top(top(old(self).machine()).stack, 0) =~= top(old(self).machine()).stack);
        Ok(Event::Continue)
    }

    fn ldc2(
        &mut self,
        texts: Ghost<Seq<Seq<char>>>,
        class_file: &ClassFile,
        constant: usize,
        update: usize,
    ) -> (r:
        Result<Event, Error>)
        requires
            old(self).wf(),
            old(self).stack_frames@.len() >= 1,
        ensures
            final(self).follows(
                *old(self),
                r,
                ldc2_step(old(self).machine(), texts@, class_file.cp_info@, constant, update),
            ),
    {
        let (first, second) = match class_file.cp_info.item(constant) {
            ConstPoolItem::ConstantLong(entry) => (
                Item::Long(entry.high_bytes),
                Item::Long(entry.low_bytes),
            ),
            ConstPoolItem::ConstantDouble(entry) => (
                Item::Double(entry.high_bytes),
                Item::Double(entry.low_bytes),
            ),
            _ => {
                return Err(Error::InternalError);
            },
        };
        self.settle(0, Some(first), Some(second), update);
        assert(without_top(top(old(self).machine()).stack, 0) =~= top(old(self).machine()).stack);
        Ok(Event::Continue)
    }

    fn getstatic(
        &mut self,
        texts: Ghost<Seq<Seq<char>>>,
        key: Key,
        update: usize,
    ) -> (r: Result<Event, Error>)
        requires
            old(self).wf(),
            old(self).stack_frames@.len() >= 1,
        ensures
            final(self).follows(
                *old(self),
                r,
                getstatic_step(old(self).machine(), texts@, key, update),
            ),
    {
        let value = match self.static_fields.get(key) {
            Some(value) => *value,
            None => {
                return Err(Error::StateError(StateError::DanglingReference));
            },
        };
        self.settle(0, Some(value.0), Self::second_slot(value), update);
        assert(without_top(top(old(self).machine()).stack, 0) =~= top(old(self).machine()).stack);
        Ok(Event::Continue)
    }

    fn putstatic(
        &mut self,
        texts: Ghost<Seq<Seq<char>>>,
        key: Key,
        update: usize,
    ) -> (r: Result<Event, Error>)
        requires
            old(self).wf(),
            old(self).stack_frames@.len() >= 1,
        ensures
            final(self).follows(
                *old(self),
                r,
                putstatic_step(old(self).machine(), texts@, key, update),
            ),
    {
        let (value, slots) = self.peek_value()?;
        self.settle(slots, None, None, update);
        self.static_fields.insert(key, value);
        Ok(Event::Continue)
    }

    /// The object that `reference` names, which must be of the class `class_name`.
    fn find_object(&self, reference: Item, class_name: usize) -> (r: Result<usize, Error>)
        ensures
            r == object_of(self.machine().objects, reference, class_name),
    {
        match reference {
            Item::Objectref(id) => match self.object_map.get(&id) {
                None => Err(Error::StateError(StateError::DanglingReference)),
                Some(object) => {
                    if object.class_name_id != class_name {
                        Err(Error::StateError(StateError::TypeMismatch))
                    } else {
                        Ok(id)
                    }
                },
            },
            _ => Err(Error::StateError(StateError::TypeMismatch)),
        }
    }

    fn getfield(
        &mut self,
        texts: Ghost<Seq<Seq<char>>>,
        class_name: usize,
        field: usize,
        update: usize,
    ) -> (r:
        Result<Event, Error>)
        requires
            old(self).wf(),
            old(self).stack_frames@.len() >= 1,
        ensures
            final(self).follows(
                *old(self),
                r,
                getfield_step(old(self).machine(), texts@, class_name, field, update),
            ),
    {
        let reference = self.peek(1)?;
        let id = self.find_object(reference, class_name)?;
        let value = match self.object_map.get(&id) {
            None => {
                return Err(Error::StateError(StateError::DanglingReference));
            },
            Some(object) => match object.field_map.get((field, id)) {
                Some(value) => *value,
                None => {
                    return Err(Error::StateError(StateError::DanglingReference));
                },
            },
        };
        self.settle(1, Some(value.0), Self::second_slot(value), update);
        assert(without_top(top(old(self).machine()).stack, 1) =~= top(
            old(self).machine(),
        ).stack.drop_last());
        Ok(Event::Continue)
    }

    fn putfield(
        &mut self,
        texts: Ghost<Seq<Seq<char>>>,
        class_name: usize,
        field: usize,
        update: usize,
    ) -> (r:
        Result<Event, Error>)
        requires
            old(self).wf(),
            old(self).stack_frames@.len() >= 1,
        ensures
            final(self).follows(
                *old(self),
                r,
                putfield_step(old(self).machine(), texts@, class_name, field, update),
            ),
    {
        let (value, slots) = self.peek_value()?;
        let reference = self.peek(slots + 1)?;
        let id = self.find_object(reference, class_name)?;
        self.settle(slots + 1, None, None, update);
        let _ = self.object_map.set_field(id, (field, id), value);
        Ok(Event::Continue)
    }

    /// The length that the topmost item gives for a new array.
    fn peek_length(&self) -> (r: Result<usize, Error>)
        requires
            self.stack_frames@.len() >= 1,
        ensures
            r == length_on_top(top(self.machine()).stack),
    {
        match self.peek(1)? {
            Item::Int(length) => {
                if length < 0 {
                    Err(Error::StateError(StateError::IndexOutOfBounds))
                } else {
                    Ok(length as usize)
                }
            },
            _ => Err(Error::StateError(StateError::TypeMismatch)),
        }
    }

    /// The array and the index that the items at depth `depth + 1` and `depth` name.
    fn peek_element(&self, depth: usize) -> (r: Result<(usize, usize), Error>)
        requires
            self.stack_frames@.len() >= 1,
            1 <= depth <= 2,
            top(self.machine()).stack.len() >= depth - 1,
        ensures
            r == element_on_top(without_top(top(self.machine()).stack, depth - 1)),
    {
        let index = self.peek(depth)?;
        let array = self.peek(depth + 1)?;
        match (array, index) {
            (Item::Arrayref(array), Item::Int(index)) => {
                if index < 0 {
                    Err(Error::StateError(StateError::IndexOutOfBounds))
                } else {
                    Ok((array, index as usize))
                }
            },
            _ => Err(Error::StateError(StateError::TypeMismatch)),
        }
    }

    fn newarray(
        &mut self,
        texts: Ghost<Seq<Seq<char>>>,
        code: usize,
        index: usize,
        update: usize,
    ) -> (r: Result<
        Event,
        Error,
    >)
        requires
            old(self).wf(),
            old(self).stack_frames@.len() >= 1,
        ensures
            final(self).follows(
                *old(self),
                r,
                newarray_step(old(self).machine(), texts@, code, index, update),
            ),
    {
        let kind = match PrimitiveArrayType::from(code) {
            Some(kind) => kind,
            None => {
                return Err(Error::UnsupportedError(UnsupportedError::Instruction(index)));
            },
        };
        let length = self.peek_length()?;
        let items = crate::utils::iniailize_primitive_array(code, length);
        let items = match items {
            Some(items) => items,
            None => {
                return Err(Error::UnsupportedError(UnsupportedError::Instruction(index)));
            },
        };
        let id = self.array_map.add(Array::Primitive(items));
        self.settle(1, Some(Item::Arrayref(id)), None, update);
        assert(without_top(top(old(self).machine()).stack, 1) =~= top(
            old(self).machine(),
        ).stack.drop_last());
        Ok(Event::Continue)
    }

    fn anewarray(
        &mut self,
        texts: Ghost<Seq<Seq<char>>>,
        class_name: usize,
        update: usize,
    ) -> (r: Result<
        Event,
        Error,
    >)
        requires
            old(self).wf(),
            old(self).stack_frames@.len() >= 1,
        ensures
            final(self).follows(
                *old(self),
                r,
                anewarray_step(old(self).machine(), texts@, class_name, update),
            ),
    {
        let length = self.peek_length()?;
        let ids = crate::utils::initialize_objectref_array(&mut self.object_map, class_name, length);
        let id = self.array_map.add(Array::Custom(ids));
        self.settle(1, Some(Item::Arrayref(id)), None, update);
        assert(without_top(top(old(self).machine()).stack, 1) =~= top(
            old(self).machine(),
        ).stack.drop_last());
        Ok(Event::Continue)
    }

    fn iaload(&mut self, texts: Ghost<Seq<Seq<char>>>, update: usize) -> (r: Result<Event, Error>)
        requires
            old(self).wf(),
            old(self).stack_frames@.len() >= 1,
        ensures
            final(self).follows(*old(self), r, iaload_step(old(self).machine(), texts@, update)),
    {
        assert(without_top(top(self.machine()).stack, 0) =~= top(self.machine()).stack);
        let (array, index) = self.peek_element(1)?;
        let value = match self.array_map.get(&array) {
            None => {
                return Err(Error::StateError(StateError::DanglingReference));
            },
            Some(Array::Primitive(items)) => {
                if index >= items.len() {
                    return Err(Error::StateError(StateError::IndexOutOfBounds));
                }
                items[index]
            },
            Some(_) => {
                return Err(Error::StateError(StateError::TypeMismatch));
            },
        };
        let second = match value.1 {
            Item::Null => None,
            other => Some(other),
        };
        self.settle(2, Some(value.0), second, update);
        Ok(Event::Continue)
    }

    fn aaload(&mut self, texts: Ghost<Seq<Seq<char>>>, update: usize) -> (r: Result<Event, Error>)
        requires
            old(self).wf(),
            old(self).stack_frames@.len() >= 1,
        ensures
            final(self).follows(*old(self), r, aaload_step(old(self).machine(), texts@, update)),
    {
        assert(without_top(top(self.machine()).stack, 0) =~= top(self.machine()).stack);
        let (array, index) = self.peek_element(1)?;
        let item = match self.array_map.get(&array) {
            None => {
                return Err(Error::StateError(StateError::DanglingReference));
            },
            Some(Array::Custom(ids)) => {
                if index >= ids.len() {
                    return Err(Error::StateError(StateError::IndexOutOfBounds));
                }
                Item::Objectref(ids[index])
            },
            Some(Array::Array(ids)) => {
                if index >= ids.len() {
                    return Err(Error::StateError(StateError::IndexOutOfBounds));
                }
                Item::Arrayref(ids[index])
            },
            Some(_) => {
                return Err(Error::StateError(StateError::TypeMismatch));
            },
        };
        self.settle(2, Some(item), None, update);
        Ok(Event::Continue)
    }

    fn iastore(&mut self, texts: Ghost<Seq<Seq<char>>>, update: usize) -> (r: Result<Event, Error>)
        requires
            old(self).wf(),
            old(self).stack_frames@.len() >= 1,
        ensures
            final(self).follows(*old(self), r, iastore_step(old(self).machine(), texts@, update)),
    {
        self.need(3)?;
        let value = self.peek(1)?;
        assert(without_top(top(self.machine()).stack, 1) =~= top(self.machine()).stack.drop_last());
        let (array, index) = self.peek_element(2)?;
        if !self.array_map.store_element(array, index, (value, Item::Null)) {
            return Err(Error::StateError(StateError::IndexOutOfBounds));
        }
        self.settle(3, None, None, update);
        Ok(Event::Continue)
    }

    fn aastore(&mut self, texts: Ghost<Seq<Seq<char>>>, update: usize) -> (r: Result<Event, Error>)
        requires
            old(self).wf(),
            old(self).stack_frames@.len() >= 1,
        ensures
            final(self).follows(*old(self), r, aastore_step(old(self).machine(), texts@, update)),
    {
        self.need(3)?;
        let value = self.peek(1)?;
        assert(without_top(top(self.machine()).stack, 1) =~= top(self.machine()).stack.drop_last());
        let (array, index) = self.peek_element(2)?;
        let stored = match value {
            Item::Objectref(id) => self.array_map.store_reference(array, index, id, false),
            Item::Arrayref(id) => self.array_map.store_reference(array, index, id, true),
            _ => false,
        };
        if !stored {
            return Err(Error::StateError(StateError::IndexOutOfBounds));
        }
        self.settle(3, None, None, update);
        Ok(Event::Continue)
    }

    fn value_return(&mut self, texts: Ghost<Seq<Seq<char>>>) -> (r: Result<Event, Error>)
        requires
            old(self).wf(),
            old(self).stack_frames@.len() >= 1,
        ensures
            final(self).follows(*old(self), r, value_return_step(old(self).machine(), texts@)),
    {
        let depth = self.stack_frames.len();
        if depth < 2 {
            return Err(Error::StateError(StateError::NoFrame));
        }
        let value = self.peek(1)?;
        let _ = self.stack_frames.pop();
        let caller = &mut self.stack_frames[depth - 2];
        caller.push(value);
        proof {
            lemma_frames_drop(old(self).stack_frames@);
            lemma_frames_update(
                old(self).stack_frames@.drop_last(),
                depth - 2,
                self.stack_frames@[depth - 2],
            );
            assert(self.stack_frames@ =~= old(self).stack_frames@.drop_last().update(
                depth - 2,
                self.stack_frames@[depth - 2],
            ));
        }
        Ok(Event::Continue)
    }

    fn plain_return(&mut self, texts: Ghost<Seq<Seq<char>>>) -> (r: Result<Event, Error>)
        requires
            old(self).wf(),
            old(self).stack_frames@.len() >= 1,
        ensures
            final(self).follows(*old(self), r, return_step(old(self).machine(), texts@)),
    {
        let _ = self.stack_frames.pop();
        proof {
            lemma_frames_drop(old(self).stack_frames@);
        }
        if self.stack_frames.len() == 0 {
            Ok(Event::Finished)
        } else {
            Ok(Event::Continue)
        }
    }
}

/// `stack` with those of `first` and `second` pushed that are given.
pub open spec fn with_items(
    stack: Seq<Item>,
    first: Option<Item>,
    second: Option<Item>,
) -> Seq<Item> {
    let stack = match first {
        Some(item) => stack.push(item),
        None => stack,
    };
    match second {
        Some(item) => stack.push(item),
        None => stack,
    }
}

/// The fields of a new object `id` of the class `class`, from the field at place `from`
/// on, added to `fields`: each field under its name and `id`, with the value that its
/// descriptor gives to a field that was not assigned to yet.
pub open spec fn object_fields_from(
    class: &ClassFile,
    texts: Seq<Seq<char>>,
    id: usize,
    fields: Map<Key, (Item, Item)>,
    from: int,
) -> Result<Map<Key, (Item, Item)>, Error>
    decreases class.fields@.len() - from,
{
    if from < 0 || from >= class.fields@.len() {
        Ok(fields)
    } else {
        match field_entry(class, texts, from) {
            Err(e) => Err(e),
            Ok((name, value)) => object_fields_from(
                class,
                texts,
                id,
                fields.insert((name, id), value),
                from + 1,
            ),
        }
    }
}

/// Name id and first value of the field at place `place` of `class`.
pub open spec fn field_entry(class: &ClassFile, texts: Seq<Seq<char>>, place: int) -> Result<
    (usize, (Item, Item)),
    Error,
> {
    let field = class.fields@[place];
    match utf8_id_at(class.cp_info@, field.name_index) {
        Err(e) => Err(e),
        Ok(name) => match utf8_id_at(class.cp_info@, field.descriptor_index) {
            Err(e) => Err(e),
            Ok(descriptor) => match text_at(texts, descriptor) {
                None => Err(Error::InternalError),
                Some(text) => match descriptor_of(text) {
                    None => Err(Error::UnsupportedError(UnsupportedError::Descriptor)),
                    Some(kind) => Ok((name, initial_item(kind))),
                },
            },
        },
    }
}

/// The class file that the name `name` stands for, for code of the class `class_file`
/// with the name `this`: that class itself, or a loaded class of the registry.
pub open spec fn custom_target(
    classes: Map<Key, JavaClass>,
    class_file: &ClassFile,
    this: usize,
    name: usize,
) -> Option<ClassFile> {
    if name == this {
        Some(*class_file)
    } else if classes.contains_key(class_key(name)) {
        match classes[class_key(name)] {
            JavaClass::Custom(class) => Some(class),
            _ => None,
        }
    } else {
        None
    }
}

/// Creating an object of the class `class_name`.
pub open spec fn new_step(
    machine: Machine,
    texts: Seq<Seq<char>>,
    classes: Map<Key, JavaClass>,
    class_file: &ClassFile,
    this: usize,
    class_name: usize,
    index: usize,
    update: usize,
) -> Step {
    if is_missing(classes, this, class_name) {
        Ok((machine, EventView::LoadClass(class_name), texts))
    } else {
        match custom_target(classes, class_file, this, class_name) {
            None => Err(Error::UnsupportedError(UnsupportedError::Instruction(index))),
            Some(target) => match object_fields_from(
                &target,
                texts,
                machine.objects.len() as usize,
                Map::empty(),
                0,
            ) {
                Err(e) => Err(e),
                Ok(fields) => quiet(
                    Machine {
                        objects: machine.objects.push(
                            ObjectrefView {
                                class_name_id: class_name,
                                field_map: fields,
                                is_initialized: true,
                            },
                        ),
                        ..moved(
                            machine,
                            top(machine).stack.push(
                                Item::Objectref(machine.objects.len() as usize),
                            ),
                            update,
                        )
                    },
                    texts,
                ),
            },
        }
    }
}

/// The arrays after an array of `size` elements was created for the dimension `level` of
/// `counts`, and its id. An array of the last dimension holds primitive values, each
/// `initial`; an array of another dimension holds the ids of its children, which are
/// created before it, each with as many elements as `counts` gives for its dimension.
pub open spec fn nested_array(
    arrays: Seq<ArrayView>,
    counts: Seq<usize>,
    level: int,
    size: nat,
    initial: (Item, Item),
) -> (Seq<ArrayView>, usize)
    decreases counts.len() - level, size + 1,
{
    if level < 0 || level + 1 >= counts.len() {
        (arrays.push(ArrayView::Primitive(Seq::new(size, |i: int| initial))), arrays.len() as usize)
    } else {
        let (after, ids) = nested_children(arrays, counts, level, size, initial);
        (after.push(ArrayView::Array(ids)), after.len() as usize)
    }
}

/// The arrays after the first `count` children of an array of the dimension `level` were
/// created, and their ids.
pub open spec fn nested_children(
    arrays: Seq<ArrayView>,
    counts: Seq<usize>,
    level: int,
    count: nat,
    initial: (Item, Item),
) -> (Seq<ArrayView>, Seq<usize>)
    decreases counts.len() - level, count,
{
    if count == 0 || level < 0 || level + 1 >= counts.len() {
        (arrays, Seq::empty())
    } else {
        let (before, ids) = nested_children(arrays, counts, level, (count - 1) as nat, initial);
        let (after, id) = nested_array(
            before,
            counts,
            level + 1,
            counts[level + 1] as nat,
            initial,
        );
        (after, ids.push(id))
    }
}

/// Creates an array of `current_size` elements for the dimension `current_index` of
/// `counts`, with all the arrays below it, and hands out its id.
pub fn create_multi_dimentions_array(
    array_map: &mut ArrayMap,
    counts: &Vec<usize>,
    current_index: usize,
    current_size: usize,
    initial_value: (Item, Item),
) -> (id: usize)
    requires
        old(array_map).wf(),
    ensures
        final(array_map).wf(),
        (final(array_map)@, id) == nested_array(
            old(array_map)@,
            counts@,
            current_index as int,
            current_size as nat,
            initial_value,
        ),
    decreases counts@.len() - current_index,
{
    if current_index >= counts.len() || current_index + 1 >= counts.len() {
        let mut items: Vec<(Item, Item)> = Vec::new();
        let mut i: usize = 0;
        while i < current_size
            invariant
                i <= current_size,
                items@ == Seq::new(i as nat, |i: int| initial_value),
            decreases current_size - i,
        {
            items.push(initial_value);
            i += 1;
            assert(items@ =~= Seq::new(i as nat, |i: int| initial_value));
        }
        return array_map.add(Array::Primitive(items));
    }
    let total = counts.len();
    let next_size = counts[current_index + 1];
    let mut ids: Vec<usize> = Vec::new();
    let mut i: usize = 0;
    assert(ids@ =~= Seq::<usize>::empty());
    while i < current_size
        invariant
            i <= current_size,
            array_map.wf(),
            total == counts@.len(),
            current_index + 1 < total,
            next_size == counts@[current_index + 1],
            (array_map@, ids@) == nested_children(
                old(array_map)@,
                counts@,
                current_index as int,
                i as nat,
                initial_value,
            ),
        decreases current_size - i,
    {
        let input_id = create_multi_dimentions_array(
            array_map,
            counts,
            current_index + 1,
            next_size,
            initial_value,
        );
        ids.push(input_id);
        i += 1;
    }
    array_map.add(Array::Array(ids))
}

/// The type of the elements that an array of the type `kind` has behind `dimensions`
/// dimensions.
pub open spec fn element_after(kind: FieldDescriptorView, dimensions: nat) -> Option<
    FieldDescriptorView,
>
    decreases dimensions,
{
    if dimensions == 0 {
        Some(kind)
    } else {
        match kind {
            FieldDescriptorView::ArrayType(inner) => element_after(*inner, (dimensions - 1) as nat),
            _ => None,
        }
    }
}

/// Computes `element_after`.
pub fn element_type(kind: FieldDescriptor, dimensions: usize) -> (r: Option<FieldDescriptor>)
    ensures
        match r {
            Some(element) => element_after(kind@, dimensions as nat) == Some(element@),
            None => element_after(kind@, dimensions as nat) is None,
        },
    decreases dimensions,
{
    if dimensions == 0 {
        Some(kind)
    } else {
        match kind {
            FieldDescriptor::ArrayType(inner) => element_type(*inner, dimensions - 1),
            _ => None,
        }
    }
}

/// The lengths that the `dimensions` topmost items of `stack` give, from the place `from`
/// of them on, added to `counts`.
pub open spec fn lengths_from(
    stack: Seq<Item>,
    dimensions: int,
    counts: Seq<usize>,
    from: int,
) -> Result<
    Seq<usize>,
    Error,
>
    decreases dimensions - from,
{
    if from < 0 || from >= dimensions {
        Ok(counts)
    } else {
        match stack[stack.len() - dimensions + from] {
            Item::Int(length) => if length < 0 {
                Err(state(StateError::IndexOutOfBounds))
            } else {
                lengths_from(stack, dimensions, counts.push(length as usize), from + 1)
            },
            _ => Err(state(StateError::TypeMismatch)),
        }
    }
}

/// The value that an element of the innermost arrays of a new array of the type `text`
/// with `dimensions` dimensions has before it is stored to.
pub open spec fn innermost_value(text: Option<Seq<char>>, dimensions: usize) -> Result<
    (Item, Item),
    Error,
> {
    match text {
        None => Err(Error::InternalError),
        Some(text) => match descriptor_of(text) {
            None => Err(Error::UnsupportedError(UnsupportedError::Descriptor)),
            Some(kind) => match element_after(kind, dimensions as nat) {
                Some(FieldDescriptorView::BaseType(base)) => Ok(
                    initial_item(FieldDescriptorView::BaseType(base)),
                ),
                _ => Err(Error::UnsupportedError(UnsupportedError::Descriptor)),
            },
        },
    }
}

/// Creating an array of arrays of the type with the name id `name`, whose dimensions
/// the `dimensions` topmost items give, the outermost deepest.
pub open spec fn multianewarray_step(
    machine: Machine,
    texts: Seq<Seq<char>>,
    name: usize,
    dimensions: usize,
    index: usize,
    update: usize,
) -> Step {
    let stack = top(machine).stack;
    match innermost_value(text_at(texts, name), dimensions) {
        Err(e) => Err(e),
        Ok(initial) => if dimensions < 1 {
            Err(Error::UnsupportedError(UnsupportedError::Instruction(index)))
        } else if stack.len() < dimensions {
            Err(state(StateError::StackUnderflow))
        } else {
            match lengths_from(stack, dimensions as int, Seq::empty(), 0) {
                Err(e) => Err(e),
                Ok(counts) => {
                    let (arrays, id) = nested_array(
                        machine.arrays,
                        counts,
                        0,
                        counts[0] as nat,
                        initial,
                    );
                    quiet(
                        Machine {
                            arrays,
                            ..moved(
                                machine,
                                without_top(stack, dimensions as int).push(Item::Arrayref(id)),
                                update,
                            )
                        },
                        texts,
                    )
                },
            }
        },
    }
}

/// The local variables of a new frame for a method with `max_locals` local variables
/// that is called with `arguments`: the arguments, then `Null` in the others.
pub open spec fn entry_locals(arguments: Seq<Item>, max_locals: int) -> Seq<Item> {
    if max_locals > arguments.len() {
        arguments + Seq::new((max_locals - arguments.len()) as nat, |i: int| Item::Null)
    } else {
        arguments
    }
}

/// The `n` topmost items of `stack`, the deepest first.
pub open spec fn top_items(stack: Seq<Item>, n: int) -> Seq<Item> {
    stack.subrange(stack.len() - n, stack.len() as int)
}

/// Calling the method `name` of a built-in class with the methods `methods`.
pub open spec fn builtin_invoke_step(
    machine: Machine,
    texts: Seq<Seq<char>>,
    methods: Seq<BuiltInMethod>,
    class_name: usize,
    name: usize,
    descriptor: usize,
    update: usize,
) -> Step {
    let stack = top(machine).stack;
    match method_from(methods, name, 0) {
        None => Err(Error::ResolutionError(ResolutionError::MethodNotFound(class_name, name))),
        Some(method) => {
            let slots = parameter_slots_of(method.code_type, text_at(texts, descriptor));
            if stack.len() < slots {
                Err(state(StateError::StackUnderflow))
            } else {
                match builtin_effect(method.code_type, top_items(stack, slots as int), texts) {
                    Err(e) => Err(e),
                    Ok((output, item, pool)) => Ok(
                        (
                            moved(
                                machine,
                                with_items(without_top(stack, slots as int), item, None),
                                update,
                            ),
                            match output {
                                Some(output) => EventView::Print(output),
                                None => EventView::Continue,
                            },
                            pool,
                        ),
                    ),
                }
            }
        },
    }
}

/// Calling the method `name` with the descriptor `descriptor` of the loaded class
/// `target`: the caller loses the arguments and moves on, and a frame for the method is
/// pushed.
pub open spec fn custom_invoke_step(
    machine: Machine,
    texts: Seq<Seq<char>>,
    target: &ClassFile,
    class_name: usize,
    name: usize,
    descriptor: usize,
    is_static: bool,
    index: usize,
    update: usize,
) -> Step {
    let stack = top(machine).stack;
    match target.method_place(name, Some(descriptor)) {
        None => Err(Error::ResolutionError(ResolutionError::MethodNotFound(class_name, name))),
        Some(place) => if !target.methods@[place as int].is_executable() {
            Err(Error::UnsupportedError(UnsupportedError::Instruction(index)))
        } else {
            match text_at(texts, descriptor) {
                None => Err(Error::InternalError),
                Some(text) => match parameter_slots(text) {
                    None => Err(Error::UnsupportedError(UnsupportedError::Descriptor)),
                    Some(slots) => {
                        let taken: int = if is_static {
                            slots as int
                        } else {
                            slots as int + 1
                        };
                        if stack.len() < taken {
                            Err(state(StateError::StackUnderflow))
                        } else {
                            quiet(
                                Machine {
                                    frames: moved(
                                        machine,
                                        without_top(stack, taken),
                                        update,
                                    ).frames.push(
                                        FrameView {
                                            locals: entry_locals(
                                                top_items(stack, taken),
                                                target.methods@[place as int].body().max_locals as int,
                                            ),
                                            stack: Seq::empty(),
                                            class_name_id: class_name,
                                            method_index: place,
                                            cursor: 0,
                                        },
                                    ),
                                    ..machine
                                },
                                texts,
                            )
                        }
                    },
                },
            }
        },
    }
}

/// Calling the method that the reference `(class_name, name, descriptor)` names.
pub open spec fn invoke_step(
    machine: Machine,
    texts: Seq<Seq<char>>,
    classes: Map<Key, JavaClass>,
    class_file: &ClassFile,
    this: usize,
    reference: (usize, usize, usize),
    is_static: bool,
    index: usize,
    update: usize,
) -> Step {
    let (class_name, name, descriptor) = reference;
    if is_missing(classes, this, class_name) {
        Ok((machine, EventView::LoadClass(class_name), texts))
    } else {
        match custom_target(classes, class_file, this, class_name) {
            Some(target) => custom_invoke_step(
                machine,
                texts,
                &target,
                class_name,
                name,
                descriptor,
                is_static,
                index,
                update,
            ),
            None => match classes[class_key(class_name)] {
                JavaClass::BuiltIn(class) => builtin_invoke_step(
                    machine,
                    texts,
                    class.methods@,
                    class_name,
                    name,
                    descriptor,
                    update,
                ),
                _ => Err(Error::InternalError),
            },
        }
    }
}

/// Reads name id and first value of the field at place `place` of `class`.
pub fn read_field_entry(class: &ClassFile, string_pool: &StringPool, place: usize) -> (r: Result<
    (usize, (Item, Item)),
    Error,
>)
    requires
        place < class.fields@.len(),
    ensures
        r == field_entry(class, string_pool@, place as int),
{
    let field = &class.fields[place];
    let name = class.cp_info.get_utf8(field.name_index)?;
    let descriptor = class.cp_info.get_utf8(field.descriptor_index)?;
    let text = string_pool.get_value(&descriptor)?;
    let kind = FieldDescriptor::from(text.as_str())?;
    Ok((name, kind.initial()))
}

/// The fields of a new object `id` of the class `class`.
pub fn build_fields(class: &ClassFile, string_pool: &StringPool, id: usize) -> (r: Result<
    FieldMap,
    Error,
>)
    ensures
        match r {
            Ok(fields) => fields.wf() && object_fields_from(
                class,
                string_pool@,
                id,
                Map::empty(),
                0,
            ) == Ok::<Map<Key, (Item, Item)>, Error>(fields@),
            Err(e) => object_fields_from(class, string_pool@, id, Map::empty(), 0) == Err::<
                Map<Key, (Item, Item)>,
                Error,
            >(e),
        },
{
    let mut fields: FieldMap = Table::new();
    let mut i: usize = 0;
    while i < class.fields.len()
        invariant
            i <= class.fields@.len(),
            fields.wf(),
            object_fields_from(class, string_pool@, id, Map::empty(), 0) == object_fields_from(
                class,
                string_pool@,
                id,
                fields@,
                i as int,
            ),
        decreases class.fields@.len() - i,
    {
        let (name, value) = read_field_entry(class, string_pool, i)?;
        fields.insert((name, id), value);
        i += 1;
    }
    Ok(fields)
}

impl Context {
    /// Whether the class `name` must be supplied before code of the class `this` can
    /// refer to it.
    fn misses(&self, this: usize, name: usize) -> (r: bool)
        requires
            self.wf(),
        ensures
            r == is_missing(self.class_map@, this, name),
    {
        name != this && !self.class_map.contains((name, 0))
    }

    fn new_object(
        &mut self,
        string_pool: &StringPool,
        class_file: &ClassFile,
        this: usize,
        class_name: usize,
        index: usize,
        update: usize,
    ) -> (r: Result<Event, Error>)
        requires
            old(self).wf(),
            old(self).stack_frames@.len() >= 1,
        ensures
            final(self).follows(
                *old(self),
                r,
                new_step(
                    old(self).machine(),
                    string_pool@,
                    old(self).class_map@,
                    class_file,
                    this,
                    class_name,
                    index,
                    update,
                ),
            ),
    {
        if self.misses(this, class_name) {
            return Ok(Event::LoadClass(class_name));
        }
        let id = self.object_map.map.len();
        let fields = if class_name == this {
            build_fields(class_file, string_pool, id)?
        } else {
            match self.class_map.get((class_name, 0)) {
                Some(JavaClass::Custom(target)) => build_fields(target, string_pool, id)?,
                _ => {
                    return Err(Error::UnsupportedError(UnsupportedError::Instruction(index)));
                },
            }
        };
        let id = self.object_map.add(Objectref::new(class_name, fields, true));
        self.settle(0, Some(Item::Objectref(id)), None, update);
        assert(without_top(top(old(self).machine()).stack, 0) =~= top(old(self).machine()).stack);
        Ok(Event::Continue)
    }

    /// The lengths that the `dimensions` topmost items give.
    fn peek_lengths(&self, dimensions: usize) -> (r: Result<Vec<usize>, Error>)
        requires
            self.stack_frames@.len() >= 1,
            top(self.machine()).stack.len() >= dimensions,
        ensures
            match r {
                Ok(counts) => lengths_from(
                    top(self.machine()).stack,
                    dimensions as int,
                    Seq::empty(),
                    0,
                ) == Ok::<Seq<usize>, Error>(counts@) && counts@.len() == dimensions,
                Err(e) => lengths_from(
                    top(self.machine()).stack,
                    dimensions as int,
                    Seq::empty(),
                    0,
                ) == Err::<Seq<usize>, Error>(e),
            },
    {
        let mut counts: Vec<usize> = Vec::new();
        let mut i: usize = 0;
        assert(counts@ =~= Seq::<usize>::empty());
        while i < dimensions
            invariant
                i <= dimensions,
                self.stack_frames@.len() >= 1,
                top(self.machine()).stack.len() >= dimensions,
                counts@.len() == i,
                lengths_from(top(self.machine()).stack, dimensions as int, Seq::empty(), 0)
                    == lengths_from(
                    top(self.machine()).stack,
                    dimensions as int,
                    counts@,
                    i as int,
                ),
            decreases dimensions - i,
        {
            match self.peek(dimensions - i)? {
                Item::Int(length) => {
                    if length < 0 {
                        return Err(Error::StateError(StateError::IndexOutOfBounds));
                    }
                    counts.push(length as usize);
                },
                _ => {
                    return Err(Error::StateError(StateError::TypeMismatch));
                },
            }
            i += 1;
        }
        Ok(counts)
    }

    /// Computes `innermost_value` for the type whose name has the string id `name`.
    fn innermost(string_pool: &StringPool, name: usize, dimensions: usize) -> (r: Result<
        (Item, Item),
        Error,
    >)
        ensures
            r == innermost_value(text_at(string_pool@, name), dimensions),
    {
        let text = string_pool.get_value(&name)?;
        let kind = FieldDescriptor::from(text.as_str())?;
        match element_type(kind, dimensions) {
            Some(FieldDescriptor::BaseType(base)) => Ok(FieldDescriptor::BaseType(base).initial()),
            _ => Err(Error::UnsupportedError(UnsupportedError::Descriptor)),
        }
    }

    fn multianewarray(
        &mut self,
        string_pool: &StringPool,
        name: usize,
        dimensions: usize,
        index: usize,
        update: usize,
    ) -> (r: Result<Event, Error>)
        requires
            old(self).wf(),
            old(self).stack_frames@.len() >= 1,
        ensures
            final(self).follows(
                *old(self),
                r,
                multianewarray_step(
                    old(self).machine(),
                    string_pool@,
                    name,
                    dimensions,
                    index,
                    update,
                ),
            ),
    {
        let initial = Self::innermost(string_pool, name, dimensions)?;
        if dimensions < 1 {
            return Err(Error::UnsupportedError(UnsupportedError::Instruction(index)));
        }
        self.need(dimensions)?;
        let counts = self.peek_lengths(dimensions)?;
        let id = create_multi_dimentions_array(&mut self.array_map, &counts, 0, counts[0], initial);
        self.settle(dimensions, Some(Item::Arrayref(id)), None, update);
        Ok(Event::Continue)
    }

    /// The `n` topmost items of the current operand stack, the deepest first.
    fn take_arguments(&self, n: usize) -> (r: Vec<Item>)
        requires
            self.stack_frames@.len() >= 1,
            top(self.machine()).stack.len() >= n,
        ensures
            r@ == top_items(top(self.machine()).stack, n as int),
    {
        let depth = self.stack_frames.len();
        let stack = &self.stack_frames[depth - 1].operand_stack.stack;
        let height = stack.len();
        let mut arguments: Vec<Item> = Vec::new();
        let mut i: usize = 0;
        while i < n
            invariant
                i <= n <= height,
                height == stack@.len(),
                arguments@ == stack@.subrange(height - n, height - n + i),
            decreases n - i,
        {
            arguments.push(stack[height - n + i]);
            i += 1;
            assert(arguments@ =~= stack@.subrange(height - n, height - n + i));
        }
        arguments
    }

    fn invoke_builtin(
        &mut self,
        string_pool: &mut StringPool,
        method: Option<BuiltInMethod>,
        methods: Ghost<Seq<BuiltInMethod>>,
        class_name: usize,
        name: usize,
        descriptor: usize,
        update: usize,
    ) -> (r: Result<Event, Error>)
        requires
            old(self).wf(),
            old(string_pool).wf(),
            old(self).stack_frames@.len() >= 1,
            method == method_from(methods@, name, 0),
        ensures
            final(string_pool).wf(),
            final(self).follows(
                *old(self),
                r,
                builtin_invoke_step(
                    old(self).machine(),
                    old(string_pool)@,
                    methods@,
                    class_name,
                    name,
                    descriptor,
                    update,
                ),
            ),
            final(string_pool)@ == pool_after(
                builtin_invoke_step(
                    old(self).machine(),
                    old(string_pool)@,
                    methods@,
                    class_name,
                    name,
                    descriptor,
                    update,
                ),
                old(string_pool)@,
            ),
    {
        let method = match method {
            Some(method) => method,
            None => {
                return Err(
                    Error::ResolutionError(ResolutionError::MethodNotFound(class_name, name)),
                );
            },
        };
        let slots = method.parameter_length(string_pool, descriptor);
        self.need(slots)?;
        let arguments = self.take_arguments(slots);
        let (output, item) = method.run(string_pool, &arguments)?;
        self.settle(slots, item, None, update);
        match output {
            Some(output) => Ok(Event::Print(output)),
            None => Ok(Event::Continue),
        }
    }

    /// Takes the `taken` topmost items from the current frame, moves it on behind the
    /// entry `update`, and pushes a frame with the local variables `locals` at the start
    /// of the method `place` of the class `class_name`.
    fn enter(
        &mut self,
        taken: usize,
        locals: Vec<Item>,
        class_name: usize,
        place: usize,
        update: usize,
    )
        requires
            old(self).wf(),
            old(self).stack_frames@.len() >= 1,
            top(old(self).machine()).stack.len() >= taken,
        ensures
            final(self).wf(),
            final(self).class_map == old(self).class_map,
            final(self).root_path == old(self).root_path,
            final(self).program_count == old(self).program_count,
            final(self).machine() == (Machine {
                frames: moved(
                    old(self).machine(),
                    without_top(top(old(self).machine()).stack, taken as int),
                    update,
                ).frames.push(
                    FrameView {
                        locals: locals@,
                        stack: Seq::empty(),
                        class_name_id: class_name,
                        method_index: place,
                        cursor: 0,
                    },
                ),
                ..old(self).machine()
            }),
    {
        self.settle(taken, None, None, update);
        let ghost settled = self.stack_frames@;
        let frame = Stackframe {
            local_variables: locals,
            operand_stack: OperandStack::new(),
            class_name_id: class_name,
            method_index: place,
            cursor: 0,
        };
        proof {
            lemma_frames_push(settled, frame);
        }
        self.stack_frames.push(frame);
    }

    fn invoke_custom(
        &mut self,
        string_pool: &StringPool,
        found: Option<(usize, usize)>,
        target: Ghost<ClassFile>,
        class_name: usize,
        name: usize,
        descriptor: usize,
        is_static: bool,
        index: usize,
        update: usize,
    ) -> (r: Result<Event, Error>)
        requires
            old(self).wf(),
            old(self).stack_frames@.len() >= 1,
            found == found_method(&target@, name, descriptor),
        ensures
            final(self).follows(
                *old(self),
                r,
                custom_invoke_step(
                    old(self).machine(),
                    string_pool@,
                    &target@,
                    class_name,
                    name,
                    descriptor,
                    is_static,
                    index,
                    update,
                ),
            ),
    {
        let place = match target_place(found) {
            Some(place) => place,
            None => {
                return Err(
                    Error::ResolutionError(ResolutionError::MethodNotFound(class_name, name)),
                );
            },
        };
        let max_locals = match found {
            Some((_, max_locals)) => {
                if max_locals == usize::MAX {
                    return Err(Error::UnsupportedError(UnsupportedError::Instruction(index)));
                }
                max_locals
            },
            None => {
                return Err(
                    Error::ResolutionError(ResolutionError::MethodNotFound(class_name, name)),
                );
            },
        };
        let text = string_pool.get_value(&descriptor)?;
        let slots = match crate::method::count_parameter_slots(text.as_str()) {
            Some(slots) => slots,
            None => {
                return Err(Error::UnsupportedError(UnsupportedError::Descriptor));
            },
        };
        let taken: usize = if is_static {
            slots
        } else {
            slots + 1
        };
        self.need(taken)?;
        let mut locals = self.take_arguments(taken);
        let ghost arguments = locals@;
        assert(locals@ =~= arguments + Seq::new(0nat, |i: int| Item::Null));
        while locals.len() < max_locals
            invariant
                arguments.len() <= locals@.len(),
                locals@.len() <= max_locals || locals@.len() == arguments.len(),
                locals@ == arguments + Seq::new(
                    (locals@.len() - arguments.len()) as nat,
                    |i: int| Item::Null,
                ),
            decreases max_locals - locals@.len(),
        {
            locals.push(Item::Null);
            assert(locals@ =~= arguments + Seq::new(
                (locals@.len() - arguments.len()) as nat,
                |i: int| Item::Null,
            ));
        }
        assert(locals@ =~= entry_locals(arguments, max_locals as int));
        self.enter(taken, locals, class_name, place, update);
        Ok(Event::Continue)
    }
}

/// The string pool that a step leaves: the one it says after a success, `before` after
/// a failure.
pub open spec fn pool_after(step: Step, before: Seq<Seq<char>>) -> Seq<Seq<char>> {
    match step {
        Ok((_, _, texts)) => texts,
        Err(_) => before,
    }
}

/// Place of the method `name` with the descriptor `descriptor` in `target`, if it has
/// one, and the number of local variables of its body; `usize::MAX` stands for a method
/// without a body, which a body of so many local variables cannot be.
pub open spec fn found_method(target: &ClassFile, name: usize, descriptor: usize) -> Option<
    (usize, usize),
> {
    match target.method_place(name, Some(descriptor)) {
        None => None,
        Some(place) => Some(
            (
                place,
                if target.methods@[place as int].is_executable() {
                    target.methods@[place as int].body().max_locals as usize
                } else {
                    usize::MAX
                },
            ),
        ),
    }
}

/// The place of a found method.
pub fn target_place(found: Option<(usize, usize)>) -> (r: Option<usize>)
    ensures
        r == match found {
            Some((place, _)) => Some(place),
            None => None::<usize>,
        },
{
    match found {
        Some((place, _)) => Some(place),
        None => None,
    }
}

/// Computes `found_method`.
pub fn find_target_method(target: &ClassFile, name: usize, descriptor: usize) -> (r: Option<
    (usize, usize),
>)
    ensures
        r == found_method(target, name, descriptor),
{
    match target.find_method(name, Some(descriptor)) {
        None => None,
        Some(place) => match target.get_code(place) {
            Some(code) => Some((place, code.max_locals as usize)),
            None => Some((place, usize::MAX)),
        },
    }
}

/// Reading or assigning the static field that the field reference `constant` names.
pub open spec fn static_step(
    machine: Machine,
    texts: Seq<Seq<char>>,
    classes: Map<Key, JavaClass>,
    class_file: &ClassFile,
    constant: usize,
    assign: bool,
    update: usize,
) -> Step {
    match class_and_field_name_at(class_file.cp_info@, constant) {
        Err(e) => Err(e),
        Ok((class_name, field)) => match class_name_at(class_file.cp_info@, class_file.this_class) {
            Err(e) => Err(e),
            Ok(this) => if is_missing(classes, this, class_name) {
                Ok((machine, EventView::LoadClass(class_name), texts))
            } else if assign {
                putstatic_step(machine, texts, (class_name, field), update)
            } else {
                getstatic_step(machine, texts, (class_name, field), update)
            },
        },
    }
}

/// Reading or assigning the field that the field reference `constant` names.
pub open spec fn field_step(
    machine: Machine,
    texts: Seq<Seq<char>>,
    class_file: &ClassFile,
    constant: usize,
    assign: bool,
    update: usize,
) -> Step {
    match class_and_field_name_at(class_file.cp_info@, constant) {
        Err(e) => Err(e),
        Ok((class_name, field)) => if assign {
            putfield_step(machine, texts, class_name, field, update)
        } else {
            getfield_step(machine, texts, class_name, field, update)
        },
    }
}

/// Creating an object of the class that the class entry `constant` names.
pub open spec fn create_step(
    machine: Machine,
    texts: Seq<Seq<char>>,
    classes: Map<Key, JavaClass>,
    class_file: &ClassFile,
    constant: usize,
    index: usize,
    update: usize,
) -> Step {
    match class_name_at(class_file.cp_info@, constant) {
        Err(e) => Err(e),
        Ok(class_name) => match class_name_at(class_file.cp_info@, class_file.this_class) {
            Err(e) => Err(e),
            Ok(this) => new_step(
                machine,
                texts,
                classes,
                class_file,
                this,
                class_name,
                index,
                update,
            ),
        },
    }
}

/// Calling the method that the method reference `constant` names.
pub open spec fn call_step(
    machine: Machine,
    texts: Seq<Seq<char>>,
    classes: Map<Key, JavaClass>,
    class_file: &ClassFile,
    constant: usize,
    is_static: bool,
    index: usize,
    update: usize,
) -> Step {
    match method_at(class_file.cp_info@, constant) {
        Err(e) => Err(e),
        Ok(reference) => match class_name_at(class_file.cp_info@, class_file.this_class) {
            Err(e) => Err(e),
            Ok(this) => invoke_step(
                machine,
                texts,
                classes,
                class_file,
                this,
                reference,
                is_static,
                index,
                update,
            ),
        },
    }
}

/// What an instruction that touches more than the frame makes of the machine.
pub open spec fn heap_step(
    machine: Machine,
    classes: Map<Key, JavaClass>,
    texts: Seq<Seq<char>>,
    class_file: &ClassFile,
    instruction: &Instruction,
    index: usize,
) -> Step {
    let update = following(index, instruction);
    let pool = class_file.cp_info@;
    match instruction {
        Instruction::Ldc(constant) => ldc_step(machine, texts, pool, *constant, update),
        Instruction::Ldc2W(first, second) => ldc2_step(
            machine,
            texts,
            pool,
            wide_index(*first, *second),
            update,
        ),
        Instruction::Iaload => iaload_step(machine, texts, update),
        Instruction::Aaload => aaload_step(machine, texts, update),
        Instruction::Iastore => iastore_step(machine, texts, update),
        Instruction::Aastore => aastore_step(machine, texts, update),
        Instruction::Ireturn => value_return_step(machine, texts),
        Instruction::Areturn => value_return_step(machine, texts),
        Instruction::Return => return_step(machine, texts),
        Instruction::Newarray(code) => newarray_step(machine, texts, *code, index, update),
        Instruction::Anewarray(constant) => match class_name_at(pool, *constant) {
            Err(e) => Err(e),
            Ok(class_name) => anewarray_step(machine, texts, class_name, update),
        },
        Instruction::Multianewarray(constant, dimensions) => match class_name_at(pool, *constant) {
            Err(e) => Err(e),
            Ok(name) => multianewarray_step(machine, texts, name, *dimensions, index, update),
        },
        Instruction::Getstatic(constant) => static_step(
            machine,
            texts,
            classes,
            class_file,
            *constant,
            false,
            update,
        ),
        Instruction::Putstatic(constant) => static_step(
            machine,
            texts,
            classes,
            class_file,
            *constant,
            true,
            update,
        ),
        Instruction::Getfield(constant) => field_step(
            machine,
            texts,
            class_file,
            *constant,
            false,
            update,
        ),
        Instruction::Putfield(constant) => field_step(
            machine,
            texts,
            class_file,
            *constant,
            true,
            update,
        ),
        Instruction::New(constant) => create_step(
            machine,
            texts,
            classes,
            class_file,
            *constant,
            index,
            update,
        ),
        Instruction::Invokevirtual(constant) => call_step(
            machine,
            texts,
            classes,
            class_file,
            *constant,
            false,
            index,
            update,
        ),
        Instruction::Invokespecial(constant) => call_step(
            machine,
            texts,
            classes,
            class_file,
            *constant,
            false,
            index,
            update,
        ),
        Instruction::Invokestatic(constant) => call_step(
            machine,
            texts,
            classes,
            class_file,
            *constant,
            true,
            index,
            update,
        ),
        _ => Err(Error::UnsupportedError(UnsupportedError::Instruction(index))),
    }
}

/// What `instruction`, found at entry `index` of a method of the class `class_file`,
/// makes of the machine: the machine and the string pool afterwards, and what the host
/// is asked for. `classes` is the registry, which need not hold `class_file` itself.
pub open spec fn executed(
    machine: Machine,
    classes: Map<Key, JavaClass>,
    texts: Seq<Seq<char>>,
    class_file: &ClassFile,
    instruction: &Instruction,
    index: usize,
) -> Step {
    if machine.frames.len() == 0 {
        Err(state(StateError::NoFrame))
    } else {
        match local_effect(instruction, top(machine).locals, top(machine).stack, index) {
            Some(Err(e)) => Err(e),
            Some(Ok((locals, stack, update))) => quiet(
                with_top(
                    machine,
                    FrameView { locals, stack, cursor: next_cursor(update), ..top(machine) },
                ),
                texts,
            ),
            None => heap_step(machine, classes, texts, class_file, instruction, index),
        }
    }
}

impl Context {
    fn access_static(
        &mut self,
        texts: Ghost<Seq<Seq<char>>>,
        class_file: &ClassFile,
        constant: usize,
        assign: bool,
        update: usize,
    ) -> (r: Result<Event, Error>)
        requires
            old(self).wf(),
            old(self).stack_frames@.len() >= 1,
        ensures
            final(self).follows(
                *old(self),
                r,
                static_step(
                    old(self).machine(),
                    texts@,
                    old(self).class_map@,
                    class_file,
                    constant,
                    assign,
                    update,
                ),
            ),
    {
        let (class_name, field) = class_file.cp_info.get_class_and_field_name(constant)?;
        let this = class_file.this_class_name()?;
        if self.misses(this, class_name) {
            return Ok(Event::LoadClass(class_name));
        }
        if assign {
            self.putstatic(texts, (class_name, field), update)
        } else {
            self.getstatic(texts, (class_name, field), update)
        }
    }

    fn access_field(
        &mut self,
        texts: Ghost<Seq<Seq<char>>>,
        class_file: &ClassFile,
        constant: usize,
        assign: bool,
        update: usize,
    ) -> (r: Result<Event, Error>)
        requires
            old(self).wf(),
            old(self).stack_frames@.len() >= 1,
        ensures
            final(self).follows(
                *old(self),
                r,
                field_step(old(self).machine(), texts@, class_file, constant, assign, update),
            ),
    {
        let (class_name, field) = class_file.cp_info.get_class_and_field_name(constant)?;
        if assign {
            self.putfield(texts, class_name, field, update)
        } else {
            self.getfield(texts, class_name, field, update)
        }
    }

    fn create(
        &mut self,
        string_pool: &StringPool,
        class_file: &ClassFile,
        constant: usize,
        index: usize,
        update: usize,
    ) -> (r: Result<Event, Error>)
        requires
            old(self).wf(),
            old(self).stack_frames@.len() >= 1,
        ensures
            final(self).follows(
                *old(self),
                r,
                create_step(
                    old(self).machine(),
                    string_pool@,
                    old(self).class_map@,
                    class_file,
                    constant,
                    index,
                    update,
                ),
            ),
    {
        let class_name = class_file.cp_info.get_class_ref_name(constant)?;
        let this = class_file.this_class_name()?;
        self.new_object(string_pool, class_file, this, class_name, index, update)
    }

    fn call(
        &mut self,
        string_pool: &mut StringPool,
        class_file: &ClassFile,
        constant: usize,
        is_static: bool,
        index: usize,
        update: usize,
    ) -> (r: Result<Event, Error>)
        requires
            old(self).wf(),
            old(string_pool).wf(),
            old(self).stack_frames@.len() >= 1,
        ensures
            final(string_pool).wf(),
            final(self).follows(
                *old(self),
                r,
                call_step(
                    old(self).machine(),
                    old(string_pool)@,
                    old(self).class_map@,
                    class_file,
                    constant,
                    is_static,
                    index,
                    update,
                ),
            ),
            final(string_pool)@ == pool_after(
                call_step(
                    old(self).machine(),
                    old(string_pool)@,
                    old(self).class_map@,
                    class_file,
                    constant,
                    is_static,
                    index,
                    update,
                ),
                old(string_pool)@,
            ),
    {
        let (class_name, name, descriptor) = class_file.cp_info.get_method(constant)?;
        let this = class_file.this_class_name()?;
        if self.misses(this, class_name) {
            return Ok(Event::LoadClass(class_name));
        }
        if class_name == this {
            let found = find_target_method(class_file, name, descriptor);
            return self.invoke_custom(
                string_pool,
                found,
                Ghost(*class_file),
                class_name,
                name,
                descriptor,
                is_static,
                index,
                update,
            );
        }
        match self.class_map.get((class_name, 0)) {
            Some(JavaClass::Custom(target)) => {
                let found = find_target_method(target, name, descriptor);
                let ghost target = *target;
                self.invoke_custom(
                    string_pool,
                    found,
                    Ghost(target),
                    class_name,
                    name,
                    descriptor,
                    is_static,
                    index,
                    update,
                )
            },
            Some(JavaClass::BuiltIn(class)) => {
                let method = class.get_method(name);
                let ghost methods = class.methods@;
                self.invoke_builtin(
                    string_pool,
                    method,
                    Ghost(methods),
                    class_name,
                    name,
                    descriptor,
                    update,
                )
            },
            None => Err(Error::InternalError),
        }
    }

    /// Executes `instruction`, which stands at entry `index` of the method of the class
    /// `class_file` that the current frame runs, and moves the frame on. The registry of
    /// the context need not hold `class_file` itself. Hands out what the host is asked
    /// for; when a class is asked for, nothing has changed, and the instruction is to be
    /// executed again once the class was supplied. After a failure nothing has changed.
    pub fn execute(
        &mut self,
        string_pool: &mut StringPool,
        class_file: &ClassFile,
        instruction: &Instruction,
        index: usize,
    ) -> (r: Result<Event, Error>)
        requires
            old(self).wf(),
            old(string_pool).wf(),
        ensures
            final(string_pool).wf(),
            final(self).follows(
                *old(self),
                r,
                executed(
                    old(self).machine(),
                    old(self).class_map@,
                    old(string_pool)@,
                    class_file,
                    instruction,
                    index,
                ),
            ),
            final(string_pool)@ == pool_after(
                executed(
                    old(self).machine(),
                    old(self).class_map@,
                    old(string_pool)@,
                    class_file,
                    instruction,
                    index,
                ),
                old(string_pool)@,
            ),
    {
        let depth = self.stack_frames.len();
        if depth == 0 {
            return Err(Error::StateError(StateError::NoFrame));
        }
        let frame = &mut self.stack_frames[depth - 1];
        match frame.execute(instruction, index) {
            Some(Ok(update)) => {
                frame.cursor = cursor_after(update);
                proof {
                    lemma_frames_update(
                        old(self).stack_frames@,
                        depth - 1,
                        self.stack_frames@[depth - 1],
                    );
                    assert(self.stack_frames@ =~= old(self).stack_frames@.update(
                        depth - 1,
                        self.stack_frames@[depth - 1],
                    ));
                }
                return Ok(Event::Continue);
            },
            Some(Err(e)) => {
                proof {
                    assert(frames_view(self.stack_frames@) =~= frames_view(
                        old(self).stack_frames@,
                    ));
                }
                return Err(e);
            },
            None => {
                proof {
                    assert(frames_view(self.stack_frames@) =~= frames_view(
                        old(self).stack_frames@,
                    ));
                }
            },
        }
        if let Instruction::Lookupswitch(_) = instruction {
            return Err(Error::UnsupportedError(UnsupportedError::Instruction(index)));
        }
        let update = crate::stackframe::advance(index, instruction);
        let texts = Ghost(string_pool@);
        match instruction {
            Instruction::Ldc(constant) => self.ldc(texts, class_file, *constant, update),
            Instruction::Ldc2W(first, second) => self.ldc2(
                texts,
                class_file,
                join_index(*first, *second),
                update,
            ),
            Instruction::Iaload => self.iaload(texts, update),
            Instruction::Aaload => self.aaload(texts, update),
            Instruction::Iastore => self.iastore(texts, update),
            Instruction::Aastore => self.aastore(texts, update),
            Instruction::Ireturn => self.value_return(texts),
            Instruction::Areturn => self.value_return(texts),
            Instruction::Return => self.plain_return(texts),
            Instruction::Newarray(code) => self.newarray(texts, *code, index, update),
            Instruction::Anewarray(constant) => {
                let class_name = class_file.cp_info.get_class_ref_name(*constant)?;
                self.anewarray(texts, class_name, update)
            },
            Instruction::Multianewarray(constant, dimensions) => {
                let name = class_file.cp_info.get_class_ref_name(*constant)?;
                self.multianewarray(string_pool, name, *dimensions, index, update)
            },
            Instruction::Getstatic(constant) => self.access_static(
                texts,
                class_file,
                *constant,
                false,
                update,
            ),
            Instruction::Putstatic(constant) => self.access_static(
                texts,
                class_file,
                *constant,
                true,
                update,
            ),
            Instruction::Getfield(constant) => self.access_field(
                texts,
                class_file,
                *constant,
                false,
                update,
            ),
            Instruction::Putfield(constant) => self.access_field(
                texts,
                class_file,
                *constant,
                true,
                update,
            ),
            Instruction::New(constant) => self.create(
                string_pool,
                class_file,
                *constant,
                index,
                update,
            ),
            Instruction::Invokevirtual(constant) => self.call(
                string_pool,
                class_file,
                *constant,
                false,
                index,
                update,
            ),
            Instruction::Invokespecial(constant) => self.call(
                string_pool,
                class_file,
                *constant,
                false,
                index,
                update,
            ),
            Instruction::Invokestatic(constant) => self.call(
                string_pool,
                class_file,
                *constant,
                true,
                index,
                update,
            ),
            _ => Err(Error::UnsupportedError(UnsupportedError::Instruction(index))),
        }
    }
}

/// The slots of a field of the type `descriptor` that was not assigned to yet.
pub fn create_uninitialized_item(descriptor: &FieldDescriptor) -> (r: (Item, Item))
    ensures
        r == initial_item(descriptor@),
{
    descriptor.initial()
}

/// The static fields after the fields of `class`, from the place `from` on, were
/// registered under the class name `this`, each with the value that its descriptor gives
/// to a field that was not assigned to yet.
pub open spec fn with_static_fields(
    statics: Map<Key, (Item, Item)>,
    class: &ClassFile,
    texts: Seq<Seq<char>>,
    this: usize,
    from: int,
) -> Result<Map<Key, (Item, Item)>, Error>
    decreases class.fields@.len() - from,
{
    if from < 0 || from >= class.fields@.len() {
        Ok(statics)
    } else {
        match field_entry(class, texts, from) {
            Err(e) => Err(e),
            Ok((name, value)) => with_static_fields(
                statics.insert((this, name), value),
                class,
                texts,
                this,
                from + 1,
            ),
        }
    }
}

/// The static fields after all fields of `class` were registered.
pub open spec fn with_class_fields(
    statics: Map<Key, (Item, Item)>,
    class: &ClassFile,
    texts: Seq<Seq<char>>,
) -> Result<Map<Key, (Item, Item)>, Error> {
    match class_name_at(class.cp_info@, class.this_class) {
        Err(e) => Err(e),
        Ok(this) => with_static_fields(statics, class, texts, this, 0),
    }
}

/// Registers every field of `class` in `static_fields`, with the value that its
/// descriptor gives to a field that was not assigned to yet. On failure nothing changes.
pub fn set_static_fields(
    class: &ClassFile,
    static_fields: &mut StaticFields,
    string_pool: &StringPool,
) -> (r:
    Result<(), Error>)
    requires
        old(static_fields).wf(),
    ensures
        final(static_fields).wf(),
        match r {
            Ok(_) => with_class_fields(old(static_fields)@, class, string_pool@) == Ok::<
                Map<Key, (Item, Item)>,
                Error,
            >(final(static_fields)@),
            Err(e) => with_class_fields(old(static_fields)@, class, string_pool@) == Err::<
                Map<Key, (Item, Item)>,
                Error,
            >(e) && final(static_fields)@ == old(static_fields)@,
        },
{
    let this = class.this_class_name()?;
    let mut i: usize = 0;
    while i < class.fields.len()
        invariant
            i <= class.fields@.len(),
            static_fields.wf(),
            static_fields@ == old(static_fields)@,
            class_name_at(class.cp_info@, class.this_class) == Ok::<usize, Error>(this),
            forall|j: int| 0 <= j < i ==> field_entry(class, string_pool@, j) is Ok,
        decreases class.fields@.len() - i,
    {
        match read_field_entry(class, string_pool, i) {
            Ok(_) => {},
            Err(e) => {
                proof {
                    lemma_first_failure(old(static_fields)@, class, string_pool@, this, 0, i as int);
                }
                return Err(e);
            },
        }
        i += 1;
    }
    let mut i: usize = 0;
    while i < class.fields.len()
        invariant
            i <= class.fields@.len(),
            static_fields.wf(),
            class_name_at(class.cp_info@, class.this_class) == Ok::<usize, Error>(this),
            forall|j: int| 0 <= j < class.fields@.len() ==> field_entry(class, string_pool@, j) is Ok,
            with_static_fields(old(static_fields)@, class, string_pool@, this, 0)
                == with_static_fields(static_fields@, class, string_pool@, this, i as int),
        decreases class.fields@.len() - i,
    {
        match read_field_entry(class, string_pool, i) {
            Ok((name, value)) => {
                static_fields.insert((this, name), value);
            },
            Err(_) => {},
        }
        i += 1;
    }
    Ok(())
}

/// Where the field at place `place` is the first from `from` on that has no name or no
/// type, registering the fields fails with its failure.
proof fn lemma_first_failure(
    statics: Map<Key, (Item, Item)>,
    class: &ClassFile,
    texts: Seq<Seq<char>>,
    this: usize,
    from: int,
    place: int,
)
    requires
        0 <= from <= place < class.fields@.len(),
        forall|j: int| from <= j < place ==> field_entry(class, texts, j) is Ok,
        field_entry(class, texts, place) is Err,
    ensures
        with_static_fields(statics, class, texts, this, from) == Err::<
            Map<Key, (Item, Item)>,
            Error,
        >(field_entry(class, texts, place)->Err_0),
    decreases place - from,
{
    if from < place {
        let (name, value) = field_entry(class, texts, from)->Ok_0;
        lemma_first_failure(statics.insert((this, name), value), class, texts, this, from + 1, place);
    }
}

/// The static fields after the fields of the loaded classes among `classes`, from the
/// place `from` on, were registered.
pub open spec fn with_all_fields(
    statics: Map<Key, (Item, Item)>,
    classes: Seq<JavaClass>,
    texts: Seq<Seq<char>>,
    from: int,
) -> Result<Map<Key, (Item, Item)>, Error>
    decreases classes.len() - from,
{
    if from < 0 || from >= classes.len() {
        Ok(statics)
    } else {
        match classes[from] {
            JavaClass::Custom(class) => match with_class_fields(statics, &class, texts) {
                Err(e) => Err(e),
                Ok(more) => with_all_fields(more, classes, texts, from + 1),
            },
            JavaClass::BuiltIn(_) => with_all_fields(statics, classes, texts, from + 1),
        }
    }
}

/// The ids of the three names that the output stream of the system is found by, and the
/// string pool after they were interned.
pub open spec fn system_names(texts: Seq<Seq<char>>) -> (usize, usize, usize, Seq<Seq<char>>) {
    let (texts, system) = interned(texts, "java/lang/System"@);
    let (texts, out) = interned(texts, "out"@);
    let (texts, print_stream) = interned(texts, "java/io/PrintStream"@);
    (system, out, print_stream, texts)
}

/// The static fields that a context starts with: those of the loaded classes of the
/// registry, in the order in which the registry lists them, and the output stream of the
/// system, which is a reference to the print stream class.
pub fn setup_static_fields(string_pool: &mut StringPool, class_map: &ClassMap) -> (r: Result<
    StaticFields,
    Error,
>)
    requires
        old(string_pool).wf(),
    ensures
        final(string_pool).wf(),
        match r {
            Ok(statics) => {
                let names = system_names(old(string_pool)@);
                &&& statics.wf()
                &&& final(string_pool)@ == names.3
                &&& with_all_fields(Map::empty(), class_map.values@, old(string_pool)@, 0) is Ok
                &&& statics@ == with_all_fields(
                    Map::empty(),
                    class_map.values@,
                    old(string_pool)@,
                    0,
                )->Ok_0.insert((names.0, names.1), (Item::Classref(names.2), Item::Null))
            },
            Err(e) => with_all_fields(Map::empty(), class_map.values@, old(string_pool)@, 0)
                == Err::<Map<Key, (Item, Item)>, Error>(e)
                    && final(string_pool)@ == old(string_pool)@,
        },
{
    let mut statics: StaticFields = Table::new();
    let mut i: usize = 0;
    while i < class_map.values.len()
        invariant
            i <= class_map.values@.len(),
            statics.wf(),
            string_pool.wf(),
            string_pool@ == old(string_pool)@,
            with_all_fields(Map::empty(), class_map.values@, string_pool@, 0) == with_all_fields(
                statics@,
                class_map.values@,
                string_pool@,
                i as int,
            ),
        decreases class_map.values@.len() - i,
    {
        match &class_map.values[i] {
            JavaClass::Custom(class) => {
                set_static_fields(class, &mut statics, string_pool)?;
            },
            JavaClass::BuiltIn(_) => {},
        }
        i += 1;
    }
    let system = string_pool.insert(String::from_str("java/lang/System"));
    let out = string_pool.insert(String::from_str("out"));
    let print_stream = string_pool.insert(String::from_str("java/io/PrintStream"));
    statics.insert((system, out), (Item::Classref(print_stream), Item::Null));
    Ok(statics)
}

/// The static fields that a context for the program of `class_file` starts with: those
/// of the loaded classes among `classes`, the output stream of the system, and those of
/// `class_file`, registered in this order.
pub open spec fn first_statics(
    classes: Seq<JavaClass>,
    class_file: &ClassFile,
    texts: Seq<Seq<char>>,
) -> Result<
    Map<Key, (Item, Item)>,
    Error,
> {
    match with_all_fields(Map::empty(), classes, texts, 0) {
        Err(e) => Err(e),
        Ok(statics) => {
            let names = system_names(texts);
            with_class_fields(
                statics.insert((names.0, names.1), (Item::Classref(names.2), Item::Null)),
                class_file,
                names.3,
            )
        },
    }
}

/// `n` local variables that were not assigned to yet.
pub open spec fn blank_locals(n: int) -> Seq<Item> {
    Seq::new(n as nat, |i: int| Item::Null)
}

/// The frame that runs the class initializer of `class`, which is registered under the
/// name id `name`, if it has one: the first method named `<clinit>` that has a body.
pub open spec fn initializer_frame(class: &ClassFile, texts: Seq<Seq<char>>, name: usize) -> Option<
    FrameView,
> {
    match id_of(texts, "<clinit>"@) {
        None => None,
        Some(id) => match class.method_place(id, None) {
            None => None,
            Some(place) => if class.methods@[place as int].is_executable() {
                Some(
                    FrameView {
                        locals: blank_locals(class.methods@[place as int].body().max_locals as int),
                        stack: Seq::empty(),
                        class_name_id: name,
                        method_index: place,
                        cursor: 0,
                    },
                )
            } else {
                None
            },
        },
    }
}

/// The name id of `class`, if every reference of the class resolves.
pub open spec fn admitted_name(class: &ClassFile) -> Result<usize, Error> {
    if class.references_resolve() {
        class_name_at(class.cp_info@, class.this_class)
    } else {
        Err(Error::ResolutionError(ResolutionError::UnresolvedReference))
    }
}

/// What registering `class` makes of the machine and of the registry, and the name id
/// of the class. A class with a reference that does not resolve is refused. A class
/// whose name the registry holds changes nothing. Of another
/// class the fields become static fields, a frame for its initializer is pushed if it
/// has one, and the registry holds it afterwards.
pub open spec fn registered(
    machine: Machine,
    classes: Map<Key, JavaClass>,
    texts: Seq<Seq<char>>,
    class: ClassFile,
) -> Result<(Machine, Map<Key, JavaClass>, usize), Error> {
    match admitted_name(&class) {
        Err(e) => Err(e),
        Ok(name) => if classes.contains_key(class_key(name)) {
            Ok((machine, classes, name))
        } else {
            match with_static_fields(machine.statics, &class, texts, name, 0) {
                Err(e) => Err(e),
                Ok(statics) => Ok(
                    (
                        Machine {
                            statics,
                            frames: match initializer_frame(&class, texts, name) {
                                Some(frame) => machine.frames.push(frame),
                                None => machine.frames,
                            },
                            ..machine
                        },
                        classes.insert(class_key(name), JavaClass::Custom(class)),
                        name,
                    ),
                ),
            }
        },
    }
}

/// The instruction that the current frame executes next, with its class and its entry.
pub open spec fn stepped(
    machine: Machine,
    classes: Map<Key, JavaClass>,
    texts: Seq<Seq<char>>,
) -> Step {
    if machine.frames.len() == 0 {
        Ok((machine, EventView::Finished, texts))
    } else {
        let frame = top(machine);
        let key = class_key(frame.class_name_id);
        if !classes.contains_key(key) {
            Err(Error::InternalError)
        } else {
            match classes[key] {
                JavaClass::Custom(class) => if frame.method_index < class.methods@.len()
                    && class.methods@[frame.method_index as int].is_executable() {
                    let code = class.methods@[frame.method_index as int].body();
                    if frame.cursor < code.code@.len() {
                        executed(
                            machine,
                            classes.remove(key),
                            texts,
                            &class,
                            &code.code@[frame.cursor as int],
                            frame.cursor,
                        )
                    } else {
                        Err(state(StateError::CursorOutOfRange(frame.cursor)))
                    }
                } else {
                    Err(Error::InternalError)
                },
                JavaClass::BuiltIn(_) => Err(Error::InternalError),
            }
        }
    }
}

/// What up to `fuel` steps make of the machine: they end with the first step that asks
/// something of the host or fails.
pub open spec fn ran(
    machine: Machine,
    classes: Map<Key, JavaClass>,
    texts: Seq<Seq<char>>,
    fuel: nat,
) -> Step
    decreases fuel,
{
    if fuel == 0 {
        Ok((machine, EventView::Continue, texts))
    } else {
        match stepped(machine, classes, texts) {
            Ok((after, EventView::Continue, pool)) => ran(after, classes, pool, (fuel - 1) as nat),
            other => other,
        }
    }
}

/// The machine and the string pool where up to `fuel` steps end: behind the first step
/// that asks something of the host, or before the first step that fails.
pub open spec fn halted(
    machine: Machine,
    classes: Map<Key, JavaClass>,
    texts: Seq<Seq<char>>,
    fuel: nat,
) -> (Machine, Seq<Seq<char>>)
    decreases fuel,
{
    if fuel == 0 {
        (machine, texts)
    } else {
        match stepped(machine, classes, texts) {
            Ok((after, EventView::Continue, pool)) => halted(
                after,
                classes,
                pool,
                (fuel - 1) as nat,
            ),
            Ok((after, _, pool)) => (after, pool),
            Err(_) => (machine, texts),
        }
    }
}

impl Context {
    /// A context with the registry `class_map`, with the static fields of its loaded
    /// classes and of `class_file`, without frames, objects and arrays. Fails where a
    /// field of one of these classes has no name or no type.
    pub fn new(
        string_pool: &mut StringPool,
        class_map: ClassMap,
        class_file: &ClassFile,
        root_path: &str,
    ) -> (r:
        Result<Context, Error>)
        requires
            old(string_pool).wf(),
            class_map.wf(),
        ensures
            final(string_pool).wf(),
            match first_statics(class_map.values@, class_file, old(string_pool)@) {
                Ok(statics) => r matches Ok(context) && context.wf() && context.class_map
                    == class_map && context.root_path@ == root_path@ && context.program_count
                    == 0 && context.machine() == (Machine {
                    frames: Seq::empty(),
                    statics,
                    objects: Seq::empty(),
                    arrays: Seq::empty(),
                }),
                Err(e) => r matches Err(x) && x == e,
            },
            with_all_fields(Map::empty(), class_map.values@, old(string_pool)@, 0) is Ok
                ==> final(string_pool)@ == system_names(old(string_pool)@).3,
            with_all_fields(Map::empty(), class_map.values@, old(string_pool)@, 0) is Err
                ==> final(string_pool)@ == old(string_pool)@,
    {
        let mut static_fields = setup_static_fields(string_pool, &class_map)?;
        set_static_fields(class_file, &mut static_fields, string_pool)?;
        let context = Context {
            class_map,
            program_count: 0,
            stack_frames: Vec::new(),
            root_path: String::from_str(root_path),
            static_fields,
            object_map: ObjectMap::new(),
            array_map: ArrayMap::new(),
        };
        assert(frames_view(context.stack_frames@) =~= Seq::<FrameView>::empty());
        Ok(context)
    }

    /// A frame with `count` local variables that were not assigned to yet, at the start
    /// of the method `place` of the class `class_name`.
    fn fresh_frame(count: usize, class_name: usize, place: usize) -> (r: Stackframe)
        ensures
            r@ == (FrameView {
                locals: blank_locals(count as int),
                stack: Seq::empty(),
                class_name_id: class_name,
                method_index: place,
                cursor: 0,
            }),
    {
        let mut frame = Stackframe::new(count);
        frame.class_name_id = class_name;
        frame.method_index = place;
        frame
    }

    /// Computes `initializer_frame`.
    fn initializer(class: &ClassFile, string_pool: &StringPool, name: usize) -> (r: Option<
        Stackframe,
    >)
        requires
            string_pool.wf(),
        ensures
            match r {
                Some(frame) => initializer_frame(class, string_pool@, name) == Some(frame@),
                None => initializer_frame(class, string_pool@, name) is None,
            },
    {
        let id = string_pool.find(&String::from_str("<clinit>"))?;
        let place = class.find_method(id, None)?;
        let code = class.get_code(place)?;
        Some(Self::fresh_frame(code.max_locals as usize, name, place))
    }

    /// Puts `class` into the registry, unless the registry holds a class of its name:
    /// its fields become static fields, and a frame for its initializer is pushed if it
    /// has one, so that the initializer runs before anything else. Hands out the name id
    /// of the class. After a failure nothing has changed.
    pub fn register(
        &mut self,
        string_pool: &StringPool,
        class: ClassFile,
    ) -> (r: Result<usize, Error>)
        requires
            old(self).wf(),
            string_pool.wf(),
        ensures
            final(self).wf(),
            final(self).root_path == old(self).root_path,
            final(self).program_count == old(self).program_count,
            match registered(old(self).machine(), old(self).class_map@, string_pool@, class) {
                Ok((machine, classes, name)) => r == Ok::<usize, Error>(name)
                    && final(self).machine() == machine && final(self).class_map@ == classes,
                Err(e) => r == Err::<usize, Error>(e)
                    && final(self).machine() == old(self).machine()
                    && final(self).class_map@ == old(self).class_map@,
            },
    {
        if !class.resolves() {
            return Err(Error::ResolutionError(ResolutionError::UnresolvedReference));
        }
        let name = class.this_class_name()?;
        if self.class_map.contains((name, 0)) {
            return Ok(name);
        }
        set_static_fields(&class, &mut self.static_fields, string_pool)?;
        match Self::initializer(&class, string_pool, name) {
            Some(frame) => {
                proof {
                    lemma_frames_push(self.stack_frames@, frame);
                }
                self.stack_frames.push(frame);
            },
            None => {},
        }
        self.class_map.insert((name, 0), JavaClass::Custom(class));
        Ok(name)
    }

    /// Parses the class file `bytes` and registers the class. Hands out the name id of
    /// the class.
    pub fn load_class(&mut self, string_pool: &mut StringPool, bytes: &[u8]) -> (r: Result<
        usize,
        Error,
    >)
        requires
            old(self).wf(),
            old(string_pool).wf(),
        ensures
            final(self).wf(),
            final(string_pool).wf(),
            final(self).root_path == old(self).root_path,
            final(self).program_count == old(self).program_count,
            final(string_pool)@ == crate::class_file::class_texts_at(
                bytes@,
                0,
                old(string_pool)@,
            ),
            match crate::class_file::class_file_at(bytes@, 0, old(string_pool)@) {
                Err(e) => r == Err::<usize, Error>(e)
                    && final(self).machine() == old(self).machine()
                    && final(self).class_map@ == old(self).class_map@,
                Ok((view, _, texts)) => final(string_pool)@ == texts && exists|class: ClassFile|
                    class@ == view && #[trigger] final(self).is_registration(
                        *old(self),
                        r,
                        registered(old(self).machine(), old(self).class_map@, texts, class),
                    ),
            },
    {
        let (class, _) = ClassFile::new(string_pool, bytes, 0)?;
        let ghost parsed = class;
        let r = self.register(string_pool, class);
        proof {
            assert(self.is_registration(
                *old(self),
                r,
                registered(old(self).machine(), old(self).class_map@, string_pool@, parsed),
            ));
        }
        r
    }

    /// The context is what `registration` makes of `before`, and `result` is its name id
    /// or its failure.
    pub open spec fn is_registration(
        &self,
        before: Context,
        result: Result<usize, Error>,
        registration: Result<(Machine, Map<Key, JavaClass>, usize), Error>,
    ) -> bool {
        match registration {
            Ok((machine, classes, name)) => result == Ok::<usize, Error>(name) && self.machine()
                == machine && self.class_map@ == classes,
            Err(e) => result == Err::<usize, Error>(e) && self.machine() == before.machine()
                && self.class_map@ == before.class_map@,
        }
    }

    /// Executes the instruction at which the current frame stands. Hands out what the
    /// host is asked for: `Finished` when no frame is left.
    pub fn step(&mut self, string_pool: &mut StringPool) -> (r: Result<Event, Error>)
        requires
            old(self).wf(),
            old(string_pool).wf(),
        ensures
            final(string_pool).wf(),
            final(self).follows(
                *old(self),
                r,
                stepped(old(self).machine(), old(self).class_map@, old(string_pool)@),
            ),
            final(string_pool)@ == pool_after(
                stepped(old(self).machine(), old(self).class_map@, old(string_pool)@),
                old(string_pool)@,
            ),
    {
        let depth = self.stack_frames.len();
        if depth == 0 {
            return Ok(Event::Finished);
        }
        let class_name = self.stack_frames[depth - 1].class_name_id;
        let method_index = self.stack_frames[depth - 1].method_index;
        let cursor = self.stack_frames[depth - 1].cursor;
        let class = match self.class_map.remove((class_name, 0)) {
            Some(class) => class,
            None => {
                assert(self.class_map@ =~= old(self).class_map@);
                return Err(Error::InternalError);
            },
        };
        let result = match &class {
            JavaClass::Custom(class_file) => match class_file.get_code(method_index) {
                Some(code) => {
                    if cursor < code.code.len() {
                        self.execute(string_pool, class_file, &code.code[cursor], cursor)
                    } else {
                        Err(Error::StateError(StateError::CursorOutOfRange(cursor)))
                    }
                },
                None => Err(Error::InternalError),
            },
            JavaClass::BuiltIn(_) => Err(Error::InternalError),
        };
        self.class_map.insert((class_name, 0), class);
        assert(self.class_map@ =~= old(self).class_map@);
        result
    }

    /// Executes up to `fuel` instructions, and stops behind the first that asks something
    /// of the host. Hands out what is asked for: `Continue` when `fuel` instructions were
    /// executed and none asked for anything. A failure ends the run: every frame leaves.
    pub fn run(&mut self, string_pool: &mut StringPool, fuel: usize) -> (r: Result<Event, Error>)
        requires
            old(self).wf(),
            old(string_pool).wf(),
        ensures
            final(string_pool).wf(),
            final(self).wf(),
            final(self).class_map@ == old(self).class_map@,
            final(self).root_path == old(self).root_path,
            final(self).program_count == old(self).program_count,
            match ran(old(self).machine(), old(self).class_map@, old(string_pool)@, fuel as nat) {
                Ok((machine, event, texts)) => r matches Ok(e) && e@ == event
                    && final(self).machine() == machine && final(string_pool)@ == texts,
                Err(e) => r matches Err(x) && x == e,
            },
            r is Ok ==> final(self).machine() == halted(
                old(self).machine(),
                old(self).class_map@,
                old(string_pool)@,
                fuel as nat,
            ).0,
            r is Err ==> final(self).machine() == (Machine {
                frames: Seq::empty(),
                ..halted(
                    old(self).machine(),
                    old(self).class_map@,
                    old(string_pool)@,
                    fuel as nat,
                ).0
            }),
            final(string_pool)@ == halted(
                old(self).machine(),
                old(self).class_map@,
                old(string_pool)@,
                fuel as nat,
            ).1,
    {
        let mut left = fuel;
        while left > 0
            invariant
                self.wf(),
                string_pool.wf(),
                self.class_map@ == old(self).class_map@,
                self.root_path == old(self).root_path,
                self.program_count == old(self).program_count,
                ran(old(self).machine(), old(self).class_map@, old(string_pool)@, fuel as nat)
                    == ran(self.machine(), self.class_map@, string_pool@, left as nat),
                halted(old(self).machine(), old(self).class_map@, old(string_pool)@, fuel as nat)
                    == halted(self.machine(), self.class_map@, string_pool@, left as nat),
            decreases left,
        {
            match self.step(string_pool) {
                Ok(Event::Continue) => {},
                Ok(event) => {
                    return Ok(event);
                },
                Err(e) => {
                    self.stack_frames.clear();
                    assert(frames_view(self.stack_frames@) =~= Seq::<FrameView>::empty());
                    return Err(e);
                },
            }
            left -= 1;
        }
        Ok(Event::Continue)
    }
}

/// The local variables of the entry frame of a method with `max_locals` local
/// variables: the first is a reference to the class `super_class`, and there is a first
/// one even if the method declares none.
pub open spec fn entry_frame_locals(max_locals: int, super_class: usize) -> Seq<Item> {
    blank_locals(if max_locals < 1 {
        1
    } else {
        max_locals
    }).update(0, Item::Classref(super_class))
}

/// What entering the program of `class` makes of the frames and of the registry, and
/// what the host is asked for: the class is registered, and a frame for its entry
/// method, the first public method `main` with a body, is pushed. The super class is
/// asked for unless the registry holds it.
pub open spec fn entered(
    machine: Machine,
    classes: Map<Key, JavaClass>,
    texts: Seq<Seq<char>>,
    class: ClassFile,
) -> Result<(Machine, Map<Key, JavaClass>, EventView), Error> {
    let missing = Err(Error::ResolutionError(ResolutionError::EntryNotFound));
    match admitted_name(&class) {
        Err(e) => Err(e),
        Ok(name) => match class_name_at(class.cp_info@, class.super_class) {
            Err(e) => Err(e),
            Ok(super_class) => match id_of(texts, "main"@) {
                None => missing,
                Some(id) => match class.entry_place(id) {
                    None => missing,
                    Some(place) => Ok(
                        (
                            Machine {
                                frames: machine.frames.push(
                                    FrameView {
                                        locals: entry_frame_locals(
                                            class.methods@[place as int].body().max_locals as int,
                                            super_class,
                                        ),
                                        stack: Seq::empty(),
                                        class_name_id: name,
                                        method_index: place,
                                        cursor: 0,
                                    },
                                ),
                                ..machine
                            },
                            classes.insert(class_key(name), JavaClass::Custom(class)),
                            if is_missing(
                                classes.insert(class_key(name), JavaClass::Custom(class)),
                                name,
                                super_class,
                            ) {
                                EventView::LoadClass(super_class)
                            } else {
                                EventView::Continue
                            },
                        ),
                    ),
                },
            },
        },
    }
}

impl Context {
    /// Enters the program of `class_file`: registers the class and pushes a frame for its
    /// entry method, whose first local variable is a reference to the super class. Hands
    /// out what the host is asked for before the first step: the super class, unless the
    /// registry holds it. After a failure nothing has changed.
    pub fn run_entry_file(&mut self, string_pool: &StringPool, class_file: ClassFile) -> (r: Result<
        Event,
        Error,
    >)
        requires
            old(self).wf(),
            string_pool.wf(),
        ensures
            final(self).wf(),
            final(self).root_path == old(self).root_path,
            final(self).program_count == old(self).program_count,
            match entered(old(self).machine(), old(self).class_map@, string_pool@, class_file) {
                Ok((machine, classes, event)) => r matches Ok(e) && e@ == event
                    && final(self).machine() == machine && final(self).class_map@ == classes,
                Err(e) => r matches Err(x) && x == e && final(self).machine() == old(self).machine()
                    && final(self).class_map@ == old(self).class_map@,
            },
    {
        let missing = Err(Error::ResolutionError(ResolutionError::EntryNotFound));
        if !class_file.resolves() {
            return Err(Error::ResolutionError(ResolutionError::UnresolvedReference));
        }
        let name = class_file.this_class_name()?;
        let super_class = class_file.super_class_name()?;
        let id = match string_pool.find(&String::from_str("main")) {
            Some(id) => id,
            None => {
                return missing;
            },
        };
        let place = match class_file.get_entry_method(id) {
            Some(place) => place,
            None => {
                return missing;
            },
        };
        let max_locals = match class_file.get_code(place) {
            Some(code) => code.max_locals as usize,
            None => {
                return missing;
            },
        };
        let count = if max_locals < 1 {
            1
        } else {
            max_locals
        };
        let mut frame = Self::fresh_frame(count, name, place);
        frame.local_variables.set(0, Item::Classref(super_class));
        proof {
            lemma_frames_push(self.stack_frames@, frame);
        }
        self.stack_frames.push(frame);
        self.class_map.insert((name, 0), JavaClass::Custom(class_file));
        if self.misses(name, super_class) {
            Ok(Event::LoadClass(super_class))
        } else {
            Ok(Event::Continue)
        }
    }
}

} // verus!
