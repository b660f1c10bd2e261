//! What holds of the engine whatever program it runs.

use vstd::prelude::*;
use crate::array::ArrayView;
use crate::attribute::instruction::Instruction;
use crate::class_file::{instruction_resolves, wide_index, ClassFile};
use crate::constant::{
    class_and_field_name_at, class_name_at, loadable_at, method_at, wide_loadable_at,
};
use crate::context::{
    value_on_top, with_value,
    admitted_name, builtin_invoke_step, custom_invoke_step, entry_locals, executed, nested_array,
    nested_children, registered, return_step, top, top_items, value_return_step, with_items,
    with_top, EventView, Machine,
};
use crate::error::{Error, StateError};
use crate::java_class::builtin::{
    builtin_effect, method_from, parameter_slots_of, text_at, BuiltInMethod,
};
use crate::java_class::{class_key, JavaClass};
use crate::method::parameter_slots;
use crate::operand::{
    int_operands, long_binary, long_items, long_operands, long_result, without_top, Arithmetic,
    Item,
};
use crate::stackframe::{local_effect, FrameView};
use crate::table::Key;
use crate::utils::{high_half, long_bits, long_value, low_half};

verus! {

/// The two halves of a 64-bit value spell that value.
pub proof fn lemma_halves_join(value: i64)
    ensures
        long_value(high_half(value), low_half(value)) == value,
{
    let bits = long_bits(value);
    assert(bits < 0x1_0000_0000_0000_0000);
    assert(bits == (bits / 0x1_0000_0000) * 0x1_0000_0000 + bits % 0x1_0000_0000);
    assert(bits / 0x1_0000_0000 < 0x1_0000_0000);
}

/// A 64-bit value that was pushed as two slots is popped as two slots: two values that
/// lie on a stack in their two slots each, the upper half deeper, are the operands that a
/// 64-bit operation finds, whatever lies below them; and no 32-bit operation takes a
/// half for an operand.
pub proof fn theorem_wide_values_pair(stack: Seq<Item>, first: i64, second: i64)
    ensures
        long_operands(
            stack.push(long_items(first).0).push(long_items(first).1).push(
                long_items(second).0,
            ).push(long_items(second).1),
        ) == Ok::<(i64, i64), Error>((first, second)),
        without_top(
            stack.push(long_items(first).0).push(long_items(first).1).push(
                long_items(second).0,
            ).push(long_items(second).1),
            4,
        ) == stack,
        int_operands(stack.push(long_items(first).0).push(long_items(first).1)) == Err::<
            (i32, i32),
            Error,
        >(Error::StateError(StateError::TypeMismatch)),
{
    lemma_halves_join(first);
    lemma_halves_join(second);
    let full = stack.push(long_items(first).0).push(long_items(first).1).push(
        long_items(second).0,
    ).push(long_items(second).1);
    assert(without_top(full, 4) =~= stack);
}

/// What a 64-bit operation leaves on the stack for its result are the two slots of that
/// result, which the next 64-bit operation reads as that same value.
pub proof fn theorem_wide_results_pair(op: Arithmetic, stack: Seq<Item>)
    requires
        long_binary(op, stack) is Ok,
    ensures
        ({
            let (rest, items) = long_binary(op, stack)->Ok_0;
            let (first, second) = long_operands(stack)->Ok_0;
            let value = long_result(op, first, second)->Ok_0;
            &&& rest == without_top(stack, 4)
            &&& items == long_items(value)
            &&& long_value(high_half(value), low_half(value)) == value
        }),
{
    let (first, second) = long_operands(stack)->Ok_0;
    lemma_halves_join(long_result(op, first, second)->Ok_0);
}

/// The number of slots by which an instruction that touches nothing but the frame
/// changes the height of the operand stack.
pub open spec fn stack_change(instruction: &Instruction) -> int {
    match instruction {
        Instruction::IconstN(_) => 1,
        Instruction::Bipush(_) => 1,
        Instruction::Sipush(_) => 1,
        Instruction::LconstN(_) => 2,
        Instruction::Iload(_) => 1,
        Instruction::IloadN(_) => 1,
        Instruction::Aload(_) => 1,
        Instruction::AloadN(_) => 1,
        Instruction::LloadN(_) => 2,
        Instruction::Istore(_) => -1,
        Instruction::IstoreN(_) => -1,
        Instruction::Astore(_) => -1,
        Instruction::AstoreN(_) => -1,
        Instruction::LstoreN(_) => -2,
        Instruction::Pop => -1,
        Instruction::Dup => 1,
        Instruction::Iadd => -1,
        Instruction::Isub => -1,
        Instruction::Imul => -1,
        Instruction::Idiv => -1,
        Instruction::Irem => -1,
        Instruction::Ladd => -2,
        Instruction::Lsub => -2,
        Instruction::Lmul => -2,
        Instruction::Ldiv => -2,
        Instruction::Lrem => -2,
        Instruction::Lcmp => -3,
        Instruction::Ifeq(_, _) => -1,
        Instruction::Ifne(_, _) => -1,
        Instruction::Iflt(_, _) => -1,
        Instruction::Ifge(_, _) => -1,
        Instruction::Ifgt(_, _) => -1,
        Instruction::Ifle(_, _) => -1,
        Instruction::Ificmpeq(_, _) => -2,
        Instruction::Ificmpne(_, _) => -2,
        Instruction::Ificmplt(_, _) => -2,
        Instruction::Ificmpge(_, _) => -2,
        Instruction::Ificmpgt(_, _) => -2,
        Instruction::Ificmple(_, _) => -2,
        Instruction::Lookupswitch(_) => -1,
        _ => 0,
    }
}

/// Each instruction that touches nothing but the frame changes the height of the operand
/// stack by the number of slots that belongs to its kind, whatever the stack holds.
pub proof fn theorem_stack_effect(
    instruction: &Instruction,
    locals: Seq<Item>,
    stack: Seq<Item>,
    index: usize,
)
    requires
        local_effect(instruction, locals, stack, index) matches Some(Ok(_)),
    ensures
        local_effect(instruction, locals, stack, index)->0->Ok_0.1.len() == stack.len()
            + stack_change(instruction),
        local_effect(instruction, locals, stack, index)->0->Ok_0.0.len() == locals.len(),
{
}

/// What the instructions of `region`, executed one behind the other, make of a frame.
pub open spec fn region_effect(
    region: Seq<Instruction>,
    locals: Seq<Item>,
    stack: Seq<Item>,
    index: usize,
) -> Option<(Seq<Item>, Seq<Item>)>
    decreases region.len(),
{
    if region.len() == 0 {
        Some((locals, stack))
    } else {
        match local_effect(&region[0], locals, stack, index) {
            Some(Ok((more, higher, _))) => region_effect(
                region.subrange(1, region.len() as int),
                more,
                higher,
                index,
            ),
            _ => None,
        }
    }
}

/// The sum of the stack changes of the instructions of `region`.
pub open spec fn region_change(region: Seq<Instruction>) -> int
    decreases region.len(),
{
    if region.len() == 0 {
        0
    } else {
        stack_change(&region[0]) + region_change(region.subrange(1, region.len() as int))
    }
}

/// Over a run of instructions that touch nothing but the frame, the height of the
/// operand stack changes by the sum of the changes of the single instructions.
pub proof fn theorem_stack_balance(
    region: Seq<Instruction>,
    locals: Seq<Item>,
    stack: Seq<Item>,
    index: usize,
)
    requires
        region_effect(region, locals, stack, index) is Some,
    ensures
        (region_effect(region, locals, stack, index)->0).1.len() == stack.len() + region_change(
            region,
        ),
    decreases region.len(),
{
    if region.len() > 0 {
        theorem_stack_effect(&region[0], locals, stack, index);
        let (more, higher, _) = local_effect(&region[0], locals, stack, index)->0->Ok_0;
        theorem_stack_balance(region.subrange(1, region.len() as int), more, higher, index);
    }
}

/// A run of `dup` and `pop` in turns leaves the operand stack as it was.
pub proof fn theorem_dup_pop_is_neutral(locals: Seq<Item>, stack: Seq<Item>, index: usize)
    requires
        stack.len() >= 1,
    ensures
        region_effect(seq![Instruction::Dup, Instruction::Pop], locals, stack, index) == Some(
            (locals, stack),
        ),
{
    let region = seq![Instruction::Dup, Instruction::Pop];
    let rest = region.subrange(1, 2);
    assert(rest[0] == Instruction::Pop);
    assert(rest.subrange(1, 1).len() == 0);
    let higher = stack.push(stack.last());
    assert(higher.drop_last() =~= stack);
    assert(region_effect(rest.subrange(1, 1), locals, stack, index) == Some((locals, stack)));
    assert(region_effect(rest, locals, higher, index) == Some((locals, stack)));
}

/// In a class that the registry admits, every pool index that an instruction of a method
/// body holds names an entry of the variant that the instruction dereferences it as.
pub proof fn theorem_references_resolve(class: ClassFile, method: int, entry: int)
    requires
        admitted_name(&class) is Ok,
        0 <= method < class.methods@.len(),
        class.methods@[method].is_executable(),
        0 <= entry < class.methods@[method].body().code@.len(),
    ensures
        class_name_at(class.cp_info@, class.this_class) is Ok,
        match class.methods@[method].body().code@[entry] {
            Instruction::Getstatic(constant) => class_and_field_name_at(
                class.cp_info@,
                constant,
            ) is Ok,
            Instruction::Putstatic(constant) => class_and_field_name_at(
                class.cp_info@,
                constant,
            ) is Ok,
            Instruction::Getfield(constant) => class_and_field_name_at(
                class.cp_info@,
                constant,
            ) is Ok,
            Instruction::Putfield(constant) => class_and_field_name_at(
                class.cp_info@,
                constant,
            ) is Ok,
            Instruction::Invokevirtual(constant) => method_at(class.cp_info@, constant) is Ok,
            Instruction::Invokespecial(constant) => method_at(class.cp_info@, constant) is Ok,
            Instruction::Invokestatic(constant) => method_at(class.cp_info@, constant) is Ok,
            Instruction::New(constant) => class_name_at(class.cp_info@, constant) is Ok,
            Instruction::Anewarray(constant) => class_name_at(class.cp_info@, constant) is Ok,
            Instruction::Multianewarray(constant, _) => class_name_at(
                class.cp_info@,
                constant,
            ) is Ok,
            Instruction::Ldc(constant) => loadable_at(class.cp_info@, constant) is Ok,
            Instruction::Ldc2W(first, second) => wide_loadable_at(
                class.cp_info@,
                wide_index(first, second),
            ) is Ok,
            _ => true,
        },
{
    assert(class.references_resolve());
    assert(class.method_resolves(method));
    let code = class.methods@[method].body().code@;
    assert(instruction_resolves(class.cp_info@, &code[entry]));
}

/// The registry holds a class that it admitted under the name that the class gives for
/// itself; a class that was there before stays.
pub proof fn theorem_registered_class_is_held(
    machine: Machine,
    classes: Map<Key, JavaClass>,
    texts: Seq<Seq<char>>,
    class: ClassFile,
)
    requires
        registered(machine, classes, texts, class) is Ok,
    ensures
        ({
            let (_, after, name) = registered(machine, classes, texts, class)->Ok_0;
            &&& class_name_at(class.cp_info@, class.this_class) == Ok::<usize, Error>(name)
            &&& after.contains_key(class_key(name))
            &&& forall|key: Key| classes.contains_key(key) ==> after.contains_key(key) && after[key]
                == classes[key]
        }),
{
}

/// Loading a class twice yields the same entry of the registry and runs its initializer
/// once: after a class was registered, registering a class of the same name changes
/// neither the machine nor the registry, whatever string pool it is read with.
pub proof fn theorem_loading_is_idempotent(
    machine: Machine,
    classes: Map<Key, JavaClass>,
    texts: Seq<Seq<char>>,
    class: ClassFile,
    again: ClassFile,
    later: Seq<Seq<char>>,
)
    requires
        registered(machine, classes, texts, class) is Ok,
        admitted_name(&again) == admitted_name(&class),
    ensures
        ({
            let (once, held, name) = registered(machine, classes, texts, class)->Ok_0;
            registered(once, held, later, again) == Ok::<
                (Machine, Map<Key, JavaClass>, usize),
                Error,
            >((once, held, name))
        }),
{
}

/// Creating an array with the arrays below it only adds arrays: those that were there
/// keep their ids.
pub proof fn lemma_nested_array_grows(
    arrays: Seq<ArrayView>,
    counts: Seq<usize>,
    level: int,
    size: nat,
    initial: (Item, Item),
)
    ensures
        arrays.len() < nested_array(arrays, counts, level, size, initial).0.len(),
        forall|i: int|
            0 <= i < arrays.len() ==> nested_array(arrays, counts, level, size, initial).0[i]
                == arrays[i],
    decreases counts.len() - level, size + 1,
{
    if !(level < 0 || level + 1 >= counts.len()) {
        lemma_nested_children_grow(arrays, counts, level, size, initial);
    }
}

/// Creating the children of an array only adds arrays.
pub proof fn lemma_nested_children_grow(
    arrays: Seq<ArrayView>,
    counts: Seq<usize>,
    level: int,
    count: nat,
    initial: (Item, Item),
)
    ensures
        arrays.len() <= nested_children(arrays, counts, level, count, initial).0.len(),
        forall|i: int|
            0 <= i < arrays.len() ==> nested_children(arrays, counts, level, count, initial).0[i]
                == arrays[i],
    decreases counts.len() - level, count,
{
    if !(count == 0 || level < 0 || level + 1 >= counts.len()) {
        lemma_nested_children_grow(arrays, counts, level, (count - 1) as nat, initial);
        let before = nested_children(arrays, counts, level, (count - 1) as nat, initial).0;
        lemma_nested_array_grows(before, counts, level + 1, counts[level + 1] as nat, initial);
    }
}

/// Ids are never taken back: whatever an instruction does, every object and every array
/// that was there is there afterwards under its id, and an object keeps its class.
pub proof fn theorem_ids_never_decrease(
    machine: Machine,
    classes: Map<Key, JavaClass>,
    texts: Seq<Seq<char>>,
    class_file: &ClassFile,
    instruction: &Instruction,
    index: usize,
)
    requires
        executed(machine, classes, texts, class_file, instruction, index) is Ok,
    ensures
        ({
            let after = executed(machine, classes, texts, class_file, instruction, index)->Ok_0.0;
            &&& machine.objects.len() <= after.objects.len()
            &&& machine.arrays.len() <= after.arrays.len()
            &&& forall|id: int|
                0 <= id < machine.objects.len() ==> (#[trigger] after.objects[id]).class_name_id
                    == machine.objects[id].class_name_id
        }),
{
    match instruction {
        Instruction::Multianewarray(constant, dimensions) => {
            let name = class_name_at(class_file.cp_info@, *constant);
            if name is Ok {
                let stack = top(machine).stack;
                let counts = crate::context::lengths_from(
                    stack,
                    *dimensions as int,
                    Seq::empty(),
                    0,
                );
                let initial = crate::context::innermost_value(
                    text_at(texts, name->Ok_0),
                    *dimensions,
                );
                if counts is Ok && initial is Ok {
                    lemma_nested_array_grows(
                        machine.arrays,
                        counts->Ok_0,
                        0,
                        counts->Ok_0[0] as nat,
                        initial->Ok_0,
                    );
                }
            }
        },
        _ => {},
    }
}

/// Ids never repeat: the object that `new` creates and the array that `newarray`
/// creates get the id that follows the ids handed out before, and the reference to it
/// lies on top of the operand stack.
pub proof fn theorem_new_ids_are_fresh(
    machine: Machine,
    classes: Map<Key, JavaClass>,
    texts: Seq<Seq<char>>,
    class_file: &ClassFile,
    instruction: &Instruction,
    index: usize,
)
    requires
        executed(machine, classes, texts, class_file, instruction, index) matches Ok(
            (_, EventView::Continue, _),
        ),
        machine.objects.len() < usize::MAX,
        machine.arrays.len() < usize::MAX,
    ensures
        ({
            let after = executed(machine, classes, texts, class_file, instruction, index)->Ok_0.0;
            &&& instruction is New ==> after.objects.len() == machine.objects.len() + 1 && top(
                after,
            ).stack.last() == Item::Objectref(machine.objects.len() as usize)
            &&& instruction is Newarray ==> after.arrays.len() == machine.arrays.len() + 1 && top(
                after,
            ).stack.last() == Item::Arrayref(machine.arrays.len() as usize)
        }),
{
}

/// After a call and the return from it, the operand stack of the caller is what it was
/// before the call, without the slots that the descriptor of the called method counts
/// (and the receiver, unless the call is static), and with the returned value on top if
/// one is returned. `callee` is the frame of the called method when it returns.
pub proof fn theorem_frame_discipline(
    machine: Machine,
    texts: Seq<Seq<char>>,
    target: &ClassFile,
    class_name: usize,
    name: usize,
    descriptor: usize,
    is_static: bool,
    index: usize,
    update: usize,
    callee: FrameView,
)
    requires
        machine.frames.len() >= 1,
        custom_invoke_step(
            machine,
            texts,
            target,
            class_name,
            name,
            descriptor,
            is_static,
            index,
            update,
        ) is Ok,
    ensures
        ({
            let called = custom_invoke_step(
                machine,
                texts,
                target,
                class_name,
                name,
                descriptor,
                is_static,
                index,
                update,
            )->Ok_0.0;
            let slots = parameter_slots(texts[descriptor as int])->0;
            let taken = if is_static {
                slots as int
            } else {
                slots as int + 1
            };
            let returning = with_top(called, callee);
            let before = top(machine).stack;
            &&& called.frames.len() == machine.frames.len() + 1
            &&& top(called).locals.subrange(0, taken) == top_items(before, taken)
            &&& top(return_step(returning, texts)->Ok_0.0).stack == without_top(before, taken)
            &&& callee.stack.len() >= 1 ==> value_return_step(returning, texts) is Ok && top(
                value_return_step(returning, texts)->Ok_0.0,
            ).stack == without_top(before, taken).push(callee.stack.last())
        }),
{
    let called = custom_invoke_step(
        machine,
        texts,
        target,
        class_name,
        name,
        descriptor,
        is_static,
        index,
        update,
    )->Ok_0.0;
    let slots = parameter_slots(texts[descriptor as int])->0;
    let taken = if is_static {
        slots as int
    } else {
        slots as int + 1
    };
    let before = top(machine).stack;
    let place = target.method_place(name, Some(descriptor))->0;
    let max_locals = target.methods@[place as int].body().max_locals as int;
    assert(entry_locals(top_items(before, taken), max_locals).subrange(0, taken) =~= top_items(
        before,
        taken,
    ));
}

/// A call of a built-in method takes from the operand stack of the caller the slots
/// that the method counts for its descriptor, and puts back what the method hands out.
pub proof fn theorem_builtin_discipline(
    machine: Machine,
    texts: Seq<Seq<char>>,
    methods: Seq<BuiltInMethod>,
    class_name: usize,
    name: usize,
    descriptor: usize,
    update: usize,
)
    requires
        machine.frames.len() >= 1,
        builtin_invoke_step(machine, texts, methods, class_name, name, descriptor, update) is Ok,
    ensures
        ({
            let after = builtin_invoke_step(
                machine,
                texts,
                methods,
                class_name,
                name,
                descriptor,
                update,
            )->Ok_0.0;
            let method = method_from(methods, name, 0)->0;
            let slots = parameter_slots_of(method.code_type, text_at(texts, descriptor));
            let before = top(machine).stack;
            let handed = builtin_effect(method.code_type, top_items(before, slots as int), texts)->Ok_0.1;
            &&& after.frames.len() == machine.frames.len()
            &&& top(after).stack == with_items(without_top(before, slots as int), handed, None)
        }),
{
}

/// An instruction leaves the frames below the current one alone, but for the frame right
/// below it when a value is returned into it.
pub proof fn theorem_lower_frames_stay(
    machine: Machine,
    classes: Map<Key, JavaClass>,
    texts: Seq<Seq<char>>,
    class_file: &ClassFile,
    instruction: &Instruction,
    index: usize,
)
    requires
        executed(machine, classes, texts, class_file, instruction, index) is Ok,
    ensures
        ({
            let after = executed(machine, classes, texts, class_file, instruction, index)->Ok_0.0;
            &&& after.frames.len() >= machine.frames.len() - 1
            &&& forall|i: int|
                0 <= i < machine.frames.len() - 2 ==> after.frames[i] == machine.frames[i]
            &&& !(instruction is Ireturn || instruction is Areturn) && machine.frames.len() >= 2
                ==> after.frames[machine.frames.len() - 2] == machine.frames[machine.frames.len()
                - 2]
        }),
{
}

/// A value that a field access pushes in its one or two slots is the value that a field
/// assignment pops: a 64-bit value in two slots, any other value in one.
pub proof fn theorem_field_values_pair(stack: Seq<Item>, value: (Item, Item))
    requires
        value.0.is_wide() ==> value.1.is_wide(),
        !value.0.is_wide() ==> value.1 is Null,
    ensures
        value_on_top(with_value(stack, value)) == Ok::<((Item, Item), int), Error>(
            (
                value,
                if value.0.is_wide() {
                    2int
                } else {
                    1int
                },
            ),
        ),
        without_top(
            with_value(stack, value),
            if value.0.is_wide() {
                2
            } else {
                1
            },
        ) == stack,
{
    let pushed = with_value(stack, value);
    if value.0.is_wide() {
        assert(without_top(pushed, 2) =~= stack);
    } else {
        assert(without_top(pushed, 1) =~= stack);
    }
}

/// The registry admits a class only if every reference of the class resolves: whatever
/// is registered or entered has passed.
pub proof fn theorem_admitted_classes_resolve(
    machine: Machine,
    classes: Map<Key, JavaClass>,
    texts: Seq<Seq<char>>,
    class: ClassFile,
)
    ensures
        registered(machine, classes, texts, class) is Ok ==> admitted_name(&class) is Ok
            && class.references_resolve(),
        crate::context::entered(machine, classes, texts, class) is Ok ==> admitted_name(&class) is Ok
            && class.references_resolve(),
{
}

} // verus!
