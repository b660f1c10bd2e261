use r_jvm::attribute::instruction::Instruction;
use r_jvm::error::{Error, StateError};
use r_jvm::java_class::builtin::{BuiltInMethod, BuitlInCodeType, Output};
use r_jvm::operand::{Arithmetic, Item, OperandStack};
use r_jvm::option::{emit_debug_info, RjOption};
use r_jvm::stackframe::Stackframe;
use r_jvm::string_pool::StringPool;
use r_jvm::utils::split_long;

fn frame(locals: Vec<Item>, stack: Vec<Item>) -> Stackframe {
    let mut frame = Stackframe::new(locals.len());
    frame.local_variables = locals;
    frame.operand_stack.stack = stack;
    frame
}

fn long(value: i64) -> Vec<Item> {
    let (high, low) = split_long(value);
    vec![Item::Long(high), Item::Long(low)]
}

fn run(instruction: Instruction, locals: Vec<Item>, stack: Vec<Item>) -> (Option<Result<usize, Error>>, Vec<Item>, Vec<Item>) {
    let mut frame = frame(locals, stack);
    let result = frame.execute(&instruction, 10);
    (result, frame.local_variables, frame.operand_stack.stack)
}

fn ints(values: &[i32]) -> Vec<Item> {
    values.iter().map(|value| Item::Int(*value)).collect()
}

#[test]
fn int_arithmetic_agrees_with_the_host() {
    let pairs = [
        (7, 3),
        (-7, 3),
        (7, -3),
        (-7, -3),
        (i32::MAX, 1),
        (i32::MIN, -1),
        (i32::MIN, 1),
        (123456789, 987654),
        (0, 5),
        (46341, 46341),
    ];
    for (a, b) in pairs {
        let cases = [
            (Instruction::Iadd, a.wrapping_add(b)),
            (Instruction::Isub, a.wrapping_sub(b)),
            (Instruction::Imul, a.wrapping_mul(b)),
            (Instruction::Idiv, a.wrapping_div(b)),
            (Instruction::Irem, a.wrapping_rem(b)),
        ];
        for (instruction, expected) in cases {
            let (result, _, stack) = run(instruction, vec![], ints(&[99, a, b]));
            assert_eq!(result, Some(Ok(10)));
            assert_eq!(stack, ints(&[99, expected]));
        }
    }
}

#[test]
fn long_arithmetic_agrees_with_the_host() {
    let pairs = [
        (1_000_000_000i64, 1_000_000_000i64),
        (-5, 3),
        (i64::MAX, 2),
        (i64::MIN, -1),
        (-1, i64::MIN),
        (0x1_0000_0000, 0xffff_ffff),
    ];
    for (a, b) in pairs {
        let cases = [
            (Instruction::Ladd, a.wrapping_add(b)),
            (Instruction::Lsub, a.wrapping_sub(b)),
            (Instruction::Lmul, a.wrapping_mul(b)),
            (Instruction::Ldiv, a.wrapping_div(b)),
            (Instruction::Lrem, a.wrapping_rem(b)),
        ];
        for (instruction, expected) in cases {
            let mut stack = vec![Item::Null];
            stack.extend(long(a));
            stack.extend(long(b));
            let (result, _, stack) = run(instruction, vec![], stack);
            assert_eq!(result, Some(Ok(10)));
            let mut wanted = vec![Item::Null];
            wanted.extend(long(expected));
            assert_eq!(stack, wanted);
        }
    }
}

#[test]
fn division_by_zero_fails_and_leaves_the_stack() {
    for instruction in [Instruction::Idiv, Instruction::Irem] {
        let (result, _, stack) = run(instruction, vec![], ints(&[5, 0]));
        assert_eq!(result, Some(Err(Error::ArithmeticError)));
        assert_eq!(stack, ints(&[5, 0]));
    }
    for instruction in [Instruction::Ldiv, Instruction::Lrem] {
        let mut stack = long(5);
        stack.extend(long(0));
        let (result, _, after) = run(instruction, vec![], stack.clone());
        assert_eq!(result, Some(Err(Error::ArithmeticError)));
        assert_eq!(after, stack);
    }
}

#[test]
fn operands_of_the_wrong_kind_are_refused() {
    let (result, _, stack) = run(Instruction::Iadd, vec![], vec![Item::Int(1), Item::Long(2)]);
    assert_eq!(result, Some(Err(Error::StateError(StateError::TypeMismatch))));
    assert_eq!(stack, vec![Item::Int(1), Item::Long(2)]);
    let (result, _, _) = run(Instruction::Iadd, vec![], ints(&[1]));
    assert_eq!(result, Some(Err(Error::StateError(StateError::StackUnderflow))));
    let (result, _, _) = run(Instruction::Ladd, vec![], long(1));
    assert_eq!(result, Some(Err(Error::StateError(StateError::StackUnderflow))));
    let (result, _, _) = run(Instruction::Ladd, vec![], ints(&[1, 2, 3, 4]));
    assert_eq!(result, Some(Err(Error::StateError(StateError::TypeMismatch))));
    let (result, _, _) = run(Instruction::Pop, vec![], vec![]);
    assert_eq!(result, Some(Err(Error::StateError(StateError::StackUnderflow))));
    let (result, _, _) = run(Instruction::Ifeq(1, 2), vec![], vec![Item::Null]);
    assert_eq!(result, Some(Err(Error::StateError(StateError::TypeMismatch))));
}

#[test]
fn long_comparison_gives_the_sign() {
    for (a, b, sign) in [(1i64, 2i64, -1), (2, 1, 1), (5, 5, 0), (i64::MIN, i64::MAX, -1), (-1, -2, 1)] {
        let mut stack = long(a);
        stack.extend(long(b));
        let (result, _, stack) = run(Instruction::Lcmp, vec![], stack);
        assert_eq!(result, Some(Ok(10)));
        assert_eq!(stack, ints(&[sign]));
    }
}

#[test]
fn constants_and_locals_move_between_stack_and_frame() {
    let (result, _, stack) = run(Instruction::IconstN(-1), vec![], vec![]);
    assert_eq!((result, stack), (Some(Ok(10)), ints(&[-1])));
    let (result, _, stack) = run(Instruction::Bipush(-30), vec![], vec![]);
    assert_eq!((result, stack), (Some(Ok(11)), ints(&[-30])));
    let (result, _, stack) = run(Instruction::Sipush(300), vec![], vec![]);
    assert_eq!((result, stack), (Some(Ok(12)), ints(&[300])));
    let (result, _, stack) = run(Instruction::LconstN(1), vec![], vec![]);
    assert_eq!((result, stack), (Some(Ok(10)), long(1)));
    let (result, _, stack) = run(Instruction::Iload(1), ints(&[4, 5]), vec![]);
    assert_eq!((result, stack), (Some(Ok(11)), ints(&[5])));
    let (result, _, stack) = run(Instruction::AloadN(0), vec![Item::Objectref(3)], vec![]);
    assert_eq!((result, stack), (Some(Ok(10)), vec![Item::Objectref(3)]));
    let (result, locals, stack) = run(Instruction::IstoreN(1), ints(&[4, 5]), ints(&[8, 9]));
    assert_eq!((result, locals, stack), (Some(Ok(10)), ints(&[4, 9]), ints(&[8])));
    let (result, locals, stack) = run(Instruction::LstoreN(1), ints(&[0, 0, 0]), long(-2));
    assert_eq!(result, Some(Ok(10)));
    assert_eq!(locals, vec![Item::Int(0), Item::Long(0xffff_ffff), Item::Long(0xffff_fffe)]);
    assert_eq!(stack, vec![]);
    let (result, _, stack) = run(Instruction::LloadN(1), locals, vec![]);
    assert_eq!((result, stack), (Some(Ok(10)), long(-2)));
    let (result, locals, _) = run(Instruction::Iinc(0, -3), ints(&[i32::MIN + 1]), vec![]);
    assert_eq!((result, locals), (Some(Ok(12)), ints(&[i32::MAX - 1])));
}

#[test]
fn locals_outside_the_frame_are_refused() {
    let out = |place| Some(Err(Error::StateError(StateError::LocalOutOfRange(place))));
    assert_eq!(run(Instruction::Iload(2), ints(&[1, 2]), vec![]).0, out(2));
    assert_eq!(run(Instruction::LloadN(1), ints(&[1, 2]), vec![]).0, out(1));
    assert_eq!(run(Instruction::Istore(2), ints(&[1, 2]), ints(&[1])).0, out(2));
    assert_eq!(run(Instruction::LstoreN(1), ints(&[1, 2]), long(1)).0, out(1));
    assert_eq!(run(Instruction::Iinc(5, 1), ints(&[1, 2]), vec![]).0, out(5));
    let (result, locals, stack) = run(Instruction::Istore(2), ints(&[1, 2]), ints(&[7]));
    assert_eq!(result, out(2));
    assert_eq!((locals, stack), (ints(&[1, 2]), ints(&[7])));
}

#[test]
fn branches_choose_between_their_two_targets() {
    let cases = [
        (Instruction::Ifeq(100, 12), 0, 100),
        (Instruction::Ifeq(100, 12), 1, 12),
        (Instruction::Ifne(100, 12), 0, 12),
        (Instruction::Ifne(100, 12), -1, 100),
        (Instruction::Iflt(100, 12), -1, 100),
        (Instruction::Iflt(100, 12), 0, 12),
        (Instruction::Ifge(100, 12), 0, 100),
        (Instruction::Ifge(100, 12), -1, 12),
        (Instruction::Ifgt(100, 12), 1, 100),
        (Instruction::Ifgt(100, 12), 0, 12),
        (Instruction::Ifle(100, 12), 0, 100),
        (Instruction::Ifle(100, 12), 1, 12),
    ];
    for (instruction, value, target) in cases {
        let (result, _, stack) = run(instruction, vec![], ints(&[5, value]));
        assert_eq!(result, Some(Ok(target)));
        assert_eq!(stack, ints(&[5]));
    }
    let cases = [
        (Instruction::Ificmpeq(100, 12), 3, 3, 100),
        (Instruction::Ificmpeq(100, 12), 3, 4, 12),
        (Instruction::Ificmpne(100, 12), 3, 4, 100),
        (Instruction::Ificmplt(100, 12), 3, 4, 100),
        (Instruction::Ificmplt(100, 12), 4, 3, 12),
        (Instruction::Ificmpge(100, 12), 4, 4, 100),
        (Instruction::Ificmpgt(100, 12), 4, 3, 100),
        (Instruction::Ificmpgt(100, 12), 3, 4, 12),
        (Instruction::Ificmple(100, 12), 3, 4, 100),
        (Instruction::Ificmple(100, 12), 4, 3, 12),
    ];
    for (instruction, first, second, target) in cases {
        let (result, _, stack) = run(instruction, vec![], ints(&[5, first, second]));
        assert_eq!(result, Some(Ok(target)));
        assert_eq!(stack, ints(&[5]));
    }
    assert_eq!(run(Instruction::Goto(77), vec![], ints(&[1])).0, Some(Ok(77)));
    let (result, _, stack) = run(Instruction::Ifne(100, 12), vec![], vec![Item::Boolean(true)]);
    assert_eq!((result, stack), (Some(Ok(100)), vec![]));
}

#[test]
fn a_switch_takes_the_first_matching_pair_or_the_default() {
    let table = || Instruction::Lookupswitch(vec![(None, 30), (Some(-1), 10), (Some(7), 20), (Some(7), 25)]);
    assert_eq!(run(table(), vec![], ints(&[7])).0, Some(Ok(20)));
    assert_eq!(run(table(), vec![], ints(&[-1])).0, Some(Ok(10)));
    assert_eq!(run(table(), vec![], ints(&[8])).0, Some(Ok(30)));
    assert_eq!(run(table(), vec![], ints(&[8])).2, vec![]);
    assert_eq!(
        run(Instruction::Lookupswitch(vec![]), vec![], ints(&[8])).0,
        Some(Err(Error::InternalError))
    );
}

#[test]
fn dup_then_pop_leaves_the_stack_as_it_was() {
    for stack in [ints(&[1]), ints(&[1, 2, 3]), vec![Item::Objectref(4), Item::Null]] {
        let mut frame = frame(vec![], stack.clone());
        for _ in 0..5 {
            assert_eq!(frame.execute(&Instruction::Dup, 0), Some(Ok(0)));
            assert_eq!(frame.operand_stack.stack.len(), stack.len() + 1);
            assert_eq!(frame.execute(&Instruction::Pop, 1), Some(Ok(1)));
            assert_eq!(frame.operand_stack.stack, stack);
        }
    }
}

#[test]
fn the_stack_height_changes_by_the_effect_of_each_instruction() {
    let region = [
        (Instruction::IconstN(3), 1),
        (Instruction::IconstN(4), 1),
        (Instruction::Iadd, -1),
        (Instruction::Dup, 1),
        (Instruction::IstoreN(0), -1),
        (Instruction::LconstN(1), 2),
        (Instruction::LconstN(0), 2),
        (Instruction::Lcmp, -3),
        (Instruction::Pop, -1),
        (Instruction::Ifeq(1, 2), -1),
    ];
    let mut frame = frame(ints(&[0]), vec![]);
    let mut height: i64 = 0;
    for (instruction, change) in region {
        assert!(matches!(frame.execute(&instruction, 0), Some(Ok(_))));
        height += change;
        assert_eq!(frame.operand_stack.stack.len() as i64, height);
    }
    assert_eq!(height, 0);
}

#[test]
fn instructions_of_the_heap_are_left_to_the_context() {
    let mut frame = frame(vec![], ints(&[1]));
    assert_eq!(frame.execute(&Instruction::Getstatic(1), 0), None);
    assert_eq!(frame.execute(&Instruction::Return, 0), None);
    assert_eq!(frame.execute(&Instruction::Iaload, 0), None);
    assert_eq!(frame.operand_stack.stack, ints(&[1]));
}

#[test]
fn the_operand_stack_does_arithmetic_by_itself() {
    let mut stack = OperandStack { stack: ints(&[1, 20, 22]) };
    assert_eq!(stack.iadd(), Ok(Item::Int(42)));
    assert_eq!(stack.stack, ints(&[1]));
    let mut stack = OperandStack { stack: ints(&[20, 22]) };
    assert_eq!(stack.isub(), Ok(Item::Int(-2)));
    let mut stack = OperandStack { stack: ints(&[20, 22]) };
    assert_eq!(stack.imul(), Ok(Item::Int(440)));
    let mut stack = OperandStack { stack: ints(&[-20, 3]) };
    assert_eq!(stack.idiv(), Ok(Item::Int(-6)));
    let mut stack = OperandStack { stack: ints(&[-20, 3]) };
    assert_eq!(stack.irem(), Ok(Item::Int(-2)));
    let mut wide = long(5);
    wide.extend(long(7));
    let mut stack = OperandStack { stack: wide.clone() };
    assert_eq!(stack.ladd(), Ok((Item::Long(0), Item::Long(12))));
    let mut stack = OperandStack { stack: wide.clone() };
    assert_eq!(stack.lsub(), Ok((Item::Long(0xffff_ffff), Item::Long(0xffff_fffe))));
    let mut stack = OperandStack { stack: wide.clone() };
    assert_eq!(stack.lmul(), Ok((Item::Long(0), Item::Long(35))));
    let mut stack = OperandStack { stack: wide.clone() };
    assert_eq!(stack.ldiv(), Ok((Item::Long(0), Item::Long(0))));
    let mut stack = OperandStack { stack: wide.clone() };
    assert_eq!(stack.lrem(), Ok((Item::Long(0), Item::Long(5))));
    let mut stack = OperandStack { stack: wide.clone() };
    assert_eq!(stack.lcmp(), Ok(Item::Int(-1)));
    let mut stack = OperandStack { stack: wide };
    assert_eq!(stack.extract_long_values_as_i64(), Ok((5, 7)));
    assert_eq!(stack.stack, vec![]);
    let mut stack = OperandStack { stack: vec![Item::Int(1), Item::Float(7), Item::Float(9)] };
    assert_eq!(stack.extract_float_values(), Ok((7, 9)));
    assert_eq!(stack.stack, ints(&[1]));
    assert_eq!(stack.extract_float_values(), Err(Error::StateError(StateError::StackUnderflow)));
    let mut stack = OperandStack { stack: ints(&[1, 2]) };
    assert_eq!(stack.extract_float_values(), Err(Error::StateError(StateError::TypeMismatch)));
    assert_eq!(stack.extract_int_values(), Ok((1, 2)));
    assert_eq!(stack.int_operation(Arithmetic::Add), Err(Error::StateError(StateError::StackUnderflow)));
    assert_eq!(OperandStack::new().stack, vec![]);
}

#[test]
fn built_in_methods_print_and_convert() {
    let mut pool = StringPool::new();
    let hello = pool.insert(String::from("hello"));
    let println = BuiltInMethod::new(1, BuitlInCodeType::Println);
    let text = |output: Option<Output>| match output {
        Some(Output::Text(text)) => text,
        other => panic!("no text: {:?}", other),
    };
    let (output, item) = println.run(&mut pool, &vec![Item::String(hello)]).unwrap();
    assert_eq!((text(output), item), (String::from("hello"), None));
    let (output, _) = println.run(&mut pool, &vec![Item::Int(-42)]).unwrap();
    assert_eq!(text(output), "-42");
    let (output, _) = println.run(&mut pool, &long(i64::MIN)).unwrap();
    assert_eq!(text(output), "-9223372036854775808");
    let (output, _) = println.run(&mut pool, &long(-1)).unwrap();
    assert_eq!(text(output), "-1");
    let (output, _) = println.run(&mut pool, &vec![Item::Boolean(true)]).unwrap();
    assert_eq!(text(output), "true");
    let (output, _) = println.run(&mut pool, &vec![Item::Objectref(12)]).unwrap();
    assert_eq!(text(output), "objectref: 12");
    let (output, _) = println.run(&mut pool, &vec![Item::Null]).unwrap();
    assert_eq!(text(output), "null");
    let (output, _) = println.run(&mut pool, &vec![Item::Float(0x3fc0_0000)]).unwrap();
    assert!(matches!(output, Some(Output::Float(0x3fc0_0000))));
    let (output, _) = println.run(&mut pool, &vec![Item::Double(0x3ff8_0000), Item::Double(0)]).unwrap();
    assert!(matches!(output, Some(Output::Double(0x3ff8_0000, 0))));
    assert!(println.run(&mut pool, &vec![]).is_err());
    assert!(println.run(&mut pool, &vec![Item::Long(1)]).is_err());
    assert!(println.run(&mut pool, &vec![Item::String(99)]).is_err());

    let to_string = BuiltInMethod::new(2, BuitlInCodeType::JavaLangObjectToString);
    let known = pool.values.len();
    let (output, item) = to_string.run(&mut pool, &vec![Item::Int(1234)]).unwrap();
    assert!(output.is_none());
    assert_eq!(item, Some(Item::String(known)));
    assert_eq!(pool.get_value(&known), Ok(String::from("1234")));
    let (_, again) = to_string.run(&mut pool, &vec![Item::Int(1234)]).unwrap();
    assert_eq!(again, Some(Item::String(known)));
    assert_eq!(to_string.run(&mut pool, &vec![Item::Null]).map(|_| ()), Err(Error::StateError(StateError::TypeMismatch)));

    let init = BuiltInMethod::new(3, BuitlInCodeType::JavaLangObjectInit);
    let (output, item) = init.run(&mut pool, &vec![Item::Objectref(0)]).unwrap();
    assert!(output.is_none() && item.is_none());

    let wide = pool.insert(String::from("(J)V"));
    let double = pool.insert(String::from("(D)V"));
    let narrow = pool.insert(String::from("(I)V"));
    assert_eq!(println.parameter_length(&pool, wide), 2);
    assert_eq!(println.parameter_length(&pool, double), 2);
    assert_eq!(println.parameter_length(&pool, narrow), 1);
    assert_eq!(println.parameter_length(&pool, 9999), 1);
    assert_eq!(to_string.parameter_length(&pool, wide), 1);
    assert_eq!(init.parameter_length(&pool, narrow), 1);
}

#[test]
fn a_built_in_method_runs_in_the_topmost_frame() {
    let mut pool = StringPool::new();
    let to_string = BuiltInMethod::new(2, BuitlInCodeType::JavaLangObjectToString);
    let mut frames = vec![frame(vec![], ints(&[5])), frame(ints(&[77]), vec![])];
    let output = to_string.execute(&mut pool, &mut frames).unwrap();
    assert!(output.is_none());
    assert_eq!(frames.len(), 1);
    assert_eq!(frames[0].operand_stack.stack, vec![Item::Int(5), Item::String(0)]);
    assert_eq!(pool.get_value(&0), Ok(String::from("77")));
    let mut alone = vec![frame(ints(&[77]), vec![])];
    assert_eq!(to_string.execute(&mut pool, &mut alone).map(|_| ()), Err(Error::StateError(StateError::NoFrame)));
    assert_eq!(alone.len(), 1);
    let mut none: Vec<Stackframe> = vec![];
    assert_eq!(to_string.execute(&mut pool, &mut none).map(|_| ()), Err(Error::StateError(StateError::NoFrame)));
}

#[test]
fn the_debug_mode_tells_the_instruction_and_the_stack() {
    let frame = frame(vec![], vec![Item::Int(7), Item::Long(1), Item::Null]);
    assert_eq!(emit_debug_info(&Instruction::Iadd, Some(&frame), 0), None);
    assert_eq!(emit_debug_info(&Instruction::Iadd, Some(&frame), 3), None);
    assert_eq!(
        emit_debug_info(&Instruction::Iadd, Some(&frame), 1),
        Some(String::from("instruction: iadd"))
    );
    assert_eq!(
        emit_debug_info(&Instruction::Ldc(2), Some(&frame), 2),
        Some(String::from(
            "instruction: ldc             #2\noperand_stack:\nlength: 3\nitem ====================\n#0 int: 7\n#1 long: 1\n#2 null\n========================\n"
        ))
    );
    assert_eq!(
        emit_debug_info(&Instruction::Pop, None, 2),
        Some(String::from("instruction: pop\noperand_stack:\n\n"))
    );
    assert_eq!(RjOption::new().debug_mode, 0);
}

#[test]
fn items_of_one_kind_are_ordered() {
    assert!(Item::Int(1) < Item::Int(2));
    assert!(Item::Int(-1) <= Item::Int(-1));
    assert!(Item::Boolean(false) < Item::Boolean(true));
    assert!(Item::String(3) > Item::String(2));
    assert!(Item::Long(1) < Item::Long(2));
    assert_eq!(Item::Null.partial_cmp(&Item::Null), Some(std::cmp::Ordering::Equal));
    assert_eq!(Item::Int(1).partial_cmp(&Item::Long(1)), None);
    assert_eq!(Item::Float(1).partial_cmp(&Item::Float(1)), None);
    assert_eq!(Item::Objectref(1).partial_cmp(&Item::Objectref(2)), None);
    assert!(!(Item::Int(0) < Item::Null));
    assert_eq!(Item::Arrayref(4).to_string(), "array_ref 4");
    assert_eq!(Item::Int(-4).to_string(), "int: -4");
    assert_eq!(Item::Boolean(false).to_string(), "boolean: false");
    assert_eq!(Item::Classref(4).to_string(), "class_ref: 4");
}
