use r_jvm::attribute::instruction::{compute_branch_target, compute_switch_target, Instruction};
use r_jvm::error::{DecodeError, Error};

fn decode(bytes: &[u8], position: usize) -> Result<(Instruction, usize, usize), Error> {
    Instruction::new(bytes, 1, bytes[0] as usize, position)
}

fn shown(bytes: &[u8], position: usize) -> String {
    let (instruction, _, _) = decode(bytes, position).unwrap();
    format!("{:?}", instruction)
}

#[test]
fn instructions_without_operands_take_one_byte() {
    assert_eq!(shown(&[0x02], 0), "IconstN(-1)");
    assert_eq!(shown(&[0x03], 0), "IconstN(0)");
    assert_eq!(shown(&[0x08], 0), "IconstN(5)");
    assert_eq!(shown(&[0x09], 0), "LconstN(0)");
    assert_eq!(shown(&[0x0a], 0), "LconstN(1)");
    assert_eq!(shown(&[0x1d], 0), "IloadN(3)");
    assert_eq!(shown(&[0x1e], 0), "LloadN(0)");
    assert_eq!(shown(&[0x2b], 0), "AloadN(1)");
    assert_eq!(shown(&[0x3c], 0), "IstoreN(1)");
    assert_eq!(shown(&[0x42], 0), "LstoreN(3)");
    assert_eq!(shown(&[0x4e], 0), "AstoreN(3)");
    assert_eq!(shown(&[0x94], 0), "Lcmp");
    assert_eq!(shown(&[0xb1], 0), "Return");
    let (_, next, used) = decode(&[0x60, 0xff], 0).unwrap();
    assert_eq!((next, used), (1, 1));
}

#[test]
fn operands_are_read_big_endian_and_signed() {
    assert_eq!(shown(&[0x10, 0x7f], 0), "Bipush(127)");
    assert_eq!(shown(&[0x10, 0xe2], 0), "Bipush(-30)");
    assert_eq!(shown(&[0x11, 0x01, 0x00], 0), "Sipush(256)");
    assert_eq!(shown(&[0x11, 0xff, 0xfe], 0), "Sipush(-2)");
    assert_eq!(shown(&[0x12, 0x09], 0), "Ldc(9)");
    assert_eq!(shown(&[0x14, 0x01, 0x02], 0), "Ldc2W(1, 2)");
    assert_eq!(shown(&[0x84, 0x02, 0xff], 0), "Iinc(2, -1)");
    assert_eq!(shown(&[0xb2, 0x01, 0x02], 0), "Getstatic(258)");
    assert_eq!(shown(&[0xbc, 0x0a], 0), "Newarray(10)");
    assert_eq!(shown(&[0xc5, 0x00, 0x07, 0x02], 0), "Multianewarray(7, 2)");
    let (_, next, used) = decode(&[0xc5, 0x00, 0x07, 0x02], 0).unwrap();
    assert_eq!((next, used), (4, 4));
    let (_, next, used) = decode(&[0xb6, 0x00, 0x07], 0).unwrap();
    assert_eq!((next, used), (3, 3));
}

#[test]
fn branches_hold_the_entries_before_their_targets() {
    // at entry 10 with the offset 5: target 15, held as 14; the branch ends at entry 12
    assert_eq!(shown(&[0xa4, 0x00, 0x05], 10), "Ificmple(14, 12)");
    assert_eq!(shown(&[0x99, 0x00, 0x03], 0), "Ifeq(2, 2)");
    // a branch back by 4 from entry 10: target 6, held as 5
    assert_eq!(shown(&[0xa7, 0xff, 0xfc], 10), "Goto(5)");
    // the offset 0 at entry 0 names the entry before the first, modulo 2^16
    assert_eq!(shown(&[0xa7, 0x00, 0x00], 0), "Goto(65535)");
    assert_eq!(compute_branch_target(5, 10), 14);
    assert_eq!(compute_branch_target(0xfffc, 10), 5);
    assert_eq!(compute_switch_target(0xffff_fffc, 10), 5);
    assert_eq!(compute_switch_target(20, 3), 22);
}

#[test]
fn a_switch_is_aligned_and_holds_its_pairs() {
    // opcode at entry 1: two bytes of alignment follow
    let bytes = [
        0xab, 0, 0, // alignment
        0, 0, 0, 30, // default
        0, 0, 0, 2, // pairs
        0xff, 0xff, 0xff, 0xff, 0, 0, 0, 10, // -1 -> 10
        0, 0, 0, 7, 0, 0, 0, 20, // 7 -> 20
    ];
    let (instruction, next, used) = decode(&bytes, 1).unwrap();
    assert_eq!(format!("{:?}", instruction), "Lookupswitch([(None, 30), (Some(-1), 10), (Some(7), 20)])");
    assert_eq!((next, used), (bytes.len(), bytes.len()));
    assert_eq!(instruction.counsume_index(), 24);
    // opcode at entry 3: no alignment
    let bytes = [0xab, 0, 0, 0, 8, 0, 0, 0, 0];
    let (instruction, next, used) = decode(&bytes, 3).unwrap();
    assert_eq!(format!("{:?}", instruction), "Lookupswitch([(None, 10)])");
    assert_eq!((next, used), (9, 9));
    assert_eq!(
        decode(&[0xab, 0, 0, 0, 8, 0, 0, 0, 1], 3),
        Err(Error::DecodeError(DecodeError::FileTooShort))
    );
}

#[test]
fn unknown_opcodes_and_missing_operands_fail() {
    let unknown = Instruction::new(&[0xff], 1, 0xff, 7).map(|_| ());
    assert_eq!(unknown, Err(Error::DecodeError(DecodeError::UnknownOpcode(0xff, 7))));
    let unknown = Instruction::new(&[], 0, 0x00, 0).map(|_| ());
    assert_eq!(unknown, Err(Error::DecodeError(DecodeError::UnknownOpcode(0, 0))));
    let short = Err(Error::DecodeError(DecodeError::FileTooShort));
    assert_eq!(decode(&[0x10], 0).map(|_| ()), short);
    assert_eq!(decode(&[0x11, 0x00], 0).map(|_| ()), short);
    assert_eq!(decode(&[0xa7, 0x00], 0).map(|_| ()), short);
    assert_eq!(decode(&[0xc5, 0x00, 0x01], 0).map(|_| ()), short);
    assert_eq!(decode(&[0xab, 0, 0, 0], 3).map(|_| ()), short);
}

#[test]
fn pushed_instructions_are_padded_to_their_width() {
    let mut codes = vec![];
    let bytes = [0x10, 0x05, 0xb2, 0x00, 0x02, 0x60];
    let first = Instruction::create_and_push(&mut codes, &bytes, 1, 0x10);
    assert_eq!(first, Ok((2, 2)));
    let second = Instruction::create_and_push(&mut codes, &bytes, 3, 0xb2);
    assert_eq!(second, Ok((5, 3)));
    let third = Instruction::create_and_push(&mut codes, &bytes, 6, 0x60);
    assert_eq!(third, Ok((6, 1)));
    assert_eq!(
        format!("{:?}", codes),
        "[Bipush(5), Noope, Getstatic(2), Noope, Noope, Iadd]"
    );
    let failed = Instruction::create_and_push(&mut codes, &bytes, 6, 0x10);
    assert_eq!(failed, Err(Error::DecodeError(DecodeError::FileTooShort)));
    assert_eq!(codes.len(), 6);
}

#[test]
fn the_width_of_the_operands_is_known() {
    assert_eq!(Instruction::Iadd.counsume_index(), 0);
    assert_eq!(Instruction::Noope.counsume_index(), 0);
    assert_eq!(Instruction::Bipush(1).counsume_index(), 1);
    assert_eq!(Instruction::Ldc(1).counsume_index(), 1);
    assert_eq!(Instruction::Sipush(1).counsume_index(), 2);
    assert_eq!(Instruction::Ificmple(1, 2).counsume_index(), 2);
    assert_eq!(Instruction::Goto(1).counsume_index(), 2);
    assert_eq!(Instruction::Invokestatic(1).counsume_index(), 2);
    assert_eq!(Instruction::Multianewarray(1, 2).counsume_index(), 3);
    assert_eq!(Instruction::Lookupswitch(vec![(None, 1), (Some(1), 2)]).counsume_index(), 16);
}

#[test]
fn instructions_are_shown_by_mnemonic_and_operands() {
    assert_eq!(Instruction::IconstN(-1).to_string(), "iconst_-1");
    assert_eq!(Instruction::Bipush(-30).to_string(), "bipush         -30");
    assert_eq!(Instruction::Ldc(3).to_string(), "ldc             #3");
    assert_eq!(Instruction::Iinc(1, -2).to_string(), "iinc        1, -2");
    assert_eq!(Instruction::Ificmple(14, 12).to_string(), "if_icmple   14, 12");
    assert_eq!(Instruction::Getstatic(258).to_string(), "getstatic       #258");
    assert_eq!(Instruction::Multianewarray(7, 2).to_string(), "multianewarray    #7 2");
    assert_eq!(Instruction::Lcmp.to_string(), "lcmp");
    assert_eq!(Instruction::Noope.to_string(), "noope");
    assert_eq!(
        Instruction::Lookupswitch(vec![(None, 30), (Some(-1), 10), (Some(7), 20)]).to_string(),
        "lookupswitch { // 2\n       -1: 10\n       7: 20\n       default: 30\n}"
    );
    assert_eq!(Instruction::Lookupswitch(vec![]).to_string(), "lookupswitch { // 0\n}");
}
