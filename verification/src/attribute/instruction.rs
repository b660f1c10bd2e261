//! The instruction set and its decoder.

use vstd::prelude::*;
use crate::error::{DecodeError, Error};
use crate::text::{
    number_text, plain, push_decimal, push_index, signed_text, with_index, with_index_and_number,
    with_indices, with_number,
};
use crate::utils::{
    available, extract_x_byte_as_usize, sign_extend_byte, sign_extend_short, sign_extend_word,
    signed_byte, signed_half, signed_short, small_int, to_usize, uint_at,
};

verus! {

/// One entry of a decoded code array.
///
/// The array is indexed by byte offset: behind an instruction whose encoding takes `n`
/// bytes stand `n - 1` entries `Noope`. A branch holds the entry before its target, and
/// the entry before the instruction that follows it: execution goes on one behind the
/// entry that an instruction names.
#[derive(Clone, Debug, PartialEq, Eq)]
pub enum Instruction {
    IconstN(i32),
    LconstN(usize),
    Bipush(i32),
    Sipush(i32),
    Ldc(usize),
    Ldc2W(usize, usize),
    Iload(usize),
    Aload(usize),
    IloadN(usize),
    LloadN(usize),
    AloadN(usize),
    Iaload,
    Aaload,
    Istore(usize),
    Astore(usize),
    IstoreN(usize),
    LstoreN(usize),
    AstoreN(usize),
    Iastore,
    Aastore,
    Pop,
    Dup,
    Iadd,
    Ladd,
    Isub,
    Lsub,
    Imul,
    Lmul,
    Idiv,
    Ldiv,
    Irem,
    Lrem,
    Iinc(usize, i32),
    Lcmp,
    Ifeq(usize, usize),
    Ifne(usize, usize),
    Iflt(usize, usize),
    Ifge(usize, usize),
    Ifgt(usize, usize),
    Ifle(usize, usize),
    Ificmpeq(usize, usize),
    Ificmpne(usize, usize),
    Ificmplt(usize, usize),
    Ificmpge(usize, usize),
    Ificmpgt(usize, usize),
    Ificmple(usize, usize),
    Goto(usize),
    /// The default target under `None`, then the pairs of key and target in file order.
    Lookupswitch(Vec<(Option<i32>, usize)>),
    Ireturn,
    Areturn,
    Return,
    Getstatic(usize),
    Putstatic(usize),
    Getfield(usize),
    Putfield(usize),
    Invokevirtual(usize),
    Invokespecial(usize),
    Invokestatic(usize),
    New(usize),
    Newarray(usize),
    Anewarray(usize),
    Multianewarray(usize, usize),
    Noope,
}

/// What an instruction is, with the table of a switch as a sequence.
pub enum Decoded {
    Plain(Instruction),
    Switch(Seq<(Option<i32>, usize)>),
}

impl View for Instruction {
    type V = Decoded;

    open spec fn view(&self) -> Decoded {
        match self {
            Instruction::Lookupswitch(table) => Decoded::Switch(table@),
            _ => Decoded::Plain(*self),
        }
    }
}

/// The decoded view of each entry of a code array.
pub open spec fn code_view(code: Seq<Instruction>) -> Seq<Decoded> {
    Seq::new(code.len(), |i: int| code[i]@)
}

/// The view of a code array with one more entry is the view with one more view.
pub proof fn lemma_code_view_push(code: Seq<Instruction>, instruction: Instruction)
    ensures
        code_view(code.push(instruction)) == code_view(code).push(instruction@),
{
    assert(code_view(code.push(instruction)) =~= code_view(code).push(instruction@));
}

/// `n` padding entries.
pub open spec fn padding(n: int) -> Seq<Decoded> {
    Seq::new(n as nat, |i: int| Decoded::Plain(Instruction::Noope))
}

/// The entry that a branch at `position` with the 16-bit `operand` names: one before the
/// byte offset `position + operand`, modulo 2^16.
pub open spec fn branch_target(operand: usize, position: usize) -> usize {
    ((operand + position - 1) % 0x1_0000) as usize
}

/// The entry that a switch at `position` names for the 32-bit `offset`.
pub open spec fn switch_target(offset: usize, position: usize) -> usize {
    ((signed_half(offset as u32) + position - 1) % 0x1_0000) as usize
}

/// The entry that a branch at `position` names for the case that it is not taken: the
/// last of its own three entries. It wraps where the machine cannot number that entry.
pub open spec fn fall_through(position: usize) -> usize {
    if position + 2 > usize::MAX {
        (position + 2 - usize::MAX - 1) as usize
    } else {
        (position + 2) as usize
    }
}

/// Adding a multiple of 2^16 does not change the remainder modulo 2^16.
proof fn lemma_same_entry(x: int, k: int)
    ensures
        (x + 0x1_0000 * k) % 0x1_0000 == x % 0x1_0000,
{
    vstd::arithmetic::div_mod::lemma_mod_multiples_vanish(k, x, 0x1_0000);
}

/// Computes `branch_target`.
pub fn compute_branch_target(operand: usize, position: usize) -> (r: usize)
    requires
        operand < 0x1_0000,
    ensures
        r == branch_target(operand, position),
{
    let low: usize = position % 0x1_0000;
    proof {
        let b = position as int / 0x1_0000;
        lemma_same_entry(operand + position - 1, 1 - b);
    }
    (operand + low + 0xFFFF) % 0x1_0000
}

/// Computes `switch_target`.
pub fn compute_switch_target(offset: usize, position: usize) -> (r: usize)
    requires
        offset < 0x1_0000_0000,
    ensures
        r == switch_target(offset, position),
{
    let low: usize = position % 0x1_0000;
    let part: usize = offset % 0x1_0000;
    proof {
        let a = offset as int / 0x1_0000;
        let b = position as int / 0x1_0000;
        let signed = signed_half(offset as u32) as int;
        let c: int = if signed == offset { 0 } else { 1 };
        assert(signed == offset - 0x1_0000_0000 * c);
        assert(part + low + 0xFFFF == (signed + position - 1) + 0x1_0000 * (1 - a - b + 0x1_0000
            * c));
        lemma_same_entry(signed + position - 1, 1 - a - b + 0x1_0000 * c);
    }
    (part + low + 0xFFFF) % 0x1_0000
}

/// The instruction that the single byte `tag` encodes, if it is one without operands
/// (the comparison of two longs apart).
pub open spec fn bare_instruction(tag: usize) -> Option<Instruction> {
    if 0x02 <= tag <= 0x08 {
        Some(Instruction::IconstN((tag - 0x03) as i32))
    } else if 0x09 <= tag <= 0x0a {
        Some(Instruction::LconstN((tag - 0x09) as usize))
    } else if 0x1a <= tag <= 0x1d {
        Some(Instruction::IloadN((tag - 0x1a) as usize))
    } else if 0x1e <= tag <= 0x21 {
        Some(Instruction::LloadN((tag - 0x1e) as usize))
    } else if 0x2a <= tag <= 0x2d {
        Some(Instruction::AloadN((tag - 0x2a) as usize))
    } else if tag == 0x2e {
        Some(Instruction::Iaload)
    } else if tag == 0x32 {
        Some(Instruction::Aaload)
    } else if 0x3b <= tag <= 0x3e {
        Some(Instruction::IstoreN((tag - 0x3b) as usize))
    } else if 0x3f <= tag <= 0x42 {
        Some(Instruction::LstoreN((tag - 0x3f) as usize))
    } else if 0x4b <= tag <= 0x4e {
        Some(Instruction::AstoreN((tag - 0x4b) as usize))
    } else if tag == 0x4f {
        Some(Instruction::Iastore)
    } else if tag == 0x53 {
        Some(Instruction::Aastore)
    } else if tag == 0x57 {
        Some(Instruction::Pop)
    } else if tag == 0x59 {
        Some(Instruction::Dup)
    } else if tag == 0x60 {
        Some(Instruction::Iadd)
    } else if tag == 0x61 {
        Some(Instruction::Ladd)
    } else if tag == 0x64 {
        Some(Instruction::Isub)
    } else if tag == 0x65 {
        Some(Instruction::Lsub)
    } else if tag == 0x68 {
        Some(Instruction::Imul)
    } else if tag == 0x69 {
        Some(Instruction::Lmul)
    } else if tag == 0x6c {
        Some(Instruction::Idiv)
    } else if tag == 0x6d {
        Some(Instruction::Ldiv)
    } else if tag == 0x70 {
        Some(Instruction::Irem)
    } else if tag == 0x71 {
        Some(Instruction::Lrem)
    } else if tag == 0xac {
        Some(Instruction::Ireturn)
    } else if tag == 0xb0 {
        Some(Instruction::Areturn)
    } else if tag == 0xb1 {
        Some(Instruction::Return)
    } else {
        None
    }
}

/// The comparison of two longs, if `tag` encodes it.
pub open spec fn comparison_instruction(tag: usize) -> Option<Instruction> {
    if tag == 0x94 {
        Some(Instruction::Lcmp)
    } else {
        None
    }
}

/// The instruction that `tag` encodes with the one operand byte `operand`, if any.
pub open spec fn byte_instruction(tag: usize, operand: usize) -> Option<Instruction> {
    if tag == 0x10 {
        Some(Instruction::Bipush(signed_byte(operand)))
    } else if tag == 0x12 {
        Some(Instruction::Ldc(operand))
    } else if tag == 0x15 {
        Some(Instruction::Iload(operand))
    } else if tag == 0x19 {
        Some(Instruction::Aload(operand))
    } else if tag == 0x36 {
        Some(Instruction::Istore(operand))
    } else if tag == 0x3a {
        Some(Instruction::Astore(operand))
    } else if tag == 0xbc {
        Some(Instruction::Newarray(operand))
    } else {
        None
    }
}

/// The instruction that `tag` encodes with the operand bytes `first` and `second`, which
/// together spell `wide`, if it is one that takes two operand bytes and does not branch.
pub open spec fn wide_instruction(tag: usize, first: usize, second: usize) -> Option<
    Instruction,
> {
    let wide = to_usize(first * 256 + second);
    if tag == 0x11 {
        Some(Instruction::Sipush(signed_short(wide)))
    } else if tag == 0x14 {
        Some(Instruction::Ldc2W(first, second))
    } else if tag == 0x84 {
        Some(Instruction::Iinc(first, signed_byte(second)))
    } else if tag == 0xb2 {
        Some(Instruction::Getstatic(wide))
    } else if tag == 0xb3 {
        Some(Instruction::Putstatic(wide))
    } else if tag == 0xb4 {
        Some(Instruction::Getfield(wide))
    } else if tag == 0xb5 {
        Some(Instruction::Putfield(wide))
    } else if tag == 0xb6 {
        Some(Instruction::Invokevirtual(wide))
    } else if tag == 0xb7 {
        Some(Instruction::Invokespecial(wide))
    } else if tag == 0xb8 {
        Some(Instruction::Invokestatic(wide))
    } else if tag == 0xbb {
        Some(Instruction::New(wide))
    } else if tag == 0xbd {
        Some(Instruction::Anewarray(wide))
    } else {
        None
    }
}

/// The branch that `tag` encodes at `position` with the 16-bit `operand`, if any: it
/// holds where to go on when the branch is taken and, unless it is a `Goto`, where to go
/// on when it is not.
pub open spec fn branch_instruction(tag: usize, operand: usize, position: usize) -> Option<
    Instruction,
> {
    let taken = branch_target(operand, position);
    let other = fall_through(position);
    if tag == 0x99 {
        Some(Instruction::Ifeq(taken, other))
    } else if tag == 0x9a {
        Some(Instruction::Ifne(taken, other))
    } else if tag == 0x9b {
        Some(Instruction::Iflt(taken, other))
    } else if tag == 0x9c {
        Some(Instruction::Ifge(taken, other))
    } else if tag == 0x9d {
        Some(Instruction::Ifgt(taken, other))
    } else if tag == 0x9e {
        Some(Instruction::Ifle(taken, other))
    } else if tag == 0x9f {
        Some(Instruction::Ificmpeq(taken, other))
    } else if tag == 0xa0 {
        Some(Instruction::Ificmpne(taken, other))
    } else if tag == 0xa1 {
        Some(Instruction::Ificmplt(taken, other))
    } else if tag == 0xa2 {
        Some(Instruction::Ificmpge(taken, other))
    } else if tag == 0xa3 {
        Some(Instruction::Ificmpgt(taken, other))
    } else if tag == 0xa4 {
        Some(Instruction::Ificmple(taken, other))
    } else if tag == 0xa7 {
        Some(Instruction::Goto(taken))
    } else {
        None
    }
}

/// Bytes of alignment between the opcode of a switch at `position` and its table.
pub open spec fn switch_padding(position: usize) -> usize {
    to_usize(3 - position % 4)
}

/// What stands in `bytes` at `index` for a 32-bit number, or 0 where bytes are missing.
pub open spec fn word_at(bytes: Seq<u8>, index: int) -> usize {
    match uint_at(bytes, index, 4) {
        Ok((value, _)) => value,
        Err(_) => 0,
    }
}

/// The table of a switch at `position` whose alignment bytes start at `index` and which
/// holds `pairs` pairs: the default target, then key and target of each pair.
pub open spec fn switch_table(bytes: Seq<u8>, index: usize, position: usize, pairs: int) -> Seq<
    (Option<i32>, usize),
> {
    let start = index + switch_padding(position);
    Seq::new(
        (pairs + 1) as nat,
        |i: int|
            if i == 0 {
                (None, switch_target(word_at(bytes, start), position))
            } else {
                (
                    Some(signed_half(word_at(bytes, start + 8 * i) as u32)),
                    switch_target(word_at(bytes, start + 8 * i + 4), position),
                )
            },
    )
}

/// Number of operand bytes of a switch at `position` whose alignment bytes start at
/// `index`, if its header can be read.
pub open spec fn switch_width(bytes: Seq<u8>, index: usize, position: usize) -> Option<int> {
    let start = index + switch_padding(position);
    if available(bytes, start, 8) {
        Some(switch_padding(position) + 8 + 8 * word_at(bytes, start + 4))
    } else {
        None
    }
}

/// What the byte `tag`, found at entry `position` of the code array, decodes to when its
/// operands start at `index` of `bytes`: the instruction, the index behind its operands,
/// and the number of bytes of the whole encoding.
pub open spec fn decode_at(bytes: Seq<u8>, index: usize, tag: usize, position: usize) -> Result<
    (Decoded, usize, usize),
    Error,
> {
    let short = Err(Error::DecodeError(DecodeError::FileTooShort));
    if bare_instruction(tag) is Some {
        Ok((Decoded::Plain(bare_instruction(tag)->0), index, 1))
    } else if comparison_instruction(tag) is Some {
        Ok((Decoded::Plain(comparison_instruction(tag)->0), index, 1))
    } else if byte_instruction(tag, 0) is Some {
        if available(bytes, index as int, 1) {
            Ok(
                (
                    Decoded::Plain(byte_instruction(tag, bytes[index as int] as usize)->0),
                    to_usize(index + 1),
                    2,
                ),
            )
        } else {
            short
        }
    } else if wide_instruction(tag, 0, 0) is Some {
        if available(bytes, index as int, 2) {
            Ok(
                (
                    Decoded::Plain(
                        wide_instruction(
                            tag,
                            bytes[index as int] as usize,
                            bytes[index + 1] as usize,
                        )->0,
                    ),
                    to_usize(index + 2),
                    3,
                ),
            )
        } else {
            short
        }
    } else if branch_instruction(tag, 0, position) is Some {
        if available(bytes, index as int, 2) {
            Ok(
                (
                    Decoded::Plain(
                        branch_instruction(
                            tag,
                            to_usize(bytes[index as int] * 256 + bytes[index + 1]),
                            position,
                        )->0,
                    ),
                    to_usize(index + 2),
                    3,
                ),
            )
        } else {
            short
        }
    } else if tag == 0xc5 {
        if available(bytes, index as int, 3) {
            Ok(
                (
                    Decoded::Plain(
                        Instruction::Multianewarray(
                            to_usize(bytes[index as int] * 256 + bytes[index + 1]),
                            bytes[index + 2] as usize,
                        ),
                    ),
                    to_usize(index + 3),
                    4,
                ),
            )
        } else {
            short
        }
    } else if tag == 0xab {
        match switch_width(bytes, index, position) {
            None => short,
            Some(width) => if available(bytes, index as int, width) {
                Ok(
                    (
                        Decoded::Switch(
                            switch_table(
                                bytes,
                                index,
                                position,
                                word_at(bytes, index + switch_padding(position) + 4) as int,
                            ),
                        ),
                        to_usize(index + width),
                        to_usize(width + 1),
                    ),
                )
            } else {
                short
            },
        }
    } else {
        Err(Error::DecodeError(DecodeError::UnknownOpcode(tag, position)))
    }
}

/// Computes `bare_instruction`.
fn decode_bare(tag: usize) -> (r: Option<Instruction>)
    ensures
        r == bare_instruction(tag),
{
    if 0x02 <= tag && tag <= 0x08 {
        Some(Instruction::IconstN(small_int(tag) - 0x03))
    } else if 0x09 <= tag && tag <= 0x0a {
        Some(Instruction::LconstN(tag - 0x09))
    } else if 0x1a <= tag && tag <= 0x1d {
        Some(Instruction::IloadN(tag - 0x1a))
    } else if 0x1e <= tag && tag <= 0x21 {
        Some(Instruction::LloadN(tag - 0x1e))
    } else if 0x2a <= tag && tag <= 0x2d {
        Some(Instruction::AloadN(tag - 0x2a))
    } else if tag == 0x2e {
        Some(Instruction::Iaload)
    } else if tag == 0x32 {
        Some(Instruction::Aaload)
    } else if 0x3b <= tag && tag <= 0x3e {
        Some(Instruction::IstoreN(tag - 0x3b))
    } else if 0x3f <= tag && tag <= 0x42 {
        Some(Instruction::LstoreN(tag - 0x3f))
    } else if 0x4b <= tag && tag <= 0x4e {
        Some(Instruction::AstoreN(tag - 0x4b))
    } else if tag == 0x4f {
        Some(Instruction::Iastore)
    } else if tag == 0x53 {
        Some(Instruction::Aastore)
    } else if tag == 0x57 {
        Some(Instruction::Pop)
    } else if tag == 0x59 {
        Some(Instruction::Dup)
    } else if tag == 0x60 {
        Some(Instruction::Iadd)
    } else if tag == 0x61 {
        Some(Instruction::Ladd)
    } else if tag == 0x64 {
        Some(Instruction::Isub)
    } else if tag == 0x65 {
        Some(Instruction::Lsub)
    } else if tag == 0x68 {
        Some(Instruction::Imul)
    } else if tag == 0x69 {
        Some(Instruction::Lmul)
    } else if tag == 0x6c {
        Some(Instruction::Idiv)
    } else if tag == 0x6d {
        Some(Instruction::Ldiv)
    } else if tag == 0x70 {
        Some(Instruction::Irem)
    } else if tag == 0x71 {
        Some(Instruction::Lrem)
    } else if tag == 0xac {
        Some(Instruction::Ireturn)
    } else if tag == 0xb0 {
        Some(Instruction::Areturn)
    } else if tag == 0xb1 {
        Some(Instruction::Return)
    } else {
        None
    }
}

/// Computes `comparison_instruction`.
fn decode_comparison(tag: usize) -> (r: Option<Instruction>)
    ensures
        r == comparison_instruction(tag),
{
    if tag == 0x94 {
        Some(Instruction::Lcmp)
    } else {
        None
    }
}

/// Computes `byte_instruction`.
fn decode_byte(tag: usize, operand: usize) -> (r: Option<Instruction>)
    requires
        operand < 0x100,
    ensures
        r == byte_instruction(tag, operand),
        r is Some <==> byte_instruction(tag, 0) is Some,
{
    if tag == 0x10 {
        Some(Instruction::Bipush(sign_extend_byte(operand)))
    } else if tag == 0x12 {
        Some(Instruction::Ldc(operand))
    } else if tag == 0x15 {
        Some(Instruction::Iload(operand))
    } else if tag == 0x19 {
        Some(Instruction::Aload(operand))
    } else if tag == 0x36 {
        Some(Instruction::Istore(operand))
    } else if tag == 0x3a {
        Some(Instruction::Astore(operand))
    } else if tag == 0xbc {
        Some(Instruction::Newarray(operand))
    } else {
        None
    }
}

/// Computes `wide_instruction`.
fn decode_wide(tag: usize, first: usize, second: usize) -> (r: Option<Instruction>)
    requires
        first < 0x100,
        second < 0x100,
    ensures
        r == wide_instruction(tag, first, second),
        r is Some <==> wide_instruction(tag, 0, 0) is Some,
{
    let wide: usize = first * 256 + second;
    if tag == 0x11 {
        Some(Instruction::Sipush(sign_extend_short(wide)))
    } else if tag == 0x14 {
        Some(Instruction::Ldc2W(first, second))
    } else if tag == 0x84 {
        Some(Instruction::Iinc(first, sign_extend_byte(second)))
    } else if tag == 0xb2 {
        Some(Instruction::Getstatic(wide))
    } else if tag == 0xb3 {
        Some(Instruction::Putstatic(wide))
    } else if tag == 0xb4 {
        Some(Instruction::Getfield(wide))
    } else if tag == 0xb5 {
        Some(Instruction::Putfield(wide))
    } else if tag == 0xb6 {
        Some(Instruction::Invokevirtual(wide))
    } else if tag == 0xb7 {
        Some(Instruction::Invokespecial(wide))
    } else if tag == 0xb8 {
        Some(Instruction::Invokestatic(wide))
    } else if tag == 0xbb {
        Some(Instruction::New(wide))
    } else if tag == 0xbd {
        Some(Instruction::Anewarray(wide))
    } else {
        None
    }
}

/// Computes `branch_instruction`, where the entry behind the branch can be numbered.
fn decode_branch(tag: usize, operand: usize, position: usize) -> (r: Option<Instruction>)
    requires
        operand < 0x1_0000,
    ensures
        r == branch_instruction(tag, operand, position),
        r is Some <==> branch_instruction(tag, 0, position) is Some,
{
    let taken = compute_branch_target(operand, position);
    let other: usize = position.wrapping_add(2);
    if tag == 0x99 {
        Some(Instruction::Ifeq(taken, other))
    } else if tag == 0x9a {
        Some(Instruction::Ifne(taken, other))
    } else if tag == 0x9b {
        Some(Instruction::Iflt(taken, other))
    } else if tag == 0x9c {
        Some(Instruction::Ifge(taken, other))
    } else if tag == 0x9d {
        Some(Instruction::Ifgt(taken, other))
    } else if tag == 0x9e {
        Some(Instruction::Ifle(taken, other))
    } else if tag == 0x9f {
        Some(Instruction::Ificmpeq(taken, other))
    } else if tag == 0xa0 {
        Some(Instruction::Ificmpne(taken, other))
    } else if tag == 0xa1 {
        Some(Instruction::Ificmplt(taken, other))
    } else if tag == 0xa2 {
        Some(Instruction::Ificmpge(taken, other))
    } else if tag == 0xa3 {
        Some(Instruction::Ificmpgt(taken, other))
    } else if tag == 0xa4 {
        Some(Instruction::Ificmple(taken, other))
    } else if tag == 0xa7 {
        Some(Instruction::Goto(taken))
    } else {
        None
    }
}

/// Whether `tag` encodes a branch.
fn is_branch(tag: usize) -> (r: bool)
    ensures
        forall|operand: usize, position: usize|
            r == (#[trigger] branch_instruction(tag, operand, position) is Some),
{
    0x99 <= tag && tag <= 0xa4 || tag == 0xa7
}

/// The byte of `inputs` at `index` as a number.
fn byte_of(inputs: &[u8], index: usize) -> (r: usize)
    requires
        index < inputs@.len(),
    ensures
        r == inputs@[index as int],
        r < 0x100,
{
    inputs[index] as usize
}

/// Decodes a switch found at entry `position` whose alignment bytes start at `index`.
fn decode_switch(inputs: &[u8], index: usize, position: usize) -> (r: Result<
    (Instruction, usize, usize),
    Error,
>)
    ensures
        match r {
            Ok((instruction, next, used)) => decode_at(inputs@, index, 0xab, position) == Ok::<
                (Decoded, usize, usize),
                Error,
            >((instruction@, next, used)),
            Err(e) => decode_at(inputs@, index, 0xab, position) == Err::<
                (Decoded, usize, usize),
                Error,
            >(e),
        },
        r matches Ok((_, next, used)) ==> used >= 1 && index + used - 1 == next,
{
    let short = Err(Error::DecodeError(DecodeError::FileTooShort));
    let length: usize = inputs.len();
    let pad: usize = 3 - position % 4;
    if index > length || length - index < pad + 8 {
        return short;
    }
    let start: usize = index + pad;
    let pairs: usize = match extract_x_byte_as_usize(inputs, start + 4, 4) {
        Ok((value, _)) => value,
        Err(_) => {
            return short;
        },
    };
    let room: usize = length - start - 8;
    if pairs > room / 8 {
        return short;
    }
    let width: usize = pad + 8 + 8 * pairs;
    let default_offset: usize = match extract_x_byte_as_usize(inputs, start, 4) {
        Ok((value, _)) => value,
        Err(_) => {
            return short;
        },
    };
    proof {
        crate::utils::lemma_be_value_bound(inputs@.subrange(start as int, start + 4));
    }
    let mut table: Vec<(Option<i32>, usize)> = Vec::new();
    table.push((None, compute_switch_target(default_offset, position)));
    let ghost wanted = switch_table(inputs@, index, position, pairs as int);
    let mut i: usize = 0;
    while i < pairs
        invariant
            i <= pairs,
            length == inputs@.len(),
            start + 8 + 8 * pairs <= length,
            start == index + switch_padding(position),
            wanted == switch_table(inputs@, index, position, pairs as int),
            table@.len() == i + 1,
            forall|j: int| 0 <= j <= i ==> table@[j] == wanted[j],
        decreases pairs - i,
    {
        let at: usize = start + 8 * (i + 1);
        let key: usize = match extract_x_byte_as_usize(inputs, at, 4) {
            Ok((value, _)) => value,
            Err(_) => 0,
        };
        let offset: usize = match extract_x_byte_as_usize(inputs, at + 4, 4) {
            Ok((value, _)) => value,
            Err(_) => 0,
        };
        proof {
            crate::utils::lemma_be_value_bound(inputs@.subrange(at as int, at + 4));
            crate::utils::lemma_be_value_bound(inputs@.subrange(at + 4, at + 8));
        }
        table.push((Some(sign_extend_word(key)), compute_switch_target(offset, position)));
        i += 1;
    }
    assert(table@ =~= wanted);
    Ok((Instruction::Lookupswitch(table), index + width, width + 1))
}

impl Instruction {
    /// Decodes the instruction whose opcode `tag` was found at entry `position` of the code
    /// array and whose operands start at `index` of `inputs`. Hands out the instruction, the
    /// index behind its operands, and the number of bytes that its encoding takes.
    pub fn new(inputs: &[u8], index: usize, tag: usize, position: usize) -> (r: Result<
        (Instruction, usize, usize),
        Error,
    >)
        ensures
            match r {
                Ok((instruction, next, used)) => decode_at(inputs@, index, tag, position) == Ok::<
                    (Decoded, usize, usize),
                    Error,
                >((instruction@, next, used)),
                Err(e) => decode_at(inputs@, index, tag, position) == Err::<
                    (Decoded, usize, usize),
                    Error,
                >(e),
            },
            r matches Ok((_, next, used)) ==> used >= 1 && index + used - 1 == next,
    {
        let short = Err(Error::DecodeError(DecodeError::FileTooShort));
        let length: usize = inputs.len();
        let room: usize = if index <= length {
            length - index
        } else {
            0
        };
        if let Some(instruction) = decode_bare(tag) {
            return Ok((instruction, index, 1));
        }
        if let Some(instruction) = decode_comparison(tag) {
            return Ok((instruction, index, 1));
        }
        if decode_byte(tag, 0).is_some() {
            if room < 1 {
                return short;
            }
            return match decode_byte(tag, byte_of(inputs, index)) {
                Some(instruction) => Ok((instruction, index + 1, 2)),
                None => short,
            };
        }
        if decode_wide(tag, 0, 0).is_some() {
            if room < 2 {
                return short;
            }
            return match decode_wide(tag, byte_of(inputs, index), byte_of(inputs, index + 1)) {
                Some(instruction) => Ok((instruction, index + 2, 3)),
                None => short,
            };
        }
        if is_branch(tag) {
            if room < 2 {
                return short;
            }
            let operand: usize = byte_of(inputs, index) * 256 + byte_of(inputs, index + 1);
            return match decode_branch(tag, operand, position) {
                Some(instruction) => Ok((instruction, index + 2, 3)),
                None => short,
            };
        }
        if tag == 0xc5 {
            if room < 3 {
                return short;
            }
            let class_index: usize = byte_of(inputs, index) * 256 + byte_of(inputs, index + 1);
            let dimensions: usize = byte_of(inputs, index + 2);
            return Ok((Instruction::Multianewarray(class_index, dimensions), index + 3, 4));
        }
        if tag == 0xab {
            return decode_switch(inputs, index, position);
        }
        Err(Error::DecodeError(DecodeError::UnknownOpcode(tag, position)))
    }

    /// Decodes the instruction whose opcode `tag` stands right before `index` of `inputs`
    /// and appends it to `codes`, followed by one `Noope` for each further byte of its
    /// encoding. Hands out the index behind its operands and the number of entries added.
    /// On failure `codes` is unchanged.
    pub fn create_and_push(
        codes: &mut Vec<Instruction>,
        inputs: &[u8],
        index: usize,
        tag: usize,
    ) -> (r: Result<(usize, usize), Error>)
        ensures
            match r {
                Ok((next, used)) => {
                    let decoded = decode_at(inputs@, index, tag, old(codes).len());
                    &&& decoded is Ok
                    &&& decoded->Ok_0.1 == next
                    &&& decoded->Ok_0.2 == used
                    &&& code_view(final(codes)@) == code_view(old(codes)@).push(decoded->Ok_0.0)
                        + padding(used - 1)
                },
                Err(e) => decode_at(inputs@, index, tag, old(codes).len()) == Err::<
                    (Decoded, usize, usize),
                    Error,
                >(e) && final(codes)@ == old(codes)@,
            },
    {
        let position: usize = codes.len();
        let (instruction, next, used) = Instruction::new(inputs, index, tag, position)?;
        let ghost decoded = instruction@;
        let ghost before = code_view(codes@);
        proof {
            lemma_code_view_push(codes@, instruction);
        }
        codes.push(instruction);
        assert(before.push(decoded) =~= before.push(decoded) + padding(0));
        let mut i: usize = 1;
        while i < used
            invariant
                1 <= i <= used,
                code_view(codes@) == before.push(decoded) + padding(i - 1),
            decreases used - i,
        {
            let ghost so_far = codes@;
            codes.push(Instruction::Noope);
            proof {
                lemma_code_view_push(so_far, Instruction::Noope);
                assert(padding(i as int) =~= padding(i - 1).push(
                    Decoded::Plain(Instruction::Noope),
                ));
                assert((before.push(decoded) + padding(i - 1)).push(
                    Decoded::Plain(Instruction::Noope),
                ) =~= before.push(decoded) + padding(i as int));
            }
            i += 1;
        }
        Ok((next, used))
    }

    /// Number of operand bytes behind the opcode: how far execution moves on, beyond the
    /// next entry, after an instruction that does not branch. The alignment bytes of a
    /// switch are not counted.
    pub fn counsume_index(&self) -> (r: usize)
        requires
            self matches Instruction::Lookupswitch(table) ==> 8 * table@.len() <= usize::MAX,
        ensures
            r == operand_bytes(self),
    {
        match self {
            Instruction::Lookupswitch(table) => 8 * table.len(),
            Instruction::Multianewarray(_, _) => 3,
            Instruction::Ifeq(_, _)
            | Instruction::Ifne(_, _)
            | Instruction::Iflt(_, _)
            | Instruction::Ifge(_, _)
            | Instruction::Ifgt(_, _)
            | Instruction::Ifle(_, _)
            | Instruction::Ificmpeq(_, _)
            | Instruction::Ificmpne(_, _)
            | Instruction::Ificmplt(_, _)
            | Instruction::Ificmpge(_, _)
            | Instruction::Ificmpgt(_, _)
            | Instruction::Ificmple(_, _)
            | Instruction::Goto(_)
            | Instruction::Getstatic(_)
            | Instruction::Putstatic(_)
            | Instruction::Getfield(_)
            | Instruction::Putfield(_)
            | Instruction::Iinc(_, _)
            | Instruction::Sipush(_)
            | Instruction::Ldc2W(_, _)
            | Instruction::Invokevirtual(_)
            | Instruction::Invokespecial(_)
            | Instruction::Invokestatic(_)
            | Instruction::New(_)
            | Instruction::Anewarray(_) => 2,
            Instruction::Iload(_)
            | Instruction::Aload(_)
            | Instruction::Istore(_)
            | Instruction::Astore(_)
            | Instruction::Bipush(_)
            | Instruction::Newarray(_)
            | Instruction::Ldc(_) => 1,
            _ => 0,
        }
    }
}

/// Number of operand bytes behind the opcode of `instruction`, the alignment bytes of a
/// switch not counted.
pub open spec fn operand_bytes(instruction: &Instruction) -> nat {
    match instruction {
        Instruction::Lookupswitch(table) => 8 * table@.len(),
        Instruction::Multianewarray(_, _) => 3,
        Instruction::Ifeq(_, _)
        | Instruction::Ifne(_, _)
        | Instruction::Iflt(_, _)
        | Instruction::Ifge(_, _)
        | Instruction::Ifgt(_, _)
        | Instruction::Ifle(_, _)
        | Instruction::Ificmpeq(_, _)
        | Instruction::Ificmpne(_, _)
        | Instruction::Ificmplt(_, _)
        | Instruction::Ificmpge(_, _)
        | Instruction::Ificmpgt(_, _)
        | Instruction::Ificmple(_, _)
        | Instruction::Goto(_)
        | Instruction::Getstatic(_)
        | Instruction::Putstatic(_)
        | Instruction::Getfield(_)
        | Instruction::Putfield(_)
        | Instruction::Iinc(_, _)
        | Instruction::Sipush(_)
        | Instruction::Ldc2W(_, _)
        | Instruction::Invokevirtual(_)
        | Instruction::Invokespecial(_)
        | Instruction::Invokestatic(_)
        | Instruction::New(_)
        | Instruction::Anewarray(_) => 2,
        Instruction::Iload(_)
        | Instruction::Aload(_)
        | Instruction::Istore(_)
        | Instruction::Astore(_)
        | Instruction::Bipush(_)
        | Instruction::Newarray(_)
        | Instruction::Ldc(_) => 1,
        _ => 0,
    }
}

/// An instruction that is no switch takes one entry more than it has operand bytes.
pub proof fn lemma_decoded_width(bytes: Seq<u8>, index: usize, tag: usize, position: usize)
    requires
        tag != 0xab,
        decode_at(bytes, index, tag, position) is Ok,
    ensures
        decode_at(bytes, index, tag, position)->Ok_0.0 matches Decoded::Plain(instruction)
            && decode_at(bytes, index, tag, position)->Ok_0.2 == operand_bytes(&instruction) + 1,
{
}

/// The lines that show the pairs of a switch table from the place `from` on, added to
/// `text`: for each pair its key and its target.
pub open spec fn case_lines_from(
    table: Seq<(Option<i32>, usize)>,
    text: Seq<char>,
    from: int,
) -> Seq<
    char,
>
    decreases table.len() - from,
{
    if from < 1 || from >= table.len() {
        text
    } else {
        case_lines_from(table, text + case_line(table[from]), from + 1)
    }
}

/// The line that shows one pair of a switch table.
pub open spec fn case_line(pair: (Option<i32>, usize)) -> Seq<char> {
    match pair.0 {
        Some(key) => "       "@ + signed_text(key) + ": "@ + number_text(pair.1) + "\n"@,
        None => "       default: "@ + number_text(pair.1) + "\n"@,
    }
}

/// The text that shows a switch: the number of its pairs, a line for each pair, and a
/// line for the default target.
pub open spec fn switch_text(table: Seq<(Option<i32>, usize)>) -> Seq<char> {
    let head = "lookupswitch { // "@ + number_text(pairs_of(table)) + "\n"@;
    let cases = case_lines_from(table, head, 1);
    if table.len() >= 1 {
        cases + "       default: "@ + number_text(table[0].1) + "\n}"@
    } else {
        cases + "}"@
    }
}

/// The number of pairs of a switch table.
pub open spec fn pairs_of(table: Seq<(Option<i32>, usize)>) -> usize {
    if table.len() >= 1 {
        (table.len() - 1) as usize
    } else {
        0
    }
}

/// The text that shows `instruction`: its mnemonic and its operands.
pub open spec fn instruction_text(instruction: &Instruction) -> Seq<char> {
    match instruction {
        Instruction::IconstN(val) => "iconst_"@ + signed_text(*val),
        Instruction::LconstN(val) => "lconst_"@ + number_text(*val),
        Instruction::Bipush(val) => "bipush         "@ + signed_text(*val),
        Instruction::Sipush(val) => "sipush         "@ + signed_text(*val),
        Instruction::Ldc(val) => "ldc             #"@ + number_text(*val),
        Instruction::Ldc2W(a, b) => "ldc2_w         #"@ + number_text(*a) + ","@ + number_text(*b),
        Instruction::Iload(val) => "iload            #"@ + number_text(*val),
        Instruction::Aload(val) => "aload            #"@ + number_text(*val),
        Instruction::IloadN(val) => "iload_"@ + number_text(*val),
        Instruction::LloadN(val) => "lload_"@ + number_text(*val),
        Instruction::AloadN(val) => "aload_"@ + number_text(*val),
        Instruction::Iaload => "iaload"@,
        Instruction::Aaload => "aaload"@,
        Instruction::Istore(val) => "istore            #"@ + number_text(*val),
        Instruction::Astore(val) => "astore            #"@ + number_text(*val),
        Instruction::Aastore => "aastore"@,
        Instruction::IstoreN(val) => "istore_"@ + number_text(*val),
        Instruction::LstoreN(val) => "lstore_"@ + number_text(*val),
        Instruction::Iastore => "iastore"@,
        Instruction::AstoreN(val) => "astore_"@ + number_text(*val),
        Instruction::Pop => "pop"@,
        Instruction::Dup => "dup"@,
        Instruction::Iadd => "iadd"@,
        Instruction::Ladd => "ladd"@,
        Instruction::Isub => "isub"@,
        Instruction::Lsub => "lsub"@,
        Instruction::Imul => "imul"@,
        Instruction::Lmul => "lmul"@,
        Instruction::Idiv => "idiv"@,
        Instruction::Ldiv => "ldiv"@,
        Instruction::Irem => "irem"@,
        Instruction::Lrem => "lrem"@,
        Instruction::Iinc(a, b) => "iinc        "@ + number_text(*a) + ", "@ + signed_text(*b),
        Instruction::Lcmp => "lcmp"@,
        Instruction::Ifeq(a, b) => "if_eq       "@ + number_text(*a) + ", "@ + number_text(*b),
        Instruction::Ifne(a, b) => "if_ne       "@ + number_text(*a) + ", "@ + number_text(*b),
        Instruction::Iflt(a, b) => "if_lt       "@ + number_text(*a) + ", "@ + number_text(*b),
        Instruction::Ifge(a, b) => "if_ge       "@ + number_text(*a) + ", "@ + number_text(*b),
        Instruction::Ifgt(a, b) => "if_gt       "@ + number_text(*a) + ", "@ + number_text(*b),
        Instruction::Ifle(a, b) => "if_le       "@ + number_text(*a) + ", "@ + number_text(*b),
        Instruction::Ificmpeq(a, b) => "if_icmpeq   "@ + number_text(*a) + ", "@ + number_text(*b),
        Instruction::Ificmpne(a, b) => "if_icmpne   "@ + number_text(*a) + ", "@ + number_text(*b),
        Instruction::Ificmplt(a, b) => "if_icmplt   "@ + number_text(*a) + ", "@ + number_text(*b),
        Instruction::Ificmpge(a, b) => "if_icmpge   "@ + number_text(*a) + ", "@ + number_text(*b),
        Instruction::Ificmpgt(a, b) => "if_icmpgt   "@ + number_text(*a) + ", "@ + number_text(*b),
        Instruction::Ificmple(a, b) => "if_icmple   "@ + number_text(*a) + ", "@ + number_text(*b),
        Instruction::Goto(val) => "goto          "@ + number_text(*val),
        Instruction::Lookupswitch(table) => switch_text(table@),
        Instruction::Ireturn => "ireturn"@,
        Instruction::Areturn => "areturn"@,
        Instruction::Return => "return"@,
        Instruction::Getstatic(val) => "getstatic       #"@ + number_text(*val),
        Instruction::Putstatic(val) => "putstatic       #"@ + number_text(*val),
        Instruction::Getfield(val) => "getfield        #"@ + number_text(*val),
        Instruction::Putfield(val) => "putfield        #"@ + number_text(*val),
        Instruction::Invokevirtual(val) => "invokevirtual   #"@ + number_text(*val),
        Instruction::Invokespecial(val) => "invokespecial   #"@ + number_text(*val),
        Instruction::Invokestatic(val) => "invokestatic   #"@ + number_text(*val),
        Instruction::New(val) => "new            #"@ + number_text(*val),
        Instruction::Newarray(val) => "newarray       #"@ + number_text(*val),
        Instruction::Anewarray(val) => "anewarray      #"@ + number_text(*val),
        Instruction::Multianewarray(index, dimensions) => "multianewarray    #"@ + number_text(
            *index,
        ) + " "@ + number_text(*dimensions),
        Instruction::Noope => "noope"@,
    }
}

/// Appends to `text` the line that shows one pair of a switch table.
fn push_case_line(text: &mut String, pair: (Option<i32>, usize))
    ensures
        final(text)@ == old(text)@ + case_line(pair),
{
    match pair.0 {
        Some(key) => {
            text.append("       ");
            push_decimal(text, crate::utils::widen(key));
            text.append(": ");
            push_index(text, pair.1);
            text.append("\n");
            assert(text@ =~= old(text)@ + case_line(pair));
        },
        None => {
            text.append("       default: ");
            push_index(text, pair.1);
            text.append("\n");
            assert(text@ =~= old(text)@ + case_line(pair));
        },
    }
}

/// The text that shows a switch.
fn show_switch(table: &Vec<(Option<i32>, usize)>) -> (r: String)
    ensures
        r@ == switch_text(table@),
{
    let pairs: usize = if table.len() >= 1 {
        table.len() - 1
    } else {
        0
    };
    let mut text = with_index("lookupswitch { // ", pairs);
    text.append("\n");
    let ghost head = text@;
    let mut i: usize = 1;
    while i < table.len()
        invariant
            1 <= i,
            case_lines_from(table@, head, 1) == case_lines_from(table@, text@, i as int),
        decreases table@.len() - i,
    {
        push_case_line(&mut text, table[i]);
        i += 1;
    }
    if table.len() >= 1 {
        text.append("       default: ");
        push_index(&mut text, table[0].1);
        text.append("\n}");
    } else {
        text.append("}");
    }
    text
}

impl Instruction {
    /// The text that shows the instruction: its mnemonic and its operands.
    pub fn to_string(&self) -> (r: String)
        ensures
            r@ == instruction_text(self),
    {
        match self {
            Instruction::IconstN(val) => with_number("iconst_", *val),
            Instruction::LconstN(val) => with_index("lconst_", *val),
            Instruction::Bipush(val) => with_number("bipush         ", *val),
            Instruction::Sipush(val) => with_number("sipush         ", *val),
            Instruction::Ldc(val) => with_index("ldc             #", *val),
            Instruction::Ldc2W(a, b) => with_indices("ldc2_w         #", *a, ",", *b),
            Instruction::Iload(val) => with_index("iload            #", *val),
            Instruction::Aload(val) => with_index("aload            #", *val),
            Instruction::IloadN(val) => with_index("iload_", *val),
            Instruction::LloadN(val) => with_index("lload_", *val),
            Instruction::AloadN(val) => with_index("aload_", *val),
            Instruction::Iaload => plain("iaload"),
            Instruction::Aaload => plain("aaload"),
            Instruction::Istore(val) => with_index("istore            #", *val),
            Instruction::Astore(val) => with_index("astore            #", *val),
            Instruction::Aastore => plain("aastore"),
            Instruction::IstoreN(val) => with_index("istore_", *val),
            Instruction::LstoreN(val) => with_index("lstore_", *val),
            Instruction::Iastore => plain("iastore"),
            Instruction::AstoreN(val) => with_index("astore_", *val),
            Instruction::Pop => plain("pop"),
            Instruction::Dup => plain("dup"),
            Instruction::Iadd => plain("iadd"),
            Instruction::Ladd => plain("ladd"),
            Instruction::Isub => plain("isub"),
            Instruction::Lsub => plain("lsub"),
            Instruction::Imul => plain("imul"),
            Instruction::Lmul => plain("lmul"),
            Instruction::Idiv => plain("idiv"),
            Instruction::Ldiv => plain("ldiv"),
            Instruction::Irem => plain("irem"),
            Instruction::Lrem => plain("lrem"),
            Instruction::Iinc(a, b) => with_index_and_number("iinc        ", *a, ", ", *b),
            Instruction::Lcmp => plain("lcmp"),
            Instruction::Ifeq(a, b) => with_indices("if_eq       ", *a, ", ", *b),
            Instruction::Ifne(a, b) => with_indices("if_ne       ", *a, ", ", *b),
            Instruction::Iflt(a, b) => with_indices("if_lt       ", *a, ", ", *b),
            Instruction::Ifge(a, b) => with_indices("if_ge       ", *a, ", ", *b),
            Instruction::Ifgt(a, b) => with_indices("if_gt       ", *a, ", ", *b),
            Instruction::Ifle(a, b) => with_indices("if_le       ", *a, ", ", *b),
            Instruction::Ificmpeq(a, b) => with_indices("if_icmpeq   ", *a, ", ", *b),
            Instruction::Ificmpne(a, b) => with_indices("if_icmpne   ", *a, ", ", *b),
            Instruction::Ificmplt(a, b) => with_indices("if_icmplt   ", *a, ", ", *b),
            Instruction::Ificmpge(a, b) => with_indices("if_icmpge   ", *a, ", ", *b),
            Instruction::Ificmpgt(a, b) => with_indices("if_icmpgt   ", *a, ", ", *b),
            Instruction::Ificmple(a, b) => with_indices("if_icmple   ", *a, ", ", *b),
            Instruction::Goto(val) => with_index("goto          ", *val),
            Instruction::Lookupswitch(table) => show_switch(table),
            Instruction::Ireturn => plain("ireturn"),
            Instruction::Areturn => plain("areturn"),
            Instruction::Return => plain("return"),
            Instruction::Getstatic(val) => with_index("getstatic       #", *val),
            Instruction::Putstatic(val) => with_index("putstatic       #", *val),
            Instruction::Getfield(val) => with_index("getfield        #", *val),
            Instruction::Putfield(val) => with_index("putfield        #", *val),
            Instruction::Invokevirtual(val) => with_index("invokevirtual   #", *val),
            Instruction::Invokespecial(val) => with_index("invokespecial   #", *val),
            Instruction::Invokestatic(val) => with_index("invokestatic   #", *val),
            Instruction::New(val) => with_index("new            #", *val),
            Instruction::Newarray(val) => with_index("newarray       #", *val),
            Instruction::Anewarray(val) => with_index("anewarray      #", *val),
            Instruction::Multianewarray(index, dimensions) => with_indices(
                "multianewarray    #",
                *index,
                " ",
                *dimensions,
            ),
            Instruction::Noope => plain("noope"),
        }
    }
}

} // verus!
