//! Byte reader: big-endian integers and raw byte runs out of a positioned buffer.

use vstd::prelude::*;
use crate::array::{primitive_type_of, PrimitiveArrayType};
use crate::error::{DecodeError, Error};
use crate::object::{ObjectMap, Objectref, ObjectrefView};
use crate::operand::Item;
use crate::table::Table;

verus! {

/// The number that `bytes` spell in big-endian order.
pub open spec fn be_value(bytes: Seq<u8>) -> nat
    decreases bytes.len(),
{
    if bytes.len() == 0 {
        0
    } else {
        be_value(bytes.drop_last()) * 256 + bytes.last() as nat
    }
}

/// `x` bytes are available in `input` from `index` on.
pub open spec fn available(input: Seq<u8>, index: int, x: int) -> bool {
    0 <= index && 0 <= x && index + x <= input.len()
}

/// What reading `x` raw bytes at `index` gives: the bytes and the advanced index.
pub open spec fn bytes_at(input: Seq<u8>, index: int, x: int) -> Result<(Seq<u8>, int), Error> {
    if available(input, index, x) {
        Ok((input.subrange(index, index + x), index + x))
    } else {
        Err(Error::DecodeError(DecodeError::FileTooShort))
    }
}

/// What reading an `x`-byte big-endian unsigned integer at `index` gives.
pub open spec fn uint_at(input: Seq<u8>, index: int, x: int) -> Result<(usize, usize), Error> {
    if available(input, index, x) {
        Ok((be_value(input.subrange(index, index + x)) as usize, (index + x) as usize))
    } else {
        Err(Error::DecodeError(DecodeError::FileTooShort))
    }
}

/// A big-endian number of `n` bytes is below `256^n`; stated for the widths in use.
pub proof fn lemma_be_value_bound(bytes: Seq<u8>)
    requires
        bytes.len() <= 4,
    ensures
        bytes.len() == 0 ==> be_value(bytes) == 0,
        bytes.len() == 1 ==> be_value(bytes) == bytes[0],
        bytes.len() == 2 ==> be_value(bytes) == bytes[0] * 256 + bytes[1],
        bytes.len() == 3 ==> be_value(bytes) == (bytes[0] * 256 + bytes[1]) * 256 + bytes[2],
        bytes.len() == 4 ==> be_value(bytes) == ((bytes[0] * 256 + bytes[1]) * 256 + bytes[2])
            * 256 + bytes[3],
        bytes.len() == 1 ==> be_value(bytes) < 0x100,
        bytes.len() == 2 ==> be_value(bytes) < 0x1_0000,
        bytes.len() == 3 ==> be_value(bytes) < 0x100_0000,
        be_value(bytes) < 0x1_0000_0000,
    decreases bytes.len(),
{
    if bytes.len() > 0 {
        let front = bytes.drop_last();
        lemma_be_value_bound(front);
        assert(forall|i: int| 0 <= i < front.len() ==> front[i] == bytes[i]);
    }
}

/// Reads `x` bytes at `index` as a fresh vector and returns it with the advanced index.
pub fn extract_x_byte_as_vec(input: &[u8], index: usize, x: usize) -> (r: Result<
    (Vec<u8>, usize),
    Error,
>)
    ensures
        match r {
            Ok((bytes, next)) => bytes_at(input@, index as int, x as int) == Ok::<
                (Seq<u8>, int),
                Error,
            >((bytes@, next as int)),
            Err(e) => bytes_at(input@, index as int, x as int) == Err::<(Seq<u8>, int), Error>(e),
        },
{
    if x > input.len() || index > input.len() - x {
        return Err(Error::DecodeError(DecodeError::FileTooShort));
    }
    let length: usize = input.len();
    let mut result: Vec<u8> = Vec::with_capacity(x);
    let mut i: usize = 0;
    while i < x
        invariant
            i <= x,
            length == input@.len(),
            index + x <= length,
            result@ == input@.subrange(index as int, index + i),
        decreases x - i,
    {
        result.push(input[index + i]);
        i += 1;
        assert(result@ =~= input@.subrange(index as int, index + i));
    }
    Ok((result, index + x))
}

/// Reads `x` bytes at `index` as a big-endian unsigned integer and returns it with the
/// advanced index. The width is at most four bytes, so that the value fits `usize` on
/// every target.
pub fn extract_x_byte_as_usize(input: &[u8], index: usize, x: usize) -> (r: Result<
    (usize, usize),
    Error,
>)
    requires
        x <= 4,
    ensures
        r == uint_at(input@, index as int, x as int),
        r matches Ok((value, next)) ==> next == index + x && next <= input@.len() && value
            == be_value(input@.subrange(index as int, index + x)),
{
    if x > input.len() || index > input.len() - x {
        return Err(Error::DecodeError(DecodeError::FileTooShort));
    }
    let length: usize = input.len();
    let mut result: usize = 0;
    let mut i: usize = 0;
    while i < x
        invariant
            i <= x <= 4,
            length == input@.len(),
            index + x <= length,
            result == be_value(input@.subrange(index as int, index + i)),
        decreases x - i,
    {
        proof {
            let before = input@.subrange(index as int, index + i);
            let after = input@.subrange(index as int, index + i + 1);
            lemma_be_value_bound(before);
            assert(after.drop_last() =~= before);
            assert(after.last() == input@[index + i]);
        }
        result = result * 256 + input[index + i] as usize;
        i += 1;
    }
    Ok((result, index + x))
}

/// The 64 bits of `value` in two's complement, as a natural number.
pub open spec fn long_bits(value: i64) -> nat {
    if value >= 0 {
        value as nat
    } else {
        (value + 0x1_0000_0000_0000_0000) as nat
    }
}

/// The signed 64-bit value whose upper 32 bits are `high` and whose lower 32 bits are `low`.
pub open spec fn long_value(high: u32, low: u32) -> i64 {
    let bits = high as int * 0x1_0000_0000 + low as int;
    if bits >= 0x8000_0000_0000_0000 {
        (bits - 0x1_0000_0000_0000_0000) as i64
    } else {
        bits as i64
    }
}

/// Upper half of the bits of `value`.
pub open spec fn high_half(value: i64) -> u32 {
    (long_bits(value) / 0x1_0000_0000) as u32
}

/// Lower half of the bits of `value`.
pub open spec fn low_half(value: i64) -> u32 {
    (long_bits(value) % 0x1_0000_0000) as u32
}

/// The 32 bits of `half` read as a signed number.
pub open spec fn signed_half(half: u32) -> i32 {
    if half >= 0x8000_0000 {
        (half - 0x1_0000_0000) as i32
    } else {
        half as i32
    }
}

/// Splits a 64-bit value into its upper and lower 32 bits.
pub fn split_long(value: i64) -> (r: (u32, u32))
    ensures
        r.0 == high_half(value),
        r.1 == low_half(value),
        long_value(r.0, r.1) == value,
{
    let bits: u64 = value as u64;
    assert(bits == if value >= 0 {
        value as int
    } else {
        value + 0x1_0000_0000_0000_0000
    }) by (bit_vector)
        requires
            bits == value as u64,
    ;
    let high: u32 = (bits >> 32) as u32;
    let low: u32 = (bits & 0xFFFF_FFFF) as u32;
    assert(bits >> 32 == bits / 0x1_0000_0000) by (bit_vector);
    assert(bits & 0xFFFF_FFFF == bits % 0x1_0000_0000) by (bit_vector);
    (high, low)
}

/// Joins an upper and a lower half into the 64-bit value they spell.
pub fn join_long(high: u32, low: u32) -> (value: i64)
    ensures
        value == long_value(high, low),
        high_half(value) == high,
        low_half(value) == low,
{
    let bits: u64 = ((high as u64) << 32) | (low as u64);
    assert(bits == high as u64 * 0x1_0000_0000 + low as u64) by (bit_vector)
        requires
            bits == ((high as u64) << 32) | (low as u64),
    ;
    let value: i64 = bits as i64;
    assert(value == if bits >= 0x8000_0000_0000_0000 {
        bits - 0x1_0000_0000_0000_0000
    } else {
        bits as int
    }) by (bit_vector)
        requires
            value == bits as i64,
    ;
    value
}

/// Splits a 64-bit value into its upper and lower 32 bits, each read as a signed number.
pub fn devide_i64_to_two_i32(input: i64) -> (r: (i32, i32))
    ensures
        r.0 == signed_half(high_half(input)),
        r.1 == signed_half(low_half(input)),
{
    let (high, low) = split_long(input);
    (as_signed(high), as_signed(low))
}

/// The 32 bits of `value` in two's complement, as an unsigned number.
pub open spec fn int_bits(value: i32) -> u32 {
    if value >= 0 {
        value as u32
    } else {
        (value + 0x1_0000_0000) as u32
    }
}

/// Reads the 32 bits of `half` as a signed number.
pub fn as_signed(half: u32) -> (r: i32)
    ensures
        r == signed_half(half),
        int_bits(r) == half,
{
    let r: i32 = #[verifier::truncate] (half as i32);
    assert(r == if half >= 0x8000_0000 {
        half - 0x1_0000_0000
    } else {
        half as int
    }) by (bit_vector)
        requires
            r == half as i32,
    ;
    r
}

/// Reads the 32 bits of `value` as an unsigned number.
pub fn as_unsigned(value: i32) -> (r: u32)
    ensures
        r == int_bits(value),
        signed_half(r) == value,
{
    let r: u32 = #[verifier::truncate] (value as u32);
    assert(r == if value >= 0 {
        value as int
    } else {
        value + 0x1_0000_0000
    }) by (bit_vector)
        requires
            r == value as u32,
    ;
    r
}

/// `v` as a machine-sized unsigned number.
pub open spec fn to_usize(v: int) -> usize {
    v as usize
}

/// An unsigned byte read as a two's complement number.
pub open spec fn signed_byte(v: usize) -> i32 {
    if v >= 0x80 {
        (v - 0x100) as i32
    } else {
        v as i32
    }
}

/// An unsigned 16-bit number read as a two's complement number.
pub open spec fn signed_short(v: usize) -> i32 {
    if v >= 0x8000 {
        (v - 0x1_0000) as i32
    } else {
        v as i32
    }
}

/// Reads a byte as a two's complement number.
pub fn sign_extend_byte(v: usize) -> (r: i32)
    requires
        v < 0x100,
    ensures
        r == signed_byte(v),
{
    if v >= 0x80 {
        (v as i32) - 0x100
    } else {
        v as i32
    }
}

/// Reads a 16-bit number as a two's complement number.
pub fn sign_extend_short(v: usize) -> (r: i32)
    requires
        v < 0x1_0000,
    ensures
        r == signed_short(v),
{
    if v >= 0x8000 {
        (v as i32) - 0x1_0000
    } else {
        v as i32
    }
}

/// Reads a 32-bit number as a two's complement number.
pub fn sign_extend_word(v: usize) -> (r: i32)
    requires
        v < 0x1_0000_0000,
    ensures
        r == signed_half(v as u32),
{
    as_signed(v as u32)
}

/// A small number as a signed one.
pub fn small_int(v: usize) -> (r: i32)
    requires
        v < 0x1_0000,
    ensures
        r == v,
{
    v as i32
}

/// One byte at `index` as a number, and the index behind it.
pub open spec fn u1_at(bytes: Seq<u8>, index: usize) -> Result<(usize, usize), Error> {
    uint_at(bytes, index as int, 1)
}

/// A 16-bit big-endian number at `index`, and the index behind it.
pub open spec fn u2_at(bytes: Seq<u8>, index: usize) -> Result<(usize, usize), Error> {
    uint_at(bytes, index as int, 2)
}

/// A 32-bit big-endian number at `index`, and the index behind it.
pub open spec fn u4_at(bytes: Seq<u8>, index: usize) -> Result<(usize, usize), Error> {
    uint_at(bytes, index as int, 4)
}

/// Reads one byte as a number.
pub fn read_u1(inputs: &[u8], index: usize) -> (r: Result<(usize, usize), Error>)
    ensures
        r == u1_at(inputs@, index),
        r matches Ok((value, next)) ==> value < 0x100 && next == index + 1 && next
            <= inputs@.len(),
{
    proof {
        if available(inputs@, index as int, 1) {
            lemma_be_value_bound(inputs@.subrange(index as int, index + 1));
        }
    }
    extract_x_byte_as_usize(inputs, index, 1)
}

/// Reads a 16-bit big-endian number.
pub fn read_u2(inputs: &[u8], index: usize) -> (r: Result<(usize, usize), Error>)
    ensures
        r == u2_at(inputs@, index),
        r matches Ok((value, next)) ==> value < 0x1_0000 && next == index + 2 && next
            <= inputs@.len(),
{
    proof {
        if available(inputs@, index as int, 2) {
            lemma_be_value_bound(inputs@.subrange(index as int, index + 2));
        }
    }
    extract_x_byte_as_usize(inputs, index, 2)
}

/// Reads a 32-bit big-endian number.
pub fn read_u4(inputs: &[u8], index: usize) -> (r: Result<(usize, usize), Error>)
    ensures
        r == u4_at(inputs@, index),
        r matches Ok((value, next)) ==> value < 0x1_0000_0000 && next == index + 4 && next
            <= inputs@.len(),
{
    proof {
        if available(inputs@, index as int, 4) {
            lemma_be_value_bound(inputs@.subrange(index as int, index + 4));
        }
    }
    extract_x_byte_as_usize(inputs, index, 4)
}

/// A new array of `length` primitive values of the type with the code `type_index`, none
/// of them stored to yet; `None` if the code stands for no type.
pub fn iniailize_primitive_array(type_index: usize, length: usize) -> (r: Option<Vec<(Item, Item)>>)
    ensures
        match primitive_type_of(type_index) {
            Some(kind) => r matches Some(items) && items@ == Seq::new(
                length as nat,
                |i: int| kind.initial(),
            ),
            None => r is None,
        },
{
    let kind = PrimitiveArrayType::from(type_index)?;
    let default_val = kind.default_value();
    let mut items: Vec<(Item, Item)> = Vec::new();
    let mut i: usize = 0;
    while i < length
        invariant
            i <= length,
            default_val == kind.initial(),
            items@ == Seq::new(i as nat, |i: int| kind.initial()),
        decreases length - i,
    {
        items.push(default_val);
        i += 1;
        assert(items@ =~= Seq::new(i as nat, |i: int| kind.initial()));
    }
    Some(items)
}

/// Creates `length` objects of the class `class_name_id`, without fields and not
/// initialized, and hands out their ids in the order of their creation.
pub fn initialize_objectref_array(
    object_map: &mut ObjectMap,
    class_name_id: usize,
    length: usize,
) -> (r:
    Vec<usize>)
    requires
        old(object_map).wf(),
    ensures
        final(object_map).wf(),
        final(object_map)@ == old(object_map)@ + Seq::new(
            length as nat,
            |i: int|
                ObjectrefView {
                    class_name_id,
                    field_map: Map::empty(),
                    is_initialized: false,
                },
        ),
        r@ == Seq::new(length as nat, |i: int| (old(object_map)@.len() + i) as usize),
{
    let mut ids: Vec<usize> = Vec::new();
    let mut i: usize = 0;
    let ghost blank = ObjectrefView {
        class_name_id,
        field_map: Map::<(usize, usize), (Item, Item)>::empty(),
        is_initialized: false,
    };
    assert(object_map@ =~= old(object_map)@ + Seq::new(0nat, |i: int| blank));
    while i < length
        invariant
            i <= length,
            object_map.wf(),
            blank == (ObjectrefView {
                class_name_id,
                field_map: Map::<(usize, usize), (Item, Item)>::empty(),
                is_initialized: false,
            }),
            object_map@ == old(object_map)@ + Seq::new(i as nat, |i: int| blank),
            ids@ == Seq::new(i as nat, |i: int| (old(object_map)@.len() + i) as usize),
        decreases length - i,
    {
        let id = object_map.add(Objectref::new(class_name_id, Table::new(), false));
        ids.push(id);
        i += 1;
        assert(object_map@ =~= old(object_map)@ + Seq::new(i as nat, |i: int| blank));
        assert(ids@ =~= Seq::new(i as nat, |i: int| (old(object_map)@.len() + i) as usize));
    }
    ids
}

/// A 32-bit number as a 64-bit one.
pub fn widen(v: i32) -> (r: i64)
    ensures
        r == v,
{
    v as i64
}

} // verus!
