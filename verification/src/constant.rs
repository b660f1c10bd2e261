//! The constant pool: its entries, its parser and the accessors the engine resolves
//! symbolic references with.

use vstd::prelude::*;
use crate::error::{DecodeError, Error, UnsupportedError};
use crate::operand::Item;
use crate::string_pool::{interned, StringPool};
use crate::text::{decimal, digits, push_decimal, push_index};
use crate::utils::{join_long, long_value};
use crate::utils::{
    as_signed, bytes_at, extract_x_byte_as_usize, extract_x_byte_as_vec, lemma_be_value_bound,
    signed_half, uint_at,
};

verus! {

/// Kind of a constant-pool entry. `ConstantNull` marks the unused entry 0 and the second
/// slot of a 64-bit constant.
#[derive(Clone, Copy, Debug, PartialEq, Eq, Structural)]
pub enum ConstPoolTag {
    ConstantNull,
    ConstantClass,
    ConstantFieldref,
    ConstantMethodref,
    ConstantInterfaceMethodref,
    ConstantString,
    ConstantInteger,
    ConstantFloat,
    ConstantLong,
    ConstantDouble,
    ConstantNameAndType,
    ConstantUtf8,
    ConstantMethodHandle,
    ConstantMethodType,
    ConstantInvokeDynamic,
}

/// The kind that the tag byte `num` stands for.
pub open spec fn tag_of(num: usize) -> Result<ConstPoolTag, Error> {
    if num == 0 {
        Ok(ConstPoolTag::ConstantNull)
    } else if num == 7 {
        Ok(ConstPoolTag::ConstantClass)
    } else if num == 9 {
        Ok(ConstPoolTag::ConstantFieldref)
    } else if num == 10 {
        Ok(ConstPoolTag::ConstantMethodref)
    } else if num == 11 {
        Ok(ConstPoolTag::ConstantInterfaceMethodref)
    } else if num == 8 {
        Ok(ConstPoolTag::ConstantString)
    } else if num == 3 {
        Ok(ConstPoolTag::ConstantInteger)
    } else if num == 4 {
        Ok(ConstPoolTag::ConstantFloat)
    } else if num == 5 {
        Ok(ConstPoolTag::ConstantLong)
    } else if num == 6 {
        Ok(ConstPoolTag::ConstantDouble)
    } else if num == 12 {
        Ok(ConstPoolTag::ConstantNameAndType)
    } else if num == 1 {
        Ok(ConstPoolTag::ConstantUtf8)
    } else if num == 15 {
        Ok(ConstPoolTag::ConstantMethodHandle)
    } else if num == 16 {
        Ok(ConstPoolTag::ConstantMethodType)
    } else if num == 18 {
        Ok(ConstPoolTag::ConstantInvokeDynamic)
    } else {
        Err(Error::DecodeError(DecodeError::UnknownConstantTag(num)))
    }
}

impl ConstPoolTag {
    /// The kind that the tag byte `num` stands for; fails on a number that is no tag.
    pub fn from(num: usize) -> (r: Result<ConstPoolTag, Error>)
        ensures
            r == tag_of(num),
    {
        if num == 0 {
            Ok(ConstPoolTag::ConstantNull)
        } else if num == 7 {
            Ok(ConstPoolTag::ConstantClass)
        } else if num == 9 {
            Ok(ConstPoolTag::ConstantFieldref)
        } else if num == 10 {
            Ok(ConstPoolTag::ConstantMethodref)
        } else if num == 11 {
            Ok(ConstPoolTag::ConstantInterfaceMethodref)
        } else if num == 8 {
            Ok(ConstPoolTag::ConstantString)
        } else if num == 3 {
            Ok(ConstPoolTag::ConstantInteger)
        } else if num == 4 {
            Ok(ConstPoolTag::ConstantFloat)
        } else if num == 5 {
            Ok(ConstPoolTag::ConstantLong)
        } else if num == 6 {
            Ok(ConstPoolTag::ConstantDouble)
        } else if num == 12 {
            Ok(ConstPoolTag::ConstantNameAndType)
        } else if num == 1 {
            Ok(ConstPoolTag::ConstantUtf8)
        } else if num == 15 {
            Ok(ConstPoolTag::ConstantMethodHandle)
        } else if num == 16 {
            Ok(ConstPoolTag::ConstantMethodType)
        } else if num == 18 {
            Ok(ConstPoolTag::ConstantInvokeDynamic)
        } else {
            Err(Error::DecodeError(DecodeError::UnknownConstantTag(num)))
        }
    }
}

#[derive(Clone, Copy, Debug, PartialEq, Eq, Structural)]
pub struct ConstantString {
    pub tag: ConstPoolTag,
    pub string_index: usize,
}

#[derive(Clone, Copy, Debug, PartialEq, Eq, Structural)]
pub struct ConstantFieldref {
    pub tag: ConstPoolTag,
    pub class_index: usize,
    pub name_and_type_index: usize,
}

#[derive(Clone, Copy, Debug, PartialEq, Eq, Structural)]
pub struct ConstantNameAndType {
    pub tag: ConstPoolTag,
    pub name_index: usize,
    pub descriptor_index: usize,
}

#[derive(Clone, Copy, Debug, PartialEq, Eq, Structural)]
pub struct ConstantClass {
    pub tag: ConstPoolTag,
    pub name_index: usize,
}

#[derive(Clone, Copy, Debug, PartialEq, Eq, Structural)]
pub struct ConstantMethodref {
    pub tag: ConstPoolTag,
    pub class_index: usize,
    pub name_and_type_index: usize,
}

#[derive(Clone, Copy, Debug, PartialEq, Eq, Structural)]
pub struct ConstantInterfaceMethodref {
    pub tag: ConstPoolTag,
    pub class_index: usize,
    pub name_and_type_index: usize,
}

/// A text constant: its length in bytes in the file, and the id of its text in the
/// string pool.
#[derive(Clone, Copy, Debug, PartialEq, Eq, Structural)]
pub struct ConstantUtf8 {
    pub tag: ConstPoolTag,
    pub length: usize,
    pub id: usize,
}

#[derive(Clone, Copy, Debug, PartialEq, Eq, Structural)]
pub struct ConstantInteger {
    pub tag: ConstPoolTag,
    pub value: i32,
}

/// A 32-bit floating-point constant, by its bits.
#[derive(Clone, Copy, Debug, PartialEq, Eq, Structural)]
pub struct ConstantFloat {
    pub tag: ConstPoolTag,
    pub bits: u32,
}

#[derive(Clone, Copy, Debug, PartialEq, Eq, Structural)]
pub struct ConstantLong {
    pub tag: ConstPoolTag,
    pub high_bytes: u32,
    pub low_bytes: u32,
}

/// A 64-bit floating-point constant, by the two halves of its bits.
#[derive(Clone, Copy, Debug, PartialEq, Eq, Structural)]
pub struct ConstantDouble {
    pub tag: ConstPoolTag,
    pub high_bytes: u32,
    pub low_bytes: u32,
}

#[derive(Clone, Copy, Debug, PartialEq, Eq, Structural)]
pub enum ConstPoolItem {
    ConstantNull,
    ConstantClass(ConstantClass),
    ConstantFieldref(ConstantFieldref),
    ConstantMethodref(ConstantMethodref),
    ConstantInterfaceMethodref(ConstantInterfaceMethodref),
    ConstantString(ConstantString),
    ConstantInteger(ConstantInteger),
    ConstantFloat(ConstantFloat),
    ConstantLong(ConstantLong),
    ConstantDouble(ConstantDouble),
    ConstantNameAndType(ConstantNameAndType),
    ConstantUtf8(ConstantUtf8),
    ConstantMethodHandle,
    ConstantMethodType,
    ConstantInvokeDynamic,
}

/// The text that a run of bytes stands for: what `String::from_utf8_lossy` makes of it.
pub uninterp spec fn lossy_text(bytes: Seq<u8>) -> Seq<char>;

/// `String::from_utf8_lossy` with the result owned. Nothing is claimed of the text but
/// that it is a function of the bytes alone.
#[verifier::external_body]
pub(crate) fn text_of_bytes(bytes: &Vec<u8>) -> (text: String)
    ensures
        text@ == lossy_text(bytes@),
{
    String::from_utf8_lossy(bytes.as_slice()).into_owned()
}

/// One 16-bit index at `index`.
pub open spec fn one_index_at(bytes: Seq<u8>, index: usize) -> Result<(usize, usize), Error> {
    uint_at(bytes, index as int, 2)
}

/// Two 16-bit indices in a row at `index`, and the index behind them.
pub open spec fn two_indices_at(bytes: Seq<u8>, index: usize) -> Result<
    (usize, usize, usize),
    Error,
> {
    match uint_at(bytes, index as int, 2) {
        Err(e) => Err(e),
        Ok((first, next)) => match uint_at(bytes, next as int, 2) {
            Err(e) => Err(e),
            Ok((second, end)) => Ok((first, second, end)),
        },
    }
}

/// Two 32-bit halves in a row at `index`, and the index behind them.
pub open spec fn two_halves_at(bytes: Seq<u8>, index: usize) -> Result<(u32, u32, usize), Error> {
    match uint_at(bytes, index as int, 4) {
        Err(e) => Err(e),
        Ok((first, next)) => match uint_at(bytes, next as int, 4) {
            Err(e) => Err(e),
            Ok((second, end)) => Ok((first as u32, second as u32, end)),
        },
    }
}

/// Reads two 16-bit indices in a row.
fn read_two_indices(inputs: &[u8], index: usize) -> (r: Result<(usize, usize, usize), Error>)
    ensures
        r == two_indices_at(inputs@, index),
{
    let (first, index) = extract_x_byte_as_usize(inputs, index, 2)?;
    let (second, index) = extract_x_byte_as_usize(inputs, index, 2)?;
    Ok((first, second, index))
}

/// Reads a 32-bit number.
fn read_word(inputs: &[u8], index: usize) -> (r: Result<(u32, usize), Error>)
    ensures
        match r {
            Ok((word, next)) => uint_at(inputs@, index as int, 4) == Ok::<(usize, usize), Error>(
                (word as usize, next),
            ) && uint_at(inputs@, index as int, 4)->Ok_0.0 as u32 == word,
            Err(e) => uint_at(inputs@, index as int, 4) == Err::<(usize, usize), Error>(e),
        },
{
    let (value, next) = extract_x_byte_as_usize(inputs, index, 4)?;
    proof {
        lemma_be_value_bound(inputs@.subrange(index as int, index + 4));
    }
    Ok((value as u32, next))
}

/// Reads two 32-bit halves in a row.
fn read_two_halves(inputs: &[u8], index: usize) -> (r: Result<(u32, u32, usize), Error>)
    ensures
        r == two_halves_at(inputs@, index),
{
    let (first, index) = read_word(inputs, index)?;
    let (second, index) = read_word(inputs, index)?;
    Ok((first, second, index))
}

impl ConstantString {
    /// The entry whose body starts at `index`, and the index behind it.
    pub fn create_and_update_index(inputs: &[u8], index: usize) -> (r: Result<
        (ConstantString, usize),
        Error,
    >)
        ensures
            r == match one_index_at(inputs@, index) {
                Ok((string_index, next)) => Ok(
                    (ConstantString { tag: ConstPoolTag::ConstantString, string_index }, next),
                ),
                Err(e) => Err(e),
            },
    {
        let (string_index, index) = extract_x_byte_as_usize(inputs, index, 2)?;
        Ok((ConstantString { tag: ConstPoolTag::ConstantString, string_index }, index))
    }
}

impl ConstantClass {
    /// The entry whose body starts at `index`, and the index behind it.
    pub fn create_and_update_index(inputs: &[u8], index: usize) -> (r: Result<
        (ConstantClass, usize),
        Error,
    >)
        ensures
            r == match one_index_at(inputs@, index) {
                Ok((name_index, next)) => Ok(
                    (ConstantClass { tag: ConstPoolTag::ConstantClass, name_index }, next),
                ),
                Err(e) => Err(e),
            },
    {
        let (name_index, index) = extract_x_byte_as_usize(inputs, index, 2)?;
        Ok((ConstantClass { tag: ConstPoolTag::ConstantClass, name_index }, index))
    }
}

impl ConstantFieldref {
    /// The entry whose body starts at `index`, and the index behind it.
    pub fn create_and_update_index(inputs: &[u8], index: usize) -> (r: Result<
        (ConstantFieldref, usize),
        Error,
    >)
        ensures
            r == match two_indices_at(inputs@, index) {
                Ok((class_index, name_and_type_index, next)) => Ok(
                    (
                        ConstantFieldref {
                            tag: ConstPoolTag::ConstantFieldref,
                            class_index,
                            name_and_type_index,
                        },
                        next,
                    ),
                ),
                Err(e) => Err(e),
            },
    {
        let (class_index, name_and_type_index, index) = read_two_indices(inputs, index)?;
        Ok(
            (
                ConstantFieldref {
                    tag: ConstPoolTag::ConstantFieldref,
                    class_index,
                    name_and_type_index,
                },
                index,
            ),
        )
    }
}

impl ConstantMethodref {
    /// The entry whose body starts at `index`, and the index behind it.
    pub fn create_and_update_index(inputs: &[u8], index: usize) -> (r: Result<
        (ConstantMethodref, usize),
        Error,
    >)
        ensures
            r == match two_indices_at(inputs@, index) {
                Ok((class_index, name_and_type_index, next)) => Ok(
                    (
                        ConstantMethodref {
                            tag: ConstPoolTag::ConstantMethodref,
                            class_index,
                            name_and_type_index,
                        },
                        next,
                    ),
                ),
                Err(e) => Err(e),
            },
    {
        let (class_index, name_and_type_index, index) = read_two_indices(inputs, index)?;
        Ok(
            (
                ConstantMethodref {
                    tag: ConstPoolTag::ConstantMethodref,
                    class_index,
                    name_and_type_index,
                },
                index,
            ),
        )
    }
}

impl ConstantInterfaceMethodref {
    /// The entry whose body starts at `index`, and the index behind it.
    pub fn create_and_update_index(inputs: &[u8], index: usize) -> (r: Result<
        (ConstantInterfaceMethodref, usize),
        Error,
    >)
        ensures
            r == match two_indices_at(inputs@, index) {
                Ok((class_index, name_and_type_index, next)) => Ok(
                    (
                        ConstantInterfaceMethodref {
                            tag: ConstPoolTag::ConstantInterfaceMethodref,
                            class_index,
                            name_and_type_index,
                        },
                        next,
                    ),
                ),
                Err(e) => Err(e),
            },
    {
        let (class_index, name_and_type_index, index) = read_two_indices(inputs, index)?;
        Ok(
            (
                ConstantInterfaceMethodref {
                    tag: ConstPoolTag::ConstantInterfaceMethodref,
                    class_index,
                    name_and_type_index,
                },
                index,
            ),
        )
    }
}

impl ConstantNameAndType {
    /// The entry whose body starts at `index`, and the index behind it.
    pub fn create_and_update_index(inputs: &[u8], index: usize) -> (r: Result<
        (ConstantNameAndType, usize),
        Error,
    >)
        ensures
            r == match two_indices_at(inputs@, index) {
                Ok((name_index, descriptor_index, next)) => Ok(
                    (
                        ConstantNameAndType {
                            tag: ConstPoolTag::ConstantNameAndType,
                            name_index,
                            descriptor_index,
                        },
                        next,
                    ),
                ),
                Err(e) => Err(e),
            },
    {
        let (name_index, descriptor_index, index) = read_two_indices(inputs, index)?;
        Ok(
            (
                ConstantNameAndType {
                    tag: ConstPoolTag::ConstantNameAndType,
                    name_index,
                    descriptor_index,
                },
                index,
            ),
        )
    }
}

/// The text constant whose body starts at `index`: its entry, the index behind it, and
/// the string pool after its text was interned.
pub open spec fn utf8_at(bytes: Seq<u8>, index: usize, texts: Seq<Seq<char>>) -> Result<
    (ConstantUtf8, usize, Seq<Seq<char>>),
    Error,
> {
    match uint_at(bytes, index as int, 2) {
        Err(e) => Err(e),
        Ok((length, next)) => match bytes_at(bytes, next as int, length as int) {
            Err(e) => Err(e),
            Ok((body, end)) => {
                let (pool, id) = interned(texts, lossy_text(body));
                Ok((ConstantUtf8 { tag: ConstPoolTag::ConstantUtf8, length, id }, end as usize, pool))
            },
        },
    }
}

impl ConstantUtf8 {
    /// The text constant whose body starts at `index`, and the index behind it. Its text
    /// is interned into `string_pool`; on failure the pool is unchanged.
    pub fn create_and_update_index(
        string_pool: &mut StringPool,
        inputs: &[u8],
        index: usize,
    ) -> (r: Result<(ConstantUtf8, usize), Error>)
        requires
            old(string_pool).wf(),
        ensures
            final(string_pool).wf(),
            match r {
                Ok((entry, next)) => utf8_at(inputs@, index, old(string_pool)@) == Ok::<
                    (ConstantUtf8, usize, Seq<Seq<char>>),
                    Error,
                >((entry, next, final(string_pool)@)),
                Err(e) => utf8_at(inputs@, index, old(string_pool)@) == Err::<
                    (ConstantUtf8, usize, Seq<Seq<char>>),
                    Error,
                >(e) && final(string_pool)@ == old(string_pool)@,
            },
    {
        let (length, index) = extract_x_byte_as_usize(inputs, index, 2)?;
        let (bytes, index) = extract_x_byte_as_vec(inputs, index, length)?;
        let id = string_pool.insert(text_of_bytes(&bytes));
        Ok((ConstantUtf8 { tag: ConstPoolTag::ConstantUtf8, length, id }, index))
    }
}

impl ConstantInteger {
    /// The entry whose body starts at `index`, and the index behind it.
    pub fn create_and_update_index(inputs: &[u8], index: usize) -> (r: Result<
        (ConstantInteger, usize),
        Error,
    >)
        ensures
            r == match uint_at(inputs@, index as int, 4) {
                Ok((word, next)) => Ok(
                    (
                        ConstantInteger {
                            tag: ConstPoolTag::ConstantInteger,
                            value: signed_half(word as u32),
                        },
                        next,
                    ),
                ),
                Err(e) => Err(e),
            },
    {
        let (word, index) = read_word(inputs, index)?;
        Ok((ConstantInteger { tag: ConstPoolTag::ConstantInteger, value: as_signed(word) }, index))
    }
}

impl ConstantFloat {
    /// The entry whose body starts at `index`, and the index behind it.
    pub fn create_and_update_index(inputs: &[u8], index: usize) -> (r: Result<
        (ConstantFloat, usize),
        Error,
    >)
        ensures
            r == match uint_at(inputs@, index as int, 4) {
                Ok((word, next)) => Ok(
                    (ConstantFloat { tag: ConstPoolTag::ConstantFloat, bits: word as u32 }, next),
                ),
                Err(e) => Err(e),
            },
    {
        let (word, index) = read_word(inputs, index)?;
        Ok((ConstantFloat { tag: ConstPoolTag::ConstantFloat, bits: word }, index))
    }
}

impl ConstantLong {
    /// The entry whose body starts at `index`, and the index behind it.
    pub fn create_and_update_index(inputs: &[u8], index: usize) -> (r: Result<
        (ConstantLong, usize),
        Error,
    >)
        ensures
            r == match two_halves_at(inputs@, index) {
                Ok((high_bytes, low_bytes, next)) => Ok(
                    (ConstantLong { tag: ConstPoolTag::ConstantLong, high_bytes, low_bytes }, next),
                ),
                Err(e) => Err(e),
            },
    {
        let (high_bytes, low_bytes, index) = read_two_halves(inputs, index)?;
        Ok((ConstantLong { tag: ConstPoolTag::ConstantLong, high_bytes, low_bytes }, index))
    }
}

impl ConstantDouble {
    /// The entry whose body starts at `index`, and the index behind it.
    pub fn create_and_update_index(inputs: &[u8], index: usize) -> (r: Result<
        (ConstantDouble, usize),
        Error,
    >)
        ensures
            r == match two_halves_at(inputs@, index) {
                Ok((high_bytes, low_bytes, next)) => Ok(
                    (
                        ConstantDouble { tag: ConstPoolTag::ConstantDouble, high_bytes, low_bytes },
                        next,
                    ),
                ),
                Err(e) => Err(e),
            },
    {
        let (high_bytes, low_bytes, index) = read_two_halves(inputs, index)?;
        Ok((ConstantDouble { tag: ConstPoolTag::ConstantDouble, high_bytes, low_bytes }, index))
    }
}

/// The constant pool of a class: entry 0 is unused, and behind a 64-bit constant stands
/// one more unused entry, so that an entry's place is its index in the class file.
#[derive(Debug, PartialEq)]
pub struct ConstantPool(pub Vec<ConstPoolItem>);

impl View for ConstantPool {
    type V = Seq<ConstPoolItem>;

    open spec fn view(&self) -> Seq<ConstPoolItem> {
        self.0@
    }
}

/// Where the parser of a pool stands: the entries so far, the index of the next byte, and
/// the string pool.
pub struct PoolProgress {
    pub items: Seq<ConstPoolItem>,
    pub index: usize,
    pub texts: Seq<Seq<char>>,
}

/// The entry takes two slots of the pool.
pub open spec fn takes_two_slots(item: ConstPoolItem) -> bool {
    item is ConstantLong || item is ConstantDouble
}

/// The entry that starts with its tag byte at `index`: the entry, the index behind it, and
/// the string pool after it was read.
pub open spec fn entry_at(bytes: Seq<u8>, index: usize, texts: Seq<Seq<char>>) -> Result<
    (ConstPoolItem, usize, Seq<Seq<char>>),
    Error,
> {
    match uint_at(bytes, index as int, 1) {
        Err(e) => Err(e),
        Ok((tag, body)) => match tag_of(tag) {
            Err(e) => Err(e),
            Ok(ConstPoolTag::ConstantClass) => match one_index_at(bytes, body) {
                Err(e) => Err(e),
                Ok((name_index, next)) => Ok(
                    (
                        ConstPoolItem::ConstantClass(
                            ConstantClass { tag: ConstPoolTag::ConstantClass, name_index },
                        ),
                        next,
                        texts,
                    ),
                ),
            },
            Ok(ConstPoolTag::ConstantString) => match one_index_at(bytes, body) {
                Err(e) => Err(e),
                Ok((string_index, next)) => Ok(
                    (
                        ConstPoolItem::ConstantString(
                            ConstantString { tag: ConstPoolTag::ConstantString, string_index },
                        ),
                        next,
                        texts,
                    ),
                ),
            },
            Ok(ConstPoolTag::ConstantFieldref) => match two_indices_at(bytes, body) {
                Err(e) => Err(e),
                Ok((class_index, name_and_type_index, next)) => Ok(
                    (
                        ConstPoolItem::ConstantFieldref(
                            ConstantFieldref {
                                tag: ConstPoolTag::ConstantFieldref,
                                class_index,
                                name_and_type_index,
                            },
                        ),
                        next,
                        texts,
                    ),
                ),
            },
            Ok(ConstPoolTag::ConstantMethodref) => match two_indices_at(bytes, body) {
                Err(e) => Err(e),
                Ok((class_index, name_and_type_index, next)) => Ok(
                    (
                        ConstPoolItem::ConstantMethodref(
                            ConstantMethodref {
                                tag: ConstPoolTag::ConstantMethodref,
                                class_index,
                                name_and_type_index,
                            },
                        ),
                        next,
                        texts,
                    ),
                ),
            },
            Ok(ConstPoolTag::ConstantInterfaceMethodref) => match two_indices_at(bytes, body) {
                Err(e) => Err(e),
                Ok((class_index, name_and_type_index, next)) => Ok(
                    (
                        ConstPoolItem::ConstantInterfaceMethodref(
                            ConstantInterfaceMethodref {
                                tag: ConstPoolTag::ConstantInterfaceMethodref,
                                class_index,
                                name_and_type_index,
                            },
                        ),
                        next,
                        texts,
                    ),
                ),
            },
            Ok(ConstPoolTag::ConstantNameAndType) => match two_indices_at(bytes, body) {
                Err(e) => Err(e),
                Ok((name_index, descriptor_index, next)) => Ok(
                    (
                        ConstPoolItem::ConstantNameAndType(
                            ConstantNameAndType {
                                tag: ConstPoolTag::ConstantNameAndType,
                                name_index,
                                descriptor_index,
                            },
                        ),
                        next,
                        texts,
                    ),
                ),
            },
            Ok(ConstPoolTag::ConstantUtf8) => match utf8_at(bytes, body, texts) {
                Err(e) => Err(e),
                Ok((entry, next, pool)) => Ok((ConstPoolItem::ConstantUtf8(entry), next, pool)),
            },
            Ok(ConstPoolTag::ConstantInteger) => match uint_at(bytes, body as int, 4) {
                Err(e) => Err(e),
                Ok((word, next)) => Ok(
                    (
                        ConstPoolItem::ConstantInteger(
                            ConstantInteger {
                                tag: ConstPoolTag::ConstantInteger,
                                value: signed_half(word as u32),
                            },
                        ),
                        next,
                        texts,
                    ),
                ),
            },
            Ok(ConstPoolTag::ConstantFloat) => match uint_at(bytes, body as int, 4) {
                Err(e) => Err(e),
                Ok((word, next)) => Ok(
                    (
                        ConstPoolItem::ConstantFloat(
                            ConstantFloat { tag: ConstPoolTag::ConstantFloat, bits: word as u32 },
                        ),
                        next,
                        texts,
                    ),
                ),
            },
            Ok(ConstPoolTag::ConstantLong) => match two_halves_at(bytes, body) {
                Err(e) => Err(e),
                Ok((high_bytes, low_bytes, next)) => Ok(
                    (
                        ConstPoolItem::ConstantLong(
                            ConstantLong { tag: ConstPoolTag::ConstantLong, high_bytes, low_bytes },
                        ),
                        next,
                        texts,
                    ),
                ),
            },
            Ok(ConstPoolTag::ConstantDouble) => match two_halves_at(bytes, body) {
                Err(e) => Err(e),
                Ok((high_bytes, low_bytes, next)) => Ok(
                    (
                        ConstPoolItem::ConstantDouble(
                            ConstantDouble {
                                tag: ConstPoolTag::ConstantDouble,
                                high_bytes,
                                low_bytes,
                            },
                        ),
                        next,
                        texts,
                    ),
                ),
            },
            Ok(ConstPoolTag::ConstantNull) => Err(
                Error::DecodeError(DecodeError::UnknownConstantTag(tag)),
            ),
            Ok(_) => Err(Error::UnsupportedError(UnsupportedError::ConstantTag(tag))),
        },
    }
}

/// The pool with one more entry read.
pub open spec fn with_entry(items: Seq<ConstPoolItem>, item: ConstPoolItem) -> Seq<ConstPoolItem> {
    if takes_two_slots(item) {
        items.push(item).push(ConstPoolItem::ConstantNull)
    } else {
        items.push(item)
    }
}

/// Number of slots that a pool of `have` slots lacks to hold `length`.
pub open spec fn missing_slots(have: nat, length: usize) -> nat {
    if have < length {
        (length - have) as nat
    } else {
        0
    }
}

/// Where the parser ends that starts from `progress` and reads entries until the pool
/// holds `length` slots.
pub open spec fn pool_from(bytes: Seq<u8>, progress: PoolProgress, length: usize) -> Result<
    PoolProgress,
    Error,
>
    decreases missing_slots(progress.items.len(), length),
{
    if progress.items.len() >= length {
        Ok(progress)
    } else {
        match entry_at(bytes, progress.index, progress.texts) {
            Err(e) => Err(e),
            Ok((item, next, texts)) => pool_from(
                bytes,
                PoolProgress { items: with_entry(progress.items, item), index: next, texts },
                length,
            ),
        }
    }
}

/// The string pool when the parser has ended that starts from `progress`, whether it
/// ended with success or with a failure: the texts of the text constants that it read
/// are interned.
pub open spec fn pool_texts_from(bytes: Seq<u8>, progress: PoolProgress, length: usize) -> Seq<
    Seq<char>,
>
    decreases missing_slots(progress.items.len(), length),
{
    if progress.items.len() >= length {
        progress.texts
    } else {
        match entry_at(bytes, progress.index, progress.texts) {
            Err(_) => progress.texts,
            Ok((item, next, texts)) => pool_texts_from(
                bytes,
                PoolProgress { items: with_entry(progress.items, item), index: next, texts },
                length,
            ),
        }
    }
}

/// The string pool after a pool of `length` slots at `index` was parsed, with success
/// or not.
pub open spec fn pool_texts_at(
    bytes: Seq<u8>,
    index: usize,
    length: usize,
    texts: Seq<Seq<char>>,
) -> Seq<Seq<char>> {
    pool_texts_from(
        bytes,
        PoolProgress { items: seq![ConstPoolItem::ConstantNull], index, texts },
        length,
    )
}

/// What parsing a pool of `length` slots at `index` gives: entry 0 is unused, the others
/// follow in file order.
pub open spec fn pool_at(
    bytes: Seq<u8>,
    index: usize,
    length: usize,
    texts: Seq<Seq<char>>,
) -> Result<
    PoolProgress,
    Error,
> {
    pool_from(
        bytes,
        PoolProgress { items: seq![ConstPoolItem::ConstantNull], index, texts },
        length,
    )
}

/// Reads the entry that starts with its tag byte at `index`.
fn read_entry(string_pool: &mut StringPool, inputs: &[u8], index: usize) -> (r: Result<
    (ConstPoolItem, usize),
    Error,
>)
    requires
        old(string_pool).wf(),
    ensures
        final(string_pool).wf(),
        match r {
            Ok((item, next)) => entry_at(inputs@, index, old(string_pool)@) == Ok::<
                (ConstPoolItem, usize, Seq<Seq<char>>),
                Error,
            >((item, next, final(string_pool)@)),
            Err(e) => entry_at(inputs@, index, old(string_pool)@) == Err::<
                (ConstPoolItem, usize, Seq<Seq<char>>),
                Error,
            >(e) && final(string_pool)@ == old(string_pool)@,
        },
{
    let (tag, body) = extract_x_byte_as_usize(inputs, index, 1)?;
    match ConstPoolTag::from(tag)? {
        ConstPoolTag::ConstantClass => {
            let (item, next) = ConstantClass::create_and_update_index(inputs, body)?;
            Ok((ConstPoolItem::ConstantClass(item), next))
        },
        ConstPoolTag::ConstantString => {
            let (item, next) = ConstantString::create_and_update_index(inputs, body)?;
            Ok((ConstPoolItem::ConstantString(item), next))
        },
        ConstPoolTag::ConstantFieldref => {
            let (item, next) = ConstantFieldref::create_and_update_index(inputs, body)?;
            Ok((ConstPoolItem::ConstantFieldref(item), next))
        },
        ConstPoolTag::ConstantMethodref => {
            let (item, next) = ConstantMethodref::create_and_update_index(inputs, body)?;
            Ok((ConstPoolItem::ConstantMethodref(item), next))
        },
        ConstPoolTag::ConstantInterfaceMethodref => {
            let (item, next) = ConstantInterfaceMethodref::create_and_update_index(inputs, body)?;
            Ok((ConstPoolItem::ConstantInterfaceMethodref(item), next))
        },
        ConstPoolTag::ConstantNameAndType => {
            let (item, next) = ConstantNameAndType::create_and_update_index(inputs, body)?;
            Ok((ConstPoolItem::ConstantNameAndType(item), next))
        },
        ConstPoolTag::ConstantUtf8 => {
            let (item, next) = ConstantUtf8::create_and_update_index(string_pool, inputs, body)?;
            Ok((ConstPoolItem::ConstantUtf8(item), next))
        },
        ConstPoolTag::ConstantInteger => {
            let (item, next) = ConstantInteger::create_and_update_index(inputs, body)?;
            Ok((ConstPoolItem::ConstantInteger(item), next))
        },
        ConstPoolTag::ConstantFloat => {
            let (item, next) = ConstantFloat::create_and_update_index(inputs, body)?;
            Ok((ConstPoolItem::ConstantFloat(item), next))
        },
        ConstPoolTag::ConstantLong => {
            let (item, next) = ConstantLong::create_and_update_index(inputs, body)?;
            Ok((ConstPoolItem::ConstantLong(item), next))
        },
        ConstPoolTag::ConstantDouble => {
            let (item, next) = ConstantDouble::create_and_update_index(inputs, body)?;
            Ok((ConstPoolItem::ConstantDouble(item), next))
        },
        ConstPoolTag::ConstantNull => Err(
            Error::DecodeError(DecodeError::UnknownConstantTag(tag)),
        ),
        _ => Err(Error::UnsupportedError(UnsupportedError::ConstantTag(tag))),
    }
}

/// The entry at `index`, or the unused entry where the pool has none.
pub open spec fn item_at(items: Seq<ConstPoolItem>, index: usize) -> ConstPoolItem {
    if index < items.len() {
        items[index as int]
    } else {
        ConstPoolItem::ConstantNull
    }
}

/// The class entry at `index`.
pub open spec fn class_ref_at(items: Seq<ConstPoolItem>, index: usize) -> Result<
    ConstantClass,
    Error,
> {
    match item_at(items, index) {
        ConstPoolItem::ConstantClass(entry) => Ok(entry),
        _ => Err(Error::InternalError),
    }
}

/// The method reference at `index`.
pub open spec fn method_ref_at(items: Seq<ConstPoolItem>, index: usize) -> Result<
    ConstantMethodref,
    Error,
> {
    match item_at(items, index) {
        ConstPoolItem::ConstantMethodref(entry) => Ok(entry),
        _ => Err(Error::InternalError),
    }
}

/// The field reference at `index`.
pub open spec fn field_ref_at(items: Seq<ConstPoolItem>, index: usize) -> Result<
    ConstantFieldref,
    Error,
> {
    match item_at(items, index) {
        ConstPoolItem::ConstantFieldref(entry) => Ok(entry),
        _ => Err(Error::InternalError),
    }
}

/// The name-and-type entry at `index`.
pub open spec fn name_and_type_at(items: Seq<ConstPoolItem>, index: usize) -> Result<
    ConstantNameAndType,
    Error,
> {
    match item_at(items, index) {
        ConstPoolItem::ConstantNameAndType(entry) => Ok(entry),
        _ => Err(Error::InternalError),
    }
}

/// The string id of the text constant at `index`.
pub open spec fn utf8_id_at(items: Seq<ConstPoolItem>, index: usize) -> Result<usize, Error> {
    match item_at(items, index) {
        ConstPoolItem::ConstantUtf8(entry) => Ok(entry.id),
        _ => Err(Error::InternalError),
    }
}

/// The string id of the text of the string constant at `index`.
pub open spec fn string_id_at(items: Seq<ConstPoolItem>, index: usize) -> Result<usize, Error> {
    match item_at(items, index) {
        ConstPoolItem::ConstantString(entry) => utf8_id_at(items, entry.string_index),
        _ => Err(Error::InternalError),
    }
}

/// The string id of the name of the class entry at `index`.
pub open spec fn class_name_at(items: Seq<ConstPoolItem>, index: usize) -> Result<usize, Error> {
    match class_ref_at(items, index) {
        Ok(entry) => utf8_id_at(items, entry.name_index),
        Err(e) => Err(e),
    }
}

/// Class name and member name, as string ids, of a reference to the class entry
/// `class_index` and the name-and-type entry `name_and_type_index`; with the descriptor.
pub open spec fn member_at(
    items: Seq<ConstPoolItem>,
    class_index: usize,
    name_and_type_index: usize,
) -> Result<(usize, usize, usize), Error> {
    match class_name_at(items, class_index) {
        Err(e) => Err(e),
        Ok(class_name) => match name_and_type_at(items, name_and_type_index) {
            Err(e) => Err(e),
            Ok(entry) => match utf8_id_at(items, entry.name_index) {
                Err(e) => Err(e),
                Ok(name) => match utf8_id_at(items, entry.descriptor_index) {
                    Err(e) => Err(e),
                    Ok(descriptor) => Ok((class_name, name, descriptor)),
                },
            },
        },
    }
}

/// Class name, field name and descriptor, as string ids, of the field reference at `index`.
pub open spec fn field_at(items: Seq<ConstPoolItem>, index: usize) -> Result<
    (usize, usize, usize),
    Error,
> {
    match field_ref_at(items, index) {
        Err(e) => Err(e),
        Ok(entry) => member_at(items, entry.class_index, entry.name_and_type_index),
    }
}

/// Class name, method name and descriptor, as string ids, of the method reference at
/// `index`.
pub open spec fn method_at(items: Seq<ConstPoolItem>, index: usize) -> Result<
    (usize, usize, usize),
    Error,
> {
    match method_ref_at(items, index) {
        Err(e) => Err(e),
        Ok(entry) => member_at(items, entry.class_index, entry.name_and_type_index),
    }
}

/// Class name and field name, as string ids, of the field reference at `index`.
pub open spec fn class_and_field_name_at(items: Seq<ConstPoolItem>, index: usize) -> Result<
    (usize, usize),
    Error,
> {
    match field_at(items, index) {
        Err(e) => Err(e),
        Ok((class_name, field_name, _)) => Ok((class_name, field_name)),
    }
}

/// The item that loading the one-slot constant at `index` puts on the operand stack.
pub open spec fn loadable_at(items: Seq<ConstPoolItem>, index: usize) -> Result<Item, Error> {
    match item_at(items, index) {
        ConstPoolItem::ConstantFieldref(_) => Ok(Item::Fieldref(index)),
        ConstPoolItem::ConstantUtf8(entry) => Ok(Item::String(entry.id)),
        ConstPoolItem::ConstantString(entry) => match utf8_id_at(items, entry.string_index) {
            Ok(id) => Ok(Item::String(id)),
            Err(e) => Err(e),
        },
        ConstPoolItem::ConstantInteger(entry) => Ok(Item::Int(entry.value)),
        ConstPoolItem::ConstantFloat(entry) => Ok(Item::Float(entry.bits)),
        _ => Err(Error::InternalError),
    }
}

/// The two items, upper half first, that loading the two-slot constant at `index` puts on
/// the operand stack.
pub open spec fn wide_loadable_at(items: Seq<ConstPoolItem>, index: usize) -> Result<
    (Item, Item),
    Error,
> {
    match item_at(items, index) {
        ConstPoolItem::ConstantLong(entry) => Ok(
            (Item::Long(entry.high_bytes), Item::Long(entry.low_bytes)),
        ),
        ConstPoolItem::ConstantDouble(entry) => Ok(
            (Item::Double(entry.high_bytes), Item::Double(entry.low_bytes)),
        ),
        _ => Err(Error::InternalError),
    }
}

/// The text constant at `index` has the text `text`.
pub open spec fn is_text_at(
    items: Seq<ConstPoolItem>,
    texts: Seq<Seq<char>>,
    index: int,
    text: Seq<char>,
) -> bool {
    items[index] matches ConstPoolItem::ConstantUtf8(entry) && entry.id < texts.len()
        && texts[entry.id as int] == text
}

impl ConstantPool {
    /// Parses a pool of `length` slots whose first entry starts at `index`, interning the
    /// texts of its text constants. Hands out the pool and the index behind it.
    pub fn new(string_pool: &mut StringPool, inputs: &[u8], index: usize, length: usize) -> (r:
        Result<(ConstantPool, usize), Error>)
        requires
            old(string_pool).wf(),
        ensures
            final(string_pool).wf(),
            match r {
                Ok((pool, next)) => pool_at(inputs@, index, length, old(string_pool)@) == Ok::<
                    PoolProgress,
                    Error,
                >(PoolProgress { items: pool@, index: next, texts: final(string_pool)@ }),
                Err(e) => pool_at(inputs@, index, length, old(string_pool)@) == Err::<
                    PoolProgress,
                    Error,
                >(e),
            },
            final(string_pool)@ == pool_texts_at(inputs@, index, length, old(string_pool)@),
    {
        let mut items: Vec<ConstPoolItem> = Vec::new();
        items.push(ConstPoolItem::ConstantNull);
        let mut cursor = index;
        assert(items@ =~= seq![ConstPoolItem::ConstantNull]);
        while items.len() < length
            invariant
                string_pool.wf(),
                pool_at(inputs@, index, length, old(string_pool)@) == pool_from(
                    inputs@,
                    PoolProgress { items: items@, index: cursor, texts: string_pool@ },
                    length,
                ),
                pool_texts_at(inputs@, index, length, old(string_pool)@) == pool_texts_from(
                    inputs@,
                    PoolProgress { items: items@, index: cursor, texts: string_pool@ },
                    length,
                ),
            decreases missing_slots(items@.len(), length),
        {
            let (item, next) = read_entry(string_pool, inputs, cursor)?;
            let two = match item {
                ConstPoolItem::ConstantLong(_) => true,
                ConstPoolItem::ConstantDouble(_) => true,
                _ => false,
            };
            items.push(item);
            if two {
                items.push(ConstPoolItem::ConstantNull);
            }
            cursor = next;
        }
        Ok((ConstantPool(items), cursor))
    }

    /// The first index whose entry is the text constant `main`.
    pub fn get_main_index(&self, string_pool: &StringPool) -> (r: Option<usize>)
        ensures
            match r {
                Some(index) => index < self@.len() && is_text_at(
                    self@,
                    string_pool@,
                    index as int,
                    "main"@,
                ) && forall|i: int|
                    0 <= i < index ==> !is_text_at(self@, string_pool@, i, "main"@),
                None => forall|i: int|
                    0 <= i < self@.len() ==> !is_text_at(self@, string_pool@, i, "main"@),
            },
    {
        let mut i: usize = 0;
        while i < self.0.len()
            invariant
                i <= self@.len(),
                forall|j: int| 0 <= j < i ==> !is_text_at(self@, string_pool@, j, "main"@),
            decreases self@.len() - i,
        {
            if let ConstPoolItem::ConstantUtf8(entry) = self.0[i] {
                if string_pool.is_text(entry.id, "main") {
                    return Some(i);
                }
            }
            i += 1;
        }
        None
    }

    /// The entry at `index`, or the unused entry where the pool has none.
    pub fn item(&self, index: usize) -> (r: ConstPoolItem)
        ensures
            r == item_at(self@, index),
    {
        if index < self.0.len() {
            self.0[index]
        } else {
            ConstPoolItem::ConstantNull
        }
    }

    /// The item that loading the one-slot constant at `index` puts on the operand stack.
    pub fn get_operand_stack_item(&self, index: usize) -> (r: Result<Item, Error>)
        ensures
            r == loadable_at(self@, index),
    {
        match self.item(index) {
            ConstPoolItem::ConstantFieldref(_) => Ok(Item::Fieldref(index)),
            ConstPoolItem::ConstantUtf8(entry) => Ok(Item::String(entry.id)),
            ConstPoolItem::ConstantString(entry) => {
                let id = self.get_utf8(entry.string_index)?;
                Ok(Item::String(id))
            },
            ConstPoolItem::ConstantInteger(entry) => Ok(Item::Int(entry.value)),
            ConstPoolItem::ConstantFloat(entry) => Ok(Item::Float(entry.bits)),
            _ => Err(Error::InternalError),
        }
    }

    /// Puts the two slots of the 64-bit constant at `index` on `operand_stack`, the upper
    /// half first. On failure the stack is unchanged.
    pub fn create_and_set_operand_stack_item(
        &self,
        operand_stack: &mut Vec<Item>,
        index: usize,
    ) -> (r: Result<(), Error>)
        ensures
            match r {
                Ok(_) => {
                    let items = wide_loadable_at(self@, index);
                    items is Ok && final(operand_stack)@ == old(operand_stack)@.push(
                        items->Ok_0.0,
                    ).push(items->Ok_0.1)
                },
                Err(e) => wide_loadable_at(self@, index) == Err::<(Item, Item), Error>(e)
                    && final(operand_stack)@ == old(operand_stack)@,
            },
    {
        match self.item(index) {
            ConstPoolItem::ConstantLong(entry) => {
                operand_stack.push(Item::Long(entry.high_bytes));
                operand_stack.push(Item::Long(entry.low_bytes));
                Ok(())
            },
            ConstPoolItem::ConstantDouble(entry) => {
                operand_stack.push(Item::Double(entry.high_bytes));
                operand_stack.push(Item::Double(entry.low_bytes));
                Ok(())
            },
            _ => Err(Error::InternalError),
        }
    }

    /// The class entry at `index`; fails if the entry there is none.
    pub fn get_class_ref(&self, index: usize) -> (r: Result<&ConstantClass, Error>)
        ensures
            match r {
                Ok(entry) => class_ref_at(self@, index) == Ok::<ConstantClass, Error>(*entry),
                Err(e) => class_ref_at(self@, index) == Err::<ConstantClass, Error>(e),
            },
    {
        if index < self.0.len() {
            match &self.0[index] {
                ConstPoolItem::ConstantClass(entry) => Ok(entry),
                _ => Err(Error::InternalError),
            }
        } else {
            Err(Error::InternalError)
        }
    }

    /// The method reference at `index`; fails if the entry there is none.
    pub fn get_method_ref(&self, index: usize) -> (r: Result<&ConstantMethodref, Error>)
        ensures
            match r {
                Ok(entry) => method_ref_at(self@, index) == Ok::<ConstantMethodref, Error>(*entry),
                Err(e) => method_ref_at(self@, index) == Err::<ConstantMethodref, Error>(e),
            },
    {
        if index < self.0.len() {
            match &self.0[index] {
                ConstPoolItem::ConstantMethodref(entry) => Ok(entry),
                _ => Err(Error::InternalError),
            }
        } else {
            Err(Error::InternalError)
        }
    }

    /// The field reference at `index`; fails if the entry there is none.
    pub fn get_field_ref(&self, index: usize) -> (r: Result<&ConstantFieldref, Error>)
        ensures
            match r {
                Ok(entry) => field_ref_at(self@, index) == Ok::<ConstantFieldref, Error>(*entry),
                Err(e) => field_ref_at(self@, index) == Err::<ConstantFieldref, Error>(e),
            },
    {
        if index < self.0.len() {
            match &self.0[index] {
                ConstPoolItem::ConstantFieldref(entry) => Ok(entry),
                _ => Err(Error::InternalError),
            }
        } else {
            Err(Error::InternalError)
        }
    }

    /// The name-and-type entry at `index`; fails if the entry there is none.
    pub fn get_name_and_type(&self, index: usize) -> (r: Result<&ConstantNameAndType, Error>)
        ensures
            match r {
                Ok(entry) => name_and_type_at(self@, index) == Ok::<ConstantNameAndType, Error>(
                    *entry,
                ),
                Err(e) => name_and_type_at(self@, index) == Err::<ConstantNameAndType, Error>(e),
            },
    {
        if index < self.0.len() {
            match &self.0[index] {
                ConstPoolItem::ConstantNameAndType(entry) => Ok(entry),
                _ => Err(Error::InternalError),
            }
        } else {
            Err(Error::InternalError)
        }
    }

    /// The string id of the text constant at `index`; fails if the entry there is none.
    pub fn get_utf8(&self, index: usize) -> (r: Result<usize, Error>)
        ensures
            r == utf8_id_at(self@, index),
    {
        match self.item(index) {
            ConstPoolItem::ConstantUtf8(entry) => Ok(entry.id),
            _ => Err(Error::InternalError),
        }
    }

    /// The string id of the text of the string constant at `index`.
    pub fn get_string(&self, index: usize) -> (r: Result<usize, Error>)
        ensures
            r == string_id_at(self@, index),
    {
        match self.item(index) {
            ConstPoolItem::ConstantString(entry) => self.get_utf8(entry.string_index),
            _ => Err(Error::InternalError),
        }
    }

    /// The string id of the name of the class entry at `index`.
    pub fn get_class_ref_name(&self, index: usize) -> (r: Result<usize, Error>)
        ensures
            r == class_name_at(self@, index),
    {
        let name_index = self.get_class_ref(index)?.name_index;
        self.get_utf8(name_index)
    }

    /// Class name, member name and descriptor of a reference, as string ids.
    fn get_member(&self, class_index: usize, name_and_type_index: usize) -> (r: Result<
        (usize, usize, usize),
        Error,
    >)
        ensures
            r == member_at(self@, class_index, name_and_type_index),
    {
        let class_name = self.get_class_ref_name(class_index)?;
        let entry = self.get_name_and_type(name_and_type_index)?;
        let name = self.get_utf8(entry.name_index)?;
        let descriptor = self.get_utf8(entry.descriptor_index)?;
        Ok((class_name, name, descriptor))
    }

    /// Class name, field name and descriptor, as string ids, of the field reference at
    /// `index`.
    pub fn get_field(&self, index: usize) -> (r: Result<(usize, usize, usize), Error>)
        ensures
            r == field_at(self@, index),
    {
        let entry = self.get_field_ref(index)?;
        self.get_member(entry.class_index, entry.name_and_type_index)
    }

    /// Class name, method name and descriptor, as string ids, of the method reference at
    /// `index`.
    pub fn get_method(&self, index: usize) -> (r: Result<(usize, usize, usize), Error>)
        ensures
            r == method_at(self@, index),
    {
        let entry = self.get_method_ref(index)?;
        self.get_member(entry.class_index, entry.name_and_type_index)
    }

    /// Class name and field name, as string ids, of the field reference at `index`.
    pub fn get_class_and_field_name(&self, index: usize) -> (r: Result<(usize, usize), Error>)
        ensures
            r == class_and_field_name_at(self@, index),
    {
        let (class_name, field_name, _) = self.get_field(index)?;
        Ok((class_name, field_name))
    }
}

/// The line that shows two indices behind the kind `kind`, with `between` between them.
pub open spec fn pair_line(
    index: usize,
    kind: Seq<char>,
    first: usize,
    between: Seq<char>,
    second: usize,
) -> Seq<char> {
    "  #"@ + digits(index as nat) + kind + digits(first as nat) + between + digits(second as nat)
}

/// The line that shows one index behind the kind `kind`.
pub open spec fn single_line(index: usize, kind: Seq<char>, first: usize) -> Seq<char> {
    "  #"@ + digits(index as nat) + kind + digits(first as nat)
}

/// The line that shows the entry `item` at `index`; the unused entry has none.
pub open spec fn entry_line(item: ConstPoolItem, index: usize, texts: Seq<Seq<char>>) -> Option<
    Seq<char>,
> {
    match item {
        ConstPoolItem::ConstantNull => None,
        ConstPoolItem::ConstantMethodref(entry) => Some(
            pair_line(
                index,
                " = Methodref    #"@,
                entry.class_index,
                ".#"@,
                entry.name_and_type_index,
            ),
        ),
        ConstPoolItem::ConstantInterfaceMethodref(entry) => Some(
            pair_line(
                index,
                " = InterfaceMethodref #"@,
                entry.class_index,
                ".#"@,
                entry.name_and_type_index,
            ),
        ),
        ConstPoolItem::ConstantFieldref(entry) => Some(
            pair_line(
                index,
                " = Fieldref     #"@,
                entry.class_index,
                ".#"@,
                entry.name_and_type_index,
            ),
        ),
        ConstPoolItem::ConstantNameAndType(entry) => Some(
            pair_line(
                index,
                " = NameAndType  #"@,
                entry.name_index,
                ":#"@,
                entry.descriptor_index,
            ),
        ),
        ConstPoolItem::ConstantString(entry) => Some(
            single_line(index, " = String       #"@, entry.string_index),
        ),
        ConstPoolItem::ConstantClass(entry) => Some(
            single_line(index, " = Class        #"@, entry.name_index),
        ),
        ConstPoolItem::ConstantUtf8(entry) => Some(
            "  #"@ + digits(index as nat) + " = Utf8         "@ + (if entry.id < texts.len() {
                texts[entry.id as int]
            } else {
                Seq::empty()
            }),
        ),
        ConstPoolItem::ConstantInteger(entry) => Some(
            "  #"@ + digits(index as nat) + " = Integer      "@ + decimal(entry.value as int),
        ),
        ConstPoolItem::ConstantLong(entry) => Some(
            "  #"@ + digits(index as nat) + " = Long         "@ + decimal(
                long_value(entry.high_bytes, entry.low_bytes) as int,
            ),
        ),
        ConstPoolItem::ConstantFloat(entry) => Some(
            "  #"@ + digits(index as nat) + " = Float        bits "@ + digits(entry.bits as nat),
        ),
        ConstPoolItem::ConstantDouble(entry) => Some(
            "  #"@ + digits(index as nat) + " = Double       bits "@ + digits(
                entry.high_bytes as nat,
            ) + " "@ + digits(entry.low_bytes as nat),
        ),
        ConstPoolItem::ConstantMethodHandle => Some(
            "  #"@ + digits(index as nat) + " = MethodHandle"@,
        ),
        ConstPoolItem::ConstantMethodType => Some("  #"@ + digits(index as nat) + " = MethodType"@),
        ConstPoolItem::ConstantInvokeDynamic => Some(
            "  #"@ + digits(index as nat) + " = InvokeDynamic"@,
        ),
    }
}

/// `text` with the line of the entry `item` added, behind a line break if `text` holds a
/// line already.
pub open spec fn with_line(
    text: Seq<char>,
    any: bool,
    line: Option<Seq<char>>) -> (Seq<char>, bool,
) {
    match line {
        None => (text, any),
        Some(line) => (
            if any {
                text.push('\n') + line
            } else {
                text + line
            },
            true,
        ),
    }
}

/// The listing of the entries of `items` from `from` on, added to `text`, which holds a
/// line already if `any` says so.
pub open spec fn listing_from(
    items: Seq<ConstPoolItem>,
    texts: Seq<Seq<char>>,
    text: Seq<char>,
    any: bool,
    from: int,
) -> Seq<char>
    decreases items.len() - from,
{
    if from < 0 || from >= items.len() {
        text
    } else {
        let (more, some) = with_line(text, any, entry_line(items[from], from as usize, texts));
        listing_from(items, texts, more, some, from + 1)
    }
}

/// The listing of a pool: one line for each entry but the unused ones, with its index,
/// its kind and what it holds; the lines are joined by line breaks.
pub open spec fn listing(items: Seq<ConstPoolItem>, texts: Seq<Seq<char>>) -> Seq<char> {
    listing_from(items, texts, Seq::empty(), false, 0)
}

/// Appends to `text` the line that shows two indices.
fn push_pair_line(
    text: &mut String,
    index: usize,
    kind: &str,
    first: usize,
    between: &str,
    second: usize,
)
    ensures
        final(text)@ == old(text)@ + pair_line(index, kind@, first, between@, second),
{
    text.append("  #");
    push_index(text, index);
    text.append(kind);
    push_index(text, first);
    text.append(between);
    push_index(text, second);
    assert(text@ =~= old(text)@ + pair_line(index, kind@, first, between@, second));
}

/// Appends to `text` the line that shows one index.
fn push_single_line(text: &mut String, index: usize, kind: &str, first: usize)
    ensures
        final(text)@ == old(text)@ + single_line(index, kind@, first),
{
    text.append("  #");
    push_index(text, index);
    text.append(kind);
    push_index(text, first);
    assert(text@ =~= old(text)@ + single_line(index, kind@, first));
}

/// Starts a line of the listing in `text`: its index and its kind.
fn push_head(text: &mut String, index: usize, kind: &str)
    ensures
        final(text)@ == old(text)@ + ("  #"@ + digits(index as nat) + kind@),
{
    text.append("  #");
    push_index(text, index);
    text.append(kind);
    assert(text@ =~= old(text)@ + ("  #"@ + digits(index as nat) + kind@));
}

/// Appends to `text` the line that shows the entry `item` at `index`, if it has one.
fn push_entry_line(text: &mut String, item: ConstPoolItem, index: usize, string_pool: &StringPool)
    ensures
        final(text)@ == old(text)@ + match entry_line(item, index, string_pool@) {
            Some(line) => line,
            None => Seq::empty(),
        },
{
    match item {
        ConstPoolItem::ConstantNull => {
            assert(text@ =~= old(text)@ + Seq::<char>::empty());
        },
        ConstPoolItem::ConstantMethodref(entry) => {
            push_pair_line(
                text,
                index,
                " = Methodref    #",
                entry.class_index,
                ".#",
                entry.name_and_type_index,
            );
        },
        ConstPoolItem::ConstantInterfaceMethodref(entry) => {
            push_pair_line(
                text,
                index,
                " = InterfaceMethodref #",
                entry.class_index,
                ".#",
                entry.name_and_type_index,
            );
        },
        ConstPoolItem::ConstantFieldref(entry) => {
            push_pair_line(
                text,
                index,
                " = Fieldref     #",
                entry.class_index,
                ".#",
                entry.name_and_type_index,
            );
        },
        ConstPoolItem::ConstantNameAndType(entry) => {
            push_pair_line(
                text,
                index,
                " = NameAndType  #",
                entry.name_index,
                ":#",
                entry.descriptor_index,
            );
        },
        ConstPoolItem::ConstantString(entry) => {
            push_single_line(text, index, " = String       #", entry.string_index);
        },
        ConstPoolItem::ConstantClass(entry) => {
            push_single_line(text, index, " = Class        #", entry.name_index);
        },
        ConstPoolItem::ConstantUtf8(entry) => {
            push_head(text, index, " = Utf8         ");
            let ghost head = text@;
            match string_pool.get_value(&entry.id) {
                Ok(value) => {
                    text.append(value.as_str());
                },
                Err(_) => {
                    assert(text@ =~= head + Seq::<char>::empty());
                },
            }
            assert(text@ =~= old(text)@ + entry_line(item, index, string_pool@)->0);
        },
        ConstPoolItem::ConstantInteger(entry) => {
            push_head(text, index, " = Integer      ");
            push_decimal(text, entry.value as i64);
            assert(text@ =~= old(text)@ + entry_line(item, index, string_pool@)->0);
        },
        ConstPoolItem::ConstantLong(entry) => {
            push_head(text, index, " = Long         ");
            push_decimal(text, join_long(entry.high_bytes, entry.low_bytes));
            assert(text@ =~= old(text)@ + entry_line(item, index, string_pool@)->0);
        },
        ConstPoolItem::ConstantFloat(entry) => {
            push_head(text, index, " = Float        bits ");
            push_index(text, entry.bits as usize);
            assert(text@ =~= old(text)@ + entry_line(item, index, string_pool@)->0);
        },
        ConstPoolItem::ConstantDouble(entry) => {
            push_head(text, index, " = Double       bits ");
            push_index(text, entry.high_bytes as usize);
            text.append(" ");
            push_index(text, entry.low_bytes as usize);
            assert(text@ =~= old(text)@ + entry_line(item, index, string_pool@)->0);
        },
        ConstPoolItem::ConstantMethodHandle => {
            push_head(text, index, " = MethodHandle");
        },
        ConstPoolItem::ConstantMethodType => {
            push_head(text, index, " = MethodType");
        },
        ConstPoolItem::ConstantInvokeDynamic => {
            push_head(text, index, " = InvokeDynamic");
        },
    }
}

impl ConstantPool {
    /// The listing of the pool: one line for each entry but the unused ones.
    pub fn to_string(&self, string_pool: &StringPool) -> (text: String)
        ensures
            text@ == listing(self@, string_pool@),
    {
        let mut text = String::new();
        let mut any = false;
        let mut i: usize = 0;
        while i < self.0.len()
            invariant
                i <= self@.len(),
                listing(self@, string_pool@) == listing_from(
                    self@,
                    string_pool@,
                    text@,
                    any,
                    i as int,
                ),
            decreases self@.len() - i,
        {
            let item = self.0[i];
            let ghost before = text@;
            match item {
                ConstPoolItem::ConstantNull => {},
                _ => {
                    if any {
                        text.push('\n');
                    }
                    push_entry_line(&mut text, item, i, string_pool);
                    any = true;
                },
            }
            i += 1;
        }
        text
    }
}

} // verus!
