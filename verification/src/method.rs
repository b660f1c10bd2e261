//! Methods of a class and their access flags.

use vstd::prelude::*;
use crate::attribute::code::Code;
use crate::attribute::defs::{attributes_at, attributes_view, Attribute, AttributeView};
use crate::constant::{ConstPoolItem, ConstantPool};
use crate::error::Error;
use crate::field::{add_flag, base_type_of, with_flag, BaseType};
use crate::string_pool::StringPool;
use crate::utils::{read_u2, u2_at};

verus! {

#[derive(Clone, Copy, Debug, PartialEq, Eq, Structural)]
pub enum MethodAccessFlag {
    AccPublic,
    AccPrivate,
    AccProtected,
    AccStatic,
    AccFinal,
    AccSynchronized,
    AccBridge,
    AccVarargs,
    AccNative,
    AccAbstract,
    AccStrict,
    AccSynthetic,
}

impl MethodAccessFlag {
    /// The bit of the flag in the access-flag word.
    pub open spec fn mask(self) -> usize {
        match self {
            MethodAccessFlag::AccPublic => 0x0001,
            MethodAccessFlag::AccPrivate => 0x0002,
            MethodAccessFlag::AccProtected => 0x0004,
            MethodAccessFlag::AccStatic => 0x0008,
            MethodAccessFlag::AccFinal => 0x0010,
            MethodAccessFlag::AccSynchronized => 0x0020,
            MethodAccessFlag::AccBridge => 0x0040,
            MethodAccessFlag::AccVarargs => 0x0080,
            MethodAccessFlag::AccNative => 0x0100,
            MethodAccessFlag::AccAbstract => 0x0400,
            MethodAccessFlag::AccStrict => 0x0800,
            MethodAccessFlag::AccSynthetic => 0x1000,
        }
    }

    /// The bit of the flag in the access-flag word.
    pub fn bit(self) -> (r: usize)
        ensures
            r == self.mask(),
    {
        match self {
            MethodAccessFlag::AccPublic => 0x0001,
            MethodAccessFlag::AccPrivate => 0x0002,
            MethodAccessFlag::AccProtected => 0x0004,
            MethodAccessFlag::AccStatic => 0x0008,
            MethodAccessFlag::AccFinal => 0x0010,
            MethodAccessFlag::AccSynchronized => 0x0020,
            MethodAccessFlag::AccBridge => 0x0040,
            MethodAccessFlag::AccVarargs => 0x0080,
            MethodAccessFlag::AccNative => 0x0100,
            MethodAccessFlag::AccAbstract => 0x0400,
            MethodAccessFlag::AccStrict => 0x0800,
            MethodAccessFlag::AccSynthetic => 0x1000,
        }
    }

    /// The flag whose bit is `num`, if `num` is the bit of one.
    pub fn from(num: usize) -> (r: Option<MethodAccessFlag>)
        ensures
            match r {
                Some(flag) => flag.mask() == num,
                None => forall|flag: MethodAccessFlag| flag.mask() != num,
            },
    {
        if num == 0x0001 {
            Some(MethodAccessFlag::AccPublic)
        } else if num == 0x0002 {
            Some(MethodAccessFlag::AccPrivate)
        } else if num == 0x0004 {
            Some(MethodAccessFlag::AccProtected)
        } else if num == 0x0008 {
            Some(MethodAccessFlag::AccStatic)
        } else if num == 0x0010 {
            Some(MethodAccessFlag::AccFinal)
        } else if num == 0x0020 {
            Some(MethodAccessFlag::AccSynchronized)
        } else if num == 0x0040 {
            Some(MethodAccessFlag::AccBridge)
        } else if num == 0x0080 {
            Some(MethodAccessFlag::AccVarargs)
        } else if num == 0x0100 {
            Some(MethodAccessFlag::AccNative)
        } else if num == 0x0400 {
            Some(MethodAccessFlag::AccAbstract)
        } else if num == 0x0800 {
            Some(MethodAccessFlag::AccStrict)
        } else if num == 0x1000 {
            Some(MethodAccessFlag::AccSynthetic)
        } else {
            None
        }
    }
}

#[derive(Debug)]
pub struct MethodAccessFlags(pub Vec<MethodAccessFlag>);

/// The flags whose bit is set in `num`, in the order of their bits.
pub open spec fn method_flags_of(num: usize) -> Seq<MethodAccessFlag> {
    let flags = Seq::<MethodAccessFlag>::empty();
    let flags = with_flag(flags, num, MethodAccessFlag::AccPublic, 0x0001);
    let flags = with_flag(flags, num, MethodAccessFlag::AccPrivate, 0x0002);
    let flags = with_flag(flags, num, MethodAccessFlag::AccProtected, 0x0004);
    let flags = with_flag(flags, num, MethodAccessFlag::AccStatic, 0x0008);
    let flags = with_flag(flags, num, MethodAccessFlag::AccFinal, 0x0010);
    let flags = with_flag(flags, num, MethodAccessFlag::AccSynchronized, 0x0020);
    let flags = with_flag(flags, num, MethodAccessFlag::AccBridge, 0x0040);
    let flags = with_flag(flags, num, MethodAccessFlag::AccVarargs, 0x0080);
    let flags = with_flag(flags, num, MethodAccessFlag::AccNative, 0x0100);
    let flags = with_flag(flags, num, MethodAccessFlag::AccAbstract, 0x0400);
    let flags = with_flag(flags, num, MethodAccessFlag::AccStrict, 0x0800);
    with_flag(flags, num, MethodAccessFlag::AccSynthetic, 0x1000)
}

/// The flags whose bit is set in `num`, in the order of their bits.
pub fn extract_access_flags(num: usize) -> (r: MethodAccessFlags)
    ensures
        r.0@ == method_flags_of(num),
{
    let mut flags: Vec<MethodAccessFlag> = Vec::new();
    add_flag(&mut flags, num, MethodAccessFlag::AccPublic, 0x0001);
    add_flag(&mut flags, num, MethodAccessFlag::AccPrivate, 0x0002);
    add_flag(&mut flags, num, MethodAccessFlag::AccProtected, 0x0004);
    add_flag(&mut flags, num, MethodAccessFlag::AccStatic, 0x0008);
    add_flag(&mut flags, num, MethodAccessFlag::AccFinal, 0x0010);
    add_flag(&mut flags, num, MethodAccessFlag::AccSynchronized, 0x0020);
    add_flag(&mut flags, num, MethodAccessFlag::AccBridge, 0x0040);
    add_flag(&mut flags, num, MethodAccessFlag::AccVarargs, 0x0080);
    add_flag(&mut flags, num, MethodAccessFlag::AccNative, 0x0100);
    add_flag(&mut flags, num, MethodAccessFlag::AccAbstract, 0x0400);
    add_flag(&mut flags, num, MethodAccessFlag::AccStrict, 0x0800);
    add_flag(&mut flags, num, MethodAccessFlag::AccSynthetic, 0x1000);
    MethodAccessFlags(flags)
}

#[derive(Debug)]
pub struct Method {
    pub access_flags: MethodAccessFlags,
    pub name_index: usize,
    pub descriptor_index: usize,
    pub attributes_count: usize,
    pub attribute_info: Vec<Attribute>,
}

/// A method with its lists as sequences.
pub struct MethodView {
    pub access_flags: Seq<MethodAccessFlag>,
    pub name_index: usize,
    pub descriptor_index: usize,
    pub attributes_count: usize,
    pub attribute_info: Seq<AttributeView>,
}

impl View for Method {
    type V = MethodView;

    open spec fn view(&self) -> MethodView {
        MethodView {
            access_flags: self.access_flags.0@,
            name_index: self.name_index,
            descriptor_index: self.descriptor_index,
            attributes_count: self.attributes_count,
            attribute_info: attributes_view(self.attribute_info@),
        }
    }
}

/// The method that starts with its access flags at `index`.
pub open spec fn method_at(
    texts: Seq<Seq<char>>,
    pool: Seq<ConstPoolItem>,
    bytes: Seq<u8>,
    index: usize,
) -> Result<(MethodView, usize), Error> {
    match u2_at(bytes, index) {
        Err(e) => Err(e),
        Ok((flags, second)) => match u2_at(bytes, second) {
            Err(e) => Err(e),
            Ok((name_index, third)) => match u2_at(bytes, third) {
                Err(e) => Err(e),
                Ok((descriptor_index, fourth)) => match u2_at(bytes, fourth) {
                    Err(e) => Err(e),
                    Ok((attributes_count, first)) => match attributes_at(
                        texts,
                        pool,
                        bytes,
                        first,
                        attributes_count,
                    ) {
                        Err(e) => Err(e),
                        Ok(attributes) => Ok(
                            (
                                MethodView {
                                    access_flags: method_flags_of(flags),
                                    name_index,
                                    descriptor_index,
                                    attributes_count,
                                    attribute_info: attributes.items,
                                },
                                attributes.index,
                            ),
                        ),
                    },
                },
            },
        },
    }
}

/// `i` is the place of the first code attribute among `attributes`.
pub open spec fn first_code_at(attributes: Seq<Attribute>, i: int) -> bool {
    &&& 0 <= i < attributes.len()
    &&& attributes[i] is Code
    &&& forall|j: int| 0 <= j < i ==> !(#[trigger] attributes[j] is Code)
}

impl Method {
    /// Parses the method that starts with its access flags at `index`.
    pub fn new(
        string_pool: &StringPool,
        constant_pool: &ConstantPool,
        inputs: &[u8],
        index: usize,
    ) -> (r: Result<(Method, usize), Error>)
        ensures
            match r {
                Ok((method, next)) => method_at(string_pool@, constant_pool@, inputs@, index)
                    == Ok::<(MethodView, usize), Error>((method@, next)),
                Err(e) => method_at(string_pool@, constant_pool@, inputs@, index) == Err::<
                    (MethodView, usize),
                    Error,
                >(e),
            },
    {
        let (flags, index) = read_u2(inputs, index)?;
        let access_flags = extract_access_flags(flags);
        let (name_index, index) = read_u2(inputs, index)?;
        let (descriptor_index, index) = read_u2(inputs, index)?;
        let (attributes_count, index) = read_u2(inputs, index)?;
        let (attribute_info, index) = Attribute::list(
            string_pool,
            constant_pool,
            inputs,
            index,
            attributes_count,
        )?;
        Ok(
            (
                Method {
                    access_flags,
                    name_index,
                    descriptor_index,
                    attributes_count,
                    attribute_info,
                },
                index,
            ),
        )
    }

    /// The method has a body.
    pub open spec fn is_executable(&self) -> bool {
        exists|i: int| 0 <= i < self.attribute_info@.len() && self.attribute_info@[i] is Code
    }

    /// The body of the method: its first code attribute.
    pub open spec fn body(&self) -> Code
        recommends
            self.is_executable(),
    {
        self.attribute_info@[choose|i: int| first_code_at(self.attribute_info@, i)]->Code_0
    }

    /// The body of the method, if it has one: its first code attribute.
    pub fn extract_code(&self) -> (r: Option<&Code>)
        ensures
            r is Some <==> self.is_executable(),
            r matches Some(code) ==> *code == self.body(),
    {
        let mut i: usize = 0;
        while i < self.attribute_info.len()
            invariant
                i <= self.attribute_info@.len(),
                forall|j: int| 0 <= j < i ==> !(#[trigger] self.attribute_info@[j] is Code),
            decreases self.attribute_info@.len() - i,
        {
            if let Attribute::Code(code) = &self.attribute_info[i] {
                proof {
                    assert(first_code_at(self.attribute_info@, i as int));
                    let k = choose|k: int| first_code_at(self.attribute_info@, k);
                    assert(k == i);
                }
                return Some(code);
            }
            i += 1;
        }
        None
    }

    /// The access flags hold `flag`.
    pub open spec fn has_flag(&self, flag: MethodAccessFlag) -> bool {
        self.access_flags.0@.contains(flag)
    }

    /// Whether the access flags hold `flag`.
    pub fn is_flagged(&self, flag: MethodAccessFlag) -> (r: bool)
        ensures
            r == self.has_flag(flag),
    {
        let mut i: usize = 0;
        while i < self.access_flags.0.len()
            invariant
                i <= self.access_flags.0@.len(),
                forall|j: int| 0 <= j < i ==> self.access_flags.0@[j] != flag,
            decreases self.access_flags.0@.len() - i,
        {
            if self.access_flags.0[i] == flag {
                return true;
            }
            i += 1;
        }
        false
    }
}

/// The index behind the class name that goes on at `i`: behind the next `;`.
pub open spec fn class_end(text: Seq<char>, i: int) -> Option<int>
    decreases text.len() - i,
{
    if i < 0 || i >= text.len() {
        None
    } else if text[i] == ';' {
        Some(i + 1)
    } else {
        class_end(text, i + 1)
    }
}

/// The index behind the field type that starts at `i`.
pub open spec fn type_end(text: Seq<char>, i: int) -> Option<int>
    decreases text.len() - i,
{
    if i < 0 || i >= text.len() {
        None
    } else if text[i] == '[' {
        type_end(text, i + 1)
    } else if text[i] == 'L' {
        class_end(text, i + 1)
    } else if base_type_of(text[i]) is Some {
        Some(i + 1)
    } else {
        None
    }
}

/// Number of slots that a value of the type starting with `c` takes.
pub open spec fn slots_of_type(c: char) -> nat {
    if c == 'J' || c == 'D' {
        2
    } else {
        1
    }
}

/// Number of slots of the parameter types from `i` up to the closing bracket.
pub open spec fn slots_from(text: Seq<char>, i: int) -> Option<nat>
    decreases text.len() - i,
{
    if i < 0 || i >= text.len() {
        None
    } else if text[i] == ')' {
        Some(0)
    } else {
        match type_end(text, i) {
            Some(j) => if i < j <= text.len() {
                match slots_from(text, j) {
                    Some(slots) => Some(slots + slots_of_type(text[i])),
                    None => None,
                }
            } else {
                None
            },
            None => None,
        }
    }
}

/// Number of operand-stack slots that the parameters of a method with the descriptor
/// `text` take: two for each long and double, one for each other parameter. A text of
/// more than 65535 characters is no descriptor.
pub open spec fn parameter_slots(text: Seq<char>) -> Option<nat> {
    if 1 <= text.len() <= 0xFFFF && text[0] == '(' {
        slots_from(text, 1)
    } else {
        None
    }
}

/// Computes `class_end`.
fn find_class_end(text: &str, length: usize, i: usize) -> (r: Option<usize>)
    requires
        length == text@.len(),
    ensures
        match r {
            Some(j) => class_end(text@, i as int) == Some(j as int) && i < j <= length,
            None => class_end(text@, i as int) is None,
        },
    decreases length - i,
{
    if i >= length {
        None
    } else if text.get_char(i) == ';' {
        Some(i + 1)
    } else {
        find_class_end(text, length, i + 1)
    }
}

/// Computes `type_end`.
fn find_type_end(text: &str, length: usize, i: usize) -> (r: Option<usize>)
    requires
        length == text@.len(),
    ensures
        match r {
            Some(j) => type_end(text@, i as int) == Some(j as int) && i < j <= length,
            None => type_end(text@, i as int) is None,
        },
    decreases length - i,
{
    if i >= length {
        return None;
    }
    let c = text.get_char(i);
    if c == '[' {
        find_type_end(text, length, i + 1)
    } else if c == 'L' {
        find_class_end(text, length, i + 1)
    } else if BaseType::from(c).is_some() {
        Some(i + 1)
    } else {
        None
    }
}

/// Computes `slots_from`.
fn count_slots(text: &str, length: usize, i: usize) -> (r: Option<usize>)
    requires
        length == text@.len(),
        length <= 0xFFFF,
    ensures
        match r {
            Some(slots) => slots_from(text@, i as int) == Some(slots as nat) && slots <= 2 * (
            length - i),
            None => slots_from(text@, i as int) is None,
        },
    decreases length - i,
{
    if i >= length {
        return None;
    }
    let c = text.get_char(i);
    if c == ')' {
        return Some(0);
    }
    match find_type_end(text, length, i) {
        Some(j) => match count_slots(text, length, j) {
            Some(slots) => {
                if c == 'J' || c == 'D' {
                    Some(slots + 2)
                } else {
                    Some(slots + 1)
                }
            },
            None => None,
        },
        None => None,
    }
}

/// Number of operand-stack slots that the parameters of a method with the descriptor
/// `text` take, if `text` is a method descriptor.
pub fn count_parameter_slots(text: &str) -> (r: Option<usize>)
    ensures
        match r {
            Some(slots) => parameter_slots(text@) == Some(slots as nat) && slots <= 0x2_0000,
            None => parameter_slots(text@) is None,
        },
{
    let length = text.unicode_len();
    if length < 1 || length > 0xFFFF {
        return None;
    }
    if text.get_char(0) != '(' {
        return None;
    }
    count_slots(text, length, 1)
}

} // verus!
