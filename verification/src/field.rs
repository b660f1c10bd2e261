//! Fields of a class, their access flags, and field descriptors.

use vstd::prelude::*;
use crate::attribute::defs::{attributes_at, attributes_view, Attribute, AttributeView};
use crate::constant::{ConstPoolItem, ConstantPool};
use crate::error::{Error, UnsupportedError};
use crate::operand::Item;
use crate::string_pool::StringPool;
use crate::utils::{read_u2, u2_at};

verus! {

/// `flags` with `flag` added at its end if `num` has one of the bits of `bit`.
pub open spec fn with_flag<F>(flags: Seq<F>, num: usize, flag: F, bit: usize) -> Seq<F> {
    if num & bit != 0 {
        flags.push(flag)
    } else {
        flags
    }
}

/// Adds `flag` to `flags` if `num` has one of the bits of `bit`.
pub fn add_flag<F>(flags: &mut Vec<F>, num: usize, flag: F, bit: usize)
    ensures
        final(flags)@ == with_flag(old(flags)@, num, flag, bit),
{
    if num & bit != 0 {
        flags.push(flag);
    }
}

#[derive(Clone, Copy, Debug, PartialEq, Eq, Structural)]
pub enum FieldAccessFlag {
    Unknown,
    AccPublic,
    AccPrivate,
    AccProtected,
    AccStatic,
    AccFinal,
    AccVolatitle,
    AccTransient,
    AccSynthetic,
    AccEnum,
}

impl FieldAccessFlag {
    /// The bit of the flag in the access-flag word; `Unknown` has none.
    pub open spec fn mask(self) -> usize {
        match self {
            FieldAccessFlag::Unknown => 0x0000,
            FieldAccessFlag::AccPublic => 0x0001,
            FieldAccessFlag::AccPrivate => 0x0002,
            FieldAccessFlag::AccProtected => 0x0004,
            FieldAccessFlag::AccStatic => 0x0008,
            FieldAccessFlag::AccFinal => 0x0010,
            FieldAccessFlag::AccVolatitle => 0x0040,
            FieldAccessFlag::AccTransient => 0x0080,
            FieldAccessFlag::AccSynthetic => 0x1000,
            FieldAccessFlag::AccEnum => 0x4000,
        }
    }

    /// The bit of the flag in the access-flag word.
    pub fn bit(self) -> (r: usize)
        ensures
            r == self.mask(),
    {
        match self {
            FieldAccessFlag::Unknown => 0x0000,
            FieldAccessFlag::AccPublic => 0x0001,
            FieldAccessFlag::AccPrivate => 0x0002,
            FieldAccessFlag::AccProtected => 0x0004,
            FieldAccessFlag::AccStatic => 0x0008,
            FieldAccessFlag::AccFinal => 0x0010,
            FieldAccessFlag::AccVolatitle => 0x0040,
            FieldAccessFlag::AccTransient => 0x0080,
            FieldAccessFlag::AccSynthetic => 0x1000,
            FieldAccessFlag::AccEnum => 0x4000,
        }
    }

    /// The flag whose bit is `num`, if `num` is the bit of one.
    pub fn from(num: usize) -> (r: Option<FieldAccessFlag>)
        ensures
            match r {
                Some(flag) => flag.mask() == num,
                None => forall|flag: FieldAccessFlag| flag.mask() != num,
            },
    {
        if num == 0x0000 {
            Some(FieldAccessFlag::Unknown)
        } else if num == 0x0001 {
            Some(FieldAccessFlag::AccPublic)
        } else if num == 0x0002 {
            Some(FieldAccessFlag::AccPrivate)
        } else if num == 0x0004 {
            Some(FieldAccessFlag::AccProtected)
        } else if num == 0x0008 {
            Some(FieldAccessFlag::AccStatic)
        } else if num == 0x0010 {
            Some(FieldAccessFlag::AccFinal)
        } else if num == 0x0040 {
            Some(FieldAccessFlag::AccVolatitle)
        } else if num == 0x0080 {
            Some(FieldAccessFlag::AccTransient)
        } else if num == 0x1000 {
            Some(FieldAccessFlag::AccSynthetic)
        } else if num == 0x4000 {
            Some(FieldAccessFlag::AccEnum)
        } else {
            None
        }
    }
}

#[derive(Debug)]
pub struct FieldAccessFlags(pub Vec<FieldAccessFlag>);

/// The flags whose bit is set in `num`, in the order of their bits.
pub open spec fn field_flags_of(num: usize) -> Seq<FieldAccessFlag> {
    let flags = Seq::<FieldAccessFlag>::empty();
    let flags = with_flag(flags, num, FieldAccessFlag::AccPublic, 0x0001);
    let flags = with_flag(flags, num, FieldAccessFlag::AccPrivate, 0x0002);
    let flags = with_flag(flags, num, FieldAccessFlag::AccProtected, 0x0004);
    let flags = with_flag(flags, num, FieldAccessFlag::AccStatic, 0x0008);
    let flags = with_flag(flags, num, FieldAccessFlag::AccFinal, 0x0010);
    let flags = with_flag(flags, num, FieldAccessFlag::AccVolatitle, 0x0040);
    let flags = with_flag(flags, num, FieldAccessFlag::AccTransient, 0x0080);
    let flags = with_flag(flags, num, FieldAccessFlag::AccSynthetic, 0x1000);
    with_flag(flags, num, FieldAccessFlag::AccEnum, 0x4000)
}

/// The flags whose bit is set in `num`, in the order of their bits.
pub fn extract_access_flags(num: usize) -> (r: FieldAccessFlags)
    ensures
        r.0@ == field_flags_of(num),
{
    let mut flags: Vec<FieldAccessFlag> = Vec::new();
    add_flag(&mut flags, num, FieldAccessFlag::AccPublic, 0x0001);
    add_flag(&mut flags, num, FieldAccessFlag::AccPrivate, 0x0002);
    add_flag(&mut flags, num, FieldAccessFlag::AccProtected, 0x0004);
    add_flag(&mut flags, num, FieldAccessFlag::AccStatic, 0x0008);
    add_flag(&mut flags, num, FieldAccessFlag::AccFinal, 0x0010);
    add_flag(&mut flags, num, FieldAccessFlag::AccVolatitle, 0x0040);
    add_flag(&mut flags, num, FieldAccessFlag::AccTransient, 0x0080);
    add_flag(&mut flags, num, FieldAccessFlag::AccSynthetic, 0x1000);
    add_flag(&mut flags, num, FieldAccessFlag::AccEnum, 0x4000);
    FieldAccessFlags(flags)
}

#[derive(Debug)]
pub struct Field {
    pub access_flags: FieldAccessFlags,
    pub name_index: usize,
    pub descriptor_index: usize,
    pub attributes_count: usize,
    pub attribute_info: Vec<Attribute>,
}

/// A field with its lists as sequences.
pub struct FieldView {
    pub access_flags: Seq<FieldAccessFlag>,
    pub name_index: usize,
    pub descriptor_index: usize,
    pub attributes_count: usize,
    pub attribute_info: Seq<AttributeView>,
}

impl View for Field {
    type V = FieldView;

    open spec fn view(&self) -> FieldView {
        FieldView {
            access_flags: self.access_flags.0@,
            name_index: self.name_index,
            descriptor_index: self.descriptor_index,
            attributes_count: self.attributes_count,
            attribute_info: attributes_view(self.attribute_info@),
        }
    }
}

/// The field that starts with its access flags at `index`.
pub open spec fn field_at(
    texts: Seq<Seq<char>>,
    pool: Seq<ConstPoolItem>,
    bytes: Seq<u8>,
    index: usize,
) -> Result<(FieldView, usize), Error> {
    match u2_at(bytes, index) {
        Err(e) => Err(e),
        Ok((flags, second)) => match u2_at(bytes, second) {
            Err(e) => Err(e),
            Ok((name_index, third)) => match u2_at(bytes, third) {
                Err(e) => Err(e),
                Ok((descriptor_index, fourth)) => match u2_at(bytes, fourth) {
                    Err(e) => Err(e),
                    Ok((attributes_count, first)) => match attributes_at(
                        texts,
                        pool,
                        bytes,
                        first,
                        attributes_count,
                    ) {
                        Err(e) => Err(e),
                        Ok(attributes) => Ok(
                            (
                                FieldView {
                                    access_flags: field_flags_of(flags),
                                    name_index,
                                    descriptor_index,
                                    attributes_count,
                                    attribute_info: attributes.items,
                                },
                                attributes.index,
                            ),
                        ),
                    },
                },
            },
        },
    }
}

impl Field {
    /// Parses the field that starts with its access flags at `index`.
    pub fn new(
        string_pool: &StringPool,
        constant_pool: &ConstantPool,
        inputs: &[u8],
        index: usize,
    ) -> (r: Result<(Field, usize), Error>)
        ensures
            match r {
                Ok((field, next)) => field_at(string_pool@, constant_pool@, inputs@, index)
                    == Ok::<(FieldView, usize), Error>((field@, next)),
                Err(e) => field_at(string_pool@, constant_pool@, inputs@, index) == Err::<
                    (FieldView, usize),
                    Error,
                >(e),
            },
    {
        let (flags, index) = read_u2(inputs, index)?;
        let access_flags = extract_access_flags(flags);
        let (name_index, index) = read_u2(inputs, index)?;
        let (descriptor_index, index) = read_u2(inputs, index)?;
        let (attributes_count, index) = read_u2(inputs, index)?;
        let (attribute_info, index) = Attribute::list(
            string_pool,
            constant_pool,
            inputs,
            index,
            attributes_count,
        )?;
        Ok(
            (
                Field {
                    access_flags,
                    name_index,
                    descriptor_index,
                    attributes_count,
                    attribute_info,
                },
                index,
            ),
        )
    }
}

/// The primitive types of field descriptors, by their letters.
#[derive(Clone, Copy, Debug, PartialEq, Eq, Structural)]
pub enum BaseType {
    B,
    C,
    D,
    F,
    I,
    J,
    S,
    Z,
}

/// The primitive type that the letter `c` stands for.
pub open spec fn base_type_of(c: char) -> Option<BaseType> {
    if c == 'B' {
        Some(BaseType::B)
    } else if c == 'C' {
        Some(BaseType::C)
    } else if c == 'D' {
        Some(BaseType::D)
    } else if c == 'F' {
        Some(BaseType::F)
    } else if c == 'I' {
        Some(BaseType::I)
    } else if c == 'J' {
        Some(BaseType::J)
    } else if c == 'S' {
        Some(BaseType::S)
    } else if c == 'Z' {
        Some(BaseType::Z)
    } else {
        None
    }
}

impl BaseType {
    /// The primitive type that the letter `c` stands for.
    pub fn from(c: char) -> (r: Option<BaseType>)
        ensures
            r == base_type_of(c),
    {
        if c == 'B' {
            Some(BaseType::B)
        } else if c == 'C' {
            Some(BaseType::C)
        } else if c == 'D' {
            Some(BaseType::D)
        } else if c == 'F' {
            Some(BaseType::F)
        } else if c == 'I' {
            Some(BaseType::I)
        } else if c == 'J' {
            Some(BaseType::J)
        } else if c == 'S' {
            Some(BaseType::S)
        } else if c == 'Z' {
            Some(BaseType::Z)
        } else {
            None
        }
    }
}

/// The type of a field: a primitive type, a class by its name, or an array of a type.
#[derive(Debug)]
pub enum FieldDescriptor {
    BaseType(BaseType),
    ObjectType(String),
    ArrayType(Box<FieldDescriptor>),
}

/// A field type with the name of a class as a sequence.
pub enum FieldDescriptorView {
    BaseType(BaseType),
    ObjectType(Seq<char>),
    ArrayType(Box<FieldDescriptorView>),
}

/// The view of a field type.
pub open spec fn descriptor_model(descriptor: FieldDescriptor) -> FieldDescriptorView
    decreases descriptor,
{
    match descriptor {
        FieldDescriptor::BaseType(base) => FieldDescriptorView::BaseType(base),
        FieldDescriptor::ObjectType(name) => FieldDescriptorView::ObjectType(name@),
        FieldDescriptor::ArrayType(element) => FieldDescriptorView::ArrayType(
            Box::new(descriptor_model(*element)),
        ),
    }
}

impl View for FieldDescriptor {
    type V = FieldDescriptorView;

    open spec fn view(&self) -> FieldDescriptorView {
        descriptor_model(*self)
    }
}

/// The field type that `text` spells: one letter for a primitive type, `L`, a class name
/// and `;` for a class, `[` and a field type for an array.
pub open spec fn descriptor_of(text: Seq<char>) -> Option<FieldDescriptorView>
    decreases text.len(),
{
    if text.len() == 0 {
        None
    } else if text[0] == '[' {
        match descriptor_of(text.subrange(1, text.len() as int)) {
            Some(element) => Some(FieldDescriptorView::ArrayType(Box::new(element))),
            None => None,
        }
    } else if text[0] == 'L' {
        if text.len() >= 2 && text.last() == ';' {
            Some(FieldDescriptorView::ObjectType(text.subrange(1, text.len() - 1)))
        } else {
            None
        }
    } else if text.len() == 1 {
        match base_type_of(text[0]) {
            Some(base) => Some(FieldDescriptorView::BaseType(base)),
            None => None,
        }
    } else {
        None
    }
}

/// The slots of a field of the given type that was not assigned to yet.
pub open spec fn initial_item(descriptor: FieldDescriptorView) -> (Item, Item) {
    match descriptor {
        FieldDescriptorView::BaseType(BaseType::J) => (Item::Long(0), Item::Long(0)),
        FieldDescriptorView::BaseType(BaseType::D) => (Item::Double(0), Item::Double(0)),
        FieldDescriptorView::BaseType(BaseType::F) => (Item::Float(0), Item::Null),
        FieldDescriptorView::BaseType(BaseType::Z) => (Item::Boolean(false), Item::Null),
        FieldDescriptorView::BaseType(_) => (Item::Int(0), Item::Null),
        _ => (Item::Null, Item::Null),
    }
}

impl FieldDescriptor {
    /// The field type that `text` spells; fails if it spells none.
    pub fn from(text: &str) -> (r: Result<FieldDescriptor, Error>)
        ensures
            match r {
                Ok(descriptor) => descriptor_of(text@) == Some(descriptor@),
                Err(e) => descriptor_of(text@) is None && e == Error::UnsupportedError(
                    UnsupportedError::Descriptor,
                ),
            },
        decreases text@.len(),
    {
        let unsupported = Err(Error::UnsupportedError(UnsupportedError::Descriptor));
        let length = text.unicode_len();
        if length == 0 {
            return unsupported;
        }
        let first = text.get_char(0);
        if first == '[' {
            let rest = text.substring_char(1, length);
            match FieldDescriptor::from(rest) {
                Ok(element) => Ok(FieldDescriptor::ArrayType(Box::new(element))),
                Err(_) => unsupported,
            }
        } else if first == 'L' {
            if length >= 2 && text.get_char(length - 1) == ';' {
                let name = text.substring_char(1, length - 1);
                Ok(FieldDescriptor::ObjectType(String::from_str(name)))
            } else {
                unsupported
            }
        } else if length == 1 {
            match BaseType::from(first) {
                Some(base) => Ok(FieldDescriptor::BaseType(base)),
                None => unsupported,
            }
        } else {
            unsupported
        }
    }

    /// The slots of a field of this type that was not assigned to yet.
    pub fn initial(&self) -> (r: (Item, Item))
        ensures
            r == initial_item(self@),
    {
        match self {
            FieldDescriptor::BaseType(BaseType::J) => (Item::Long(0), Item::Long(0)),
            FieldDescriptor::BaseType(BaseType::D) => (Item::Double(0), Item::Double(0)),
            FieldDescriptor::BaseType(BaseType::F) => (Item::Float(0), Item::Null),
            FieldDescriptor::BaseType(BaseType::Z) => (Item::Boolean(false), Item::Null),
            FieldDescriptor::BaseType(_) => (Item::Int(0), Item::Null),
            _ => (Item::Null, Item::Null),
        }
    }
}

} // verus!
