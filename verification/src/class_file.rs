//! The class model that the loader builds from the bytes of a class file.

use vstd::prelude::*;
use crate::attribute::code::Code;
use crate::attribute::defs::{
    attributes_at, attributes_view, lemma_short_at, short_at, Attribute, AttributeView, Progress,
};
use crate::attribute::instruction::Instruction;
use crate::constant::{
    class_and_field_name_at, class_name_at, loadable_at, pool_at, utf8_id_at, wide_loadable_at,
    ConstPoolItem, ConstantPool, PoolProgress,
};
use crate::error::{DecodeError, Error};
use crate::field::{add_flag, field_at, with_flag, Field, FieldView};
use crate::method::{method_at, Method, MethodAccessFlag, MethodView};
use crate::string_pool::StringPool;
use crate::utils::{available, read_u2, read_u4, u2_at, u4_at};

verus! {

#[derive(Clone, Copy, Debug, PartialEq, Eq, Structural)]
pub struct Interface(pub usize);

#[derive(Clone, Copy, Debug, PartialEq, Eq, Structural)]
pub enum AccessFlag {
    AccPublic,
    AccFinal,
    AccSuper,
    AccInterface,
    AccAbstract,
    AccSynthetic,
    AccAnnotation,
    AccEnum,
}

impl AccessFlag {
    /// The bit of the flag in the access-flag word.
    pub open spec fn mask(self) -> usize {
        match self {
            AccessFlag::AccPublic => 0x0001,
            AccessFlag::AccFinal => 0x0010,
            AccessFlag::AccSuper => 0x0020,
            AccessFlag::AccInterface => 0x0200,
            AccessFlag::AccAbstract => 0x0400,
            AccessFlag::AccSynthetic => 0x1000,
            AccessFlag::AccAnnotation => 0x2000,
            AccessFlag::AccEnum => 0x4000,
        }
    }

    /// The bit of the flag in the access-flag word.
    pub fn bit(self) -> (r: usize)
        ensures
            r == self.mask(),
    {
        match self {
            AccessFlag::AccPublic => 0x0001,
            AccessFlag::AccFinal => 0x0010,
            AccessFlag::AccSuper => 0x0020,
            AccessFlag::AccInterface => 0x0200,
            AccessFlag::AccAbstract => 0x0400,
            AccessFlag::AccSynthetic => 0x1000,
            AccessFlag::AccAnnotation => 0x2000,
            AccessFlag::AccEnum => 0x4000,
        }
    }

    /// The flag whose bit is `num`, if `num` is the bit of one.
    pub fn from(num: usize) -> (r: Option<AccessFlag>)
        ensures
            match r {
                Some(flag) => flag.mask() == num,
                None => forall|flag: AccessFlag| flag.mask() != num,
            },
    {
        if num == 0x0001 {
            Some(AccessFlag::AccPublic)
        } else if num == 0x0010 {
            Some(AccessFlag::AccFinal)
        } else if num == 0x0020 {
            Some(AccessFlag::AccSuper)
        } else if num == 0x0200 {
            Some(AccessFlag::AccInterface)
        } else if num == 0x0400 {
            Some(AccessFlag::AccAbstract)
        } else if num == 0x1000 {
            Some(AccessFlag::AccSynthetic)
        } else if num == 0x2000 {
            Some(AccessFlag::AccAnnotation)
        } else if num == 0x4000 {
            Some(AccessFlag::AccEnum)
        } else {
            None
        }
    }
}

#[derive(Debug)]
pub struct AccessFlags(pub Vec<AccessFlag>);

/// The flags whose bit is set in `num`, in the order of their bits.
pub open spec fn class_flags_of(num: usize) -> Seq<AccessFlag> {
    let flags = Seq::<AccessFlag>::empty();
    let flags = with_flag(flags, num, AccessFlag::AccPublic, 0x0001);
    let flags = with_flag(flags, num, AccessFlag::AccFinal, 0x0010);
    let flags = with_flag(flags, num, AccessFlag::AccSuper, 0x0020);
    let flags = with_flag(flags, num, AccessFlag::AccInterface, 0x0200);
    let flags = with_flag(flags, num, AccessFlag::AccAbstract, 0x0400);
    let flags = with_flag(flags, num, AccessFlag::AccSynthetic, 0x1000);
    let flags = with_flag(flags, num, AccessFlag::AccAnnotation, 0x2000);
    with_flag(flags, num, AccessFlag::AccEnum, 0x4000)
}

/// The flags whose bit is set in `num`, in the order of their bits.
pub fn extract_access_flags(num: usize) -> (r: AccessFlags)
    ensures
        r.0@ == class_flags_of(num),
{
    let mut flags: Vec<AccessFlag> = Vec::new();
    add_flag(&mut flags, num, AccessFlag::AccPublic, 0x0001);
    add_flag(&mut flags, num, AccessFlag::AccFinal, 0x0010);
    add_flag(&mut flags, num, AccessFlag::AccSuper, 0x0020);
    add_flag(&mut flags, num, AccessFlag::AccInterface, 0x0200);
    add_flag(&mut flags, num, AccessFlag::AccAbstract, 0x0400);
    add_flag(&mut flags, num, AccessFlag::AccSynthetic, 0x1000);
    add_flag(&mut flags, num, AccessFlag::AccAnnotation, 0x2000);
    add_flag(&mut flags, num, AccessFlag::AccEnum, 0x4000);
    AccessFlags(flags)
}

/// One class as the loader read it. It does not change after it was loaded.
#[derive(Debug)]
pub struct ClassFile {
    pub magic: u32,
    pub minor_version: u16,
    pub major_version: u16,
    pub constant_pool_count: usize,
    pub cp_info: ConstantPool,
    pub access_flags: AccessFlags,
    pub this_class: usize,
    pub super_class: usize,
    pub interfaces_count: usize,
    pub interfaces: Vec<Interface>,
    pub fields_count: usize,
    pub fields: Vec<Field>,
    pub methods_count: usize,
    pub methods: Vec<Method>,
    pub attributes_count: usize,
    pub attributes: Vec<Attribute>,
}

/// A class with its lists as sequences.
pub struct ClassFileView {
    pub magic: u32,
    pub minor_version: u16,
    pub major_version: u16,
    pub constant_pool_count: usize,
    pub cp_info: Seq<ConstPoolItem>,
    pub access_flags: Seq<AccessFlag>,
    pub this_class: usize,
    pub super_class: usize,
    pub interfaces_count: usize,
    pub interfaces: Seq<Interface>,
    pub fields_count: usize,
    pub fields: Seq<FieldView>,
    pub methods_count: usize,
    pub methods: Seq<MethodView>,
    pub attributes_count: usize,
    pub attributes: Seq<AttributeView>,
}

/// The view of each field.
pub open spec fn fields_view(fields: Seq<Field>) -> Seq<FieldView> {
    Seq::new(fields.len(), |i: int| fields[i]@)
}

/// The view of each method.
pub open spec fn methods_view(methods: Seq<Method>) -> Seq<MethodView> {
    Seq::new(methods.len(), |i: int| methods[i]@)
}

impl View for ClassFile {
    type V = ClassFileView;

    open spec fn view(&self) -> ClassFileView {
        ClassFileView {
            magic: self.magic,
            minor_version: self.minor_version,
            major_version: self.major_version,
            constant_pool_count: self.constant_pool_count,
            cp_info: self.cp_info@,
            access_flags: self.access_flags.0@,
            this_class: self.this_class,
            super_class: self.super_class,
            interfaces_count: self.interfaces_count,
            interfaces: self.interfaces@,
            fields_count: self.fields_count,
            fields: fields_view(self.fields@),
            methods_count: self.methods_count,
            methods: methods_view(self.methods@),
            attributes_count: self.attributes_count,
            attributes: attributes_view(self.attributes@),
        }
    }
}

/// Where reading fields ends that starts from `progress` and goes on until `count` of
/// them are read.
pub open spec fn fields_from(
    texts: Seq<Seq<char>>,
    pool: Seq<ConstPoolItem>,
    bytes: Seq<u8>,
    progress: Progress<FieldView>,
    count: usize,
) -> Result<Progress<FieldView>, Error>
    decreases count - progress.items.len(),
{
    if progress.items.len() >= count {
        Ok(progress)
    } else {
        match field_at(texts, pool, bytes, progress.index) {
            Err(e) => Err(e),
            Ok((item, next)) => fields_from(
                texts,
                pool,
                bytes,
                Progress { items: progress.items.push(item), index: next },
                count,
            ),
        }
    }
}

/// Where reading methods ends that starts from `progress` and goes on until `count` of
/// them are read.
pub open spec fn methods_from(
    texts: Seq<Seq<char>>,
    pool: Seq<ConstPoolItem>,
    bytes: Seq<u8>,
    progress: Progress<MethodView>,
    count: usize,
) -> Result<Progress<MethodView>, Error>
    decreases count - progress.items.len(),
{
    if progress.items.len() >= count {
        Ok(progress)
    } else {
        match method_at(texts, pool, bytes, progress.index) {
            Err(e) => Err(e),
            Ok((item, next)) => methods_from(
                texts,
                pool,
                bytes,
                Progress { items: progress.items.push(item), index: next },
                count,
            ),
        }
    }
}

/// What stands between the magic number and the constant pool, and the pool.
pub struct ClassHead {
    pub magic: u32,
    pub minor_version: u16,
    pub major_version: u16,
    pub constant_pool_count: usize,
    pub pool: PoolProgress,
}

/// The head of the class file that starts at `index`, read with the string pool `texts`.
pub open spec fn class_head_at(bytes: Seq<u8>, index: usize, texts: Seq<Seq<char>>) -> Result<
    ClassHead,
    Error,
> {
    match u4_at(bytes, index) {
        Err(e) => Err(e),
        Ok((magic, second)) => match u2_at(bytes, second) {
            Err(e) => Err(e),
            Ok((minor_version, third)) => match u2_at(bytes, third) {
                Err(e) => Err(e),
                Ok((major_version, fourth)) => match u2_at(bytes, fourth) {
                    Err(e) => Err(e),
                    Ok((constant_pool_count, first)) => match pool_at(
                        bytes,
                        first,
                        constant_pool_count,
                        texts,
                    ) {
                        Err(e) => Err(e),
                        Ok(pool) => Ok(
                            ClassHead {
                                magic: magic as u32,
                                minor_version: minor_version as u16,
                                major_version: major_version as u16,
                                constant_pool_count,
                                pool,
                            },
                        ),
                    },
                },
            },
        },
    }
}

/// The class whose head is `head`, read from `bytes`.
pub open spec fn class_body_at(bytes: Seq<u8>, head: ClassHead) -> Result<
    (ClassFileView, usize),
    Error,
> {
    let texts = head.pool.texts;
    let pool = head.pool.items;
    match u2_at(bytes, head.pool.index) {
        Err(e) => Err(e),
        Ok((flags, second)) => match u2_at(bytes, second) {
            Err(e) => Err(e),
            Ok((this_class, third)) => match u2_at(bytes, third) {
                Err(e) => Err(e),
                Ok((super_class, fourth)) => match u2_at(bytes, fourth) {
                    Err(e) => Err(e),
                    Ok((interfaces_count, first)) => if !available(
                        bytes,
                        first as int,
                        2 * interfaces_count,
                    ) {
                        Err(Error::DecodeError(DecodeError::FileTooShort))
                    } else {
                        match u2_at(bytes, (first + 2 * interfaces_count) as usize) {
                            Err(e) => Err(e),
                            Ok((fields_count, first_field)) => match fields_from(
                                texts,
                                pool,
                                bytes,
                                Progress { items: Seq::empty(), index: first_field },
                                fields_count,
                            ) {
                                Err(e) => Err(e),
                                Ok(fields) => match u2_at(bytes, fields.index) {
                                    Err(e) => Err(e),
                                    Ok((methods_count, first_method)) => match methods_from(
                                        texts,
                                        pool,
                                        bytes,
                                        Progress { items: Seq::empty(), index: first_method },
                                        methods_count,
                                    ) {
                                        Err(e) => Err(e),
                                        Ok(methods) => match u2_at(bytes, methods.index) {
                                            Err(e) => Err(e),
                                            Ok((attributes_count, first_attribute)) => match attributes_at(
                                                texts,
                                                pool,
                                                bytes,
                                                first_attribute,
                                                attributes_count,
                                            ) {
                                                Err(e) => Err(e),
                                                Ok(attributes) => Ok(
                                                    (
                                                        ClassFileView {
                                                            magic: head.magic,
                                                            minor_version: head.minor_version,
                                                            major_version: head.major_version,
                                                            constant_pool_count: head.constant_pool_count,
                                                            cp_info: pool,
                                                            access_flags: class_flags_of(flags),
                                                            this_class,
                                                            super_class,
                                                            interfaces_count,
                                                            interfaces: Seq::new(
                                                                interfaces_count as nat,
                                                                |i: int|
                                                                    Interface(
                                                                        short_at(
                                                                            bytes,
                                                                            first + 2 * i,
                                                                        ) as usize,
                                                                    ),
                                                            ),
                                                            fields_count,
                                                            fields: fields.items,
                                                            methods_count,
                                                            methods: methods.items,
                                                            attributes_count,
                                                            attributes: attributes.items,
                                                        },
                                                        attributes.index,
                                                    ),
                                                ),
                                            },
                                        },
                                    },
                                },
                            },
                        }
                    },
                },
            },
        },
    }
}

/// What parsing the class file that starts at `index` gives, with the string pool `texts`
/// to intern its texts in: the class, the index behind it, and the string pool afterwards.
pub open spec fn class_file_at(bytes: Seq<u8>, index: usize, texts: Seq<Seq<char>>) -> Result<
    (ClassFileView, usize, Seq<Seq<char>>),
    Error,
> {
    match class_head_at(bytes, index, texts) {
        Err(e) => Err(e),
        Ok(head) => match class_body_at(bytes, head) {
            Err(e) => Err(e),
            Ok((class, next)) => Ok((class, next, head.pool.texts)),
        },
    }
}

/// The string pool after the class file that starts at `index` was parsed, with success
/// or not: the texts of the text constants that were read are interned.
pub open spec fn class_texts_at(bytes: Seq<u8>, index: usize, texts: Seq<Seq<char>>) -> Seq<
    Seq<char>,
> {
    match u4_at(bytes, index) {
        Err(_) => texts,
        Ok((_, second)) => match u2_at(bytes, second) {
            Err(_) => texts,
            Ok((_, third)) => match u2_at(bytes, third) {
                Err(_) => texts,
                Ok((_, fourth)) => match u2_at(bytes, fourth) {
                    Err(_) => texts,
                    Ok((constant_pool_count, first)) => crate::constant::pool_texts_at(
                        bytes,
                        first,
                        constant_pool_count,
                        texts,
                    ),
                },
            },
        },
    }
}

/// Reads `count` interface indices of two bytes each, the first at `index`.
fn read_interfaces(inputs: &[u8], index: usize, count: usize) -> (r: Result<
    (Vec<Interface>, usize),
    Error,
>)
    requires
        count < 0x1_0000,
    ensures
        match r {
            Ok((interfaces, next)) => available(inputs@, index as int, 2 * count) && next
                == index + 2 * count && interfaces@ == Seq::new(
                count as nat,
                |i: int| Interface(short_at(inputs@, index + 2 * i) as usize),
            ),
            Err(e) => !available(inputs@, index as int, 2 * count) && e == Error::DecodeError(
                DecodeError::FileTooShort,
            ),
        },
{
    let total: usize = inputs.len();
    if index > total || total - index < 2 * count {
        return Err(Error::DecodeError(DecodeError::FileTooShort));
    }
    let mut interfaces: Vec<Interface> = Vec::with_capacity(count);
    let mut i: usize = 0;
    while i < count
        invariant
            i <= count < 0x1_0000,
            total == inputs@.len(),
            index + 2 * count <= total,
            interfaces@.len() == i,
            forall|j: int|
                0 <= j < i ==> interfaces@[j] == Interface(
                    short_at(inputs@, index + 2 * j) as usize,
                ),
        decreases count - i,
    {
        let at: usize = index + 2 * i;
        proof {
            lemma_short_at(inputs@, at);
        }
        let (interface_index, _) = read_u2(inputs, at)?;
        interfaces.push(Interface(interface_index));
        i += 1;
    }
    assert(interfaces@ =~= Seq::new(
        count as nat,
        |i: int| Interface(short_at(inputs@, index + 2 * i) as usize),
    ));
    Ok((interfaces, index + 2 * count))
}

/// Reads `count` fields in a row, the first at `index`.
fn read_fields(
    string_pool: &StringPool,
    constant_pool: &ConstantPool,
    inputs: &[u8],
    index: usize,
    count: usize,
) -> (r: Result<(Vec<Field>, usize), Error>)
    ensures
        match r {
            Ok((fields, next)) => fields_from(
                string_pool@,
                constant_pool@,
                inputs@,
                Progress { items: Seq::empty(), index },
                count,
            ) == Ok::<Progress<FieldView>, Error>(
                Progress { items: fields_view(fields@), index: next },
            ),
            Err(e) => fields_from(
                string_pool@,
                constant_pool@,
                inputs@,
                Progress { items: Seq::empty(), index },
                count,
            ) == Err::<Progress<FieldView>, Error>(e),
        },
{
    let mut fields: Vec<Field> = Vec::new();
    let mut cursor = index;
    assert(fields_view(fields@) =~= Seq::<FieldView>::empty());
    while fields.len() < count
        invariant
            fields_from(
                string_pool@,
                constant_pool@,
                inputs@,
                Progress { items: Seq::empty(), index },
                count,
            ) == fields_from(
                string_pool@,
                constant_pool@,
                inputs@,
                Progress { items: fields_view(fields@), index: cursor },
                count,
            ),
        decreases count - fields@.len(),
    {
        let (field, next) = Field::new(string_pool, constant_pool, inputs, cursor)?;
        assert(fields_view(fields@.push(field)) =~= fields_view(fields@).push(field@));
        fields.push(field);
        cursor = next;
    }
    Ok((fields, cursor))
}

/// Reads `count` methods in a row, the first at `index`.
fn read_methods(
    string_pool: &StringPool,
    constant_pool: &ConstantPool,
    inputs: &[u8],
    index: usize,
    count: usize,
) -> (r: Result<(Vec<Method>, usize), Error>)
    ensures
        match r {
            Ok((methods, next)) => methods_from(
                string_pool@,
                constant_pool@,
                inputs@,
                Progress { items: Seq::empty(), index },
                count,
            ) == Ok::<Progress<MethodView>, Error>(
                Progress { items: methods_view(methods@), index: next },
            ),
            Err(e) => methods_from(
                string_pool@,
                constant_pool@,
                inputs@,
                Progress { items: Seq::empty(), index },
                count,
            ) == Err::<Progress<MethodView>, Error>(e),
        },
{
    let mut methods: Vec<Method> = Vec::new();
    let mut cursor = index;
    assert(methods_view(methods@) =~= Seq::<MethodView>::empty());
    while methods.len() < count
        invariant
            methods_from(
                string_pool@,
                constant_pool@,
                inputs@,
                Progress { items: Seq::empty(), index },
                count,
            ) == methods_from(
                string_pool@,
                constant_pool@,
                inputs@,
                Progress { items: methods_view(methods@), index: cursor },
                count,
            ),
        decreases count - methods@.len(),
    {
        let (method, next) = Method::new(string_pool, constant_pool, inputs, cursor)?;
        assert(methods_view(methods@.push(method)) =~= methods_view(methods@).push(method@));
        methods.push(method);
        cursor = next;
    }
    Ok((methods, cursor))
}

impl ClassFile {
    /// Parses the class file that starts at `index` of `input`, interning the texts of its
    /// constant pool. Hands out the class and the index behind it.
    pub fn new(string_pool: &mut StringPool, input: &[u8], index: usize) -> (r: Result<
        (ClassFile, usize),
        Error,
    >)
        requires
            old(string_pool).wf(),
        ensures
            final(string_pool).wf(),
            match r {
                Ok((class, next)) => class_file_at(input@, index, old(string_pool)@) == Ok::<
                    (ClassFileView, usize, Seq<Seq<char>>),
                    Error,
                >((class@, next, final(string_pool)@)),
                Err(e) => class_file_at(input@, index, old(string_pool)@) == Err::<
                    (ClassFileView, usize, Seq<Seq<char>>),
                    Error,
                >(e),
            },
            final(string_pool)@ == class_texts_at(input@, index, old(string_pool)@),
    {
        let (magic, second) = read_u4(input, index)?;
        let (minor_version, third) = read_u2(input, second)?;
        let (major_version, fourth) = read_u2(input, third)?;
        let (constant_pool_count, first) = read_u2(input, fourth)?;
        let (cp_info, after_pool) = ConstantPool::new(
            string_pool,
            input,
            first,
            constant_pool_count,
        )?;
        let ghost head = ClassHead {
            magic: magic as u32,
            minor_version: minor_version as u16,
            major_version: major_version as u16,
            constant_pool_count,
            pool: PoolProgress { items: cp_info@, index: after_pool, texts: string_pool@ },
        };
        assert(class_head_at(input@, index, old(string_pool)@) == Ok::<ClassHead, Error>(head));
        let (flags, after_flags) = read_u2(input, after_pool)?;
        let access_flags = extract_access_flags(flags);
        let (this_class, after_this) = read_u2(input, after_flags)?;
        let (super_class, after_super) = read_u2(input, after_this)?;
        let (interfaces_count, first_interface) = read_u2(input, after_super)?;
        let (interfaces, after_interfaces) = read_interfaces(
            input,
            first_interface,
            interfaces_count,
        )?;
        let (fields_count, first_field) = read_u2(input, after_interfaces)?;
        let (fields, after_fields) = read_fields(
            string_pool,
            &cp_info,
            input,
            first_field,
            fields_count,
        )?;
        let (methods_count, first_method) = read_u2(input, after_fields)?;
        let (methods, after_methods) = read_methods(
            string_pool,
            &cp_info,
            input,
            first_method,
            methods_count,
        )?;
        let (attributes_count, first_attribute) = read_u2(input, after_methods)?;
        let (attributes, end) = Attribute::list(
            string_pool,
            &cp_info,
            input,
            first_attribute,
            attributes_count,
        )?;
        let class = ClassFile {
            magic: magic as u32,
            minor_version: minor_version as u16,
            major_version: major_version as u16,
            constant_pool_count,
            cp_info,
            access_flags,
            this_class,
            super_class,
            interfaces_count,
            interfaces,
            fields_count,
            fields,
            methods_count,
            methods,
            attributes_count,
            attributes,
        };
        Ok((class, end))
    }

    /// The body of `method`, if it has one.
    pub fn extract_code<'a>(&self, method: &'a Method) -> (r: Option<&'a Code>)
        ensures
            r is Some <==> method.is_executable(),
            r matches Some(code) ==> *code == method.body(),
    {
        method.extract_code()
    }

    /// The string id of the name of the class.
    pub fn this_class_name(&self) -> (r: Result<usize, Error>)
        ensures
            r == class_name_at(self.cp_info@, self.this_class),
    {
        self.cp_info.get_class_ref_name(self.this_class)
    }

    /// The string id of the name of the super class.
    pub fn super_class_name(&self) -> (r: Result<usize, Error>)
        ensures
            r == class_name_at(self.cp_info@, self.super_class),
    {
        self.cp_info.get_class_ref_name(self.super_class)
    }

    /// The method at place `i` has the name with string id `name` and, where one is asked
    /// for, the descriptor with string id `descriptor`.
    pub open spec fn method_matches(&self, i: int, name: usize, descriptor: Option<usize>) -> bool {
        &&& 0 <= i < self.methods@.len()
        &&& utf8_id_at(self.cp_info@, self.methods@[i].name_index) == Ok::<usize, Error>(name)
        &&& descriptor matches Some(id) ==> utf8_id_at(
            self.cp_info@,
            self.methods@[i].descriptor_index,
        ) == Ok::<usize, Error>(id)
    }

    /// `i` is the place of the first method with the given name and descriptor.
    pub open spec fn first_method_at(
        &self,
        i: int,
        name: usize,
        descriptor: Option<usize>,
    ) -> bool {
        &&& self.method_matches(i, name, descriptor)
        &&& forall|j: int| 0 <= j < i ==> !self.method_matches(j, name, descriptor)
    }

    /// The place of the first method with the given name and descriptor, if there is one.
    pub open spec fn method_place(&self, name: usize, descriptor: Option<usize>) -> Option<usize> {
        if exists|i: int| self.first_method_at(i, name, descriptor) {
            Some((choose|i: int| self.first_method_at(i, name, descriptor)) as usize)
        } else {
            None
        }
    }

    /// The place of the first method whose name has the string id `name` and, where one is
    /// given, whose descriptor has the string id `descriptor`.
    pub fn find_method(&self, name: usize, descriptor: Option<usize>) -> (r: Option<usize>)
        ensures
            r == self.method_place(name, descriptor),
            r matches Some(i) ==> self.first_method_at(i as int, name, descriptor),
            r is None ==> forall|j: int| !self.method_matches(j, name, descriptor),
    {
        let mut i: usize = 0;
        while i < self.methods.len()
            invariant
                i <= self.methods@.len(),
                forall|j: int| 0 <= j < i ==> !self.method_matches(j, name, descriptor),
            decreases self.methods@.len() - i,
        {
            let method = &self.methods[i];
            let name_found = match self.cp_info.get_utf8(method.name_index) {
                Ok(id) => id == name,
                Err(_) => false,
            };
            let descriptor_found = match descriptor {
                None => true,
                Some(wanted) => match self.cp_info.get_utf8(method.descriptor_index) {
                    Ok(id) => id == wanted,
                    Err(_) => false,
                },
            };
            if name_found && descriptor_found {
                proof {
                    assert(self.first_method_at(i as int, name, descriptor));
                    let k = choose|k: int| self.first_method_at(k, name, descriptor);
                    assert(k == i);
                }
                return Some(i);
            }
            i += 1;
        }
        proof {
            assert forall|k: int| !self.first_method_at(k, name, descriptor) by {}
        }
        None
    }

    /// The body of the method at place `index`, if there is such a method with a body.
    pub fn get_code(&self, index: usize) -> (r: Option<&Code>)
        ensures
            r is Some <==> index < self.methods@.len()
                && self.methods@[index as int].is_executable(),
            r matches Some(code) ==> *code == self.methods@[index as int].body(),
    {
        if index < self.methods.len() {
            self.methods[index].extract_code()
        } else {
            None
        }
    }

    /// The method at place `i` is public, has a body, and its name has the string id
    /// `name`.
    pub open spec fn is_entry(&self, i: int, name: usize) -> bool {
        &&& self.method_matches(i, name, None)
        &&& self.methods@[i].has_flag(MethodAccessFlag::AccPublic)
        &&& self.methods@[i].is_executable()
    }

    /// `i` is the place of the first public method with a body whose name has the string
    /// id `name`.
    pub open spec fn first_entry_at(&self, i: int, name: usize) -> bool {
        &&& self.is_entry(i, name)
        &&& forall|j: int| 0 <= j < i ==> !self.is_entry(j, name)
    }

    /// The place of the entry method, where `name` is the string id of `main`: the first
    /// public method of that name that has a body.
    pub open spec fn entry_place(&self, name: usize) -> Option<usize> {
        if exists|i: int| self.first_entry_at(i, name) {
            Some((choose|i: int| self.first_entry_at(i, name)) as usize)
        } else {
            None
        }
    }

    /// The place of the first public method with a body whose name has the string id
    /// `name`.
    pub fn get_entry_method(&self, name: usize) -> (r: Option<usize>)
        ensures
            r == self.entry_place(name),
            r matches Some(i) ==> self.first_entry_at(i as int, name),
    {
        let mut i: usize = 0;
        while i < self.methods.len()
            invariant
                i <= self.methods@.len(),
                forall|j: int| 0 <= j < i ==> !self.is_entry(j, name),
            decreases self.methods@.len() - i,
        {
            let method = &self.methods[i];
            let named = match self.cp_info.get_utf8(method.name_index) {
                Ok(id) => id == name,
                Err(_) => false,
            };
            if named && method.is_flagged(MethodAccessFlag::AccPublic)
                && method.extract_code().is_some() {
                proof {
                    assert(self.first_entry_at(i as int, name));
                    let k = choose|k: int| self.first_entry_at(k, name);
                    assert(k == i);
                }
                return Some(i);
            }
            i += 1;
        }
        proof {
            assert forall|k: int| !self.first_entry_at(k, name) by {}
        }
        None
    }
}

/// The pool index that the two operand bytes of a wide load spell.
pub open spec fn wide_index(first: usize, second: usize) -> usize {
    ((first % 0x100) * 0x100 + second % 0x100) as usize
}

/// Computes `wide_index`.
pub fn join_index(first: usize, second: usize) -> (r: usize)
    ensures
        r == wide_index(first, second),
{
    (first % 0x100) * 0x100 + second % 0x100
}

/// Every pool index that `instruction` holds names an entry of the variant that the
/// instruction dereferences it as: a field reference with its class and its name and
/// type, a method reference likewise, a class with its name, a constant that can be
/// loaded in one slot or in two.
pub open spec fn instruction_resolves(pool: Seq<ConstPoolItem>, instruction: &Instruction) -> bool {
    match instruction {
        Instruction::Getstatic(constant) => class_and_field_name_at(pool, *constant) is Ok,
        Instruction::Putstatic(constant) => class_and_field_name_at(pool, *constant) is Ok,
        Instruction::Getfield(constant) => class_and_field_name_at(pool, *constant) is Ok,
        Instruction::Putfield(constant) => class_and_field_name_at(pool, *constant) is Ok,
        Instruction::Invokevirtual(constant) => crate::constant::method_at(pool, *constant) is Ok,
        Instruction::Invokespecial(constant) => crate::constant::method_at(pool, *constant) is Ok,
        Instruction::Invokestatic(constant) => crate::constant::method_at(pool, *constant) is Ok,
        Instruction::New(constant) => class_name_at(pool, *constant) is Ok,
        Instruction::Anewarray(constant) => class_name_at(pool, *constant) is Ok,
        Instruction::Multianewarray(constant, _) => class_name_at(pool, *constant) is Ok,
        Instruction::Ldc(constant) => loadable_at(pool, *constant) is Ok,
        Instruction::Ldc2W(first, second) => wide_loadable_at(
            pool,
            wide_index(*first, *second),
        ) is Ok,
        _ => true,
    }
}

/// Every instruction of `code` resolves.
pub open spec fn code_resolves(pool: Seq<ConstPoolItem>, code: Seq<Instruction>) -> bool {
    forall|entry: int| 0 <= entry < code.len() ==> instruction_resolves(pool, #[trigger] &code[entry])
}

/// Whether every pool index that `instruction` holds names an entry of the variant that
/// the instruction dereferences it as.
pub fn check_instruction(pool: &ConstantPool, instruction: &Instruction) -> (r: bool)
    ensures
        r == instruction_resolves(pool@, instruction),
{
    match instruction {
        Instruction::Getstatic(constant) => pool.get_class_and_field_name(*constant).is_ok(),
        Instruction::Putstatic(constant) => pool.get_class_and_field_name(*constant).is_ok(),
        Instruction::Getfield(constant) => pool.get_class_and_field_name(*constant).is_ok(),
        Instruction::Putfield(constant) => pool.get_class_and_field_name(*constant).is_ok(),
        Instruction::Invokevirtual(constant) => pool.get_method(*constant).is_ok(),
        Instruction::Invokespecial(constant) => pool.get_method(*constant).is_ok(),
        Instruction::Invokestatic(constant) => pool.get_method(*constant).is_ok(),
        Instruction::New(constant) => pool.get_class_ref_name(*constant).is_ok(),
        Instruction::Anewarray(constant) => pool.get_class_ref_name(*constant).is_ok(),
        Instruction::Multianewarray(constant, _) => pool.get_class_ref_name(*constant).is_ok(),
        Instruction::Ldc(constant) => pool.get_operand_stack_item(*constant).is_ok(),
        Instruction::Ldc2W(first, second) => {
            match pool.item(join_index(*first, *second)) {
                ConstPoolItem::ConstantLong(_) => true,
                ConstPoolItem::ConstantDouble(_) => true,
                _ => false,
            }
        },
        _ => true,
    }
}

/// Whether every instruction of `code` resolves.
pub fn check_code(pool: &ConstantPool, code: &Vec<Instruction>) -> (r: bool)
    ensures
        r == code_resolves(pool@, code@),
{
    let mut entry: usize = 0;
    while entry < code.len()
        invariant
            entry <= code@.len(),
            forall|i: int| 0 <= i < entry ==> instruction_resolves(pool@, #[trigger] &code@[i]),
        decreases code@.len() - entry,
    {
        if !check_instruction(pool, &code[entry]) {
            return false;
        }
        entry += 1;
    }
    true
}

impl ClassFile {
    /// The method at place `method` has no body, or every instruction of its body
    /// resolves; and its name and its descriptor are texts.
    pub open spec fn method_resolves(&self, method: int) -> bool {
        &&& utf8_id_at(self.cp_info@, self.methods@[method].name_index) is Ok
        &&& utf8_id_at(self.cp_info@, self.methods@[method].descriptor_index) is Ok
        &&& self.methods@[method].is_executable() ==> code_resolves(
            self.cp_info@,
            self.methods@[method].body().code@,
        )
    }

    /// Every reference of the class resolves: the class and its super class have names,
    /// every method has a name and a descriptor, and in every method body every pool
    /// index names an entry of the variant that its instruction expects.
    pub open spec fn references_resolve(&self) -> bool {
        &&& class_name_at(self.cp_info@, self.this_class) is Ok
        &&& class_name_at(self.cp_info@, self.super_class) is Ok
        &&& forall|method: int|
            0 <= method < self.methods@.len() ==> #[trigger] self.method_resolves(method)
    }

    /// Whether every reference of the class resolves.
    pub fn resolves(&self) -> (r: bool)
        ensures
            r == self.references_resolve(),
    {
        if self.this_class_name().is_err() || self.super_class_name().is_err() {
            return false;
        }
        let mut method: usize = 0;
        while method < self.methods.len()
            invariant
                method <= self.methods@.len(),
                forall|i: int| 0 <= i < method ==> #[trigger] self.method_resolves(i),
            decreases self.methods@.len() - method,
        {
            let named = self.cp_info.get_utf8(self.methods[method].name_index).is_ok()
                && self.cp_info.get_utf8(self.methods[method].descriptor_index).is_ok();
            let sound = match self.methods[method].extract_code() {
                Some(code) => check_code(&self.cp_info, &code.code),
                None => true,
            };
            if !(named && sound) {
                assert(!self.method_resolves(method as int));
                return false;
            }
            method += 1;
        }
        true
    }
}

} // verus!
