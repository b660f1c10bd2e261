use r_jvm::attribute::code::{Code, ExceptionTableItem};
use r_jvm::attribute::defs::{
    extract_verification_type_info, Attribute, AttributeTag, LineNumberTable, LineNumberTableItem,
    SourceFile, StackMapFrame, StackMapTable, VerificationTypeInfo,
};
use r_jvm::attribute::instruction::Instruction;
use r_jvm::class_file::{AccessFlag, ClassFile, Interface};
use r_jvm::constant::ConstantPool;
use r_jvm::error::{DecodeError, Error, ResolutionError, UnsupportedError};
use r_jvm::field::{BaseType, Field, FieldAccessFlag, FieldDescriptor};
use r_jvm::method::{count_parameter_slots, Method, MethodAccessFlag};
use r_jvm::string_pool::StringPool;

fn utf8(text: &str) -> Vec<u8> {
    let mut bytes = vec![1];
    bytes.extend_from_slice(&(text.len() as u16).to_be_bytes());
    bytes.extend_from_slice(text.as_bytes());
    bytes
}

/// A pool whose entries 1.. are the texts `texts`.
fn pool_of(texts: &[&str]) -> (ConstantPool, StringPool) {
    let mut bytes = vec![];
    for text in texts {
        bytes.extend(utf8(text));
    }
    let mut string_pool = StringPool::new();
    let (pool, _) = ConstantPool::new(&mut string_pool, &bytes, 0, texts.len() + 1).unwrap();
    (pool, string_pool)
}

const SHORT: Error = Error::DecodeError(DecodeError::FileTooShort);
const MALFORMED: Error = Error::DecodeError(DecodeError::MalformedAttributeLength);

#[test]
fn a_source_file_attribute_holds_its_index() {
    let bytes = [0, 0, 0, 2, 0, 9];
    assert_eq!(
        SourceFile::new(&bytes, 0, 4),
        Ok((SourceFile { attribute_name_index: 4, attribute_length: 2, sourcefile_index: 9 }, 6))
    );
    assert_eq!(SourceFile::new(&[0, 0, 0, 3, 0, 9], 0, 4), Err(MALFORMED));
    assert_eq!(SourceFile::new(&[0, 0, 0, 2, 0], 0, 4), Err(SHORT));
}

#[test]
fn a_line_number_table_holds_its_entries() {
    let bytes = [0, 0, 0, 10, 0, 2, 0, 0, 0, 3, 0, 8, 0, 4];
    let (table, next) = LineNumberTable::new(&bytes, 0, 7).unwrap();
    assert_eq!(next, bytes.len());
    assert_eq!(table.attribute_name_index, 7);
    assert_eq!(table.attribute_length, 10);
    assert_eq!(table.line_number_table_length, 2);
    assert_eq!(
        table.line_number_tables,
        vec![
            LineNumberTableItem { start_pc: 0, line_number: 3 },
            LineNumberTableItem { start_pc: 8, line_number: 4 }
        ]
    );
    assert_eq!(LineNumberTable::new(&bytes[..13], 0, 7).map(|_| ()), Err(SHORT));
    let wrong = [0, 0, 0, 9, 0, 2, 0, 0, 0, 3, 0, 8, 0, 4];
    assert_eq!(LineNumberTable::new(&wrong, 0, 7).map(|_| ()), Err(MALFORMED));
}

#[test]
fn verification_types_take_one_or_three_bytes() {
    let bytes = [0, 1, 7, 0, 9, 8, 1, 0, 4];
    let (types, next) = extract_verification_type_info(&bytes, 0, 5).unwrap();
    assert_eq!(next, 9);
    assert_eq!(
        types,
        vec![
            VerificationTypeInfo::TopVariableInfo,
            VerificationTypeInfo::IntegerVariableInfo,
            VerificationTypeInfo::ObjectVariableInfo(9),
            VerificationTypeInfo::UninitializedVariableInfo(256),
            VerificationTypeInfo::LongVariableInfo,
        ]
    );
    assert_eq!(extract_verification_type_info(&bytes, 0, 0), Ok((vec![], 0)));
    assert_eq!(
        extract_verification_type_info(&[9], 0, 1),
        Err(Error::DecodeError(DecodeError::UnknownVerificationType(9)))
    );
    assert_eq!(extract_verification_type_info(&[7, 0], 0, 1), Err(SHORT));
}

#[test]
fn stack_map_frames_are_read_by_their_type() {
    let shown = |bytes: &[u8]| {
        let (frame, next) = StackMapFrame::new(bytes, 0).unwrap();
        assert_eq!(next, bytes.len());
        format!("{:?}", frame)
    };
    assert_eq!(shown(&[63]), "SameFrame(SameFrame { frame_type: 63 })");
    assert_eq!(shown(&[64, 1]), "SameLocals1StackItemFrame");
    assert_eq!(shown(&[127, 7, 0, 2]), "SameLocals1StackItemFrame");
    assert_eq!(shown(&[247, 0, 5, 1]), "SameLocals1StackItemFrameExtended");
    assert_eq!(shown(&[250, 0, 5]), "ChopFrame(ChopFrame { frame_type: 250, offset_delta: 5 })");
    assert_eq!(shown(&[251, 0, 5]), "SameFrameExtended");
    assert_eq!(
        shown(&[253, 0, 5, 1, 4]),
        "AppendFrame(AppendFrame { frame_type: 253, offset_delta: 5, locals: [IntegerVariableInfo, LongVariableInfo] })"
    );
    assert_eq!(
        shown(&[255, 0, 5, 0, 1, 1, 0, 2, 2, 5]),
        "FullFrame(FullFrame { frame_type: 255, offset_delta: 5, number_of_locals: 1, locals: [IntegerVariableInfo], number_of_stack_items: 2, stack: [FloatVariableInfo, NullVariableInfo] })"
    );
    assert_eq!(
        StackMapFrame::new(&[128], 0).map(|_| ()),
        Err(Error::DecodeError(DecodeError::UnknownFrameType(128)))
    );
    assert_eq!(
        StackMapFrame::new(&[246], 0).map(|_| ()),
        Err(Error::DecodeError(DecodeError::UnknownFrameType(246)))
    );
    assert_eq!(StackMapFrame::new(&[252, 0, 5], 0).map(|_| ()), Err(SHORT));
}

#[test]
fn a_stack_map_table_holds_its_frames() {
    let bytes = [0, 0, 0, 6, 0, 2, 10, 250, 0, 5];
    let (table, next) = StackMapTable::new(&bytes, 0, 3).unwrap();
    assert_eq!(next, bytes.len());
    assert_eq!(table.number_of_entries, 2);
    assert_eq!(table.stack_map_frame.len(), 2);
    let wrong = [0, 0, 0, 7, 0, 2, 10, 250, 0, 5];
    assert_eq!(StackMapTable::new(&wrong, 0, 3).map(|_| ()), Err(MALFORMED));
}

fn code_bytes(code: &[u8], nested: &[u8], nested_count: u16, exceptions: &[[u16; 4]]) -> Vec<u8> {
    let mut body = vec![0, 2, 0, 3];
    body.extend_from_slice(&(code.len() as u32).to_be_bytes());
    body.extend_from_slice(code);
    body.extend_from_slice(&(exceptions.len() as u16).to_be_bytes());
    for entry in exceptions {
        for part in entry {
            body.extend_from_slice(&part.to_be_bytes());
        }
    }
    body.extend_from_slice(&nested_count.to_be_bytes());
    body.extend_from_slice(nested);
    let mut bytes = (body.len() as u32).to_be_bytes().to_vec();
    bytes.extend(body);
    bytes
}

#[test]
fn a_code_attribute_is_indexed_by_byte_offset() {
    let (pool, string_pool) = pool_of(&["Code", "LineNumberTable"]);
    let nested = [0, 2, 0, 0, 0, 6, 0, 1, 0, 0, 0, 1];
    let bytes = code_bytes(&[0x10, 0x05, 0xb2, 0x00, 0x02, 0xb1], &nested, 1, &[[1, 2, 3, 4]]);
    let (code, next) = Code::new(&string_pool, &pool, &bytes, 0, 1).unwrap();
    assert_eq!(next, bytes.len());
    assert_eq!((code.max_stack, code.max_locals, code.code_length), (2, 3, 6));
    assert_eq!(
        code.code,
        vec![
            Instruction::Bipush(5),
            Instruction::Noope,
            Instruction::Getstatic(2),
            Instruction::Noope,
            Instruction::Noope,
            Instruction::Return
        ]
    );
    assert_eq!(
        code.exception_table,
        vec![ExceptionTableItem { start_pc: 1, end_pc: 2, handler_pc: 3, catch_type: 4 }]
    );
    assert_eq!(code.attribute_info.len(), 1);
    assert!(matches!(code.attribute_info[0], Attribute::LineNumberTable(_)));
}

#[test]
fn a_code_attribute_with_a_wrong_length_fails() {
    let (pool, string_pool) = pool_of(&["Code"]);
    // the last instruction runs over the end of the code array
    let bytes = code_bytes(&[0x60, 0x10], &[], 0, &[]);
    assert_eq!(Code::new(&string_pool, &pool, &bytes, 0, 1).map(|_| ()), Err(MALFORMED));
    let bytes = code_bytes(&[0x60, 0xb2, 0x00], &[], 0, &[]);
    assert_eq!(Code::new(&string_pool, &pool, &bytes, 0, 1).map(|_| ()), Err(MALFORMED));
    let mut bytes = code_bytes(&[0x60], &[], 0, &[]);
    bytes[3] += 1;
    assert_eq!(Code::new(&string_pool, &pool, &bytes, 0, 1).map(|_| ()), Err(MALFORMED));
    let bytes = code_bytes(&[0xff], &[], 0, &[]);
    assert_eq!(
        Code::new(&string_pool, &pool, &bytes, 0, 1).map(|_| ()),
        Err(Error::DecodeError(DecodeError::UnknownOpcode(0xff, 0)))
    );
    // a code attribute inside a code attribute
    let inner = {
        let mut nested = vec![0, 1];
        nested.extend(code_bytes(&[0xb1], &[], 0, &[]));
        nested
    };
    let bytes = code_bytes(&[0xb1], &inner, 1, &[]);
    assert_eq!(
        Code::new(&string_pool, &pool, &bytes, 0, 1).map(|_| ()),
        Err(Error::UnsupportedError(UnsupportedError::Attribute(0)))
    );
}

#[test]
fn attributes_are_found_by_their_names() {
    let (pool, string_pool) = pool_of(&["SourceFile", "Signature", "Unheard", "Code"]);
    let (attribute, next) = Attribute::new(&string_pool, &pool, &[0, 1, 0, 0, 0, 2, 0, 9], 0).unwrap();
    assert!(matches!(attribute, Attribute::SourceFile(_)));
    assert_eq!(next, 8);
    // an attribute that is not held in full is passed over
    let (attribute, next) = Attribute::new(&string_pool, &pool, &[0, 2, 0, 0, 0, 3, 7, 7, 7, 9], 0).unwrap();
    assert!(matches!(attribute, Attribute::Signature));
    assert_eq!(next, 9);
    assert_eq!(
        Attribute::new(&string_pool, &pool, &[0, 2, 0, 0, 0, 3, 7], 0).map(|_| ()),
        Err(SHORT)
    );
    assert_eq!(
        Attribute::new(&string_pool, &pool, &[0, 3, 0, 0, 0, 0], 0).map(|_| ()),
        Err(Error::UnsupportedError(UnsupportedError::Attribute(2)))
    );
    assert_eq!(
        Attribute::new(&string_pool, &pool, &[0, 0, 0, 0, 0, 0], 0).map(|_| ()),
        Err(Error::ResolutionError(ResolutionError::WrongConstant(0)))
    );
    assert_eq!(
        Attribute::new(&string_pool, &pool, &[0, 9, 0, 0, 0, 0], 0).map(|_| ()),
        Err(Error::ResolutionError(ResolutionError::WrongConstant(9)))
    );
    let mut bytes = vec![0, 4];
    bytes.extend(code_bytes(&[0xb1], &[], 0, &[]));
    let (attribute, next) = Attribute::new(&string_pool, &pool, &bytes, 0).unwrap();
    assert!(matches!(attribute, Attribute::Code(_)));
    assert_eq!(next, bytes.len());
    assert_eq!(AttributeTag::from(&String::from("StackMapTable")), Some(AttributeTag::StackMapTable));
    assert_eq!(AttributeTag::from(&String::from("stackmaptable")), None);
}

#[test]
fn access_flags_are_listed_in_the_order_of_their_bits() {
    assert_eq!(
        r_jvm::class_file::extract_access_flags(0x0021).0,
        vec![AccessFlag::AccPublic, AccessFlag::AccSuper]
    );
    assert_eq!(r_jvm::class_file::extract_access_flags(0).0, vec![]);
    assert_eq!(
        r_jvm::class_file::extract_access_flags(0xffff).0,
        vec![
            AccessFlag::AccPublic,
            AccessFlag::AccFinal,
            AccessFlag::AccSuper,
            AccessFlag::AccInterface,
            AccessFlag::AccAbstract,
            AccessFlag::AccSynthetic,
            AccessFlag::AccAnnotation,
            AccessFlag::AccEnum
        ]
    );
    assert_eq!(
        r_jvm::field::extract_access_flags(0x001a).0,
        vec![FieldAccessFlag::AccPrivate, FieldAccessFlag::AccStatic, FieldAccessFlag::AccFinal]
    );
    assert_eq!(
        r_jvm::method::extract_access_flags(0x0009).0,
        vec![MethodAccessFlag::AccPublic, MethodAccessFlag::AccStatic]
    );
    assert_eq!(
        r_jvm::method::extract_access_flags(0x1d00).0,
        vec![
            MethodAccessFlag::AccNative,
            MethodAccessFlag::AccAbstract,
            MethodAccessFlag::AccStrict,
            MethodAccessFlag::AccSynthetic
        ]
    );
    assert_eq!(AccessFlag::from(0x0200), Some(AccessFlag::AccInterface));
    assert_eq!(AccessFlag::from(0x0002), None);
    assert_eq!(FieldAccessFlag::from(0), Some(FieldAccessFlag::Unknown));
    assert_eq!(FieldAccessFlag::from(0x0040), Some(FieldAccessFlag::AccVolatitle));
    assert_eq!(FieldAccessFlag::from(3), None);
    assert_eq!(MethodAccessFlag::from(0x0800), Some(MethodAccessFlag::AccStrict));
    assert_eq!(MethodAccessFlag::from(0x0200), None);
    assert_eq!(MethodAccessFlag::AccBridge.bit(), 0x0040);
    assert_eq!(FieldAccessFlag::AccEnum.bit(), 0x4000);
    assert_eq!(AccessFlag::AccAnnotation.bit(), 0x2000);
}

#[test]
fn fields_and_methods_hold_their_indices() {
    let (pool, string_pool) = pool_of(&["Code", "Signature"]);
    let bytes = [0, 2, 0, 5, 0, 6, 0, 1, 0, 2, 0, 0, 0, 1, 9];
    let (field, next) = Field::new(&string_pool, &pool, &bytes, 0).unwrap();
    assert_eq!(next, bytes.len());
    assert_eq!(field.access_flags.0, vec![FieldAccessFlag::AccPrivate]);
    assert_eq!((field.name_index, field.descriptor_index, field.attributes_count), (5, 6, 1));
    assert!(matches!(field.attribute_info[0], Attribute::Signature));
    let mut bytes = vec![0, 9, 0, 5, 0, 6, 0, 1, 0, 1];
    bytes.extend(code_bytes(&[0xb1], &[], 0, &[]));
    let (method, next) = Method::new(&string_pool, &pool, &bytes, 0).unwrap();
    assert_eq!(next, bytes.len());
    assert!(method.is_flagged(MethodAccessFlag::AccStatic));
    assert!(!method.is_flagged(MethodAccessFlag::AccPrivate));
    assert_eq!(method.extract_code().map(|code| code.code.len()), Some(1));
    let (bare, _) = Method::new(&string_pool, &pool, &[4, 1, 0, 5, 0, 6, 0, 0], 0).unwrap();
    assert!(bare.extract_code().is_none());
    assert_eq!(Method::new(&string_pool, &pool, &[4, 1, 0, 5, 0], 0).map(|_| ()), Err(SHORT));
}

fn small_class() -> Vec<u8> {
    let mut bytes = vec![0xca, 0xfe, 0xba, 0xbe, 0, 3, 0, 52, 0, 9];
    bytes.extend([7, 0, 2]); // 1: class Small
    bytes.extend(utf8("Small")); // 2
    bytes.extend([7, 0, 4]); // 3: class java/lang/Object
    bytes.extend(utf8("java/lang/Object")); // 4
    bytes.extend(utf8("Code")); // 5
    bytes.extend(utf8("main")); // 6
    bytes.extend(utf8("([Ljava/lang/String;)V")); // 7
    bytes.extend(utf8("count")); // 8
    bytes.extend([0, 0x21, 0, 1, 0, 3]); // flags, this, super
    bytes.extend([0, 2, 0, 3, 0, 1]); // two interfaces
    bytes.extend([0, 1, 0, 8, 0, 8, 0, 6, 0, 0]); // one field
    bytes.extend([0, 1, 0, 9, 0, 6, 0, 7, 0, 1, 0, 5]); // one method
    bytes.extend(code_bytes(&[0xb1], &[], 0, &[]));
    bytes.extend([0, 0]); // no attributes
    bytes
}

#[test]
fn a_class_file_is_read_part_by_part() {
    let bytes = small_class();
    let mut string_pool = StringPool::new();
    let (class, next) = ClassFile::new(&mut string_pool, &bytes, 0).unwrap();
    assert_eq!(next, bytes.len());
    assert_eq!(class.magic, 0xcafe_babe);
    assert_eq!((class.minor_version, class.major_version), (3, 52));
    assert_eq!(class.constant_pool_count, 9);
    assert_eq!(class.cp_info.0.len(), 9);
    assert_eq!(class.access_flags.0, vec![AccessFlag::AccPublic, AccessFlag::AccSuper]);
    assert_eq!((class.this_class, class.super_class), (1, 3));
    assert_eq!(class.interfaces, vec![Interface(3), Interface(1)]);
    assert_eq!((class.fields_count, class.methods_count, class.attributes_count), (1, 1, 0));
    let small = string_pool.find(&String::from("Small")).unwrap();
    let object = string_pool.find(&String::from("java/lang/Object")).unwrap();
    let main = string_pool.find(&String::from("main")).unwrap();
    let descriptor = string_pool.find(&String::from("([Ljava/lang/String;)V")).unwrap();
    assert_eq!(class.this_class_name(), Ok(small));
    assert_eq!(class.super_class_name(), Ok(object));
    assert_eq!(class.find_method(main, None), Some(0));
    assert_eq!(class.find_method(main, Some(descriptor)), Some(0));
    assert_eq!(class.find_method(main, Some(small)), None);
    assert_eq!(class.find_method(small, None), None);
    assert_eq!(class.get_entry_method(main), Some(0));
    assert_eq!(class.get_entry_method(small), None);
    assert_eq!(class.get_code(0).map(|code| code.max_locals), Some(3));
    assert!(class.get_code(1).is_none());
    assert_eq!(class.extract_code(&class.methods[0]).map(|code| code.max_stack), Some(2));
    assert!(class.resolves());
}

#[test]
fn every_cut_of_a_class_file_is_too_short() {
    let bytes = small_class();
    for length in 0..bytes.len() {
        let mut string_pool = StringPool::new();
        let result = ClassFile::new(&mut string_pool, &bytes[..length], 0).map(|_| ());
        assert!(
            result == Err(SHORT) || result == Err(MALFORMED),
            "cut at {}: {:?}",
            length,
            result
        );
    }
}

#[test]
fn a_class_with_a_dangling_reference_does_not_resolve() {
    let mut bytes = small_class();
    // the code of main becomes `new #2`, and entry 2 is a text
    let at = bytes.len() - 2 - 4 - 1 - 4;
    assert_eq!(bytes[at + 4], 0xb1);
    let mut patched = bytes[..at].to_vec();
    patched.extend([0, 0, 0, 3, 0xbb, 0, 2]);
    patched.extend(&bytes[at + 5..]);
    let length_at = at - 4 - 4;
    patched[length_at + 3] += 2;
    bytes = patched;
    let mut string_pool = StringPool::new();
    let (class, _) = ClassFile::new(&mut string_pool, &bytes, 0).unwrap();
    assert_eq!(class.get_code(0).map(|code| code.code.len()), Some(3));
    assert!(!class.resolves());
}

#[test]
fn descriptors_name_types_and_count_slots() {
    assert!(matches!(FieldDescriptor::from("I"), Ok(FieldDescriptor::BaseType(BaseType::I))));
    assert!(matches!(FieldDescriptor::from("Z"), Ok(FieldDescriptor::BaseType(BaseType::Z))));
    assert_eq!(
        format!("{:?}", FieldDescriptor::from("[[J").unwrap()),
        "ArrayType(ArrayType(BaseType(J)))"
    );
    assert_eq!(
        format!("{:?}", FieldDescriptor::from("Ljava/lang/String;").unwrap()),
        "ObjectType(\"java/lang/String\")"
    );
    for wrong in ["", "X", "II", "L", "Lname", "[", "[X"] {
        assert_eq!(
            FieldDescriptor::from(wrong).map(|_| ()),
            Err(Error::UnsupportedError(UnsupportedError::Descriptor)),
            "{}",
            wrong
        );
    }
    assert_eq!(BaseType::from('D'), Some(BaseType::D));
    assert_eq!(BaseType::from('d'), None);
    assert_eq!(count_parameter_slots("()V"), Some(0));
    assert_eq!(count_parameter_slots("(I)V"), Some(1));
    assert_eq!(count_parameter_slots("(J)V"), Some(2));
    assert_eq!(count_parameter_slots("(IJD)I"), Some(5));
    assert_eq!(count_parameter_slots("([Ljava/lang/String;)V"), Some(1));
    assert_eq!(count_parameter_slots("([[JLjava/lang/Object;Z)V"), Some(3));
    assert_eq!(count_parameter_slots("(Ljava/lang/String;[DB)Ljava/lang/String;"), Some(3));
    for wrong in ["", "I", "(I", "(X)V", "(Lname)V", "([)V"] {
        assert_eq!(count_parameter_slots(wrong), None, "{}", wrong);
    }
}

#[test]
fn bytes_that_are_no_text_become_a_text_all_the_same() {
    let mut string_pool = StringPool::new();
    let (pool, _) = ConstantPool::new(&mut string_pool, &[1, 0, 3, b'a', 0xff, b'b'], 0, 2).unwrap();
    let id = pool.get_utf8(1).unwrap();
    assert_eq!(string_pool.get_value(&id), Ok(String::from("a\u{fffd}b")));
    let (pool, _) = ConstantPool::new(&mut string_pool, &[1, 0, 2, 0xc3, 0xa9], 0, 2).unwrap();
    let id = pool.get_utf8(1).unwrap();
    assert_eq!(string_pool.get_value(&id), Ok(String::from("\u{e9}")));
}
