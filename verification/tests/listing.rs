use r_jvm::array::Array;
use r_jvm::attribute::code::Code;
use r_jvm::attribute::defs::{
    Attribute, LineNumberTable, SourceFile, StackMapFrame, StackMapTable, VerificationTypeInfo,
};
use r_jvm::class_file::{AccessFlag, ClassFile};
use r_jvm::constant::ConstantPool;
use r_jvm::field::{Field, FieldAccessFlag};
use r_jvm::method::{Method, MethodAccessFlag};
use r_jvm::object::Objectref;
use r_jvm::operand::{Item, OperandStack};
use r_jvm::string_pool::StringPool;
use r_jvm::table::Table;
use r_jvm::text::join;

fn utf8(text: &str) -> Vec<u8> {
    let mut bytes = vec![1];
    bytes.extend_from_slice(&(text.len() as u16).to_be_bytes());
    bytes.extend_from_slice(text.as_bytes());
    bytes
}

fn pool_of(texts: &[&str]) -> (ConstantPool, StringPool) {
    let mut bytes = vec![];
    for text in texts {
        bytes.extend(utf8(text));
    }
    let mut string_pool = StringPool::new();
    let (pool, _) = ConstantPool::new(&mut string_pool, &bytes, 0, texts.len() + 1).unwrap();
    (pool, string_pool)
}

const CODE: [u8; 38] = [
    0, 0, 0, 34, // length
    0, 2, 0, 3, // limits
    0, 0, 0, 6, // code length
    0x10, 0x05, 0xb2, 0x00, 0x02, 0xb1, // code
    0, 0, // no exception table
    0, 1, // one attribute
    0, 2, 0, 0, 0, 10, 0, 2, 0, 0, 0, 3, 0, 8, 0, 4, // line numbers
];

const CODE_TEXT: &str = "Code:\n  stack:2, locals=3, args_size=?\n    0: bipush         5\n    2: getstatic       #2\n    5: return\n  LineNumberTable:\n    line 3: 0\n    line 4: 8";

#[test]
fn lines_are_joined_by_their_separator() {
    assert_eq!(join(&vec![], ", "), "");
    assert_eq!(join(&vec![String::from("a")], ", "), "a");
    assert_eq!(join(&vec![String::from("a"), String::new(), String::from("c")], ", "), "a, , c");
}

#[test]
fn attributes_are_shown_with_what_they_hold() {
    let (source_file, _) = SourceFile::new(&[0, 0, 0, 2, 0, 9], 0, 4).unwrap();
    assert_eq!(source_file.to_string(), "SourceFile: #9");
    let bytes = [0, 0, 0, 10, 0, 2, 0, 0, 0, 3, 0, 8, 0, 4];
    let (table, _) = LineNumberTable::new(&bytes, 0, 7).unwrap();
    assert_eq!(table.to_string(), "LineNumberTable:\n    line 3: 0\n    line 4: 8");
    assert_eq!(table.line_number_tables[1].to_string(), "  line 4: 8");
    let (empty, _) = LineNumberTable::new(&[0, 0, 0, 2, 0, 0], 0, 7).unwrap();
    assert_eq!(empty.to_string(), "LineNumberTable:\n  ");
    let (pool, string_pool) = pool_of(&["Code", "LineNumberTable", "Signature"]);
    let (code, _) = Code::new(&string_pool, &pool, &CODE, 0, 1).unwrap();
    assert_eq!(code.to_string(), CODE_TEXT);
    let (signature, _) = Attribute::new(&string_pool, &pool, &[0, 3, 0, 0, 0, 0], 0).unwrap();
    assert_eq!(signature.to_string(), "Signature");
    assert_eq!(Attribute::Code(code).to_string(), CODE_TEXT);
    assert_eq!(Attribute::SourceFile(source_file).to_string(), "SourceFile: #9");
}

#[test]
fn stack_map_frames_are_shown_by_their_kind() {
    let shown = |bytes: &[u8]| StackMapFrame::new(bytes, 0).unwrap().0.to_string();
    assert_eq!(shown(&[10]), "10   /* same */");
    assert_eq!(shown(&[64, 1]), "/* same_locals_1_stack_item */");
    assert_eq!(shown(&[247, 0, 5, 1]), "/* same_locals_1_stack_item_extended */");
    assert_eq!(shown(&[250, 0, 5]), "250   /* chop */\n  offset_delta = 5");
    assert_eq!(shown(&[251, 0, 5]), "/* same_frame_extended */");
    assert_eq!(
        shown(&[253, 0, 5, 1, 7, 0, 9]),
        "253   /* append */\n    offset_delta = 5\n    locals = [int, object_variable: #9]"
    );
    assert_eq!(
        shown(&[255, 0, 5, 0, 1, 1, 0, 2, 2, 5]),
        "255   /* full_frame */\n    offset_delta = 5\n    locals = [int]\n    stack = [float, null]"
    );
    let (table, _) = StackMapTable::new(&[0, 0, 0, 6, 0, 2, 10, 250, 0, 5], 0, 3).unwrap();
    assert_eq!(
        table.to_string(),
        "StackMapTable: number_of_entries = 2\n  frame_type = 10   /* same */\n  frame_type = 250   /* chop */\n  offset_delta = 5"
    );
    assert_eq!(VerificationTypeInfo::UninitializedThisVariableInfo.to_string(), "uninitialized_this");
    assert_eq!(VerificationTypeInfo::UninitializedVariableInfo(4).to_string(), "uninitialized_variable: #4");
    assert_eq!(VerificationTypeInfo::TopVariableInfo.to_string(), "top");
    assert_eq!(VerificationTypeInfo::DoubleVariableInfo.to_string(), "double");
    assert_eq!(VerificationTypeInfo::LongVariableInfo.to_string(), "long");
}

#[test]
fn flags_are_shown_by_their_names() {
    assert_eq!(r_jvm::class_file::extract_access_flags(0x0021).to_string(), "flags: ACC_PUBLIC, ACC_SUPER");
    assert_eq!(r_jvm::class_file::extract_access_flags(0).to_string(), "flags: ");
    assert_eq!(r_jvm::field::extract_access_flags(0x001a).to_string(), "ACC_PRIVATE, ACC_STATIC, ACC_FINAL");
    assert_eq!(r_jvm::method::extract_access_flags(0x0009).to_string(), "ACC_PUBLIC, ACC_STATIC");
    assert_eq!(r_jvm::method::extract_access_flags(0).to_string(), "");
    assert_eq!(AccessFlag::AccAnnotation.to_string(), "ACC_ANNOTATION");
    assert_eq!(FieldAccessFlag::AccVolatitle.to_string(), "ACC_VOLATITLE");
    assert_eq!(FieldAccessFlag::Unknown.to_string(), "");
    assert_eq!(MethodAccessFlag::AccSynchronized.to_string(), "ACC_SYNCHRONIZED");
}

#[test]
fn fields_and_methods_are_shown_with_their_attributes() {
    let (pool, string_pool) = pool_of(&["Code", "LineNumberTable", "Signature"]);
    let bytes = [0, 2, 0, 5, 0, 6, 0, 2, 0, 3, 0, 0, 0, 0, 0, 3, 0, 0, 0, 0];
    let (field, _) = Field::new(&string_pool, &pool, &bytes, 0).unwrap();
    assert_eq!(
        field.to_string(),
        "  name: #5\n  descriptor: #6\n  flags: ACC_PRIVATE\n  attribute:\n    Signature\n  Signature"
    );
    let mut bytes = vec![0, 9, 0, 5, 0, 6, 0, 2, 0, 1];
    bytes.extend(CODE);
    bytes.extend([0, 3, 0, 0, 0, 0]);
    let (method, _) = Method::new(&string_pool, &pool, &bytes, 0).unwrap();
    assert_eq!(
        method.to_string(),
        format!(
            "  name: #5\n  descriptor: #6\n  flags: ACC_PUBLIC, ACC_STATIC\n  {}\n\nSignature",
            CODE_TEXT
        )
    );
}

#[test]
fn a_class_is_shown_part_by_part() {
    let mut bytes = vec![0xca, 0xfe, 0xba, 0xbe, 0, 3, 0, 52, 0, 5];
    bytes.extend([7, 0, 2]);
    bytes.extend(utf8("Small"));
    bytes.extend(utf8("Code"));
    bytes.extend(utf8("LineNumberTable"));
    bytes.extend([0, 0x21, 0, 1, 0, 1]);
    bytes.extend([0, 0]);
    bytes.extend([0, 1, 0, 2, 0, 2, 0, 2, 0, 0]);
    bytes.extend([0, 1, 0, 1, 0, 2, 0, 2, 0, 1, 0, 3]);
    bytes.extend(&CODE[..22]);
    bytes.extend([0, 4, 0, 0, 0, 10, 0, 2, 0, 0, 0, 3, 0, 8, 0, 4]);
    bytes.extend([0, 0]);
    let mut string_pool = StringPool::new();
    let (class, next) = ClassFile::new(&mut string_pool, &bytes, 0).unwrap();
    assert_eq!(next, bytes.len());
    let expected = format!(
        "minor version: 3\nmajor version: 52\nflags: flags: ACC_PUBLIC, ACC_SUPER\nConstant pool:\n  #1 = Class        #2\n  #2 = Utf8         Small\n  #3 = Utf8         Code\n  #4 = Utf8         LineNumberTable\n\nFields:\n  name: #2\n  descriptor: #2\n  flags: ACC_PRIVATE\n  attribute:\n    \nMethods:\n  name: #2\n  descriptor: #2\n  flags: ACC_PUBLIC\n  {}\n\nAttributes:\n  ",
        CODE_TEXT
    );
    assert_eq!(class.to_string(&string_pool), expected);
}

#[test]
fn objects_and_stacks_are_shown_item_by_item() {
    let mut fields = Table::new();
    fields.insert((3, 0), (Item::Int(7), Item::Null));
    fields.insert((4, 0), (Item::Long(1), Item::Long(2)));
    let object = Objectref::new(9, fields, true);
    assert_eq!(object.to_string(), "object_ref:\nclass 9:\n3.0: int: 7\n4.0: long: 1 long: 2");
    assert_eq!(Objectref::new(9, Table::new(), true).to_string(), "object_ref:\nclass 9:\n");
    assert_eq!(Array::Custom(vec![1, 2]).to_string(), "");
    let stack = OperandStack { stack: vec![Item::String(2), Item::Objectref(5)] };
    assert_eq!(
        stack.to_string(),
        "length: 2\nitem ====================\n#0 string: 2\n#1 object_ref: 5\n========================"
    );
    assert_eq!(
        OperandStack::new().to_string(),
        "length: 0\nitem ====================\n========================"
    );
}
