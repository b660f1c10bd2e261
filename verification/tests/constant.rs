use r_jvm::constant::{
    ConstPoolItem, ConstPoolTag, ConstantClass, ConstantInteger, ConstantLong, ConstantMethodref,
    ConstantNameAndType, ConstantPool, ConstantString, ConstantUtf8,
};
use r_jvm::error::{DecodeError, Error, UnsupportedError};
use r_jvm::operand::Item;
use r_jvm::string_pool::StringPool;

#[test]
fn constant_pool_constant_methodref() {
    let mut inputs = vec![
        0x0a, // class
        0x00, 0x0a, // class_index
        0x00, 0x0b, // name_and_type_index
    ];
    let mut string_pool = StringPool::new();
    let result = ConstantPool::new(&mut string_pool, &mut inputs, 0, 2);

    assert_eq!(
        result,
        Ok((
            ConstantPool(vec![
                ConstPoolItem::ConstantNull,
                ConstPoolItem::ConstantMethodref(ConstantMethodref {
                    tag: ConstPoolTag::ConstantMethodref,
                    class_index: 0x0a,
                    name_and_type_index: 0x0b
                })
            ]),
            inputs.len()
        ))
    );
}

#[test]
fn constant_pool_constant_class() {
    let mut inputs = vec![
        0x07, // class
        0x00, 0x0b, // name_index
    ];
    let mut string_pool = StringPool::new();
    let result = ConstantPool::new(&mut string_pool, &mut inputs, 0, 2);

    assert_eq!(
        result,
        Ok((
            ConstantPool(vec![
                ConstPoolItem::ConstantNull,
                ConstPoolItem::ConstantClass(ConstantClass {
                    tag: ConstPoolTag::ConstantClass,
                    name_index: 0x0b
                })
            ]),
            inputs.len()
        ))
    );
}

#[test]
fn constant_pool_utf8() {
    let mut inputs = [
        0x01, // utf8
        0x00, 0x0A, // length
        0x53, 0x6F, 0x75, 0x72, 0x63, 0x65, 0x46, 0x69, 0x6C, 0x65, // bytes(SourceFile)
    ];
    let mut string_pool = StringPool::new();
    let result = ConstantPool::new(&mut string_pool, &mut inputs, 0, 2);

    assert_eq!(
        result,
        Ok((
            ConstantPool(vec![
                ConstPoolItem::ConstantNull,
                ConstPoolItem::ConstantUtf8(ConstantUtf8 {
                    tag: ConstPoolTag::ConstantUtf8,
                    length: 0x0a,
                    id: 0
                })
            ]),
            inputs.len()
        ))
    );
    assert_eq!(
        string_pool.get_value(&0).map(|text| text.into_bytes()),
        Ok(vec![0x53, 0x6F, 0x75, 0x72, 0x63, 0x65, 0x46, 0x69, 0x6C, 0x65])
    );
}

#[test]
fn constant_pool_name_and_type() {
    let mut inputs = vec![
        0x0c, // name_and_type
        0x00, 0x0a, // name_index
        0x00, 0x0b, // descriptor_index
    ];
    let mut string_pool = StringPool::new();
    let result = ConstantPool::new(&mut string_pool, &mut inputs, 0, 2);

    assert_eq!(
        result,
        Ok((
            ConstantPool(vec![
                ConstPoolItem::ConstantNull,
                ConstPoolItem::ConstantNameAndType(ConstantNameAndType {
                    tag: ConstPoolTag::ConstantNameAndType,
                    name_index: 0x0a,
                    descriptor_index: 0x0b
                })
            ]),
            inputs.len()
        ))
    );
}

#[test]
fn constant_pool_name_and_type_print() {
    let mut inputs = vec![
        0x0c, // name_and_type
        0x00, 0x0a, // name_index
        0x00, 0x0b, // descriptor_index
    ];
    let mut string_pool = StringPool::new();
    let (constant_pool, _) = ConstantPool::new(&mut string_pool, &mut inputs, 0, 2).unwrap();

    assert_eq!(
        format!("{}", constant_pool.to_string(&string_pool)),
        "  #1 = NameAndType  #10:#11"
    );
}

fn sample_pool() -> (ConstantPool, StringPool) {
    let inputs = vec![
        0x07, 0x00, 0x02, // 1: class -> 2
        0x01, 0x00, 0x04, b'M', b'a', b'i', b'n', // 2: utf8 "Main"
        0x08, 0x00, 0x04, // 3: string -> 4
        0x01, 0x00, 0x02, b'h', b'i', // 4: utf8 "hi"
        0x05, 0x00, 0x00, 0x00, 0x01, 0xff, 0xff, 0xff, 0xfe, // 5, 6: long
        0x03, 0xff, 0xff, 0xff, 0xfd, // 7: integer -3
        0x09, 0x00, 0x01, 0x00, 0x09, // 8: fieldref class 1, name and type 9
        0x0c, 0x00, 0x04, 0x00, 0x0a, // 9: name and type "hi" : 10
        0x01, 0x00, 0x01, b'I', // 10: utf8 "I"
        0x0a, 0x00, 0x01, 0x00, 0x09, // 11: methodref class 1, name and type 9
        0x01, 0x00, 0x04, b'm', b'a', b'i', b'n', // 12: utf8 "main"
    ];
    let mut string_pool = StringPool::new();
    let (pool, next) = ConstantPool::new(&mut string_pool, &inputs, 0, 13).unwrap();
    assert_eq!(next, inputs.len());
    (pool, string_pool)
}

#[test]
fn a_long_constant_takes_two_slots() {
    let (pool, _) = sample_pool();
    assert_eq!(pool.0.len(), 13);
    assert_eq!(
        pool.0[5],
        ConstPoolItem::ConstantLong(ConstantLong {
            tag: ConstPoolTag::ConstantLong,
            high_bytes: 1,
            low_bytes: 0xffff_fffe
        })
    );
    assert_eq!(pool.0[6], ConstPoolItem::ConstantNull);
    assert_eq!(
        pool.0[7],
        ConstPoolItem::ConstantInteger(ConstantInteger { tag: ConstPoolTag::ConstantInteger, value: -3 })
    );
}

#[test]
fn texts_are_interned_once() {
    let inputs = vec![
        0x01, 0x00, 0x01, b'a', 0x01, 0x00, 0x01, b'b', 0x01, 0x00, 0x01, b'a',
    ];
    let mut string_pool = StringPool::new();
    let (pool, _) = ConstantPool::new(&mut string_pool, &inputs, 0, 4).unwrap();
    assert_eq!(pool.get_utf8(1), Ok(0));
    assert_eq!(pool.get_utf8(2), Ok(1));
    assert_eq!(pool.get_utf8(3), Ok(0));
    assert_eq!(string_pool.values.len(), 2);
    assert_eq!(string_pool.id, 2);
}

#[test]
fn accessors_resolve_references() {
    let (pool, string_pool) = sample_pool();
    let main = string_pool.find(&String::from("Main")).unwrap();
    let hi = string_pool.find(&String::from("hi")).unwrap();
    let int = string_pool.find(&String::from("I")).unwrap();
    assert_eq!(
        pool.get_class_ref(1),
        Ok(&ConstantClass { tag: ConstPoolTag::ConstantClass, name_index: 2 })
    );
    assert_eq!(pool.get_class_ref_name(1), Ok(main));
    assert_eq!(pool.get_utf8(2), Ok(main));
    assert_eq!(pool.get_string(3), Ok(hi));
    assert_eq!(pool.get_class_and_field_name(8), Ok((main, hi)));
    assert_eq!(pool.get_field(8), Ok((main, hi, int)));
    assert_eq!(pool.get_method(11), Ok((main, hi, int)));
    assert_eq!(pool.get_main_index(&string_pool), Some(12));
    assert_eq!(pool.get_name_and_type(9).map(|entry| entry.name_index), Ok(4));
    assert_eq!(pool.get_method_ref(11).map(|entry| entry.class_index), Ok(1));
    assert_eq!(pool.get_field_ref(8).map(|entry| entry.name_and_type_index), Ok(9));
}

#[test]
fn accessors_fail_on_the_wrong_variant() {
    let (pool, _) = sample_pool();
    assert_eq!(pool.get_class_ref(2), Err(Error::InternalError));
    assert_eq!(pool.get_class_ref(0), Err(Error::InternalError));
    assert_eq!(pool.get_class_ref(99), Err(Error::InternalError));
    assert_eq!(pool.get_method_ref(8), Err(Error::InternalError));
    assert_eq!(pool.get_field_ref(11), Err(Error::InternalError));
    assert_eq!(pool.get_name_and_type(1), Err(Error::InternalError));
    assert_eq!(pool.get_utf8(1), Err(Error::InternalError));
    assert_eq!(pool.get_string(2), Err(Error::InternalError));
    assert_eq!(pool.get_class_and_field_name(11), Err(Error::InternalError));
    assert_eq!(pool.get_method(8), Err(Error::InternalError));
    assert_eq!(pool.get_class_ref_name(6), Err(Error::InternalError));
}

#[test]
fn constants_load_as_items() {
    let (pool, string_pool) = sample_pool();
    let hi = string_pool.find(&String::from("hi")).unwrap();
    assert_eq!(pool.get_operand_stack_item(3), Ok(Item::String(hi)));
    assert_eq!(pool.get_operand_stack_item(4), Ok(Item::String(hi)));
    assert_eq!(pool.get_operand_stack_item(7), Ok(Item::Int(-3)));
    assert_eq!(pool.get_operand_stack_item(8), Ok(Item::Fieldref(8)));
    assert_eq!(pool.get_operand_stack_item(5), Err(Error::InternalError));
    let mut stack = vec![Item::Null];
    assert_eq!(pool.create_and_set_operand_stack_item(&mut stack, 5), Ok(()));
    assert_eq!(stack, vec![Item::Null, Item::Long(1), Item::Long(0xffff_fffe)]);
    assert_eq!(pool.create_and_set_operand_stack_item(&mut stack, 7), Err(Error::InternalError));
    assert_eq!(stack.len(), 3);
}

#[test]
fn unknown_and_unsupported_tags_fail() {
    let mut string_pool = StringPool::new();
    assert_eq!(
        ConstantPool::new(&mut string_pool, &[0x02, 0x00], 0, 2),
        Err(Error::DecodeError(DecodeError::UnknownConstantTag(2)))
    );
    assert_eq!(
        ConstantPool::new(&mut string_pool, &[0x00, 0x00], 0, 2),
        Err(Error::DecodeError(DecodeError::UnknownConstantTag(0)))
    );
    assert_eq!(
        ConstantPool::new(&mut string_pool, &[0x12, 0x00, 0x00, 0x00, 0x00], 0, 2),
        Err(Error::UnsupportedError(UnsupportedError::ConstantTag(18)))
    );
    assert_eq!(
        ConstantPool::new(&mut string_pool, &[0x07, 0x00], 0, 2),
        Err(Error::DecodeError(DecodeError::FileTooShort))
    );
    assert_eq!(
        ConstantPool::new(&mut string_pool, &[0x01, 0x00, 0x05, b'a'], 0, 2),
        Err(Error::DecodeError(DecodeError::FileTooShort))
    );
    assert_eq!(ConstPoolTag::from(12), Ok(ConstPoolTag::ConstantNameAndType));
    assert_eq!(ConstPoolTag::from(13), Err(Error::DecodeError(DecodeError::UnknownConstantTag(13))));
}

#[test]
fn a_pool_of_no_entries_is_the_unused_entry() {
    let mut string_pool = StringPool::new();
    assert_eq!(
        ConstantPool::new(&mut string_pool, &[], 0, 1),
        Ok((ConstantPool(vec![ConstPoolItem::ConstantNull]), 0))
    );
    assert_eq!(
        ConstantPool::new(&mut string_pool, &[], 0, 0),
        Ok((ConstantPool(vec![ConstPoolItem::ConstantNull]), 0))
    );
}

#[test]
fn the_listing_shows_each_entry() {
    let (pool, string_pool) = sample_pool();
    let expected = [
        "  #1 = Class        #2",
        "  #2 = Utf8         Main",
        "  #3 = String       #4",
        "  #4 = Utf8         hi",
        "  #5 = Long         8589934590",
        "  #7 = Integer      -3",
        "  #8 = Fieldref     #1.#9",
        "  #9 = NameAndType  #4:#10",
        "  #10 = Utf8         I",
        "  #11 = Methodref    #1.#9",
        "  #12 = Utf8         main",
    ]
    .join("\n");
    assert_eq!(pool.to_string(&string_pool), expected);
    let entry = ConstantString::create_and_update_index(&[0x00, 0x04], 0);
    assert_eq!(
        entry,
        Ok((ConstantString { tag: ConstPoolTag::ConstantString, string_index: 4 }, 2))
    );
}
