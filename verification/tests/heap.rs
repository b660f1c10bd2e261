use r_jvm::arg::{Argument, ArgumentKind, ArgumentValue};
use r_jvm::array::{Array, ArrayMap, PrimitiveArrayType};
use r_jvm::context::{create_multi_dimentions_array, create_uninitialized_item, element_type};
use r_jvm::error::Error;
use r_jvm::field::FieldDescriptor;
use r_jvm::java_class::default::setup_class_map;
use r_jvm::java_class::JavaClass;
use r_jvm::object::{ObjectMap, Objectref};
use r_jvm::operand::Item;
use r_jvm::order::{Opecode, Order};
use r_jvm::string_pool::StringPool;
use r_jvm::table::Table;
use r_jvm::text::decimal_text;
use r_jvm::utils::{iniailize_primitive_array, initialize_objectref_array};

#[test]
fn interning_is_idempotent() {
    let mut pool = StringPool::new();
    assert_eq!(pool.id, 0);
    let a = pool.insert(String::from("a"));
    let b = pool.insert(String::from("b"));
    let again = pool.insert(String::from("a"));
    assert_eq!((a, b, again), (0, 1, 0));
    assert_eq!(pool.id, 2);
    assert_eq!(pool.get_value(&a), Ok(String::from("a")));
    assert_eq!(pool.get_value(&b), Ok(String::from("b")));
    assert_eq!(pool.get_value(&2), Err(Error::InternalError));
    assert_eq!(pool.find(&String::from("b")), Some(1));
    assert_eq!(pool.find(&String::from("c")), None);
    assert!(pool.is_text(1, "b"));
    assert!(!pool.is_text(1, "a"));
    assert!(!pool.is_text(7, "a"));
    let empty = pool.insert(String::new());
    assert_eq!(empty, 2);
    assert_eq!(pool.insert(String::new()), 2);
}

#[test]
fn a_table_maps_pairs_to_values() {
    let mut table: Table<i32> = Table::new();
    assert_eq!(table.get((1, 2)), None);
    table.insert((1, 2), 10);
    table.insert((2, 1), 20);
    table.insert((1, 2), 11);
    assert_eq!(table.get((1, 2)), Some(&11));
    assert_eq!(table.get((2, 1)), Some(&20));
    assert_eq!(table.keys.len(), 2);
    assert!(table.contains((2, 1)));
    assert!(!table.contains((2, 2)));
    assert_eq!(table.find((2, 1)), Some(1));
    assert_eq!(table.remove((1, 2)), Some(11));
    assert_eq!(table.remove((1, 2)), None);
    assert_eq!(table.get((2, 1)), Some(&20));
    assert_eq!(table.keys, vec![(2, 1)]);
    table.insert((3, 3), 30);
    table.insert((4, 4), 40);
    assert_eq!(table.remove((2, 1)), Some(20));
    assert_eq!(table.get((3, 3)), Some(&30));
    assert_eq!(table.get((4, 4)), Some(&40));
    assert_eq!(table.values.len(), 2);
}

#[test]
fn object_ids_rise_and_never_repeat() {
    let mut objects = ObjectMap::new();
    let mut ids = vec![];
    for class in 0..5 {
        ids.push(objects.add(Objectref::new(class, Table::new(), true)));
        assert_eq!(objects.id, ids.len());
    }
    assert_eq!(ids, vec![0, 1, 2, 3, 4]);
    assert_eq!(objects.get(&3).map(|object| object.class_name_id), Some(3));
    assert!(objects.get(&5).is_none());
    assert!(objects.set_field(2, (9, 2), (Item::Int(1), Item::Null)));
    assert!(!objects.set_field(5, (9, 5), (Item::Int(1), Item::Null)));
    assert_eq!(
        objects.get(&2).and_then(|object| object.field_map.get((9, 2))),
        Some(&(Item::Int(1), Item::Null))
    );
    if let Some(object) = objects.get_mut(&4) {
        object.is_initialized = false;
    }
    assert_eq!(objects.get(&4).map(|object| object.is_initialized), Some(false));
    assert!(objects.get_mut(&9).is_none());
    let more = initialize_objectref_array(&mut objects, 7, 3);
    assert_eq!(more, vec![5, 6, 7]);
    assert_eq!(objects.id, 8);
    assert_eq!(objects.get(&6).map(|object| (object.class_name_id, object.is_initialized)), Some((7, false)));
    assert_eq!(initialize_objectref_array(&mut objects, 7, 0), vec![]);
}

#[test]
fn array_ids_rise_and_elements_can_be_stored() {
    let mut arrays = ArrayMap::new();
    let first = arrays.add(Array::Primitive(iniailize_primitive_array(10, 3).unwrap()));
    let second = arrays.add(Array::Custom(vec![4, 5]));
    let third = arrays.add(Array::Array(vec![0, 0]));
    assert_eq!((first, second, third), (0, 1, 2));
    assert_eq!(arrays.id, 3);
    assert!(arrays.store_element(0, 2, (Item::Int(7), Item::Null)));
    assert!(!arrays.store_element(0, 3, (Item::Int(7), Item::Null)));
    assert!(!arrays.store_element(1, 0, (Item::Int(7), Item::Null)));
    assert!(!arrays.store_element(9, 0, (Item::Int(7), Item::Null)));
    assert!(arrays.store_reference(1, 1, 9, false));
    assert!(!arrays.store_reference(1, 1, 9, true));
    assert!(arrays.store_reference(2, 0, 1, true));
    assert!(!arrays.store_reference(2, 2, 1, true));
    assert!(!arrays.store_reference(0, 0, 1, false));
    assert_eq!(
        format!("{:?}", arrays.get(&0).unwrap()),
        "Primitive([(Int(0), Null), (Int(0), Null), (Int(7), Null)])"
    );
    assert_eq!(format!("{:?}", arrays.get(&1).unwrap()), "Custom([4, 9])");
    assert_eq!(format!("{:?}", arrays.get(&2).unwrap()), "Array([1, 0])");
    assert!(arrays.get(&3).is_none());
    assert!(arrays.get_mut(&3).is_none());
    assert!(arrays.get_mut(&2).is_some());
}

#[test]
fn primitive_arrays_start_with_the_value_of_their_type() {
    assert_eq!(iniailize_primitive_array(4, 2), Some(vec![(Item::Boolean(false), Item::Null); 2]));
    assert_eq!(iniailize_primitive_array(10, 1), Some(vec![(Item::Int(0), Item::Null)]));
    assert_eq!(iniailize_primitive_array(11, 1), Some(vec![(Item::Long(0), Item::Long(0))]));
    assert_eq!(iniailize_primitive_array(7, 1), Some(vec![(Item::Double(0), Item::Double(0))]));
    assert_eq!(iniailize_primitive_array(6, 1), Some(vec![(Item::Float(0), Item::Null)]));
    assert_eq!(iniailize_primitive_array(5, 0), Some(vec![]));
    assert_eq!(iniailize_primitive_array(3, 1), None);
    assert_eq!(iniailize_primitive_array(12, 1), None);
    assert_eq!(PrimitiveArrayType::from(9), Some(PrimitiveArrayType::TShort));
    assert_eq!(PrimitiveArrayType::TByte.default_value(), (Item::Int(0), Item::Null));
}

#[test]
fn nested_arrays_are_created_children_first() {
    let mut arrays = ArrayMap::new();
    let id = create_multi_dimentions_array(&mut arrays, &vec![2, 3], 0, 2, (Item::Int(0), Item::Null));
    assert_eq!(id, 2);
    assert_eq!(arrays.id, 3);
    assert_eq!(format!("{:?}", arrays.get(&2).unwrap()), "Array([0, 1])");
    assert_eq!(
        format!("{:?}", arrays.get(&0).unwrap()),
        "Primitive([(Int(0), Null), (Int(0), Null), (Int(0), Null)])"
    );
    let id = create_multi_dimentions_array(&mut arrays, &vec![2, 1, 2], 0, 2, (Item::Long(0), Item::Long(0)));
    // two arrays of one array of two longs each: 2 * (1 + 1) + 1 arrays
    assert_eq!(id, 7);
    assert_eq!(format!("{:?}", arrays.get(&7).unwrap()), "Array([4, 6])");
    assert_eq!(format!("{:?}", arrays.get(&4).unwrap()), "Array([3])");
    assert_eq!(
        format!("{:?}", arrays.get(&3).unwrap()),
        "Primitive([(Long(0), Long(0)), (Long(0), Long(0))])"
    );
    let id = create_multi_dimentions_array(&mut arrays, &vec![0, 5], 0, 0, (Item::Int(0), Item::Null));
    assert_eq!(format!("{:?}", arrays.get(&id).unwrap()), "Array([])");
    let id = create_multi_dimentions_array(&mut arrays, &vec![4], 0, 4, (Item::Int(0), Item::Null));
    assert_eq!(id, 9);
}

#[test]
fn fields_start_with_the_value_of_their_type() {
    let value = |text: &str| create_uninitialized_item(&FieldDescriptor::from(text).unwrap());
    assert_eq!(value("I"), (Item::Int(0), Item::Null));
    assert_eq!(value("S"), (Item::Int(0), Item::Null));
    assert_eq!(value("J"), (Item::Long(0), Item::Long(0)));
    assert_eq!(value("D"), (Item::Double(0), Item::Double(0)));
    assert_eq!(value("F"), (Item::Float(0), Item::Null));
    assert_eq!(value("Z"), (Item::Boolean(false), Item::Null));
    assert_eq!(value("Ljava/lang/String;"), (Item::Null, Item::Null));
    assert_eq!(value("[I"), (Item::Null, Item::Null));
    let kind = FieldDescriptor::from("[[I").unwrap();
    assert_eq!(format!("{:?}", element_type(kind, 2)), "Some(BaseType(I))");
    let kind = FieldDescriptor::from("[I").unwrap();
    assert_eq!(format!("{:?}", element_type(kind, 2)), "None");
}

#[test]
fn the_registry_starts_with_the_built_in_classes() {
    let mut pool = StringPool::new();
    let classes = setup_class_map(&mut pool);
    assert_eq!(classes.keys.len(), 4);
    for (class, method) in [
        ("java/io/PrintStream", "println"),
        ("java/lang/Object", "<init>"),
        ("java/lang/Integer", "toString"),
        ("java/lang/System", "<init>"),
    ] {
        let name = pool.find(&String::from(class)).unwrap();
        let method = pool.find(&String::from(method)).unwrap();
        match classes.get((name, 0)) {
            Some(JavaClass::BuiltIn(found)) => {
                assert_eq!(found.class_name, name);
                assert_eq!(found.methods.len(), 1);
                assert_eq!(found.methods[0].name, method);
                assert!(found.get_method(method).is_some());
                assert!(found.get_method(name).is_none());
            }
            other => panic!("{}: {:?}", class, other),
        }
        assert_eq!(classes.get((name, 0)).unwrap().this_class_name(), Ok(name));
    }
    assert_eq!(pool.values.len(), 7);
}

#[test]
fn numbers_are_written_in_decimal() {
    assert_eq!(decimal_text(0), "0");
    assert_eq!(decimal_text(7), "7");
    assert_eq!(decimal_text(10), "10");
    assert_eq!(decimal_text(-10), "-10");
    assert_eq!(decimal_text(1_000_000_000_000_000_000), "1000000000000000000");
    assert_eq!(decimal_text(i64::MAX), "9223372036854775807");
    assert_eq!(decimal_text(i64::MIN), "-9223372036854775808");
}

#[test]
fn an_order_holds_its_parts() {
    let order = Order::new(Opecode::Iconst, Item::Int(3));
    assert_eq!(order, Order { opecode: Opecode::Iconst, operand: Item::Int(3) });
}

#[test]
fn arguments_are_shown_by_kind_and_value() {
    let argument = Argument::new(ArgumentKind::I32, ArgumentValue::I32(-5));
    assert_eq!(argument.kind.to_string(), "i32");
    assert_eq!(argument.value.to_string(), "-5");
    assert_eq!(ArgumentKind::F32.to_string(), "f32");
    assert_eq!(ArgumentKind::String.to_string(), "String");
    assert_eq!(ArgumentKind::Array(Box::new(ArgumentKind::I32)).to_string(), "Array");
    assert_eq!(ArgumentValue::String(String::from("11")).to_string(), "11");
    assert_eq!(ArgumentValue::F32(7).to_string(), "bits 7");
    assert_eq!(ArgumentValue::Array(Box::new(ArgumentValue::I32(1))).to_string(), "Array");
}
