use r_jvm::attribute::instruction::Instruction;
use r_jvm::class_file::ClassFile;
use r_jvm::context::{Context, Event};
use r_jvm::error::{Error, ResolutionError, StateError};
use r_jvm::java_class::builtin::Output;
use r_jvm::java_class::default::setup_class_map;
use r_jvm::operand::Item;
use r_jvm::string_pool::StringPool;

/// Builds the bytes of a class file.
struct ClassBuilder {
    entries: Vec<u8>,
    slots: u16,
    texts: Vec<(String, u16)>,
    fields: Vec<u8>,
    field_count: u16,
    methods: Vec<u8>,
    method_count: u16,
}

impl ClassBuilder {
    fn new() -> Self {
        ClassBuilder {
            entries: vec![],
            slots: 1,
            texts: vec![],
            fields: vec![],
            field_count: 0,
            methods: vec![],
            method_count: 0,
        }
    }

    fn take(&mut self, slots: u16) -> u16 {
        let index = self.slots;
        self.slots += slots;
        index
    }

    fn utf8(&mut self, text: &str) -> u16 {
        if let Some((_, index)) = self.texts.iter().find(|(known, _)| known == text) {
            return *index;
        }
        self.entries.push(1);
        self.entries.extend_from_slice(&(text.len() as u16).to_be_bytes());
        self.entries.extend_from_slice(text.as_bytes());
        let index = self.take(1);
        self.texts.push((text.to_string(), index));
        index
    }

    fn class(&mut self, name: &str) -> u16 {
        let name = self.utf8(name);
        self.entries.push(7);
        self.entries.extend_from_slice(&name.to_be_bytes());
        self.take(1)
    }

    fn string(&mut self, text: &str) -> u16 {
        let text = self.utf8(text);
        self.entries.push(8);
        self.entries.extend_from_slice(&text.to_be_bytes());
        self.take(1)
    }

    fn long(&mut self, value: i64) -> u16 {
        self.entries.push(5);
        self.entries.extend_from_slice(&value.to_be_bytes());
        self.take(2)
    }

    fn double(&mut self, value: f64) -> u16 {
        self.entries.push(6);
        self.entries.extend_from_slice(&value.to_bits().to_be_bytes());
        self.take(2)
    }

    fn float(&mut self, value: f32) -> u16 {
        self.entries.push(4);
        self.entries.extend_from_slice(&value.to_bits().to_be_bytes());
        self.take(1)
    }

    fn integer(&mut self, value: i32) -> u16 {
        self.entries.push(3);
        self.entries.extend_from_slice(&value.to_be_bytes());
        self.take(1)
    }

    fn name_and_type(&mut self, name: &str, descriptor: &str) -> u16 {
        let name = self.utf8(name);
        let descriptor = self.utf8(descriptor);
        self.entries.push(12);
        self.entries.extend_from_slice(&name.to_be_bytes());
        self.entries.extend_from_slice(&descriptor.to_be_bytes());
        self.take(1)
    }

    fn member(&mut self, tag: u8, class: &str, name: &str, descriptor: &str) -> u16 {
        let class = self.class(class);
        let name_and_type = self.name_and_type(name, descriptor);
        self.entries.push(tag);
        self.entries.extend_from_slice(&class.to_be_bytes());
        self.entries.extend_from_slice(&name_and_type.to_be_bytes());
        self.take(1)
    }

    fn field_ref(&mut self, class: &str, name: &str, descriptor: &str) -> u16 {
        self.member(9, class, name, descriptor)
    }

    fn method_ref(&mut self, class: &str, name: &str, descriptor: &str) -> u16 {
        self.member(10, class, name, descriptor)
    }

    fn field(&mut self, flags: u16, name: &str, descriptor: &str) {
        let name = self.utf8(name);
        let descriptor = self.utf8(descriptor);
        self.fields.extend_from_slice(&flags.to_be_bytes());
        self.fields.extend_from_slice(&name.to_be_bytes());
        self.fields.extend_from_slice(&descriptor.to_be_bytes());
        self.fields.extend_from_slice(&0u16.to_be_bytes());
        self.field_count += 1;
    }

    fn method(&mut self, flags: u16, name: &str, descriptor: &str, max_locals: u16, code: &[u8]) {
        let name = self.utf8(name);
        let descriptor = self.utf8(descriptor);
        let code_name = self.utf8("Code");
        self.methods.extend_from_slice(&flags.to_be_bytes());
        self.methods.extend_from_slice(&name.to_be_bytes());
        self.methods.extend_from_slice(&descriptor.to_be_bytes());
        self.methods.extend_from_slice(&1u16.to_be_bytes());
        self.methods.extend_from_slice(&code_name.to_be_bytes());
        self.methods.extend_from_slice(&((12 + code.len()) as u32).to_be_bytes());
        self.methods.extend_from_slice(&8u16.to_be_bytes());
        self.methods.extend_from_slice(&max_locals.to_be_bytes());
        self.methods.extend_from_slice(&(code.len() as u32).to_be_bytes());
        self.methods.extend_from_slice(code);
        self.methods.extend_from_slice(&0u16.to_be_bytes());
        self.methods.extend_from_slice(&0u16.to_be_bytes());
        self.method_count += 1;
    }

    fn build(mut self, this: &str, super_class: &str) -> Vec<u8> {
        let this = self.class(this);
        let super_class = self.class(super_class);
        let mut bytes = vec![0xca, 0xfe, 0xba, 0xbe, 0, 0, 0, 52];
        bytes.extend_from_slice(&self.slots.to_be_bytes());
        bytes.extend_from_slice(&self.entries);
        bytes.extend_from_slice(&0x0021u16.to_be_bytes());
        bytes.extend_from_slice(&this.to_be_bytes());
        bytes.extend_from_slice(&super_class.to_be_bytes());
        bytes.extend_from_slice(&0u16.to_be_bytes());
        bytes.extend_from_slice(&self.field_count.to_be_bytes());
        bytes.extend_from_slice(&self.fields);
        bytes.extend_from_slice(&self.method_count.to_be_bytes());
        bytes.extend_from_slice(&self.methods);
        bytes.extend_from_slice(&0u16.to_be_bytes());
        bytes
    }
}

/// Builds the bytes of a code array, with branches to labels.
struct CodeBuilder {
    bytes: Vec<u8>,
    labels: Vec<(String, usize)>,
    jumps: Vec<(usize, usize, usize, String)>,
}

impl CodeBuilder {
    fn new() -> Self {
        CodeBuilder { bytes: vec![], labels: vec![], jumps: vec![] }
    }

    fn op(&mut self, opcode: u8) -> &mut Self {
        self.bytes.push(opcode);
        self
    }

    fn op1(&mut self, opcode: u8, operand: u8) -> &mut Self {
        self.bytes.push(opcode);
        self.bytes.push(operand);
        self
    }

    fn op2(&mut self, opcode: u8, operand: u16) -> &mut Self {
        self.bytes.push(opcode);
        self.bytes.extend_from_slice(&operand.to_be_bytes());
        self
    }

    fn label(&mut self, name: &str) -> &mut Self {
        self.labels.push((name.to_string(), self.bytes.len()));
        self
    }

    fn jump(&mut self, opcode: u8, target: &str) -> &mut Self {
        let at = self.bytes.len();
        self.bytes.push(opcode);
        self.jumps.push((at, at + 1, 2, target.to_string()));
        self.bytes.extend_from_slice(&[0, 0]);
        self
    }

    fn switch(&mut self, default: &str, pairs: &[(i32, &str)]) -> &mut Self {
        let at = self.bytes.len();
        self.bytes.push(0xab);
        while self.bytes.len() % 4 != 0 {
            self.bytes.push(0);
        }
        self.jumps.push((at, self.bytes.len(), 4, default.to_string()));
        self.bytes.extend_from_slice(&[0, 0, 0, 0]);
        self.bytes.extend_from_slice(&(pairs.len() as u32).to_be_bytes());
        for (key, target) in pairs {
            self.bytes.extend_from_slice(&key.to_be_bytes());
            self.jumps.push((at, self.bytes.len(), 4, target.to_string()));
            self.bytes.extend_from_slice(&[0, 0, 0, 0]);
        }
        self
    }

    fn finish(&mut self) -> Vec<u8> {
        for (at, operand, width, target) in self.jumps.iter() {
            let target = self.labels.iter().find(|(name, _)| name == target).unwrap().1;
            let offset = (target as i64 - *at as i64) as i32;
            if *width == 2 {
                self.bytes[*operand..*operand + 2].copy_from_slice(&(offset as i16).to_be_bytes());
            } else {
                self.bytes[*operand..*operand + 4].copy_from_slice(&offset.to_be_bytes());
            }
        }
        self.bytes.clone()
    }
}

const PUBLIC_STATIC: u16 = 0x0009;
const PUBLIC: u16 = 0x0001;
const PRIVATE: u16 = 0x0002;

const ICONST_0: u8 = 0x03;
const ICONST_1: u8 = 0x04;
const ICONST_2: u8 = 0x05;
const ICONST_3: u8 = 0x06;
const ICONST_4: u8 = 0x07;
const ICONST_5: u8 = 0x08;
const BIPUSH: u8 = 0x10;
const LDC: u8 = 0x12;
const LDC2_W: u8 = 0x14;
const ILOAD_0: u8 = 0x1a;
const ILOAD_1: u8 = 0x1b;
const ALOAD_0: u8 = 0x2a;
const ALOAD_1: u8 = 0x2b;
const IALOAD: u8 = 0x2e;
const AALOAD: u8 = 0x32;
const ISTORE_1: u8 = 0x3c;
const ASTORE_1: u8 = 0x4c;
const IASTORE: u8 = 0x4f;
const DUP: u8 = 0x59;
const IADD: u8 = 0x60;
const IMUL: u8 = 0x68;
const LMUL: u8 = 0x69;
const IDIV: u8 = 0x6c;
const IREM: u8 = 0x70;
const IINC: u8 = 0x84;
const IFNE: u8 = 0x9a;
const IF_ICMPGT: u8 = 0xa3;
const GOTO: u8 = 0xa7;
const IRETURN: u8 = 0xac;
const RETURN: u8 = 0xb1;
const GETSTATIC: u8 = 0xb2;
const PUTSTATIC: u8 = 0xb3;
const GETFIELD: u8 = 0xb4;
const PUTFIELD: u8 = 0xb5;
const INVOKEVIRTUAL: u8 = 0xb6;
const INVOKESPECIAL: u8 = 0xb7;
const INVOKESTATIC: u8 = 0xb8;
const NEW: u8 = 0xbb;
const MULTIANEWARRAY: u8 = 0xc5;

fn out(class: &mut ClassBuilder) -> u16 {
    class.field_ref("java/lang/System", "out", "Ljava/io/PrintStream;")
}

fn println(class: &mut ClassBuilder, descriptor: &str) -> u16 {
    class.method_ref("java/io/PrintStream", "println", descriptor)
}

/// Runs the program of the class file `entry` as a host does it, with `others` as the
/// classes that can be supplied, and hands out the lines that it prints.
fn run_program(entry: Vec<u8>, others: Vec<(&str, Vec<u8>)>) -> Result<Vec<String>, Error> {
    let mut string_pool = StringPool::new();
    let (class_file, _) = ClassFile::new(&mut string_pool, &entry, 0)?;
    let class_map = setup_class_map(&mut string_pool);
    let mut context = Context::new(&mut string_pool, class_map, &class_file, "./")?;
    let mut lines = vec![];
    let mut event = context.run_entry_file(&string_pool, class_file)?;
    let mut rounds = 0;
    loop {
        rounds += 1;
        assert!(rounds < 10_000, "the program does not end");
        match event {
            Event::Continue => {}
            Event::Finished => return Ok(lines),
            Event::Print(Output::Text(text)) => lines.push(text),
            Event::Print(Output::Float(bits)) => lines.push(format!("{}", f32::from_bits(bits))),
            Event::Print(Output::Double(high, low)) => {
                lines.push(format!("{}", f64::from_bits(((high as u64) << 32) | low as u64)))
            }
            Event::LoadClass(name) => {
                let name = string_pool.get_value(&name)?;
                match others.iter().find(|(known, _)| *known == name) {
                    Some((_, bytes)) => {
                        context.load_class(&mut string_pool, bytes)?;
                    }
                    None => return Err(Error::ResolutionError(ResolutionError::ClassNotFound(0))),
                }
            }
        }
        event = context.run(&mut string_pool, 50)?;
    }
}

fn hello_world() -> Vec<u8> {
    let mut class = ClassBuilder::new();
    let out = out(&mut class);
    let text = class.string("Hello, World!");
    let println = println(&mut class, "(Ljava/lang/String;)V");
    let code = CodeBuilder::new()
        .op2(GETSTATIC, out)
        .op1(LDC, text as u8)
        .op2(INVOKEVIRTUAL, println)
        .op(RETURN)
        .finish();
    class.method(PUBLIC_STATIC, "main", "([Ljava/lang/String;)V", 1, &code);
    class.build("HelloWorld", "java/lang/Object")
}

#[test]
fn hello_world_prints_its_line() {
    assert_eq!(run_program(hello_world(), vec![]), Ok(vec![String::from("Hello, World!")]));
}

#[test]
fn fizz_buzz_from_1_to_15() {
    let mut class = ClassBuilder::new();
    let out = out(&mut class);
    let fizz_buzz = class.string("FizzBuzz");
    let fizz = class.string("Fizz");
    let buzz = class.string("Buzz");
    let print_text = println(&mut class, "(Ljava/lang/String;)V");
    let print_int = println(&mut class, "(I)V");
    let code = CodeBuilder::new()
        .op(ICONST_1)
        .op(ISTORE_1)
        .label("loop")
        .op(ILOAD_1)
        .op1(BIPUSH, 15)
        .jump(IF_ICMPGT, "end")
        .op(ILOAD_1)
        .op1(BIPUSH, 15)
        .op(IREM)
        .jump(IFNE, "three")
        .op2(GETSTATIC, out)
        .op1(LDC, fizz_buzz as u8)
        .op2(INVOKEVIRTUAL, print_text)
        .jump(GOTO, "next")
        .label("three")
        .op(ILOAD_1)
        .op(ICONST_3)
        .op(IREM)
        .jump(IFNE, "five")
        .op2(GETSTATIC, out)
        .op1(LDC, fizz as u8)
        .op2(INVOKEVIRTUAL, print_text)
        .jump(GOTO, "next")
        .label("five")
        .op(ILOAD_1)
        .op(ICONST_5)
        .op(IREM)
        .jump(IFNE, "number")
        .op2(GETSTATIC, out)
        .op1(LDC, buzz as u8)
        .op2(INVOKEVIRTUAL, print_text)
        .jump(GOTO, "next")
        .label("number")
        .op2(GETSTATIC, out)
        .op(ILOAD_1)
        .op2(INVOKEVIRTUAL, print_int)
        .label("next")
        .op(IINC)
        .op(1)
        .op(1)
        .jump(GOTO, "loop")
        .label("end")
        .op(RETURN)
        .finish();
    class.method(PUBLIC_STATIC, "main", "([Ljava/lang/String;)V", 2, &code);
    let lines = run_program(class.build("FizzBuzz", "java/lang/Object"), vec![]).unwrap();
    assert_eq!(
        lines,
        vec![
            "1", "2", "Fizz", "4", "Buzz", "Fizz", "7", "8", "Fizz", "Buzz", "11", "Fizz", "13",
            "14", "FizzBuzz"
        ]
    );
}

#[test]
fn int_arithmetic_prints_1() {
    let mut class = ClassBuilder::new();
    let out = out(&mut class);
    let println = println(&mut class, "(I)V");
    let code = CodeBuilder::new()
        .op2(GETSTATIC, out)
        .op(ICONST_3)
        .op(ICONST_4)
        .op(IADD)
        .op(ICONST_5)
        .op(IMUL)
        .op1(BIPUSH, 7)
        .op(IDIV)
        .op(ICONST_4)
        .op(IREM)
        .op2(INVOKEVIRTUAL, println)
        .op(RETURN)
        .finish();
    class.method(PUBLIC_STATIC, "main", "([Ljava/lang/String;)V", 1, &code);
    assert_eq!(
        run_program(class.build("IntArithmetic", "java/lang/Object"), vec![]),
        Ok(vec![String::from("1")])
    );
}

#[test]
fn long_arithmetic_prints_the_product() {
    let mut class = ClassBuilder::new();
    let out = out(&mut class);
    let billion = class.long(1_000_000_000);
    let println = println(&mut class, "(J)V");
    let code = CodeBuilder::new()
        .op2(GETSTATIC, out)
        .op2(LDC2_W, billion)
        .op2(LDC2_W, billion)
        .op(LMUL)
        .op2(INVOKEVIRTUAL, println)
        .op(RETURN)
        .finish();
    class.method(PUBLIC_STATIC, "main", "([Ljava/lang/String;)V", 1, &code);
    assert_eq!(
        run_program(class.build("LongArithmetic", "java/lang/Object"), vec![]),
        Ok(vec![String::from("1000000000000000000")])
    );
}

fn counter() -> Vec<u8> {
    let mut class = ClassBuilder::new();
    let x = class.field_ref("Counter", "x", "I");
    let object_init = class.method_ref("java/lang/Object", "<init>", "()V");
    class.field(PRIVATE, "x", "I");
    let init = CodeBuilder::new()
        .op(ALOAD_0)
        .op2(INVOKESPECIAL, object_init)
        .op(ALOAD_0)
        .op1(BIPUSH, 41)
        .op2(PUTFIELD, x)
        .op(RETURN)
        .finish();
    class.method(PUBLIC, "<init>", "()V", 1, &init);
    let increment = CodeBuilder::new()
        .op(ALOAD_0)
        .op(ALOAD_0)
        .op2(GETFIELD, x)
        .op(ICONST_1)
        .op(IADD)
        .op2(PUTFIELD, x)
        .op(RETURN)
        .finish();
    class.method(PUBLIC, "increment", "()V", 1, &increment);
    let get = CodeBuilder::new().op(ALOAD_0).op2(GETFIELD, x).op(IRETURN).finish();
    class.method(PUBLIC, "get", "()I", 1, &get);
    class.build("Counter", "java/lang/Object")
}

fn instance_field() -> Vec<u8> {
    let mut class = ClassBuilder::new();
    let out = out(&mut class);
    let println = println(&mut class, "(I)V");
    let counter = class.class("Counter");
    let init = class.method_ref("Counter", "<init>", "()V");
    let increment = class.method_ref("Counter", "increment", "()V");
    let get = class.method_ref("Counter", "get", "()I");
    let code = CodeBuilder::new()
        .op2(NEW, counter)
        .op(DUP)
        .op2(INVOKESPECIAL, init)
        .op(ASTORE_1)
        .op(ALOAD_1)
        .op2(INVOKEVIRTUAL, increment)
        .op2(GETSTATIC, out)
        .op(ALOAD_1)
        .op2(INVOKEVIRTUAL, get)
        .op2(INVOKEVIRTUAL, println)
        .op(RETURN)
        .finish();
    class.method(PUBLIC_STATIC, "main", "([Ljava/lang/String;)V", 2, &code);
    class.build("InstanceField", "java/lang/Object")
}

#[test]
fn an_instance_field_keeps_what_was_assigned() {
    assert_eq!(
        run_program(instance_field(), vec![("Counter", counter())]),
        Ok(vec![String::from("42")])
    );
}

#[test]
fn a_class_that_cannot_be_supplied_ends_the_run() {
    assert_eq!(
        run_program(instance_field(), vec![]),
        Err(Error::ResolutionError(ResolutionError::ClassNotFound(0)))
    );
}

#[test]
fn a_two_dimensional_array_keeps_what_was_stored() {
    let mut class = ClassBuilder::new();
    let out = out(&mut class);
    let println = println(&mut class, "(I)V");
    let kind = class.class("[[I");
    let code = CodeBuilder::new()
        .op(ICONST_2)
        .op(ICONST_3)
        .op2(MULTIANEWARRAY, kind)
        .op(2)
        .op(ASTORE_1)
        .op(ALOAD_1)
        .op(ICONST_1)
        .op(AALOAD)
        .op(ICONST_2)
        .op1(BIPUSH, 7)
        .op(IASTORE)
        .op2(GETSTATIC, out)
        .op(ALOAD_1)
        .op(ICONST_1)
        .op(AALOAD)
        .op(ICONST_2)
        .op(IALOAD)
        .op2(INVOKEVIRTUAL, println)
        .op2(GETSTATIC, out)
        .op(ALOAD_1)
        .op(ICONST_0)
        .op(AALOAD)
        .op(ICONST_2)
        .op(IALOAD)
        .op2(INVOKEVIRTUAL, println)
        .op(RETURN)
        .finish();
    class.method(PUBLIC_STATIC, "main", "([Ljava/lang/String;)V", 2, &code);
    assert_eq!(
        run_program(class.build("MultiDimensions", "java/lang/Object"), vec![]),
        Ok(vec![String::from("7"), String::from("0")])
    );
}

#[test]
fn a_static_method_hands_its_result_to_the_caller() {
    let mut class = ClassBuilder::new();
    let out = out(&mut class);
    let println = println(&mut class, "(I)V");
    let twice = class.method_ref("Calls", "twice", "(I)I");
    let main = CodeBuilder::new()
        .op2(GETSTATIC, out)
        .op1(BIPUSH, 100)
        .op1(BIPUSH, 21)
        .op2(INVOKESTATIC, twice)
        .op(IADD)
        .op2(INVOKEVIRTUAL, println)
        .op(RETURN)
        .finish();
    class.method(PUBLIC_STATIC, "main", "([Ljava/lang/String;)V", 1, &main);
    let twice = CodeBuilder::new().op(ILOAD_0).op(ICONST_2).op(IMUL).op(IRETURN).finish();
    class.method(PUBLIC_STATIC, "twice", "(I)I", 1, &twice);
    assert_eq!(
        run_program(class.build("Calls", "java/lang/Object"), vec![]),
        Ok(vec![String::from("142")])
    );
}

fn settings() -> Vec<u8> {
    let mut class = ClassBuilder::new();
    let level = class.field_ref("Settings", "level", "I");
    class.field(PUBLIC_STATIC, "level", "I");
    let clinit = CodeBuilder::new().op1(BIPUSH, 9).op2(PUTSTATIC, level).op(RETURN).finish();
    class.method(0x0008, "<clinit>", "()V", 0, &clinit);
    class.build("Settings", "java/lang/Object")
}

#[test]
fn a_class_initializer_runs_once_before_the_class_is_used() {
    let mut class = ClassBuilder::new();
    let out = out(&mut class);
    let println = println(&mut class, "(I)V");
    let level = class.field_ref("Settings", "level", "I");
    let main = CodeBuilder::new()
        .op2(GETSTATIC, level)
        .op(ICONST_1)
        .op(IADD)
        .op2(PUTSTATIC, level)
        .op2(GETSTATIC, out)
        .op2(GETSTATIC, level)
        .op2(INVOKEVIRTUAL, println)
        .op(RETURN)
        .finish();
    class.method(PUBLIC_STATIC, "main", "([Ljava/lang/String;)V", 1, &main);
    assert_eq!(
        run_program(class.build("UsesSettings", "java/lang/Object"), vec![("Settings", settings())]),
        Ok(vec![String::from("10")])
    );
}

#[test]
fn loading_a_class_twice_changes_nothing() {
    let mut string_pool = StringPool::new();
    let (class_file, _) = ClassFile::new(&mut string_pool, &hello_world(), 0).unwrap();
    let class_map = setup_class_map(&mut string_pool);
    let mut context = Context::new(&mut string_pool, class_map, &class_file, "./").unwrap();
    let first = context.load_class(&mut string_pool, &settings()).unwrap();
    assert_eq!(string_pool.get_value(&first), Ok(String::from("Settings")));
    assert_eq!(context.stack_frames.len(), 1);
    assert_eq!(context.class_map.keys.len(), 5);
    let statics = context.static_fields.keys.len();
    let second = context.load_class(&mut string_pool, &settings()).unwrap();
    assert_eq!(second, first);
    assert_eq!(context.stack_frames.len(), 1);
    assert_eq!(context.class_map.keys.len(), 5);
    assert_eq!(context.static_fields.keys.len(), statics);
}

#[test]
fn division_by_zero_ends_the_run() {
    let mut class = ClassBuilder::new();
    let code = CodeBuilder::new().op(ICONST_1).op(ICONST_0).op(IDIV).op(RETURN).finish();
    class.method(PUBLIC_STATIC, "main", "([Ljava/lang/String;)V", 1, &code);
    assert_eq!(
        run_program(class.build("Zero", "java/lang/Object"), vec![]),
        Err(Error::ArithmeticError)
    );
}

#[test]
fn an_empty_stack_cannot_be_popped() {
    let mut class = ClassBuilder::new();
    let code = CodeBuilder::new().op(IADD).op(RETURN).finish();
    class.method(PUBLIC_STATIC, "main", "([Ljava/lang/String;)V", 1, &code);
    assert_eq!(
        run_program(class.build("Empty", "java/lang/Object"), vec![]),
        Err(Error::StateError(StateError::StackUnderflow))
    );
}

#[test]
fn a_class_without_main_cannot_be_entered() {
    let mut class = ClassBuilder::new();
    let code = CodeBuilder::new().op(RETURN).finish();
    class.method(PUBLIC_STATIC, "other", "()V", 1, &code);
    assert_eq!(
        run_program(class.build("NoMain", "java/lang/Object"), vec![]),
        Err(Error::ResolutionError(ResolutionError::EntryNotFound))
    );
}

#[test]
fn an_integer_constant_and_to_string() {
    let mut class = ClassBuilder::new();
    let out = out(&mut class);
    let print_text = println(&mut class, "(Ljava/lang/String;)V");
    let to_string = class.method_ref("java/lang/Integer", "toString", "(I)Ljava/lang/String;");
    let big = class.integer(-123456789);
    let code = CodeBuilder::new()
        .op2(GETSTATIC, out)
        .op1(LDC, big as u8)
        .op2(INVOKESTATIC, to_string)
        .op2(INVOKEVIRTUAL, print_text)
        .op(RETURN)
        .finish();
    class.method(PUBLIC_STATIC, "main", "([Ljava/lang/String;)V", 1, &code);
    assert_eq!(
        run_program(class.build("Constant", "java/lang/Object"), vec![]),
        Ok(vec![String::from("-123456789")])
    );
}

const NEWARRAY: u8 = 0xbc;
const ANEWARRAY: u8 = 0xbd;
const AASTORE: u8 = 0x53;
const LOOKUPSWITCH: u8 = 0xab;
const POP: u8 = 0x57;

fn main_only(name: &str, locals: u16, build: impl FnOnce(&mut ClassBuilder) -> Vec<u8>) -> Vec<u8> {
    let mut class = ClassBuilder::new();
    let code = build(&mut class);
    class.method(PUBLIC_STATIC, "main", "([Ljava/lang/String;)V", locals, &code);
    class.build(name, "java/lang/Object")
}

#[test]
fn a_primitive_array_keeps_what_was_stored() {
    let class = main_only("Array", 2, |class| {
        let out = out(class);
        let println = println(class, "(I)V");
        CodeBuilder::new()
            .op(ICONST_3)
            .op1(NEWARRAY, 10)
            .op(ASTORE_1)
            .op(ALOAD_1)
            .op(ICONST_2)
            .op1(BIPUSH, 55)
            .op(IASTORE)
            .op2(GETSTATIC, out)
            .op(ALOAD_1)
            .op(ICONST_2)
            .op(IALOAD)
            .op2(INVOKEVIRTUAL, println)
            .op2(GETSTATIC, out)
            .op(ALOAD_1)
            .op(ICONST_0)
            .op(IALOAD)
            .op2(INVOKEVIRTUAL, println)
            .op(RETURN)
            .finish()
    });
    assert_eq!(run_program(class, vec![]), Ok(vec![String::from("55"), String::from("0")]));
}

#[test]
fn an_index_outside_an_array_ends_the_run() {
    let class = main_only("Outside", 2, |_| {
        CodeBuilder::new()
            .op(ICONST_3)
            .op1(NEWARRAY, 10)
            .op(ICONST_3)
            .op(IALOAD)
            .op(RETURN)
            .finish()
    });
    assert_eq!(run_program(class, vec![]), Err(Error::StateError(StateError::IndexOutOfBounds)));
    let class = main_only("Negative", 2, |_| {
        CodeBuilder::new().op(0x02).op1(NEWARRAY, 10).op(RETURN).finish()
    });
    assert_eq!(run_program(class, vec![]), Err(Error::StateError(StateError::IndexOutOfBounds)));
    let class = main_only("NoArray", 2, |_| {
        CodeBuilder::new().op(ICONST_3).op(ICONST_0).op(IALOAD).op(RETURN).finish()
    });
    assert_eq!(run_program(class, vec![]), Err(Error::StateError(StateError::TypeMismatch)));
}

#[test]
fn an_array_of_objects_holds_references() {
    let class = main_only("Objects", 2, |class| {
        let out = out(class);
        let println = println(class, "(I)V");
        let counter = class.class("Counter");
        let init = class.method_ref("Counter", "<init>", "()V");
        let get = class.method_ref("Counter", "get", "()I");
        CodeBuilder::new()
            .op(ICONST_2)
            .op2(ANEWARRAY, counter)
            .op(ASTORE_1)
            .op(ALOAD_1)
            .op(ICONST_1)
            .op2(NEW, counter)
            .op(DUP)
            .op2(INVOKESPECIAL, init)
            .op(AASTORE)
            .op2(GETSTATIC, out)
            .op(ALOAD_1)
            .op(ICONST_1)
            .op(AALOAD)
            .op2(INVOKEVIRTUAL, get)
            .op2(INVOKEVIRTUAL, println)
            .op(RETURN)
            .finish()
    });
    assert_eq!(run_program(class, vec![("Counter", counter())]), Ok(vec![String::from("41")]));
}

#[test]
fn a_switch_goes_to_the_matching_case() {
    for (key, expected) in [(1u8, "10"), (2, "20"), (3, "30"), (0xff, "-10")] {
        for filler in 0..4 {
            let class = main_only("Switch", 2, |class| {
                let out = out(class);
                let println = println(class, "(I)V");
                let mut code = CodeBuilder::new();
                // each filler takes three bytes, so that the table is aligned in each way
                for i in 0..filler {
                    let next = format!("filler {}", i);
                    code.jump(GOTO, &next).label(&next);
                }
                code.op1(BIPUSH, key)
                    .switch("default", &[(-1, "minus"), (1, "one"), (2, "two")])
                    .label("one")
                    .op1(BIPUSH, 10)
                    .jump(GOTO, "print")
                    .label("two")
                    .op1(BIPUSH, 20)
                    .jump(GOTO, "print")
                    .label("minus")
                    .op1(BIPUSH, 0xf6)
                    .jump(GOTO, "print")
                    .label("default")
                    .op1(BIPUSH, 30)
                    .label("print")
                    .op(ISTORE_1)
                    .op2(GETSTATIC, out)
                    .op(ILOAD_1)
                    .op2(INVOKEVIRTUAL, println)
                    .op(RETURN)
                    .finish()
            });
            assert_eq!(
                run_program(class, vec![]),
                Ok(vec![String::from(expected)]),
                "key {} behind {} fillers",
                key,
                filler
            );
        }
    }
}

#[test]
fn a_method_that_does_not_exist_ends_the_run() {
    let class = main_only("Missing", 1, |class| {
        let other = class.method_ref("Missing", "other", "()V");
        CodeBuilder::new().op2(INVOKESTATIC, other).op(RETURN).finish()
    });
    let result = run_program(class, vec![]);
    assert!(matches!(result, Err(Error::ResolutionError(ResolutionError::MethodNotFound(_, _)))));
    let class = main_only("NoSuchPrint", 1, |class| {
        let other = class.method_ref("java/io/PrintStream", "print", "(I)V");
        CodeBuilder::new().op(ICONST_1).op2(INVOKESTATIC, other).op(RETURN).finish()
    });
    let result = run_program(class, vec![]);
    assert!(matches!(result, Err(Error::ResolutionError(ResolutionError::MethodNotFound(_, _)))));
}

#[test]
fn code_that_runs_off_its_end_ends_the_run() {
    let class = main_only("Open", 1, |_| CodeBuilder::new().op(ICONST_1).op(POP).finish());
    assert_eq!(run_program(class, vec![]), Err(Error::StateError(StateError::CursorOutOfRange(2))));
}

#[test]
fn a_class_with_a_reference_that_does_not_resolve_is_refused() {
    let class = main_only("Wrong", 1, |class| {
        let text = class.utf8("text");
        CodeBuilder::new().op2(GETSTATIC, text).op(RETURN).finish()
    });
    assert_eq!(
        run_program(class.clone(), vec![]),
        Err(Error::ResolutionError(ResolutionError::UnresolvedReference))
    );
    let mut string_pool = StringPool::new();
    let (entry, _) = ClassFile::new(&mut string_pool, &hello_world(), 0).unwrap();
    let class_map = setup_class_map(&mut string_pool);
    let mut context = Context::new(&mut string_pool, class_map, &entry, "./").unwrap();
    assert_eq!(
        context.load_class(&mut string_pool, &class),
        Err(Error::ResolutionError(ResolutionError::UnresolvedReference))
    );
    assert_eq!(context.class_map.keys.len(), 4);
    assert_eq!(
        context.load_class(&mut string_pool, &class[..20]),
        Err(Error::DecodeError(r_jvm::error::DecodeError::FileTooShort))
    );
}

#[test]
fn a_context_without_frames_is_finished() {
    let mut string_pool = StringPool::new();
    let (entry, _) = ClassFile::new(&mut string_pool, &hello_world(), 0).unwrap();
    let class_map = setup_class_map(&mut string_pool);
    let mut context = Context::new(&mut string_pool, class_map, &entry, "classes").unwrap();
    assert_eq!(context.root_path, "classes");
    assert_eq!(context.program_count, 0);
    assert!(matches!(context.step(&mut string_pool), Ok(Event::Finished)));
    assert!(matches!(context.run(&mut string_pool, 0), Ok(Event::Continue)));
    assert!(matches!(context.run(&mut string_pool, 3), Ok(Event::Finished)));
    let system = string_pool.find(&String::from("java/lang/System")).unwrap();
    let out = string_pool.find(&String::from("out")).unwrap();
    let print_stream = string_pool.find(&String::from("java/io/PrintStream")).unwrap();
    assert_eq!(
        context.static_fields.get((system, out)),
        Some(&(Item::Classref(print_stream), Item::Null))
    );
}

#[test]
fn one_instruction_is_executed_on_the_current_frame() {
    let mut string_pool = StringPool::new();
    let (entry, _) = ClassFile::new(&mut string_pool, &hello_world(), 0).unwrap();
    let class_map = setup_class_map(&mut string_pool);
    let mut context = Context::new(&mut string_pool, class_map, &entry, "./").unwrap();
    let no_frame = context.execute(&mut string_pool, &entry, &Instruction::Iadd, 0);
    assert!(matches!(no_frame, Err(Error::StateError(StateError::NoFrame))));
    let (again, _) = ClassFile::new(&mut string_pool, &hello_world(), 0).unwrap();
    assert!(matches!(context.run_entry_file(&string_pool, again), Ok(Event::Continue)));
    assert_eq!(context.stack_frames.len(), 1);
    let object = string_pool.find(&String::from("java/lang/Object")).unwrap();
    assert_eq!(context.stack_frames[0].local_variables, vec![Item::Classref(object)]);

    assert!(matches!(context.execute(&mut string_pool, &entry, &Instruction::IconstN(4), 7), Ok(Event::Continue)));
    assert_eq!(context.stack_frames[0].cursor, 8);
    assert!(matches!(context.execute(&mut string_pool, &entry, &Instruction::Bipush(5), 8), Ok(Event::Continue)));
    assert_eq!(context.stack_frames[0].cursor, 10);
    assert!(matches!(context.execute(&mut string_pool, &entry, &Instruction::Goto(40), 10), Ok(Event::Continue)));
    assert_eq!(context.stack_frames[0].cursor, 41);
    assert!(matches!(context.execute(&mut string_pool, &entry, &Instruction::Iadd, 41), Ok(Event::Continue)));
    assert_eq!(context.stack_frames[0].operand_stack.stack, vec![Item::Int(9)]);
    // entry 6 of the pool is the reference to the output stream of the system
    let print_stream = string_pool.find(&String::from("java/io/PrintStream")).unwrap();
    assert!(matches!(context.execute(&mut string_pool, &entry, &Instruction::Getstatic(6), 42), Ok(Event::Continue)));
    assert_eq!(context.stack_frames[0].cursor, 45);
    assert_eq!(
        context.stack_frames[0].operand_stack.stack,
        vec![Item::Int(9), Item::Classref(print_stream)]
    );
    let before = context.stack_frames[0].operand_stack.stack.clone();
    let failed = context.execute(&mut string_pool, &entry, &Instruction::Getfield(1), 45);
    assert!(matches!(failed, Err(Error::InternalError)));
    assert_eq!(context.stack_frames[0].operand_stack.stack, before);
    assert_eq!(context.stack_frames[0].cursor, 45);
    let failed = context.execute(&mut string_pool, &entry, &Instruction::Getfield(6), 45);
    assert!(matches!(failed, Err(Error::StateError(StateError::TypeMismatch))));
    assert_eq!(context.stack_frames[0].operand_stack.stack, before);
    assert!(matches!(context.execute(&mut string_pool, &entry, &Instruction::Return, 43), Ok(Event::Finished)));
    assert_eq!(context.stack_frames.len(), 0);
}

#[test]
fn a_failure_unwinds_every_frame() {
    let mut class_with_fail = ClassBuilder::new();
    let fail = class_with_fail.method_ref("Unwind", "fail", "()I");
    let main = CodeBuilder::new().op2(INVOKESTATIC, fail).op(POP).op(RETURN).finish();
    class_with_fail.method(PUBLIC_STATIC, "main", "([Ljava/lang/String;)V", 1, &main);
    let body = CodeBuilder::new().op(ICONST_1).op(ICONST_0).op(IREM).op(IRETURN).finish();
    class_with_fail.method(PUBLIC_STATIC, "fail", "()I", 0, &body);
    let bytes = class_with_fail.build("Unwind", "java/lang/Object");
    assert_eq!(run_program(bytes.clone(), vec![]), Err(Error::ArithmeticError));

    let mut string_pool = StringPool::new();
    let (entry, _) = ClassFile::new(&mut string_pool, &bytes, 0).unwrap();
    let class_map = setup_class_map(&mut string_pool);
    let mut context = Context::new(&mut string_pool, class_map, &entry, "./").unwrap();
    assert!(matches!(context.run_entry_file(&string_pool, entry), Ok(Event::Continue)));
    assert!(matches!(context.run(&mut string_pool, 1), Ok(Event::Continue)));
    assert_eq!(context.stack_frames.len(), 2);
    assert_eq!(context.stack_frames[0].cursor, 3);
    assert!(matches!(context.run(&mut string_pool, 2), Ok(Event::Continue)));
    assert!(matches!(context.step(&mut string_pool), Err(Error::ArithmeticError)));
    assert_eq!(context.stack_frames.len(), 2);
    assert!(matches!(context.run(&mut string_pool, 10), Err(Error::ArithmeticError)));
    assert_eq!(context.stack_frames.len(), 0);
}

#[test]
fn floating_point_constants_reach_the_host_by_their_bits() {
    let class = main_only("Floats", 1, |class| {
        let out = out(class);
        let double = class.double(-1.5);
        let float = class.float(2.25);
        let print_double = println(class, "(D)V");
        let print_float = println(class, "(F)V");
        CodeBuilder::new()
            .op2(GETSTATIC, out)
            .op2(LDC2_W, double)
            .op2(INVOKEVIRTUAL, print_double)
            .op2(GETSTATIC, out)
            .op1(LDC, float as u8)
            .op2(INVOKEVIRTUAL, print_float)
            .op(RETURN)
            .finish()
    });
    assert_eq!(run_program(class, vec![]), Ok(vec![String::from("-1.5"), String::from("2.25")]));
}

#[test]
fn a_long_field_takes_two_slots() {
    let mut class = ClassBuilder::new();
    let out = out(&mut class);
    let println = println(&mut class, "(J)V");
    let total = class.field_ref("Wide", "total", "J");
    let big = class.long(-5_000_000_000);
    class.field(PUBLIC_STATIC, "total", "J");
    let code = CodeBuilder::new()
        .op2(GETSTATIC, out)
        .op2(GETSTATIC, total)
        .op2(INVOKEVIRTUAL, println)
        .op2(LDC2_W, big)
        .op2(PUTSTATIC, total)
        .op2(GETSTATIC, out)
        .op2(GETSTATIC, total)
        .op2(LDC2_W, big)
        .op(0x61)
        .op2(INVOKEVIRTUAL, println)
        .op(RETURN)
        .finish();
    class.method(PUBLIC_STATIC, "main", "([Ljava/lang/String;)V", 1, &code);
    assert_eq!(
        run_program(class.build("Wide", "java/lang/Object"), vec![]),
        Ok(vec![String::from("0"), String::from("-10000000000")])
    );
}
