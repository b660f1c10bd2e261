//! The built-in classes that every registry starts with.

use vstd::prelude::*;
use crate::java_class::builtin::{BuiltIn, BuiltInMethod, BuitlInCodeType};
use crate::java_class::{class_key, ClassMap, JavaClass};
use crate::string_pool::{interned, StringPool};
use crate::table::Table;

verus! {

/// Interns `name` and `method`, and makes the class `name` with the one method `method`
/// that runs `code_type`.
pub fn create_builtin(
    string_pool: &mut StringPool,
    name: &str,
    method: &str,
    code_type: BuitlInCodeType,
) -> (r: (usize, JavaClass))
    requires
        old(string_pool).wf(),
    ensures
        final(string_pool).wf(),
        is_builtin(old(string_pool)@, final(string_pool)@, r, name@, method@, code_type),
        old(string_pool)@.len() <= final(string_pool)@.len(),
        forall|i: int| 0 <= i < old(string_pool)@.len() ==> final(string_pool)@[i] == old(string_pool)@[i],
        r.0 < final(string_pool)@.len(),
        final(string_pool)@[r.0 as int] == name@,
{
    let class_name = string_pool.insert(String::from_str(name));
    let mut class = BuiltIn::new(class_name);
    let method_name = string_pool.insert(String::from_str(method));
    class.methods.push(BuiltInMethod::new(method_name, code_type));
    assert(class.methods@ =~= seq![BuiltInMethod { name: method_name, code_type }]);
    (class_name, JavaClass::BuiltIn(class))
}

/// The class `java/io/PrintStream` with its method `println`.
pub fn create_print_stream(string_pool: &mut StringPool) -> (r: (usize, JavaClass))
    requires
        old(string_pool).wf(),
    ensures
        final(string_pool).wf(),
        old(string_pool)@.len() <= final(string_pool)@.len(),
        forall|i: int| 0 <= i < old(string_pool)@.len() ==> final(string_pool)@[i] == old(string_pool)@[i],
        r.0 < final(string_pool)@.len(),
        is_builtin(
            old(string_pool)@,
            final(string_pool)@,
            r,
            "java/io/PrintStream"@,
            "println"@,
            BuitlInCodeType::Println,
        ),
        final(string_pool)@[r.0 as int] == "java/io/PrintStream"@,
{
    create_builtin(string_pool, "java/io/PrintStream", "println", BuitlInCodeType::Println)
}

/// The class `java/lang/Object` with its constructor.
pub fn create_java_lang_object(string_pool: &mut StringPool) -> (r: (usize, JavaClass))
    requires
        old(string_pool).wf(),
    ensures
        final(string_pool).wf(),
        old(string_pool)@.len() <= final(string_pool)@.len(),
        forall|i: int| 0 <= i < old(string_pool)@.len() ==> final(string_pool)@[i] == old(string_pool)@[i],
        r.0 < final(string_pool)@.len(),
        is_builtin(
            old(string_pool)@,
            final(string_pool)@,
            r,
            "java/lang/Object"@,
            "<init>"@,
            BuitlInCodeType::JavaLangObjectInit,
        ),
        final(string_pool)@[r.0 as int] == "java/lang/Object"@,
{
    create_builtin(string_pool, "java/lang/Object", "<init>", BuitlInCodeType::JavaLangObjectInit)
}

/// The class `java/lang/System` with its constructor.
pub fn create_java_lang_system(string_pool: &mut StringPool) -> (r: (usize, JavaClass))
    requires
        old(string_pool).wf(),
    ensures
        final(string_pool).wf(),
        old(string_pool)@.len() <= final(string_pool)@.len(),
        forall|i: int| 0 <= i < old(string_pool)@.len() ==> final(string_pool)@[i] == old(string_pool)@[i],
        r.0 < final(string_pool)@.len(),
        is_builtin(
            old(string_pool)@,
            final(string_pool)@,
            r,
            "java/lang/System"@,
            "<init>"@,
            BuitlInCodeType::JavaLangSystemInit,
        ),
        final(string_pool)@[r.0 as int] == "java/lang/System"@,
{
    create_builtin(string_pool, "java/lang/System", "<init>", BuitlInCodeType::JavaLangSystemInit)
}

/// The class `java/lang/Integer` with its method `toString`.
pub fn create_java_lang_integer(string_pool: &mut StringPool) -> (r: (usize, JavaClass))
    requires
        old(string_pool).wf(),
    ensures
        final(string_pool).wf(),
        old(string_pool)@.len() <= final(string_pool)@.len(),
        forall|i: int| 0 <= i < old(string_pool)@.len() ==> final(string_pool)@[i] == old(string_pool)@[i],
        r.0 < final(string_pool)@.len(),
        is_builtin(
            old(string_pool)@,
            final(string_pool)@,
            r,
            "java/lang/Integer"@,
            "toString"@,
            BuitlInCodeType::JavaLangObjectToString,
        ),
        final(string_pool)@[r.0 as int] == "java/lang/Integer"@,
{
    create_builtin(
        string_pool,
        "java/lang/Integer",
        "toString",
        BuitlInCodeType::JavaLangObjectToString,
    )
}

/// `made` is the built-in class `name` with the one method `method` that runs
/// `code_type`, and `after` is the string pool `before` with both names interned.
pub open spec fn is_builtin(
    before: Seq<Seq<char>>,
    after: Seq<Seq<char>>,
    made: (usize, JavaClass),
    name: Seq<char>,
    method: Seq<char>,
    code_type: BuitlInCodeType,
) -> bool {
    let (first, class_name) = interned(before, name);
    let (second, method_name) = interned(first, method);
    &&& after == second
    &&& made.0 == class_name
    &&& made.1 matches JavaClass::BuiltIn(class) && class.class_name == class_name
        && class.methods@ == seq![BuiltInMethod { name: method_name, code_type }]
}

/// The ids that the names of the built-in classes and of their methods get when they are
/// interned into a string pool, and the pool afterwards.
pub struct BuiltinNames {
    pub print_stream: usize,
    pub println: usize,
    pub object: usize,
    pub object_init: usize,
    pub integer: usize,
    pub to_string: usize,
    pub system: usize,
    pub system_init: usize,
    pub texts: Seq<Seq<char>>,
}

/// The names of the built-in classes interned into `texts`: the print stream, `Object`,
/// `Integer` and `System`, each followed by the name of its method.
pub open spec fn builtin_names(texts: Seq<Seq<char>>) -> BuiltinNames {
    let (texts, print_stream) = interned(texts, "java/io/PrintStream"@);
    let (texts, println) = interned(texts, "println"@);
    let (texts, object) = interned(texts, "java/lang/Object"@);
    let (texts, object_init) = interned(texts, "<init>"@);
    let (texts, integer) = interned(texts, "java/lang/Integer"@);
    let (texts, to_string) = interned(texts, "toString"@);
    let (texts, system) = interned(texts, "java/lang/System"@);
    let (texts, system_init) = interned(texts, "<init>"@);
    BuiltinNames {
        print_stream,
        println,
        object,
        object_init,
        integer,
        to_string,
        system,
        system_init,
        texts,
    }
}

/// `classes` holds under the name id `name` the built-in class of that name with the one
/// method `method` that runs `code_type`.
pub open spec fn holds_builtin(
    classes: Map<(usize, usize), JavaClass>,
    name: usize,
    method: usize,
    code_type: BuitlInCodeType,
) -> bool {
    &&& classes.contains_key(class_key(name))
    &&& classes[class_key(name)] matches JavaClass::BuiltIn(class) && class.class_name == name
        && class.methods@ == seq![BuiltInMethod { name: method, code_type }]
}

/// The names of the four built-in classes differ.
proof fn lemma_names_differ()
    ensures
        "java/io/PrintStream"@ != "java/lang/Object"@,
        "java/io/PrintStream"@ != "java/lang/Integer"@,
        "java/io/PrintStream"@ != "java/lang/System"@,
        "java/lang/Object"@ != "java/lang/Integer"@,
        "java/lang/Object"@ != "java/lang/System"@,
        "java/lang/Integer"@ != "java/lang/System"@,
{
    reveal_strlit("java/io/PrintStream");
    reveal_strlit("java/lang/Object");
    reveal_strlit("java/lang/Integer");
    reveal_strlit("java/lang/System");
    assert("java/io/PrintStream"@[5] == 'i');
    assert("java/lang/Object"@[5] == 'l');
    assert("java/lang/Integer"@[5] == 'l');
    assert("java/lang/System"@[5] == 'l');
    assert("java/lang/Object"@[10] == 'O');
    assert("java/lang/Integer"@[10] == 'I');
    assert("java/lang/System"@[10] == 'S');
}

/// The registry that holds the four built-in classes and nothing else. Their names and
/// the names of their methods are interned into `string_pool`.
pub fn setup_class_map(string_pool: &mut StringPool) -> (r: ClassMap)
    requires
        old(string_pool).wf(),
    ensures
        final(string_pool).wf(),
        r.wf(),
        ({
            let names = builtin_names(old(string_pool)@);
            &&& final(string_pool)@ == names.texts
            &&& r@.dom() == set![
                class_key(names.print_stream),
                class_key(names.object),
                class_key(names.integer),
                class_key(names.system),
            ]
            &&& holds_builtin(r@, names.print_stream, names.println, BuitlInCodeType::Println)
            &&& holds_builtin(
                r@,
                names.object,
                names.object_init,
                BuitlInCodeType::JavaLangObjectInit,
            )
            &&& holds_builtin(
                r@,
                names.integer,
                names.to_string,
                BuitlInCodeType::JavaLangObjectToString,
            )
            &&& holds_builtin(
                r@,
                names.system,
                names.system_init,
                BuitlInCodeType::JavaLangSystemInit,
            )
        }),
{
    let mut class_map: ClassMap = Table::new();
    let print_stream = create_print_stream(string_pool);
    let ghost first = string_pool@;
    let object = create_java_lang_object(string_pool);
    let ghost second = string_pool@;
    let integer = create_java_lang_integer(string_pool);
    let ghost third = string_pool@;
    let system = create_java_lang_system(string_pool);
    proof {
        let last = string_pool@;
        lemma_names_differ();
        assert(last[print_stream.0 as int] == "java/io/PrintStream"@);
        assert(last[object.0 as int] == "java/lang/Object"@);
        assert(last[integer.0 as int] == "java/lang/Integer"@);
        assert(last[system.0 as int] == "java/lang/System"@);
    }
    class_map.insert((print_stream.0, 0), print_stream.1);
    class_map.insert((object.0, 0), object.1);
    class_map.insert((integer.0, 0), integer.1);
    class_map.insert((system.0, 0), system.1);
    proof {
        let names = builtin_names(old(string_pool)@);
        assert(class_map@.dom() =~= set![
            class_key(names.print_stream),
            class_key(names.object),
            class_key(names.integer),
            class_key(names.system),
        ]);
    }
    class_map
}

} // verus!
