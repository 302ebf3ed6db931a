use avm2_domain::class::{Class, Error, Value};
use avm2_domain::domain::{Domain, Heap};
use avm2_domain::names::{bytes_eq, copy_bytes, copy_range, QName};
use avm2_domain::property_map::PropertyMap;
use avm2_domain::textual::{starts_with, vector_type_name};

fn qn(ns: &str, local: &str) -> QName {
    QName::new(ns.as_bytes().to_vec(), local.as_bytes().to_vec())
}

fn vector_class() -> Class {
    Class::Defined { id: 10, generic: true }
}

fn int_class() -> Class {
    Class::Defined { id: 11, generic: false }
}

/// A root domain whose one script defines `Vector`, `int` and a number.
fn globals_heap(vector_value: Value) -> (Heap, Domain) {
    let mut heap = Heap::new();
    let root = Domain::uninitialized_domain(&mut heap, None);
    let mut globals: PropertyMap<Value> = PropertyMap::new();
    globals.insert(qn("__AS3__.vec", "Vector"), vector_value);
    globals.insert(qn("", "int"), Value::ClassObject(int_class()));
    globals.insert(qn("pkg", "answer"), Value::Integer(42));
    globals.insert(qn("pkg", "nothing"), Value::Null);
    let script = heap.add_script(Some(globals));
    root.export_definition(&mut heap, qn("__AS3__.vec", "Vector"), script);
    root.export_definition(&mut heap, qn("", "int"), script);
    root.export_definition(&mut heap, qn("pkg", "answer"), script);
    root.export_definition(&mut heap, qn("pkg", "nothing"), script);
    root.export_definition(&mut heap, qn("pkg", "unbound"), script);
    (heap, root)
}

#[test]
fn nested_vector_literal_applies_twice() {
    let (mut heap, root) = globals_heap(Value::ClassObject(vector_class()));
    root.init_default_domain_memory(&mut heap).unwrap();
    let child = Domain::movie_domain(&mut heap, root);
    let expected = Class::with_type_param(
        vector_class(),
        Some(Class::with_type_param(vector_class(), Some(int_class()))),
    );
    assert_eq!(
        child.get_defined_value_handling_vector(&heap, b"Vector.<Vector.<int>>"),
        Ok(Value::ClassObject(expected))
    );
    assert_eq!(
        root.get_defined_value_handling_vector(&heap, b"__AS3__.vec::Vector.<int>"),
        Ok(Value::ClassObject(Class::with_type_param(vector_class(), Some(int_class()))))
    );
}

#[test]
fn plain_names_are_looked_up_directly() {
    let (heap, root) = globals_heap(Value::ClassObject(vector_class()));
    assert_eq!(
        root.get_defined_value_handling_vector(&heap, b"int"),
        Ok(Value::ClassObject(int_class()))
    );
    assert_eq!(
        root.get_defined_value_handling_vector(&heap, b"pkg::answer"),
        Ok(Value::Integer(42))
    );
    assert_eq!(
        root.get_defined_value_handling_vector(&heap, b"pkg.answer"),
        Ok(Value::Integer(42))
    );
    assert_eq!(root.get_defined_value(&heap, &qn("pkg", "answer")), Ok(Value::Integer(42)));
    assert_eq!(root.get_defined_value(&heap, &qn("pkg", "unbound")), Ok(Value::Undefined));
    assert_eq!(
        root.get_defined_value(&heap, &qn("pkg", "missing")),
        Err(Error::UndefinedVariable { name: b"missing".to_vec() })
    );
}

#[test]
fn vector_without_closing_bracket_is_a_plain_name() {
    let (heap, root) = globals_heap(Value::ClassObject(vector_class()));
    assert_eq!(vector_type_name(b"Vector.<int"), None);
    assert_eq!(
        root.get_defined_value_handling_vector(&heap, b"Vector.<int"),
        Err(Error::UndefinedVariable { name: b"<int".to_vec() })
    );
}

#[test]
fn vector_argument_errors_come_first() {
    let (heap, root) = globals_heap(Value::Integer(1));
    assert_eq!(
        root.get_defined_value_handling_vector(&heap, b"Vector.<Missing>"),
        Err(Error::UndefinedVariable { name: b"Missing".to_vec() })
    );
    assert_eq!(
        root.get_defined_value_handling_vector(&heap, b"Vector.<int>"),
        Err(Error::NotAnObject)
    );
}

#[test]
fn vector_base_must_be_generic_and_argument_a_class() {
    let (heap, root) = globals_heap(Value::ClassObject(int_class()));
    assert_eq!(
        root.get_defined_value_handling_vector(&heap, b"Vector.<int>"),
        Err(Error::NotGeneric)
    );
    let (heap, root) = globals_heap(Value::ClassObject(vector_class()));
    assert_eq!(
        root.get_defined_value_handling_vector(&heap, b"Vector.<pkg::answer>"),
        Err(Error::NonClassParameter)
    );
    assert_eq!(
        root.get_defined_value_handling_vector(&heap, b"Vector.<pkg::nothing>"),
        Ok(Value::ClassObject(Class::with_type_param(vector_class(), None)))
    );
    assert_eq!(Error::NotGeneric.code(), 0);
}

#[test]
fn undefined_vector_class_is_reported_after_the_argument() {
    let mut heap = Heap::new();
    let root = Domain::uninitialized_domain(&mut heap, None);
    let mut globals: PropertyMap<Value> = PropertyMap::new();
    globals.insert(qn("", "int"), Value::ClassObject(int_class()));
    let script = heap.add_script(Some(globals));
    root.export_definition(&mut heap, qn("", "int"), script);
    assert_eq!(
        root.get_defined_value_handling_vector(&heap, b"Vector.<int>"),
        Err(Error::UndefinedVariable { name: b"Vector".to_vec() })
    );
}

#[test]
fn script_without_globals_fails_the_lookup() {
    let mut heap = Heap::new();
    let root = Domain::uninitialized_domain(&mut heap, None);
    let script = heap.add_script(None);
    root.export_definition(&mut heap, qn("pkg", "x"), script);
    assert_eq!(root.get_defined_value(&heap, &qn("pkg", "x")), Err(Error::GlobalsUnavailable));
}

#[test]
fn vector_type_argument_range() {
    assert_eq!(vector_type_name(b"Vector.<int>"), Some((8, 11)));
    assert_eq!(vector_type_name(b"__AS3__.vec::Vector.<int>"), Some((21, 24)));
    assert_eq!(vector_type_name(b"Vector.<>"), Some((8, 8)));
    assert_eq!(vector_type_name(b"Vector.<Vector.<int>>"), Some((8, 20)));
    assert_eq!(vector_type_name(b"Vector"), None);
    assert_eq!(vector_type_name(b"Foo.<int>"), None);
    assert_eq!(vector_type_name(b"vec::Vector.<int>"), None);
    assert_eq!(vector_type_name(b""), None);
    assert_eq!(vector_type_name(b">"), None);
}

#[test]
fn qualified_name_from_text() {
    assert_eq!(QName::from_qualified_name(b"pkg::Foo"), qn("pkg", "Foo"));
    assert_eq!(QName::from_qualified_name(b"flash.display.Sprite"), qn("flash.display", "Sprite"));
    assert_eq!(QName::from_qualified_name(b"a.b::C"), qn("a.b", "C"));
    assert_eq!(QName::from_qualified_name(b"a::b::C"), qn("a::b", "C"));
    assert_eq!(QName::from_qualified_name(b"int"), qn("", "int"));
    assert_eq!(QName::from_qualified_name(b""), qn("", ""));
    assert_eq!(QName::from_qualified_name(b"__AS3__.vec::Vector"), qn("__AS3__.vec", "Vector"));
}

#[test]
fn byte_helpers() {
    assert!(bytes_eq(b"abc", b"abc"));
    assert!(!bytes_eq(b"abc", b"abd"));
    assert!(!bytes_eq(b"abc", b"ab"));
    assert_eq!(copy_range(b"hello", 1, 3), b"el".to_vec());
    assert_eq!(copy_bytes(b"hello"), b"hello".to_vec());
    assert!(starts_with(b"Vector.<int>", b"Vector.<"));
    assert!(!starts_with(b"Vec", b"Vector.<"));
    assert!(starts_with(b"x", b""));
}

#[test]
fn class_application() {
    assert!(vector_class().is_generic());
    assert!(!int_class().is_generic());
    assert!(!Class::with_type_param(vector_class(), None).is_generic());
    assert_eq!(vector_class().duplicate(), vector_class());
    let applied = Class::with_type_param(vector_class(), Some(int_class()));
    assert_eq!(applied.duplicate(), applied);
    assert_eq!(
        applied,
        Class::Applied { base: Box::new(vector_class()), param: Some(Box::new(int_class())) }
    );
    assert_eq!(vector_class().apply(Value::Undefined), Err(Error::NonClassParameter));
    assert_eq!(
        Value::ClassObject(int_class()).duplicate(),
        Value::ClassObject(int_class())
    );
}

#[test]
fn error_messages() {
    let e = Error::UndefinedVariable { name: b"Missing".to_vec() };
    assert_eq!(e.message(), b"Error #1065: Variable Missing is not defined.".to_vec());
    let e = Error::UndefinedVariable { name: b"*".to_vec() };
    assert_eq!(e.message(), b"Error #1065: Variable * is not defined.".to_vec());
    assert_eq!(Error::EndOfFile.message(), b"Error #1504: End of file.".to_vec());
    assert_eq!(Error::NotAnObject.message(), Vec::<u8>::new());
}
