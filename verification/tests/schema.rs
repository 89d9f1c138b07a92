use matchkit::{arity_of, conforms_to, CaseDeclaration, EnumDeclaration, Field, Value};

fn s(text: &str) -> String {
    text.to_string()
}

fn declare(name: &str, cases: &[(&str, usize)]) -> EnumDeclaration {
    EnumDeclaration {
        name: s(name),
        cases: cases.iter().map(|(n, a)| CaseDeclaration { name: s(n), arity: *a }).collect(),
    }
}

fn declarations() -> Vec<EnumDeclaration> {
    vec![
        declare("OptionalInt", &[("Value", 1), ("Missing", 0)]),
        declare("OptionalTuple", &[("Value", 3), ("Missing", 0), ("Value", 2)]),
        declare("OptionalInt", &[("Value", 2), ("Extra", 0)]),
        declare("Empty", &[]),
    ]
}

fn variant(enum_name: &str, case_name: &str, payload: Vec<Value>) -> Value {
    Value::Variant(s(enum_name), s(case_name), payload)
}

#[test]
fn arity_is_that_of_the_first_declaration() {
    let decls = declarations();
    assert_eq!(arity_of(&decls, &s("OptionalInt"), &s("Value")), Some(1));
    assert_eq!(arity_of(&decls, &s("OptionalInt"), &s("Missing")), Some(0));
    assert_eq!(arity_of(&decls, &s("OptionalInt"), &s("Extra")), None);
    assert_eq!(arity_of(&decls, &s("OptionalTuple"), &s("Value")), Some(3));
    assert_eq!(arity_of(&decls, &s("Empty"), &s("Value")), None);
    assert_eq!(arity_of(&decls, &s("Unknown"), &s("Value")), None);
    assert_eq!(arity_of(&decls, &s("optionalint"), &s("Value")), None);
    assert_eq!(arity_of(&vec![], &s("OptionalInt"), &s("Value")), None);
}

#[test]
fn variants_keep_to_their_declaration() {
    let decls = declarations();
    assert!(conforms_to(&variant("OptionalInt", "Value", vec![Value::Int(5)]), &decls));
    assert!(conforms_to(&variant("OptionalInt", "Missing", vec![]), &decls));
    assert!(conforms_to(
        &variant("OptionalTuple", "Value", vec![Value::Int(5), Value::Int(-2), Value::Int(3)]),
        &decls
    ));
    assert!(!conforms_to(&variant("OptionalInt", "Value", vec![]), &decls));
    assert!(!conforms_to(
        &variant("OptionalInt", "Value", vec![Value::Int(1), Value::Int(2)]),
        &decls
    ));
    assert!(!conforms_to(
        &variant("OptionalTuple", "Value", vec![Value::Int(1), Value::Int(2)]),
        &decls
    ));
    assert!(!conforms_to(&variant("OptionalInt", "Missing", vec![Value::Int(1)]), &decls));
    assert!(!conforms_to(&variant("OptionalInt", "Extra", vec![]), &decls));
    assert!(!conforms_to(&variant("Empty", "Value", vec![]), &decls));
    assert!(!conforms_to(&variant("Unknown", "Value", vec![]), &decls));
    assert!(!conforms_to(&variant("OptionalInt", "Missing", vec![]), &vec![]));
}

#[test]
fn values_without_variants_always_conform() {
    let values = vec![
        Value::Int(1),
        Value::Char('c'),
        Value::Bool(false),
        Value::Str(s("OptionalInt")),
        Value::Tuple(vec![Value::Int(1), Value::Tuple(vec![])]),
        Value::Struct(s("Point"), vec![Field { name: s("x"), value: Value::Int(0) }]),
    ];
    for value in &values {
        assert!(conforms_to(value, &declarations()));
        assert!(conforms_to(value, &vec![]));
    }
}

#[test]
fn variants_inside_a_value_are_checked() {
    let decls = declarations();
    let good = || variant("OptionalInt", "Value", vec![Value::Int(5)]);
    let bad = || variant("OptionalInt", "Value", vec![]);
    assert!(conforms_to(&Value::Tuple(vec![Value::Int(1), good()]), &decls));
    assert!(!conforms_to(&Value::Tuple(vec![Value::Int(1), good(), bad()]), &decls));
    assert!(!conforms_to(&Value::Tuple(vec![bad(), good()]), &decls));
    let in_struct = |inner: Value| {
        Value::Struct(
            s("Wrap"),
            vec![
                Field { name: s("a"), value: Value::Int(0) },
                Field { name: s("b"), value: inner },
            ],
        )
    };
    assert!(conforms_to(&in_struct(good()), &decls));
    assert!(!conforms_to(&in_struct(bad()), &decls));
    assert!(conforms_to(&variant("OptionalInt", "Value", vec![good()]), &decls));
    assert!(!conforms_to(&variant("OptionalInt", "Value", vec![bad()]), &decls));
    assert!(!conforms_to(
        &variant("OptionalInt", "Value", vec![Value::Tuple(vec![in_struct(bad())])]),
        &decls
    ));
}
