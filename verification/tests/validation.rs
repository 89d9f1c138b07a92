use matchkit::validate::{binding_names, check_arm, has_distinct_names, is_or_consistent};
use matchkit::{
    evaluate, validate, Comparison, Fault, FieldPattern, Guard, MatchArm, Pattern,
    PatternValidationError, Scalar, Value,
};

fn s(text: &str) -> String {
    text.to_string()
}

fn bind(name: &str) -> Pattern {
    Pattern::Binding(s(name))
}

fn arm(pattern: Pattern) -> MatchArm {
    MatchArm { pattern, guard: None, handler: s("h") }
}

fn guarded(pattern: Pattern, guard: Guard) -> MatchArm {
    MatchArm { pattern, guard: Some(guard), handler: s("h") }
}

fn positive(name: &str) -> Guard {
    Guard::Compare(s(name), Comparison::Greater, 0)
}

fn fault_of(arms: &Vec<MatchArm>) -> Option<(usize, Fault)> {
    validate(arms).err().map(|e| (e.arm, e.fault))
}

#[test]
fn faultless_arms_pass() {
    let arms = vec![
        arm(Pattern::LiteralInt(1)),
        arm(Pattern::Range(Scalar::Char('a'), Scalar::Char('z'))),
        guarded(Pattern::Tuple(vec![bind("x"), bind("y")]), positive("y")),
        arm(Pattern::Or(vec![
            Pattern::Tuple(vec![bind("x"), bind("y")]),
            Pattern::Tuple(vec![bind("y"), bind("x")]),
        ])),
        arm(Pattern::Binder(Box::new(Pattern::Tuple(vec![bind("a"), bind("b")])), s("w"), true)),
        arm(Pattern::Wildcard),
    ];
    assert_eq!(validate(&arms), Ok(()));
    for a in &arms {
        assert_eq!(check_arm(a), None);
    }
}

#[test]
fn first_faulty_arm_is_reported() {
    let arms = vec![
        arm(Pattern::Wildcard),
        arm(Pattern::Tuple(vec![bind("x"), bind("x")])),
        arm(Pattern::Or(vec![Pattern::LiteralInt(1), bind("x")])),
        guarded(Pattern::Wildcard, positive("n")),
    ];
    assert_eq!(
        validate(&arms),
        Err(PatternValidationError { arm: 1, fault: Fault::DuplicateBinding })
    );
    assert_eq!(fault_of(&arms[2..].to_vec()), Some((0, Fault::InconsistentOrBindings)));
    assert_eq!(fault_of(&arms[3..].to_vec()), Some((0, Fault::UnboundGuardVariable)));
    assert_eq!(fault_of(&arms[..1].to_vec()), None);
}

#[test]
fn or_alternatives_must_bind_the_same_names() {
    let one_sided = Pattern::Or(vec![bind("x"), Pattern::LiteralInt(1)]);
    assert!(!is_or_consistent(&one_sided));
    let renamed = Pattern::Or(vec![bind("x"), bind("y")]);
    assert!(!is_or_consistent(&renamed));
    let third_differs = Pattern::Or(vec![bind("x"), bind("x"), Pattern::Wildcard]);
    assert!(!is_or_consistent(&third_differs));
    let subset = Pattern::Or(vec![
        Pattern::Tuple(vec![bind("x"), bind("y")]),
        Pattern::Tuple(vec![bind("x"), Pattern::Wildcard]),
    ]);
    assert!(!is_or_consistent(&subset));
    let same = Pattern::Or(vec![bind("x"), bind("x")]);
    assert!(is_or_consistent(&same));
    let literals = Pattern::Or(vec![Pattern::LiteralInt(1), Pattern::LiteralInt(2)]);
    assert!(is_or_consistent(&literals));
    assert!(is_or_consistent(&Pattern::Or(vec![])));
    assert!(is_or_consistent(&Pattern::Or(vec![bind("x")])));
}

#[test]
fn or_inside_other_patterns_is_checked() {
    let bad = || Pattern::Or(vec![Pattern::LiteralInt(1), bind("x")]);
    let inside = vec![
        Pattern::Tuple(vec![Pattern::Wildcard, bad()]),
        Pattern::StructPattern(
            s("P"),
            vec![FieldPattern { name: s("f"), pattern: bad() }],
            true,
        ),
        Pattern::VariantPattern(s("E"), s("C"), vec![bad()], false),
        Pattern::VariantPattern(s("E"), s("C"), vec![bad()], true),
        Pattern::Binder(Box::new(bad()), s("w"), false),
        Pattern::Or(vec![Pattern::Tuple(vec![bad()]), Pattern::Tuple(vec![bad()])]),
    ];
    for pattern in inside {
        assert!(!is_or_consistent(&pattern));
        assert_eq!(fault_of(&vec![arm(pattern)]), Some((0, Fault::InconsistentOrBindings)));
    }
}

#[test]
fn a_name_bound_twice_is_a_fault() {
    let twice = vec![
        Pattern::Tuple(vec![bind("x"), Pattern::Wildcard, bind("x")]),
        Pattern::Binder(Box::new(bind("x")), s("x"), false),
        Pattern::StructPattern(
            s("P"),
            vec![
                FieldPattern { name: s("a"), pattern: bind("v") },
                FieldPattern { name: s("b"), pattern: bind("v") },
            ],
            true,
        ),
        Pattern::VariantPattern(s("E"), s("C"), vec![bind("p"), bind("p")], false),
        Pattern::Tuple(vec![bind("x"), Pattern::Tuple(vec![Pattern::Tuple(vec![bind("x")])])]),
        Pattern::Or(vec![
            Pattern::Tuple(vec![bind("x"), Pattern::Wildcard]),
            Pattern::Tuple(vec![bind("x"), bind("x")]),
        ]),
    ];
    for pattern in twice {
        assert!(is_or_consistent(&pattern));
        assert!(!has_distinct_names(&pattern));
        assert_eq!(fault_of(&vec![arm(pattern)]), Some((0, Fault::DuplicateBinding)));
    }
}

#[test]
fn names_under_an_ellipsis_are_not_bound() {
    let pattern = Pattern::VariantPattern(s("E"), s("C"), vec![bind("p"), bind("p")], true);
    assert!(has_distinct_names(&pattern));
    assert!(binding_names(&pattern).is_empty());
    assert_eq!(validate(&vec![arm(pattern.clone())]), Ok(()));
    assert_eq!(
        fault_of(&vec![guarded(pattern, positive("p"))]),
        Some((0, Fault::UnboundGuardVariable))
    );
}

#[test]
fn inconsistent_or_is_reported_before_other_faults() {
    let pattern = Pattern::Tuple(vec![
        bind("x"),
        bind("x"),
        Pattern::Or(vec![bind("y"), Pattern::Wildcard]),
    ]);
    let arms = vec![guarded(pattern, positive("z"))];
    assert_eq!(fault_of(&arms), Some((0, Fault::InconsistentOrBindings)));
    let arms = vec![guarded(Pattern::Tuple(vec![bind("x"), bind("x")]), positive("z"))];
    assert_eq!(fault_of(&arms), Some((0, Fault::DuplicateBinding)));
}

#[test]
fn guard_names_must_be_bound_by_the_pattern() {
    let pattern = || Pattern::Tuple(vec![bind("a"), bind("b")]);
    let both = Guard::And(Box::new(positive("a")), Box::new(positive("b")));
    assert_eq!(validate(&vec![guarded(pattern(), both)]), Ok(()));
    let guards = vec![
        positive("c"),
        Guard::Not(Box::new(positive("c"))),
        Guard::And(Box::new(positive("a")), Box::new(positive("c"))),
        Guard::And(Box::new(positive("c")), Box::new(positive("a"))),
        Guard::Or(Box::new(positive("a")), Box::new(positive("c"))),
        Guard::Or(Box::new(positive("c")), Box::new(positive("b"))),
        Guard::Not(Box::new(Guard::Or(
            Box::new(positive("b")),
            Box::new(Guard::Not(Box::new(positive("A")))),
        ))),
    ];
    for guard in guards {
        assert_eq!(
            fault_of(&vec![guarded(pattern(), guard)]),
            Some((0, Fault::UnboundGuardVariable))
        );
    }
    assert_eq!(
        fault_of(&vec![guarded(Pattern::Wildcard, positive("a"))]),
        Some((0, Fault::UnboundGuardVariable))
    );
}

#[test]
fn binding_names_come_in_match_order() {
    let pattern = Pattern::Binder(
        Box::new(Pattern::Tuple(vec![
            bind("a"),
            Pattern::Wildcard,
            Pattern::StructPattern(
                s("P"),
                vec![
                    FieldPattern { name: s("y"), pattern: bind("b") },
                    FieldPattern { name: s("x"), pattern: Pattern::LiteralInt(0) },
                ],
                true,
            ),
            Pattern::VariantPattern(s("E"), s("C"), vec![bind("c")], false),
            Pattern::Or(vec![bind("d"), bind("e")]),
            Pattern::Range(Scalar::Int(0), Scalar::Int(1)),
        ])),
        s("w"),
        false,
    );
    assert_eq!(binding_names(&pattern), vec![s("a"), s("b"), s("c"), s("d"), s("w")]);
    assert!(binding_names(&Pattern::Wildcard).is_empty());
    assert!(binding_names(&Pattern::Or(vec![])).is_empty());
    assert_eq!(binding_names(&bind("n")), vec![s("n")]);
}

#[test]
fn valid_arms_bind_each_declared_name_once() {
    let pattern = Pattern::Or(vec![
        Pattern::Tuple(vec![bind("x"), bind("y"), Pattern::LiteralInt(0)]),
        Pattern::Tuple(vec![bind("y"), bind("x"), Pattern::Wildcard]),
    ]);
    let arms = vec![guarded(
        pattern,
        Guard::And(Box::new(positive("x")), Box::new(positive("y"))),
    )];
    assert_eq!(validate(&arms), Ok(()));
    let value = Value::Tuple(vec![Value::Int(1), Value::Int(2), Value::Int(3)]);
    let (index, env) = evaluate(&value, &arms).unwrap();
    assert_eq!(index, 0);
    assert_eq!(env.len(), 2);
    assert_eq!(env.name_at(0), Some(&s("y")));
    assert_eq!(env.name_at(1), Some(&s("x")));
    assert_eq!(env.get("y"), Some(&Value::Int(1)));
    assert_eq!(env.get("x"), Some(&Value::Int(2)));
}
