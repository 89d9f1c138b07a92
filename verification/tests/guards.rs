use matchkit::names::{all_contained, all_distinct, contains_name, same_name_set};
use matchkit::{
    evaluate, Binding, BindingEnvironment, Bound, Comparison, Guard, MatchArm, Pattern, Value,
};

fn s(text: &str) -> String {
    text.to_string()
}

fn copied(name: &str, value: Value) -> Binding<'static> {
    Binding { name: s(name), bound: Bound::Copied(value) }
}

fn compare(name: &str, relation: Comparison, bound: i64) -> Guard {
    Guard::Compare(s(name), relation, bound)
}

fn sample() -> BindingEnvironment<'static> {
    BindingEnvironment::from_entries(vec![
        copied("n", Value::Int(5)),
        copied("text", Value::Str(s("5"))),
        copied("n", Value::Int(-5)),
        copied("flag", Value::Bool(true)),
    ])
}

#[test]
fn comparisons_relate_left_to_right() {
    let table = [
        (Comparison::Less, [true, false, false]),
        (Comparison::LessOrEqual, [true, true, false]),
        (Comparison::Equal, [false, true, false]),
        (Comparison::NotEqual, [true, false, true]),
        (Comparison::GreaterOrEqual, [false, true, true]),
        (Comparison::Greater, [false, false, true]),
    ];
    for (relation, expected) in table {
        assert_eq!(relation.test(4, 5), expected[0]);
        assert_eq!(relation.test(5, 5), expected[1]);
        assert_eq!(relation.test(6, 5), expected[2]);
    }
    assert!(Comparison::Less.test(i64::MIN, i64::MAX));
    assert!(Comparison::Greater.test(i64::MAX, i64::MIN));
}

#[test]
fn comparison_reads_the_first_binding_of_a_name() {
    let env = sample();
    assert!(compare("n", Comparison::Equal, 5).holds(&env));
    assert!(!compare("n", Comparison::Equal, -5).holds(&env));
    assert!(!compare("n", Comparison::Greater, 5).holds(&env));
    assert!(compare("n", Comparison::GreaterOrEqual, 5).holds(&env));
    assert!(compare("n", Comparison::Greater, 4).holds(&env));
    assert!(compare("n", Comparison::Less, 6).holds(&env));
    assert!(compare("n", Comparison::NotEqual, 6).holds(&env));
}

#[test]
fn comparison_is_false_without_an_integer() {
    let env = sample();
    for relation in [
        Comparison::Less,
        Comparison::LessOrEqual,
        Comparison::Equal,
        Comparison::NotEqual,
        Comparison::GreaterOrEqual,
        Comparison::Greater,
    ] {
        assert!(!compare("text", relation, 5).holds(&env));
        assert!(!compare("flag", relation, 1).holds(&env));
        assert!(!compare("missing", relation, 0).holds(&env));
        assert!(!compare("N", relation, 5).holds(&env));
    }
    assert!(Guard::Not(Box::new(compare("missing", Comparison::Equal, 0))).holds(&env));
}

#[test]
fn connectives_follow_their_truth_tables() {
    let env = sample();
    let yes = || Box::new(compare("n", Comparison::Equal, 5));
    let no = || Box::new(compare("n", Comparison::Equal, 6));
    assert!(!Guard::Not(yes()).holds(&env));
    assert!(Guard::Not(no()).holds(&env));
    assert!(Guard::And(yes(), yes()).holds(&env));
    assert!(!Guard::And(yes(), no()).holds(&env));
    assert!(!Guard::And(no(), yes()).holds(&env));
    assert!(!Guard::And(no(), no()).holds(&env));
    assert!(Guard::Or(yes(), yes()).holds(&env));
    assert!(Guard::Or(yes(), no()).holds(&env));
    assert!(Guard::Or(no(), yes()).holds(&env));
    assert!(!Guard::Or(no(), no()).holds(&env));
    let nested = Guard::And(
        Box::new(Guard::Or(no(), Box::new(Guard::Not(no())))),
        Box::new(Guard::Not(Box::new(Guard::And(yes(), no())))),
    );
    assert!(nested.holds(&env));
    assert_eq!(nested.clone(), nested);
}

#[test]
fn guard_decides_between_arms() {
    let between = Guard::And(
        Box::new(compare("i", Comparison::Greater, 5)),
        Box::new(compare("i", Comparison::LessOrEqual, 10)),
    );
    let arms = vec![
        MatchArm { pattern: Pattern::Binding(s("i")), guard: Some(between), handler: s("mid") },
        MatchArm {
            pattern: Pattern::Binding(s("i")),
            guard: Some(compare("i", Comparison::Greater, 10)),
            handler: s("high"),
        },
        MatchArm { pattern: Pattern::Binding(s("other")), guard: None, handler: s("low") },
    ];
    let expected = [(5, "low"), (6, "mid"), (10, "mid"), (11, "high"), (-1, "low")];
    for (n, handler) in expected {
        let value = Value::Int(n);
        let (index, env) = evaluate(&value, &arms).unwrap();
        assert_eq!(arms[index].handler, handler);
        assert_eq!(env.len(), 1);
        assert_eq!(env.value_at(0), Some(&value));
    }
    let value = Value::Str(s("7"));
    let (index, env) = evaluate(&value, &arms).unwrap();
    assert_eq!(index, 2);
    assert_eq!(env.name_at(0), Some(&s("other")));
}

#[test]
fn environment_keeps_insertion_order() {
    let env = sample();
    assert_eq!(env.len(), 4);
    assert!(!env.is_empty());
    assert_eq!(env.name_at(0), Some(&s("n")));
    assert_eq!(env.name_at(1), Some(&s("text")));
    assert_eq!(env.name_at(2), Some(&s("n")));
    assert_eq!(env.name_at(3), Some(&s("flag")));
    assert_eq!(env.value_at(2), Some(&Value::Int(-5)));
    assert_eq!(env.get("n"), Some(&Value::Int(5)));
    assert_eq!(env.find(&s("text")), Some(&Value::Str(s("5"))));
    assert_eq!(env.get("flag"), Some(&Value::Bool(true)));
    assert_eq!(env.get(""), None);
    let empty = BindingEnvironment::from_entries(vec![]);
    assert!(empty.is_empty());
    assert_eq!(empty.get("n"), None);
}

#[test]
fn environment_tells_copies_from_aliases() {
    let owner = Value::Int(1);
    let env = BindingEnvironment::from_entries(vec![
        Binding { name: s("a"), bound: Bound::Aliased(&owner) },
        Binding { name: s("c"), bound: Bound::Copied(owner.clone()) },
    ]);
    assert_eq!(env.is_by_reference(0), Some(true));
    assert_eq!(env.is_by_reference(1), Some(false));
    assert!(std::ptr::eq(env.value_at(0).unwrap(), &owner));
    assert_eq!(env.value_at(1), Some(&owner));
    assert!(std::ptr::eq(Bound::Aliased(&owner).get(), &owner));
}

#[test]
fn name_lists_compare_as_sets() {
    let names = |list: &[&str]| list.iter().map(|n| s(n)).collect::<Vec<String>>();
    let abc = names(&["a", "b", "c"]);
    assert!(contains_name(&abc, &s("b")));
    assert!(!contains_name(&abc, &s("d")));
    assert!(!contains_name(&names(&[]), &s("a")));
    assert!(all_contained(&names(&["c", "a", "c"]), &abc));
    assert!(!all_contained(&abc, &names(&["a", "b"])));
    assert!(all_contained(&names(&[]), &names(&[])));
    assert!(same_name_set(&abc, &names(&["c", "b", "a", "a"])));
    assert!(!same_name_set(&abc, &names(&["a", "b"])));
    assert!(!same_name_set(&names(&[]), &names(&["a"])));
    assert!(same_name_set(&names(&[]), &names(&[])));
    assert!(all_distinct(&abc));
    assert!(all_distinct(&names(&[])));
    assert!(!all_distinct(&names(&["a", "b", "a"])));
    assert!(!all_distinct(&names(&["a", "a"])));
}

#[test]
fn positions_past_the_end_hold_nothing() {
    let env = sample();
    assert_eq!(env.name_at(3), Some(&s("flag")));
    assert_eq!(env.name_at(4), None);
    assert_eq!(env.value_at(4), None);
    assert_eq!(env.is_by_reference(4), None);
    assert_eq!(env.name_at(usize::MAX), None);
}
