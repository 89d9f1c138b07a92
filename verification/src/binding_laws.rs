//! What validation buys: a successful match of a faultless pattern binds
//! exactly the names that the pattern declares, each of them once.

use crate::arm::ArmView;
use crate::bindings::{lookup, lookup_from, names_of, BindingView};
use crate::guard::{guard_bound, GuardView};
use crate::pattern::PatternView;
use crate::semantics::{match_bindings, match_each, match_fields, match_first};
use crate::validate::{
    arm_fault, bound_names, each_names_distinct, each_or_consistent, fields_names_distinct,
    fields_or_consistent, names_distinct, names_of_each, names_of_fields, or_consistent,
    same_names,
};
use crate::value::{field_value, ValueView};
use vstd::prelude::*;
use vstd::seq_lib::{lemma_no_dup_in_concat, seq_to_set_distributes_over_add};

verus! {

/// The names of two environments put together are the names of the first
/// followed by those of the second.
proof fn lemma_names_of_concat(front: Seq<BindingView>, back: Seq<BindingView>)
    ensures
        names_of(front + back) == names_of(front) + names_of(back),
{
    assert(names_of(front + back) =~= names_of(front) + names_of(back));
}

/// A list without duplicates splits into parts without duplicates that share
/// no element.
proof fn lemma_no_duplicates_splits(front: Seq<Seq<char>>, back: Seq<Seq<char>>)
    requires
        (front + back).no_duplicates(),
    ensures
        front.no_duplicates(),
        back.no_duplicates(),
        front.to_set().disjoint(back.to_set()),
{
    let whole = front + back;
    assert forall|i: int, j: int| 0 <= i < front.len() && 0 <= j < front.len() && i != j implies front[i]
        != front[j] by {
        assert(whole[i] == front[i] && whole[j] == front[j]);
    }
    assert forall|i: int, j: int| 0 <= i < back.len() && 0 <= j < back.len() && i != j implies back[i]
        != back[j] by {
        assert(whole[front.len() + i] == back[i] && whole[front.len() + j] == back[j]);
    }
    assert forall|name: Seq<char>| !(front.to_set().contains(name) && back.to_set().contains(
        name,
    )) by {
        if front.contains(name) && back.contains(name) {
            let i = choose|i: int| 0 <= i < front.len() && front[i] == name;
            let j = choose|j: int| 0 <= j < back.len() && back[j] == name;
            assert(whole[i] == front[i] && whole[front.len() + j] == back[j]);
        }
    }
}

/// Two lists without duplicates whose sets share no element make a list
/// without duplicates.
proof fn lemma_no_duplicates_joins(front: Seq<Seq<char>>, back: Seq<Seq<char>>)
    requires
        front.no_duplicates(),
        back.no_duplicates(),
        front.to_set().disjoint(back.to_set()),
    ensures
        (front + back).no_duplicates(),
{
    assert forall|i: int, j: int| 0 <= i < front.len() && 0 <= j < back.len() implies front[i]
        != back[j] by {
        assert(front.to_set().contains(front[i]));
        assert(back.to_set().contains(back[j]));
    }
    lemma_no_dup_in_concat(front, back);
}

/// A successful match of a pattern whose or-patterns are consistent binds
/// exactly the names that the pattern declares.
pub proof fn lemma_match_binds_declared_names(
    pattern: PatternView,
    value: ValueView,
    env: Seq<BindingView>,
)
    requires
        or_consistent(pattern),
        match_bindings(pattern, value) == Some(env),
    ensures
        names_of(env).to_set() == bound_names(pattern).to_set(),
    decreases pattern, 0nat,
{
    match pattern {
        PatternView::Binding(name) => {
            assert(names_of(env) =~= seq![name]);
        },
        PatternView::Or(alternatives) => {
            lemma_first_binds_declared_names(alternatives, value, 0, env);
        },
        PatternView::Tuple(elements) => {
            let items = value->Tuple_0;
            lemma_each_binds_declared_names(elements, items, 0, env);
        },
        PatternView::StructPattern(_, fields, _) => {
            let value_fields = value->Struct_1;
            lemma_fields_bind_declared_names(fields, value_fields, 0, env);
        },
        PatternView::VariantPattern(_, _, payload, ellipsis) => {
            if ellipsis {
                assert(names_of(env) =~= Seq::<Seq<char>>::empty());
            } else {
                let items = value->Variant_2;
                lemma_each_binds_declared_names(payload, items, 0, env);
            }
        },
        PatternView::Binder(inner, name, by_reference) => {
            let inner_env = match_bindings(*inner, value)->Some_0;
            lemma_match_binds_declared_names(*inner, value, inner_env);
            assert(names_of(env) =~= names_of(inner_env).push(name));
            names_of(inner_env).lemma_push_to_set_commute(name);
            bound_names(*inner).lemma_push_to_set_commute(name);
        },
        _ => {
            assert(names_of(env) =~= Seq::<Seq<char>>::empty());
        },
    }
}

proof fn lemma_first_binds_declared_names(
    alternatives: Seq<PatternView>,
    value: ValueView,
    from: int,
    env: Seq<BindingView>,
)
    requires
        0 <= from,
        each_or_consistent(alternatives, from),
        same_names(alternatives),
        match_first(alternatives, value, from) == Some(env),
    ensures
        alternatives.len() > 0,
        names_of(env).to_set() == bound_names(alternatives[0]).to_set(),
    decreases alternatives, alternatives.len() - from,
{
    if match_bindings(alternatives[from], value) is Some {
        lemma_match_binds_declared_names(alternatives[from], value, env);
    } else {
        lemma_first_binds_declared_names(alternatives, value, from + 1, env);
    }
}

proof fn lemma_each_binds_declared_names(
    patterns: Seq<PatternView>,
    items: Seq<ValueView>,
    from: int,
    env: Seq<BindingView>,
)
    requires
        0 <= from,
        each_or_consistent(patterns, from),
        match_each(patterns, items, from) == Some(env),
    ensures
        names_of(env).to_set() == names_of_each(patterns, from).to_set(),
    decreases patterns, patterns.len() - from,
{
    if from >= patterns.len() {
        assert(names_of(env) =~= Seq::<Seq<char>>::empty());
    } else {
        let head = match_bindings(patterns[from], items[from])->Some_0;
        let rest = match_each(patterns, items, from + 1)->Some_0;
        lemma_match_binds_declared_names(patterns[from], items[from], head);
        lemma_each_binds_declared_names(patterns, items, from + 1, rest);
        lemma_names_of_concat(head, rest);
        seq_to_set_distributes_over_add(names_of(head), names_of(rest));
        seq_to_set_distributes_over_add(
            bound_names(patterns[from]),
            names_of_each(patterns, from + 1),
        );
    }
}

proof fn lemma_fields_bind_declared_names(
    fields: Seq<(Seq<char>, PatternView)>,
    value_fields: Seq<(Seq<char>, ValueView)>,
    from: int,
    env: Seq<BindingView>,
)
    requires
        0 <= from,
        fields_or_consistent(fields, from),
        match_fields(fields, value_fields, from) == Some(env),
    ensures
        names_of(env).to_set() == names_of_fields(fields, from).to_set(),
    decreases fields, fields.len() - from,
{
    if from >= fields.len() {
        assert(names_of(env) =~= Seq::<Seq<char>>::empty());
    } else {
        let field = field_value(value_fields, fields[from].0)->Some_0;
        let head = match_bindings(fields[from].1, field)->Some_0;
        let rest = match_fields(fields, value_fields, from + 1)->Some_0;
        lemma_match_binds_declared_names(fields[from].1, field, head);
        lemma_fields_bind_declared_names(fields, value_fields, from + 1, rest);
        lemma_names_of_concat(head, rest);
        seq_to_set_distributes_over_add(names_of(head), names_of(rest));
        seq_to_set_distributes_over_add(
            bound_names(fields[from].1),
            names_of_fields(fields, from + 1),
        );
    }
}

/// A successful match of a pattern without faults binds no name twice.
pub proof fn lemma_match_binds_each_name_once(
    pattern: PatternView,
    value: ValueView,
    env: Seq<BindingView>,
)
    requires
        or_consistent(pattern),
        names_distinct(pattern),
        match_bindings(pattern, value) == Some(env),
    ensures
        names_of(env).no_duplicates(),
    decreases pattern, 0nat,
{
    match pattern {
        PatternView::Binding(name) => {
            assert(names_of(env) =~= seq![name]);
        },
        PatternView::Or(alternatives) => {
            lemma_first_binds_each_name_once(alternatives, value, 0, env);
        },
        PatternView::Tuple(elements) => {
            let items = value->Tuple_0;
            lemma_each_binds_each_name_once(elements, items, 0, env);
        },
        PatternView::StructPattern(_, fields, _) => {
            let value_fields = value->Struct_1;
            lemma_fields_bind_each_name_once(fields, value_fields, 0, env);
        },
        PatternView::VariantPattern(_, _, payload, ellipsis) => {
            if ellipsis {
                assert(names_of(env) =~= Seq::<Seq<char>>::empty());
            } else {
                let items = value->Variant_2;
                lemma_each_binds_each_name_once(payload, items, 0, env);
            }
        },
        PatternView::Binder(inner, name, by_reference) => {
            let inner_env = match_bindings(*inner, value)->Some_0;
            lemma_match_binds_each_name_once(*inner, value, inner_env);
            lemma_match_binds_declared_names(*inner, value, inner_env);
            assert(names_of(env) =~= names_of(inner_env) + seq![name]);
            assert(bound_names(pattern) =~= bound_names(*inner) + seq![name]);
            lemma_no_duplicates_splits(bound_names(*inner), seq![name]);
            lemma_no_duplicates_joins(names_of(inner_env), seq![name]);
        },
        _ => {
            assert(names_of(env) =~= Seq::<Seq<char>>::empty());
        },
    }
}

proof fn lemma_first_binds_each_name_once(
    alternatives: Seq<PatternView>,
    value: ValueView,
    from: int,
    env: Seq<BindingView>,
)
    requires
        0 <= from,
        each_or_consistent(alternatives, from),
        each_names_distinct(alternatives, from),
        match_first(alternatives, value, from) == Some(env),
    ensures
        names_of(env).no_duplicates(),
    decreases alternatives, alternatives.len() - from,
{
    if match_bindings(alternatives[from], value) is Some {
        lemma_match_binds_each_name_once(alternatives[from], value, env);
    } else {
        lemma_first_binds_each_name_once(alternatives, value, from + 1, env);
    }
}

proof fn lemma_each_binds_each_name_once(
    patterns: Seq<PatternView>,
    items: Seq<ValueView>,
    from: int,
    env: Seq<BindingView>,
)
    requires
        0 <= from,
        each_or_consistent(patterns, from),
        each_names_distinct(patterns, from),
        names_of_each(patterns, from).no_duplicates(),
        match_each(patterns, items, from) == Some(env),
    ensures
        names_of(env).no_duplicates(),
    decreases patterns, patterns.len() - from,
{
    if from >= patterns.len() {
        assert(names_of(env) =~= Seq::<Seq<char>>::empty());
    } else {
        let head = match_bindings(patterns[from], items[from])->Some_0;
        let rest = match_each(patterns, items, from + 1)->Some_0;
        lemma_no_duplicates_splits(bound_names(patterns[from]), names_of_each(patterns, from + 1));
        lemma_match_binds_each_name_once(patterns[from], items[from], head);
        lemma_each_binds_each_name_once(patterns, items, from + 1, rest);
        lemma_match_binds_declared_names(patterns[from], items[from], head);
        lemma_each_binds_declared_names(patterns, items, from + 1, rest);
        lemma_names_of_concat(head, rest);
        lemma_no_duplicates_joins(names_of(head), names_of(rest));
    }
}

proof fn lemma_fields_bind_each_name_once(
    fields: Seq<(Seq<char>, PatternView)>,
    value_fields: Seq<(Seq<char>, ValueView)>,
    from: int,
    env: Seq<BindingView>,
)
    requires
        0 <= from,
        fields_or_consistent(fields, from),
        fields_names_distinct(fields, from),
        names_of_fields(fields, from).no_duplicates(),
        match_fields(fields, value_fields, from) == Some(env),
    ensures
        names_of(env).no_duplicates(),
    decreases fields, fields.len() - from,
{
    if from >= fields.len() {
        assert(names_of(env) =~= Seq::<Seq<char>>::empty());
    } else {
        let field = field_value(value_fields, fields[from].0)->Some_0;
        let head = match_bindings(fields[from].1, field)->Some_0;
        let rest = match_fields(fields, value_fields, from + 1)->Some_0;
        lemma_no_duplicates_splits(bound_names(fields[from].1), names_of_fields(fields, from + 1));
        lemma_match_binds_each_name_once(fields[from].1, field, head);
        lemma_fields_bind_each_name_once(fields, value_fields, from + 1, rest);
        lemma_match_binds_declared_names(fields[from].1, field, head);
        lemma_fields_bind_declared_names(fields, value_fields, from + 1, rest);
        lemma_names_of_concat(head, rest);
        lemma_no_duplicates_joins(names_of(head), names_of(rest));
    }
}

/// A name that occurs among an environment's names is found by lookup.
pub proof fn lemma_bound_name_is_found(env: Seq<BindingView>, name: Seq<char>)
    requires
        names_of(env).contains(name),
    ensures
        lookup(env, name) is Some,
{
    let position = choose|i: int| 0 <= i < names_of(env).len() && names_of(env)[i] == name;
    lemma_found_before(env, name, 0, position);
}

proof fn lemma_found_before(env: Seq<BindingView>, name: Seq<char>, from: int, position: int)
    requires
        0 <= from <= position < env.len(),
        env[position].name == name,
    ensures
        lookup_from(env, name, from) is Some,
    decreases position - from,
{
    if env[from].name != name {
        lemma_found_before(env, name, from + 1, position);
    }
}

/// Under the bindings of a successful match of an arm without faults, the
/// arm's guard speaks only of bound names.
pub proof fn lemma_valid_guard_is_bound(
    arm: ArmView,
    value: ValueView,
    env: Seq<BindingView>,
    guard: GuardView,
)
    requires
        arm_fault(arm) is None,
        arm.guard == Some(guard),
        match_bindings(arm.pattern, value) == Some(env),
    ensures
        guard_bound(guard, names_of(env).to_set()),
{
    lemma_match_binds_declared_names(arm.pattern, value, env);
}

} // verus!
