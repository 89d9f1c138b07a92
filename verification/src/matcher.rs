//! The matcher: structural matching of one pattern, and the choice of an arm.

use crate::arm::{
    arm_selects, arms_view, ends_in_wildcard, is_winner, none_selects, ArmView, MatchArm,
};
use crate::bindings::{bindings_view, Binding, BindingEnvironment, BindingView, Bound};
use crate::pattern::{
    field_patterns_view, patterns_view, FieldPattern, Pattern, PatternView, Scalar,
};
use crate::semantics::{
    fields_covered, in_range, match_bindings, match_each, match_fields, match_first, names_field,
};
use crate::value::{
    field_value, field_value_from, fields_view, values_view, Field, Value, ValueView,
};
use vstd::prelude::*;

verus! {

/// Whether `value` is a scalar of the bounds' kind between `low` and `high`.
fn scalar_in_range(low: Scalar, high: Scalar, value: &Value) -> (b: bool)
    ensures
        b == in_range(low@, high@, value@),
{
    match (low, high, value) {
        (Scalar::Int(lo), Scalar::Int(hi), Value::Int(n)) => lo <= *n && *n <= hi,
        (Scalar::Char(lo), Scalar::Char(hi), Value::Char(c)) => lo <= *c && *c <= hi,
        _ => false,
    }
}

/// The value of the first field called `name`.
fn find_field<'a>(fields: &'a Vec<Field>, name: &String) -> (found: Option<&'a Value>)
    ensures
        match found {
            Some(value) => field_value(fields_view(fields@), name@) == Some(value@),
            None => field_value(fields_view(fields@), name@) is None,
        },
{
    let mut i: usize = 0;
    while i < fields.len()
        invariant
            i <= fields.len(),
            field_value(fields_view(fields@), name@) == field_value_from(
                fields_view(fields@),
                name@,
                i as int,
            ),
        decreases fields.len() - i,
    {
        if fields[i].name == *name {
            return Some(&fields[i].value);
        }
        i += 1;
    }
    None
}

/// Whether one of the field patterns is for the field called `name`.
fn has_field_pattern(fields: &Vec<FieldPattern>, name: &String) -> (b: bool)
    ensures
        b == names_field(field_patterns_view(fields@), name@),
{
    let ghost fs = field_patterns_view(fields@);
    let mut j: usize = 0;
    while j < fields.len()
        invariant
            j <= fields.len(),
            fs == field_patterns_view(fields@),
            fs.len() == fields.len(),
            forall|k: int| 0 <= k < j ==> (#[trigger] fs[k]).0 != name@,
        decreases fields.len() - j,
    {
        assert(fs[j as int].0 == fields@[j as int].name@);
        if fields[j].name == *name {
            return true;
        }
        j += 1;
    }
    false
}

/// Whether each field of the value is named by one of the field patterns.
fn covers(fields: &Vec<FieldPattern>, value_fields: &Vec<Field>) -> (b: bool)
    ensures
        b == fields_covered(field_patterns_view(fields@), fields_view(value_fields@)),
{
    let ghost fs = field_patterns_view(fields@);
    let ghost vs = fields_view(value_fields@);
    let mut i: usize = 0;
    while i < value_fields.len()
        invariant
            i <= value_fields.len(),
            fs == field_patterns_view(fields@),
            vs == fields_view(value_fields@),
            vs.len() == value_fields.len(),
            forall|k: int| 0 <= k < i ==> names_field(fs, (#[trigger] vs[k]).0),
        decreases value_fields.len() - i,
    {
        assert(vs[i as int].0 == value_fields@[i as int].name@);
        if !has_field_pattern(fields, &value_fields[i].name) {
            return false;
        }
        i += 1;
    }
    true
}

/// A list without bindings.
fn no_entries<'a>() -> (entries: Vec<Binding<'a>>)
    ensures
        bindings_view(entries@) == Seq::<BindingView>::empty(),
{
    let entries: Vec<Binding<'a>> = Vec::new();
    assert(bindings_view(entries@) =~= Seq::empty());
    entries
}

/// Moves the bindings of `more` behind those of `entries`.
fn append_entries<'a>(entries: &mut Vec<Binding<'a>>, more: Vec<Binding<'a>>)
    ensures
        bindings_view(final(entries)@) == bindings_view(old(entries)@) + bindings_view(more@),
{
    let mut more = more;
    let ghost added = more@;
    entries.append(&mut more);
    assert(bindings_view(entries@) =~= bindings_view(old(entries)@) + bindings_view(added));
}

/// The bindings of matching `pattern` against `value`.
fn match_entries<'a>(pattern: &Pattern, value: &'a Value) -> (r: Option<Vec<Binding<'a>>>)
    ensures
        match r {
            Some(entries) => match_bindings(pattern@, value@) == Some(bindings_view(entries@)),
            None => match_bindings(pattern@, value@) is None,
        },
    decreases pattern,
{
    match pattern {
        Pattern::Wildcard => Some(no_entries()),
        Pattern::Binding(name) => {
            let mut entries: Vec<Binding<'a>> = Vec::new();
            entries.push(Binding { name: name.clone(), bound: Bound::Copied(value.clone()) });
            assert(bindings_view(entries@) =~= seq![
                BindingView { name: name@, value: value@, by_reference: false },
            ]);
            Some(entries)
        },
        Pattern::LiteralInt(n) => match value {
            Value::Int(m) => if *m == *n {
                Some(no_entries())
            } else {
                None
            },
            _ => None,
        },
        Pattern::LiteralChar(c) => match value {
            Value::Char(d) => if *d == *c {
                Some(no_entries())
            } else {
                None
            },
            _ => None,
        },
        Pattern::LiteralBool(b) => match value {
            Value::Bool(d) => if *d == *b {
                Some(no_entries())
            } else {
                None
            },
            _ => None,
        },
        Pattern::LiteralStr(s) => match value {
            Value::Str(t) => if *t == *s {
                Some(no_entries())
            } else {
                None
            },
            _ => None,
        },
        Pattern::Range(low, high) => if scalar_in_range(*low, *high, value) {
            Some(no_entries())
        } else {
            None
        },
        Pattern::Or(alternatives) => match_first_entries(alternatives, value),
        Pattern::Tuple(elements) => match value {
            Value::Tuple(items) => if items.len() == elements.len() {
                match_each_entries(elements, items)
            } else {
                None
            },
            _ => None,
        },
        Pattern::StructPattern(name, fields, has_rest) => match value {
            Value::Struct(value_name, value_fields) => if *value_name == *name && (*has_rest
                || covers(fields, value_fields)) {
                match_field_entries(fields, value_fields)
            } else {
                None
            },
            _ => None,
        },
        Pattern::VariantPattern(enum_name, case_name, payload, ellipsis) => match value {
            Value::Variant(value_enum, value_case, items) => if *value_enum == *enum_name
                && *value_case == *case_name {
                if *ellipsis {
                    Some(no_entries())
                } else if items.len() == payload.len() {
                    match_each_entries(payload, items)
                } else {
                    None
                }
            } else {
                None
            },
            _ => None,
        },
        Pattern::Binder(inner, name, by_reference) => match match_entries(inner, value) {
            Some(entries) => {
                let mut entries = entries;
                let ghost before = bindings_view(entries@);
                let bound = if *by_reference {
                    Bound::Aliased(value)
                } else {
                    Bound::Copied(value.clone())
                };
                entries.push(Binding { name: name.clone(), bound });
                assert(bindings_view(entries@) =~= before.push(
                    BindingView { name: name@, value: value@, by_reference: *by_reference },
                ));
                Some(entries)
            },
            None => None,
        },
    }
}

/// The bindings of the first alternative that matches `value`.
fn match_first_entries<'a>(alternatives: &Vec<Pattern>, value: &'a Value) -> (r: Option<
    Vec<Binding<'a>>,
>)
    ensures
        match r {
            Some(entries) => match_first(patterns_view(alternatives@), value@, 0) == Some(
                bindings_view(entries@),
            ),
            None => match_first(patterns_view(alternatives@), value@, 0) is None,
        },
    decreases alternatives,
{
    let mut i: usize = 0;
    while i < alternatives.len()
        invariant
            i <= alternatives.len(),
            match_first(patterns_view(alternatives@), value@, 0) == match_first(
                patterns_view(alternatives@),
                value@,
                i as int,
            ),
        decreases alternatives.len() - i,
    {
        assert(patterns_view(alternatives@)[i as int] == alternatives@[i as int]@);
        match match_entries(&alternatives[i], value) {
            Some(entries) => {
                return Some(entries);
            },
            None => {},
        }
        i += 1;
    }
    None
}

/// The bindings of matching each pattern against the item at its position.
fn match_each_entries<'a>(patterns: &Vec<Pattern>, items: &'a Vec<Value>) -> (r: Option<
    Vec<Binding<'a>>,
>)
    requires
        patterns.len() == items.len(),
    ensures
        match r {
            Some(entries) => match_each(patterns_view(patterns@), values_view(items@), 0) == Some(
                bindings_view(entries@),
            ),
            None => match_each(patterns_view(patterns@), values_view(items@), 0) is None,
        },
    decreases patterns,
{
    let ghost ps = patterns_view(patterns@);
    let ghost vs = values_view(items@);
    let mut entries: Vec<Binding<'a>> = no_entries();
    let mut i: usize = 0;
    while i < patterns.len()
        invariant
            i <= patterns.len(),
            patterns.len() == items.len(),
            ps == patterns_view(patterns@),
            vs == values_view(items@),
            match_each(ps, vs, 0) == match match_each(ps, vs, i as int) {
                Some(rest) => Some(bindings_view(entries@) + rest),
                None => None,
            },
        decreases patterns.len() - i,
    {
        assert(ps[i as int] == patterns@[i as int]@);
        assert(vs[i as int] == items@[i as int]@);
        match match_entries(&patterns[i], &items[i]) {
            Some(more) => {
                proof {
                    if let Some(rest) = match_each(ps, vs, i + 1) {
                        assert((bindings_view(entries@) + bindings_view(more@)) + rest
                            =~= bindings_view(entries@) + (bindings_view(more@) + rest));
                    }
                }
                append_entries(&mut entries, more);
            },
            None => {
                return None;
            },
        }
        i += 1;
    }
    assert(bindings_view(entries@) + Seq::<BindingView>::empty() =~= bindings_view(entries@));
    Some(entries)
}

/// The bindings of matching each field pattern against the field of its name.
fn match_field_entries<'a>(fields: &Vec<FieldPattern>, value_fields: &'a Vec<Field>) -> (r: Option<
    Vec<Binding<'a>>,
>)
    ensures
        match r {
            Some(entries) => match_fields(
                field_patterns_view(fields@),
                fields_view(value_fields@),
                0,
            ) == Some(bindings_view(entries@)),
            None => match_fields(field_patterns_view(fields@), fields_view(value_fields@), 0)
                is None,
        },
    decreases fields,
{
    let ghost fs = field_patterns_view(fields@);
    let ghost vs = fields_view(value_fields@);
    let mut entries: Vec<Binding<'a>> = no_entries();
    let mut i: usize = 0;
    while i < fields.len()
        invariant
            i <= fields.len(),
            fs == field_patterns_view(fields@),
            vs == fields_view(value_fields@),
            match_fields(fs, vs, 0) == match match_fields(fs, vs, i as int) {
                Some(rest) => Some(bindings_view(entries@) + rest),
                None => None,
            },
        decreases fields.len() - i,
    {
        assert(fs[i as int] == fields@[i as int]@);
        match find_field(value_fields, &fields[i].name) {
            Some(field) => match match_entries(&fields[i].pattern, field) {
                Some(more) => {
                    proof {
                        if let Some(rest) = match_fields(fs, vs, i + 1) {
                            assert((bindings_view(entries@) + bindings_view(more@)) + rest
                                =~= bindings_view(entries@) + (bindings_view(more@) + rest));
                        }
                    }
                    append_entries(&mut entries, more);
                },
                None => {
                    return None;
                },
            },
            None => {
                return None;
            },
        }
        i += 1;
    }
    assert(bindings_view(entries@) + Seq::<BindingView>::empty() =~= bindings_view(entries@));
    Some(entries)
}

/// Matches one pattern against one value. On success the environment holds the
/// pattern's bindings in the order in which the pattern introduces them.
pub fn structural_match<'a>(pattern: &Pattern, value: &'a Value) -> (r: Option<
    BindingEnvironment<'a>,
>)
    ensures
        match r {
            Some(env) => match_bindings(pattern@, value@) == Some(env@),
            None => match_bindings(pattern@, value@) is None,
        },
{
    match match_entries(pattern, value) {
        Some(entries) => Some(BindingEnvironment::from_entries(entries)),
        None => None,
    }
}

/// The outcome of a match in which no arm accepted the value.
#[derive(Clone, Copy, Debug, PartialEq, Eq)]
pub struct NoArmMatched;

/// Chooses the first arm, in declaration order, whose pattern matches `value`
/// and whose guard, if it has one, is true under the bindings of that match.
/// Returns that arm's index and bindings, or `NoArmMatched` if there is no
/// such arm.
///
/// An arm that accepts the value is never passed over for a later one, and a
/// list that ends in a wildcard arm without a guard always selects an arm.
/// The arms need not have passed validation: a comparison in a guard is
/// false where its name is unbound.
pub fn evaluate<'a>(value: &'a Value, arms: &Vec<MatchArm>) -> (r: Result<
    (usize, BindingEnvironment<'a>),
    NoArmMatched,
>)
    ensures
        match r {
            Ok((index, env)) => {
                &&& is_winner(arms_view(arms@), value@, index as int)
                &&& match_bindings(arms_view(arms@)[index as int].pattern, value@) == Some(env@)
            },
            Err(_) => none_selects(arms_view(arms@), value@),
        },
        r is Err <==> none_selects(arms_view(arms@), value@),
        forall|i: int|
            0 <= i < arms.len() && arm_selects(#[trigger] arms_view(arms@)[i], value@) ==> r is Ok
                && r->Ok_0.0 <= i,
        ends_in_wildcard(arms_view(arms@)) ==> r is Ok,
{
    let ghost views = arms_view(arms@);
    let mut i: usize = 0;
    while i < arms.len()
        invariant
            i <= arms.len(),
            views == arms_view(arms@),
            views.len() == arms.len(),
            none_selects(views.take(i as int), value@),
        decreases arms.len() - i,
    {
        assert(views[i as int] == arms@[i as int]@);
        match structural_match(&arms[i].pattern, value) {
            Some(env) => {
                let accepted = match &arms[i].guard {
                    Some(guard) => guard.holds(&env),
                    None => true,
                };
                if accepted {
                    proof {
                        lemma_nothing_before_winner(views, value@, i as int);
                    }
                    return Ok((i, env));
                }
            },
            None => {},
        }
        assert forall|k: int| 0 <= k < i + 1 implies !arm_selects(
            #[trigger] views.take(i + 1)[k],
            value@,
        ) by {
            if k < i {
                assert(views.take(i + 1)[k] == views.take(i as int)[k]);
            }
        }
        i += 1;
    }
    assert(views.take(i as int) =~= views);
    assert(ends_in_wildcard(views) ==> arm_selects(views[views.len() - 1], value@));
    Err(NoArmMatched)
}

/// No arm before the first that accepts the value accepts it.
proof fn lemma_nothing_before_winner(arms: Seq<ArmView>, value: ValueView, winner: int)
    requires
        is_winner(arms, value, winner),
    ensures
        forall|i: int| 0 <= i < arms.len() && arm_selects(#[trigger] arms[i], value) ==> winner <= i,
{
    assert forall|i: int| 0 <= i < arms.len() && arm_selects(#[trigger] arms[i], value) implies winner
        <= i by {
        if i < winner {
            assert(arms.take(winner)[i] == arms[i]);
        }
    }
}

} // verus!
