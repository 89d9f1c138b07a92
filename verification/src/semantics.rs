//! What it means for a pattern to match a value, and which bindings result.

use crate::bindings::BindingView;
use crate::pattern::{PatternView, ScalarView};
use crate::value::{field_value, ValueView};
use vstd::prelude::*;

verus! {

/// Whether a value is a scalar of the bounds' kind that lies between them,
/// both included. Characters are ordered by code point.
pub open spec fn in_range(low: ScalarView, high: ScalarView, value: ValueView) -> bool {
    match (low, high, value) {
        (ScalarView::Int(lo), ScalarView::Int(hi), ValueView::Int(n)) => lo <= n <= hi,
        (ScalarView::Char(lo), ScalarView::Char(hi), ValueView::Char(c)) => lo <= c as int <= hi,
        _ => false,
    }
}

/// Whether one of the field patterns is for the field called `name`.
pub open spec fn names_field(fields: Seq<(Seq<char>, PatternView)>, name: Seq<char>) -> bool {
    exists|j: int| 0 <= j < fields.len() && (#[trigger] fields[j]).0 == name
}

/// Whether each field of a struct value is named by one of the field patterns.
pub open spec fn fields_covered(
    fields: Seq<(Seq<char>, PatternView)>,
    value_fields: Seq<(Seq<char>, ValueView)>,
) -> bool {
    forall|i: int|
        0 <= i < value_fields.len() ==> names_field(fields, (#[trigger] value_fields[i]).0)
}

/// The bindings that matching a pattern against a value produces, in the order
/// in which the pattern introduces them; `None` where the pattern does not match.
pub open spec fn match_bindings(pattern: PatternView, value: ValueView) -> Option<Seq<BindingView>>
    decreases pattern, 0nat,
{
    match pattern {
        PatternView::Wildcard => Some(Seq::empty()),
        PatternView::Binding(name) => Some(seq![BindingView { name, value, by_reference: false }]),
        PatternView::LiteralInt(n) => if value == ValueView::Int(n) {
            Some(Seq::empty())
        } else {
            None
        },
        PatternView::LiteralChar(c) => if value matches ValueView::Char(d) && d as int == c {
            Some(Seq::empty())
        } else {
            None
        },
        PatternView::LiteralBool(b) => if value == ValueView::Bool(b) {
            Some(Seq::empty())
        } else {
            None
        },
        PatternView::LiteralStr(s) => if value == ValueView::Str(s) {
            Some(Seq::empty())
        } else {
            None
        },
        PatternView::Range(low, high) => if in_range(low, high, value) {
            Some(Seq::empty())
        } else {
            None
        },
        PatternView::Or(alternatives) => match_first(alternatives, value, 0),
        PatternView::Tuple(elements) => match value {
            ValueView::Tuple(items) => if items.len() == elements.len() {
                match_each(elements, items, 0)
            } else {
                None
            },
            _ => None,
        },
        PatternView::StructPattern(name, fields, has_rest) => match value {
            ValueView::Struct(value_name, value_fields) => if value_name == name && (has_rest
                || fields_covered(fields, value_fields)) {
                match_fields(fields, value_fields, 0)
            } else {
                None
            },
            _ => None,
        },
        PatternView::VariantPattern(enum_name, case_name, payload, ellipsis) => match value {
            ValueView::Variant(value_enum, value_case, items) => if value_enum == enum_name
                && value_case == case_name {
                if ellipsis {
                    Some(Seq::empty())
                } else if items.len() == payload.len() {
                    match_each(payload, items, 0)
                } else {
                    None
                }
            } else {
                None
            },
            _ => None,
        },
        PatternView::Binder(inner, name, by_reference) => match match_bindings(*inner, value) {
            Some(env) => Some(env.push(BindingView { name, value, by_reference })),
            None => None,
        },
    }
}

/// The bindings of the first alternative, from position `from` on, that
/// matches the value; `None` where none does.
pub open spec fn match_first(alternatives: Seq<PatternView>, value: ValueView, from: int) -> Option<
    Seq<BindingView>,
>
    decreases alternatives, alternatives.len() - from,
{
    if from < 0 || from >= alternatives.len() {
        None
    } else {
        match match_bindings(alternatives[from], value) {
            Some(env) => Some(env),
            None => match_first(alternatives, value, from + 1),
        }
    }
}

/// The bindings of matching each pattern from position `from` on against the
/// item at the same position, one after the other; `None` where one of them
/// does not match.
pub open spec fn match_each(patterns: Seq<PatternView>, items: Seq<ValueView>, from: int) -> Option<
    Seq<BindingView>,
>
    decreases patterns, patterns.len() - from,
{
    if from < 0 || from >= patterns.len() {
        Some(Seq::empty())
    } else if from >= items.len() {
        None
    } else {
        match match_bindings(patterns[from], items[from]) {
            Some(env) => match match_each(patterns, items, from + 1) {
                Some(rest) => Some(env + rest),
                None => None,
            },
            None => None,
        }
    }
}

/// The bindings of matching each field pattern from position `from` on against
/// the field of its name, one after the other; `None` where a named field is
/// missing or does not match.
pub open spec fn match_fields(
    fields: Seq<(Seq<char>, PatternView)>,
    value_fields: Seq<(Seq<char>, ValueView)>,
    from: int,
) -> Option<Seq<BindingView>>
    decreases fields, fields.len() - from,
{
    if from < 0 || from >= fields.len() {
        Some(Seq::empty())
    } else {
        match field_value(value_fields, fields[from].0) {
            Some(field) => match match_bindings(fields[from].1, field) {
                Some(env) => match match_fields(fields, value_fields, from + 1) {
                    Some(rest) => Some(env + rest),
                    None => None,
                },
                None => None,
            },
            None => None,
        }
    }
}

} // verus!
