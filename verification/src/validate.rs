//! Checks on an arm list that need no value: that the alternatives of every
//! or-pattern bind the same names, that no pattern binds a name twice, and
//! that every guard speaks only of names that its pattern binds.

use crate::arm::{arms_view, ArmView, MatchArm};
use crate::guard::{guard_bound, Guard};
use crate::names::{all_distinct, contains_name, names_view, same_name_set};
use crate::pattern::{field_patterns_view, patterns_view, FieldPattern, Pattern, PatternView};
use vstd::prelude::*;

verus! {

/// The names that a pattern binds, in the order in which a match introduces
/// them. An or-pattern is taken to bind what its first alternative binds.
pub open spec fn bound_names(pattern: PatternView) -> Seq<Seq<char>>
    decreases pattern, 0nat,
{
    match pattern {
        PatternView::Binding(name) => seq![name],
        PatternView::Or(alternatives) => if alternatives.len() == 0 {
            Seq::empty()
        } else {
            bound_names(alternatives[0])
        },
        PatternView::Tuple(elements) => names_of_each(elements, 0),
        PatternView::StructPattern(_, fields, _) => names_of_fields(fields, 0),
        PatternView::VariantPattern(_, _, payload, ellipsis) => if ellipsis {
            Seq::empty()
        } else {
            names_of_each(payload, 0)
        },
        PatternView::Binder(inner, name, _) => bound_names(*inner).push(name),
        _ => Seq::empty(),
    }
}

/// The names that the patterns from position `from` on bind, one pattern
/// after the other.
pub open spec fn names_of_each(patterns: Seq<PatternView>, from: int) -> Seq<Seq<char>>
    decreases patterns, patterns.len() - from,
{
    if from < 0 || from >= patterns.len() {
        Seq::empty()
    } else {
        bound_names(patterns[from]) + names_of_each(patterns, from + 1)
    }
}

/// The names that the field patterns from position `from` on bind, one
/// pattern after the other.
pub open spec fn names_of_fields(fields: Seq<(Seq<char>, PatternView)>, from: int) -> Seq<
    Seq<char>,
>
    decreases fields, fields.len() - from,
{
    if from < 0 || from >= fields.len() {
        Seq::empty()
    } else {
        bound_names(fields[from].1) + names_of_fields(fields, from + 1)
    }
}

/// Whether the alternatives of every or-pattern inside the pattern, the
/// pattern itself included, bind the same set of names.
pub open spec fn or_consistent(pattern: PatternView) -> bool
    decreases pattern, 0nat,
{
    match pattern {
        PatternView::Or(alternatives) => each_or_consistent(alternatives, 0) && same_names(
            alternatives,
        ),
        PatternView::Tuple(elements) => each_or_consistent(elements, 0),
        PatternView::StructPattern(_, fields, _) => fields_or_consistent(fields, 0),
        PatternView::VariantPattern(_, _, payload, _) => each_or_consistent(payload, 0),
        PatternView::Binder(inner, _, _) => or_consistent(*inner),
        _ => true,
    }
}

/// Whether each alternative binds the same set of names as the first.
pub open spec fn same_names(alternatives: Seq<PatternView>) -> bool {
    forall|i: int|
        0 <= i < alternatives.len() ==> bound_names(#[trigger] alternatives[i]).to_set()
            == bound_names(alternatives[0]).to_set()
}

/// Whether [`or_consistent`] holds of each pattern from position `from` on.
pub open spec fn each_or_consistent(patterns: Seq<PatternView>, from: int) -> bool
    decreases patterns, patterns.len() - from,
{
    if from < 0 || from >= patterns.len() {
        true
    } else {
        or_consistent(patterns[from]) && each_or_consistent(patterns, from + 1)
    }
}

/// Whether [`or_consistent`] holds of each field pattern from position `from` on.
pub open spec fn fields_or_consistent(fields: Seq<(Seq<char>, PatternView)>, from: int) -> bool
    decreases fields, fields.len() - from,
{
    if from < 0 || from >= fields.len() {
        true
    } else {
        or_consistent(fields[from].1) && fields_or_consistent(fields, from + 1)
    }
}

/// Whether no match of the pattern can bind a name twice: the pattern's names
/// are distinct, and so are those of each pattern inside it that takes part in
/// a match.
pub open spec fn names_distinct(pattern: PatternView) -> bool
    decreases pattern, 0nat,
{
    &&& bound_names(pattern).no_duplicates()
    &&& match pattern {
        PatternView::Or(alternatives) => each_names_distinct(alternatives, 0),
        PatternView::Tuple(elements) => each_names_distinct(elements, 0),
        PatternView::StructPattern(_, fields, _) => fields_names_distinct(fields, 0),
        PatternView::VariantPattern(_, _, payload, ellipsis) => ellipsis || each_names_distinct(
            payload,
            0,
        ),
        PatternView::Binder(inner, _, _) => names_distinct(*inner),
        _ => true,
    }
}

/// Whether [`names_distinct`] holds of each pattern from position `from` on.
pub open spec fn each_names_distinct(patterns: Seq<PatternView>, from: int) -> bool
    decreases patterns, patterns.len() - from,
{
    if from < 0 || from >= patterns.len() {
        true
    } else {
        names_distinct(patterns[from]) && each_names_distinct(patterns, from + 1)
    }
}

/// Whether [`names_distinct`] holds of each field pattern from position `from` on.
pub open spec fn fields_names_distinct(fields: Seq<(Seq<char>, PatternView)>, from: int) -> bool
    decreases fields, fields.len() - from,
{
    if from < 0 || from >= fields.len() {
        true
    } else {
        names_distinct(fields[from].1) && fields_names_distinct(fields, from + 1)
    }
}

/// What is wrong with an arm.
#[derive(Clone, Copy, Debug, PartialEq, Eq)]
pub enum Fault {
    /// The alternatives of an or-pattern bind different sets of names.
    InconsistentOrBindings,
    /// A pattern binds one name twice.
    DuplicateBinding,
    /// The guard mentions a name that the pattern does not bind.
    UnboundGuardVariable,
}

/// The fault of an arm, if it has one. Where it has several, the one that
/// comes first in the order of [`Fault`]'s variants.
pub open spec fn arm_fault(arm: ArmView) -> Option<Fault> {
    if !or_consistent(arm.pattern) {
        Some(Fault::InconsistentOrBindings)
    } else if !names_distinct(arm.pattern) {
        Some(Fault::DuplicateBinding)
    } else if arm.guard matches Some(guard) && !guard_bound(
        guard,
        bound_names(arm.pattern).to_set(),
    ) {
        Some(Fault::UnboundGuardVariable)
    } else {
        None
    }
}

/// Whether no arm of the list has a fault.
pub open spec fn arms_valid(arms: Seq<ArmView>) -> bool {
    forall|i: int| 0 <= i < arms.len() ==> arm_fault(#[trigger] arms[i]) is None
}

/// The first faulty arm of a list, and what is wrong with it.
#[derive(Clone, Copy, Debug, PartialEq, Eq)]
pub struct PatternValidationError {
    /// The index of the arm.
    pub arm: usize,
    pub fault: Fault,
}

/// Moves the names of `more` behind those of `names`.
fn append_names(names: &mut Vec<String>, more: Vec<String>)
    ensures
        names_view(final(names)@) == names_view(old(names)@) + names_view(more@),
{
    let mut more = more;
    let ghost added = more@;
    names.append(&mut more);
    assert(names_view(names@) =~= names_view(old(names)@) + names_view(added));
}

/// A list without names.
fn no_names() -> (names: Vec<String>)
    ensures
        names_view(names@) == Seq::<Seq<char>>::empty(),
{
    let names: Vec<String> = Vec::new();
    assert(names_view(names@) =~= Seq::empty());
    names
}

/// The names that a pattern binds, in the order in which a match introduces them.
pub fn binding_names(pattern: &Pattern) -> (names: Vec<String>)
    ensures
        names_view(names@) == bound_names(pattern@),
    decreases pattern,
{
    match pattern {
        Pattern::Binding(name) => {
            let mut names: Vec<String> = Vec::new();
            names.push(name.clone());
            assert(names_view(names@) =~= seq![name@]);
            names
        },
        Pattern::Or(alternatives) => if alternatives.len() == 0 {
            assert(patterns_view(alternatives@).len() == 0);
            no_names()
        } else {
            assert(patterns_view(alternatives@)[0] == alternatives@[0]@);
            binding_names(&alternatives[0])
        },
        Pattern::Tuple(elements) => names_of_patterns(elements),
        Pattern::StructPattern(_, fields, _) => {
            let ghost fs = field_patterns_view(fields@);
            let mut names: Vec<String> = no_names();
            let mut i: usize = 0;
            while i < fields.len()
                invariant
                    i <= fields.len(),
                    fs == field_patterns_view(fields@),
                    forall|k: int| 0 <= k < fields.len() ==> decreases_to!(pattern => fields@[k]),
                    names_of_fields(fs, 0) == names_view(names@) + names_of_fields(fs, i as int),
                decreases fields.len() - i,
            {
                assert(fs[i as int] == fields@[i as int]@);
                let more = binding_names(&fields[i].pattern);
                assert((names_view(names@) + names_view(more@)) + names_of_fields(fs, i + 1)
                    =~= names_view(names@) + (names_view(more@) + names_of_fields(fs, i + 1)));
                append_names(&mut names, more);
                i += 1;
            }
            assert(names_view(names@) + Seq::<Seq<char>>::empty() =~= names_view(names@));
            names
        },
        Pattern::VariantPattern(_, _, payload, ellipsis) => if *ellipsis {
            no_names()
        } else {
            names_of_patterns(payload)
        },
        Pattern::Binder(inner, name, _) => {
            let mut names = binding_names(inner);
            let ghost before = names_view(names@);
            names.push(name.clone());
            assert(names_view(names@) =~= before.push(name@));
            names
        },
        _ => no_names(),
    }
}

/// The names that the patterns of a list bind, one pattern after the other.
fn names_of_patterns(patterns: &Vec<Pattern>) -> (names: Vec<String>)
    ensures
        names_view(names@) == names_of_each(patterns_view(patterns@), 0),
    decreases patterns,
{
    let ghost ps = patterns_view(patterns@);
    let mut names: Vec<String> = no_names();
    let mut i: usize = 0;
    while i < patterns.len()
        invariant
            i <= patterns.len(),
            ps == patterns_view(patterns@),
            names_of_each(ps, 0) == names_view(names@) + names_of_each(ps, i as int),
        decreases patterns.len() - i,
    {
        assert(ps[i as int] == patterns@[i as int]@);
        let more = binding_names(&patterns[i]);
        assert((names_view(names@) + names_view(more@)) + names_of_each(ps, i + 1) =~= names_view(
            names@,
        ) + (names_view(more@) + names_of_each(ps, i + 1)));
        append_names(&mut names, more);
        i += 1;
    }
    assert(names_view(names@) + Seq::<Seq<char>>::empty() =~= names_view(names@));
    names
}

/// Whether the alternatives of every or-pattern inside the pattern bind the
/// same set of names.
pub fn is_or_consistent(pattern: &Pattern) -> (b: bool)
    ensures
        b == or_consistent(pattern@),
    decreases pattern,
{
    match pattern {
        Pattern::Or(alternatives) => all_or_consistent(alternatives) && alternatives_agree(
            alternatives,
        ),
        Pattern::Tuple(elements) => all_or_consistent(elements),
        Pattern::StructPattern(_, fields, _) => all_fields_or_consistent(fields),
        Pattern::VariantPattern(_, _, payload, _) => all_or_consistent(payload),
        Pattern::Binder(inner, _, _) => is_or_consistent(inner),
        _ => true,
    }
}

/// Whether each alternative binds the same set of names as the first.
fn alternatives_agree(alternatives: &Vec<Pattern>) -> (b: bool)
    ensures
        b == same_names(patterns_view(alternatives@)),
{
    let ghost alts = patterns_view(alternatives@);
    if alternatives.len() == 0 {
        return true;
    }
    assert(alts[0] == alternatives@[0]@);
    let first = binding_names(&alternatives[0]);
    let mut i: usize = 1;
    while i < alternatives.len()
        invariant
            1 <= i <= alternatives.len(),
            alts == patterns_view(alternatives@),
            alts.len() == alternatives.len(),
            names_view(first@) == bound_names(alts[0]),
            forall|k: int|
                0 <= k < i ==> bound_names(#[trigger] alts[k]).to_set() == bound_names(
                    alts[0],
                ).to_set(),
        decreases alternatives.len() - i,
    {
        assert(alts[i as int] == alternatives@[i as int]@);
        let names = binding_names(&alternatives[i]);
        if !same_name_set(&names, &first) {
            return false;
        }
        i += 1;
    }
    true
}

/// Whether each pattern of a list passes [`is_or_consistent`].
fn all_or_consistent(patterns: &Vec<Pattern>) -> (b: bool)
    ensures
        b == each_or_consistent(patterns_view(patterns@), 0),
    decreases patterns,
{
    let ghost ps = patterns_view(patterns@);
    let mut i: usize = 0;
    while i < patterns.len()
        invariant
            i <= patterns.len(),
            ps == patterns_view(patterns@),
            ps.len() == patterns.len(),
            each_or_consistent(ps, 0) == each_or_consistent(ps, i as int),
        decreases patterns.len() - i,
    {
        assert(ps[i as int] == patterns@[i as int]@);
        if !is_or_consistent(&patterns[i]) {
            return false;
        }
        i += 1;
    }
    true
}

/// Whether each field pattern of a list passes [`is_or_consistent`].
fn all_fields_or_consistent(fields: &Vec<FieldPattern>) -> (b: bool)
    ensures
        b == fields_or_consistent(field_patterns_view(fields@), 0),
    decreases fields,
{
    let ghost fs = field_patterns_view(fields@);
    let mut i: usize = 0;
    while i < fields.len()
        invariant
            i <= fields.len(),
            fs == field_patterns_view(fields@),
            fs.len() == fields.len(),
            fields_or_consistent(fs, 0) == fields_or_consistent(fs, i as int),
        decreases fields.len() - i,
    {
        assert(fs[i as int] == fields@[i as int]@);
        if !is_or_consistent(&fields[i].pattern) {
            return false;
        }
        i += 1;
    }
    true
}

/// Whether no match of the pattern can bind a name twice.
pub fn has_distinct_names(pattern: &Pattern) -> (b: bool)
    ensures
        b == names_distinct(pattern@),
    decreases pattern,
{
    let names = binding_names(pattern);
    if !all_distinct(&names) {
        return false;
    }
    match pattern {
        Pattern::Or(alternatives) => all_have_distinct_names(alternatives),
        Pattern::Tuple(elements) => all_have_distinct_names(elements),
        Pattern::StructPattern(_, fields, _) => all_fields_have_distinct_names(fields),
        Pattern::VariantPattern(_, _, payload, ellipsis) => *ellipsis || all_have_distinct_names(
            payload,
        ),
        Pattern::Binder(inner, _, _) => has_distinct_names(inner),
        _ => true,
    }
}

/// Whether each pattern of a list passes [`has_distinct_names`].
fn all_have_distinct_names(patterns: &Vec<Pattern>) -> (b: bool)
    ensures
        b == each_names_distinct(patterns_view(patterns@), 0),
    decreases patterns,
{
    let ghost ps = patterns_view(patterns@);
    let mut i: usize = 0;
    while i < patterns.len()
        invariant
            i <= patterns.len(),
            ps == patterns_view(patterns@),
            ps.len() == patterns.len(),
            each_names_distinct(ps, 0) == each_names_distinct(ps, i as int),
        decreases patterns.len() - i,
    {
        assert(ps[i as int] == patterns@[i as int]@);
        if !has_distinct_names(&patterns[i]) {
            return false;
        }
        i += 1;
    }
    true
}

/// Whether each field pattern of a list passes [`has_distinct_names`].
fn all_fields_have_distinct_names(fields: &Vec<FieldPattern>) -> (b: bool)
    ensures
        b == fields_names_distinct(field_patterns_view(fields@), 0),
    decreases fields,
{
    let ghost fs = field_patterns_view(fields@);
    let mut i: usize = 0;
    while i < fields.len()
        invariant
            i <= fields.len(),
            fs == field_patterns_view(fields@),
            fs.len() == fields.len(),
            fields_names_distinct(fs, 0) == fields_names_distinct(fs, i as int),
        decreases fields.len() - i,
    {
        assert(fs[i as int] == fields@[i as int]@);
        if !has_distinct_names(&fields[i].pattern) {
            return false;
        }
        i += 1;
    }
    true
}

/// Whether every name that the guard mentions is among `names`.
pub fn guard_names_bound(guard: &Guard, names: &Vec<String>) -> (b: bool)
    ensures
        b == guard_bound(guard@, names_view(names@).to_set()),
    decreases guard,
{
    match guard {
        Guard::Compare(name, _, _) => contains_name(names, name),
        Guard::Not(inner) => guard_names_bound(inner, names),
        Guard::And(left, right) => guard_names_bound(left, names) && guard_names_bound(
            right,
            names,
        ),
        Guard::Or(left, right) => guard_names_bound(left, names) && guard_names_bound(right, names),
    }
}

/// The fault of an arm, if it has one.
pub fn check_arm(arm: &MatchArm) -> (fault: Option<Fault>)
    ensures
        fault == arm_fault(arm@),
{
    if !is_or_consistent(&arm.pattern) {
        return Some(Fault::InconsistentOrBindings);
    }
    if !has_distinct_names(&arm.pattern) {
        return Some(Fault::DuplicateBinding);
    }
    match &arm.guard {
        Some(guard) => {
            let names = binding_names(&arm.pattern);
            if !guard_names_bound(guard, &names) {
                return Some(Fault::UnboundGuardVariable);
            }
        },
        None => {},
    }
    None
}

/// Checks an arm list before any value is matched against it. Succeeds if no
/// arm has a fault; else reports the first faulty arm and its fault.
pub fn validate(arms: &Vec<MatchArm>) -> (r: Result<(), PatternValidationError>)
    ensures
        r is Ok <==> arms_valid(arms_view(arms@)),
        match r {
            Ok(_) => arms_valid(arms_view(arms@)),
            Err(error) => {
                &&& error.arm < arms.len()
                &&& arm_fault(arms_view(arms@)[error.arm as int]) == Some(error.fault)
                &&& arms_valid(arms_view(arms@).take(error.arm as int))
            },
        },
{
    let ghost views = arms_view(arms@);
    let mut i: usize = 0;
    while i < arms.len()
        invariant
            i <= arms.len(),
            views == arms_view(arms@),
            views.len() == arms.len(),
            arms_valid(views.take(i as int)),
        decreases arms.len() - i,
    {
        assert(views[i as int] == arms@[i as int]@);
        match check_arm(&arms[i]) {
            Some(fault) => {
                assert(arm_fault(views[i as int]) is Some);
                return Err(PatternValidationError { arm: i, fault });
            },
            None => {},
        }
        assert forall|k: int| 0 <= k < i + 1 implies arm_fault(#[trigger] views.take(i + 1)[k])
            is None by {
            if k < i {
                assert(views.take(i + 1)[k] == views.take(i as int)[k]);
            }
        }
        i += 1;
    }
    assert(views.take(i as int) =~= views);
    Ok(())
}

} // verus!
