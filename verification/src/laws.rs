//! Properties of matching and validation that hold of every input.

use crate::arm::{arm_selects, ends_in_wildcard, is_winner, none_selects, ArmView};
use crate::bindings::BindingView;
use crate::guard::{guard_bound, guard_holds, GuardView};
use crate::pattern::{PatternView, ScalarView};
use crate::schema::{conforms, declared_arity, EnumDeclarationView};
use crate::semantics::match_bindings;
use crate::validate::{arm_fault, arms_valid, bound_names, or_consistent, same_names, Fault};
use crate::value::ValueView;
use vstd::prelude::*;

verus! {

/// Unless no arm accepts the value, some arm is the first that accepts it.
pub proof fn lemma_winner_exists(arms: Seq<ArmView>, value: ValueView)
    ensures
        none_selects(arms, value) || exists|index: int| is_winner(arms, value, index),
    decreases arms.len(),
{
    if arms.len() > 0 {
        let front = arms.drop_last();
        lemma_winner_exists(front, value);
        if none_selects(front, value) {
            if arm_selects(arms.last(), value) {
                assert(arms.take(arms.len() - 1) =~= front);
                assert(is_winner(arms, value, arms.len() - 1));
            } else {
                assert forall|i: int| 0 <= i < arms.len() implies !arm_selects(
                    #[trigger] arms[i],
                    value,
                ) by {
                    if i < arms.len() - 1 {
                        assert(arms[i] == front[i]);
                    }
                }
            }
        } else {
            let index = choose|index: int| is_winner(front, value, index);
            assert(front.take(index) =~= arms.take(index));
            assert(front[index] == arms[index]);
            assert(is_winner(arms, value, index));
        }
    }
}

/// At most one arm is the first that accepts the value.
pub proof fn lemma_winner_unique(arms: Seq<ArmView>, value: ValueView, first: int, second: int)
    requires
        is_winner(arms, value, first),
        is_winner(arms, value, second),
    ensures
        first == second,
{
    if first < second {
        assert(arms.take(second)[first] == arms[first]);
    } else if second < first {
        assert(arms.take(first)[second] == arms[second]);
    }
}

/// An arm list that ends in a wildcard arm without a guard selects an arm for
/// every value.
pub proof fn lemma_trailing_wildcard_is_total(arms: Seq<ArmView>, value: ValueView)
    requires
        ends_in_wildcard(arms),
    ensures
        !none_selects(arms, value),
        exists|index: int| is_winner(arms, value, index),
{
    assert(arm_selects(arms[arms.len() - 1], value));
    lemma_winner_exists(arms, value);
}

/// No guard is bound by a pattern that binds no name.
pub proof fn lemma_guard_needs_a_name(guard: GuardView)
    ensures
        !guard_bound(guard, Set::<Seq<char>>::empty()),
    decreases guard,
{
    match guard {
        GuardView::Compare(_, _, _) => {},
        GuardView::Not(inner) => lemma_guard_needs_a_name(*inner),
        GuardView::And(left, _) => lemma_guard_needs_a_name(*left),
        GuardView::Or(left, _) => lemma_guard_needs_a_name(*left),
    }
}

/// An arm list without faults that ends in a wildcard arm selects an arm for
/// every value: a wildcard binds no name, so that arm has no guard.
pub proof fn lemma_valid_trailing_wildcard_is_total(arms: Seq<ArmView>, value: ValueView)
    requires
        arms.len() > 0,
        arms.last().pattern is Wildcard,
        arms_valid(arms),
    ensures
        arms.last().guard is None,
        !none_selects(arms, value),
        exists|index: int| is_winner(arms, value, index),
{
    let last = arms[arms.len() - 1];
    assert(arm_fault(last) is None);
    if let Some(guard) = last.guard {
        lemma_guard_needs_a_name(guard);
        assert(bound_names(last.pattern).to_set() =~= Set::<Seq<char>>::empty());
    }
    lemma_trailing_wildcard_is_total(arms, value);
}

/// Of two arms that both accept the value, the later one is never selected:
/// the selected arm stands at or before the earlier one.
pub proof fn lemma_first_match_wins(
    arms: Seq<ArmView>,
    value: ValueView,
    earlier: int,
    later: int,
    winner: int,
)
    requires
        0 <= earlier < later < arms.len(),
        arm_selects(arms[earlier], value),
        arm_selects(arms[later], value),
        is_winner(arms, value, winner),
    ensures
        winner <= earlier,
        winner != later,
{
    if winner > earlier {
        assert(arms.take(winner)[earlier] == arms[earlier]);
    }
}

/// Two arms whose patterns both match the value, neither with a guard: the
/// first is selected, whatever the patterns are.
pub proof fn lemma_earlier_of_two_wins(first: ArmView, second: ArmView, value: ValueView)
    requires
        match_bindings(first.pattern, value) is Some,
        match_bindings(second.pattern, value) is Some,
        first.guard is None,
    ensures
        is_winner(seq![first, second], value, 0),
{
}

/// An arm whose pattern matches but whose guard is false is not selected.
pub proof fn lemma_false_guard_skips(
    arms: Seq<ArmView>,
    value: ValueView,
    index: int,
    env: Seq<BindingView>,
    guard: GuardView,
)
    requires
        0 <= index < arms.len(),
        match_bindings(arms[index].pattern, value) == Some(env),
        arms[index].guard == Some(guard),
        !guard_holds(guard, env),
    ensures
        !is_winner(arms, value, index),
{
}

/// Where no arm before a wildcard arm without a guard accepts the value, be it
/// that its pattern does not match or that its guard is false, the wildcard
/// arm is selected.
pub proof fn lemma_skipped_arms_reach_wildcard(arms: Seq<ArmView>, value: ValueView, index: int)
    requires
        0 <= index < arms.len(),
        arms[index].pattern is Wildcard,
        arms[index].guard is None,
        forall|i: int| 0 <= i < index ==> !arm_selects(#[trigger] arms[i], value),
    ensures
        is_winner(arms, value, index),
{
    assert forall|i: int| 0 <= i < arms.take(index).len() implies !arm_selects(
        #[trigger] arms.take(index)[i],
        value,
    ) by {
        assert(arms.take(index)[i] == arms[i]);
    }
}

/// An or-pattern two of whose alternatives bind different sets of names is a
/// fault of its arm, and an arm list that holds such an arm is not valid.
pub proof fn lemma_inconsistent_or_is_rejected(
    arms: Seq<ArmView>,
    index: int,
    alternatives: Seq<PatternView>,
    one: int,
    other: int,
)
    requires
        0 <= index < arms.len(),
        arms[index].pattern == PatternView::Or(alternatives),
        0 <= one < alternatives.len(),
        0 <= other < alternatives.len(),
        bound_names(alternatives[one]).to_set() != bound_names(alternatives[other]).to_set(),
    ensures
        arm_fault(arms[index]) == Some(Fault::InconsistentOrBindings),
        !arms_valid(arms),
{
    if same_names(alternatives) {
        assert(bound_names(alternatives[one]).to_set() == bound_names(alternatives[0]).to_set());
        assert(bound_names(alternatives[other]).to_set() == bound_names(alternatives[0]).to_set());
    }
    assert(!or_consistent(arms[index].pattern));
}

/// An integer range matches exactly the integers from its lower to its upper
/// bound, both included, and binds nothing.
pub proof fn lemma_int_range_is_inclusive(low: int, high: int, n: int)
    ensures
        match_bindings(
            PatternView::Range(ScalarView::Int(low), ScalarView::Int(high)),
            ValueView::Int(n),
        ) == if low <= n <= high {
            Some(Seq::<BindingView>::empty())
        } else {
            None
        },
{
}

/// A character range matches exactly the characters whose code point lies
/// between those of its bounds, both included, and binds nothing.
pub proof fn lemma_char_range_is_inclusive(low: char, high: char, c: char)
    ensures
        match_bindings(
            PatternView::Range(ScalarView::Char(low as int), ScalarView::Char(high as int)),
            ValueView::Char(c),
        ) == if low as int <= c as int <= high as int {
            Some(Seq::<BindingView>::empty())
        } else {
            None
        },
{
}

/// A range matches no value of another kind than its bounds.
pub proof fn lemma_range_rejects_other_kinds(low: ScalarView, high: ScalarView, value: ValueView)
    requires
        match_bindings(PatternView::Range(low, high), value) is Some,
    ensures
        (low is Int && high is Int && value is Int) || (low is Char && high is Char
            && value is Char),
{
}

/// A variant pattern that looks at the payload matches a value that keeps to
/// the declarations only if it has as many payload patterns as the case was
/// declared with.
pub proof fn lemma_matched_payload_has_declared_length(
    declarations: Seq<EnumDeclarationView>,
    enum_name: Seq<char>,
    case_name: Seq<char>,
    payload: Seq<PatternView>,
    value: ValueView,
)
    requires
        conforms(value, declarations),
        match_bindings(
            PatternView::VariantPattern(enum_name, case_name, payload, false),
            value,
        ) is Some,
    ensures
        declared_arity(declarations, enum_name, case_name) == Some(payload.len()),
{
}

} // verus!
