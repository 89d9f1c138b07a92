//! Match arms, and which arm of a list a value selects.

use crate::guard::{guard_holds, Guard, GuardView};
use crate::pattern::{Pattern, PatternView};
use crate::semantics::match_bindings;
use crate::value::ValueView;
use vstd::prelude::*;

verus! {

/// The mathematical content of a [`MatchArm`].
pub struct ArmView {
    pub pattern: PatternView,
    pub guard: Option<GuardView>,
    pub handler: Seq<char>,
}

/// One arm of a match: a pattern, an optional guard, and the name of the
/// handler that the caller runs when the arm is selected.
#[derive(Debug, PartialEq, Eq)]
pub struct MatchArm {
    pub pattern: Pattern,
    pub guard: Option<Guard>,
    pub handler: String,
}

impl View for MatchArm {
    type V = ArmView;

    open spec fn view(&self) -> ArmView {
        ArmView {
            pattern: self.pattern@,
            guard: match self.guard {
                Some(guard) => Some(guard@),
                None => None,
            },
            handler: self.handler@,
        }
    }
}

impl Clone for MatchArm {
    /// A deep copy: an independent arm with the same content.
    fn clone(&self) -> (r: Self)
        ensures
            r@ == self@,
    {
        MatchArm {
            pattern: self.pattern.clone(),
            guard: match &self.guard {
                Some(guard) => Some(guard.clone()),
                None => None,
            },
            handler: self.handler.clone(),
        }
    }
}

/// The views of a list of arms, element by element.
pub open spec fn arms_view(arms: Seq<MatchArm>) -> Seq<ArmView> {
    Seq::new(arms.len(), |i: int| arms[i]@)
}

/// Whether an arm accepts a value: its pattern matches, and its guard, if it
/// has one, is true under the bindings of that match.
pub open spec fn arm_selects(arm: ArmView, value: ValueView) -> bool {
    match match_bindings(arm.pattern, value) {
        Some(env) => match arm.guard {
            Some(guard) => guard_holds(guard, env),
            None => true,
        },
        None => false,
    }
}

/// Whether no arm of the list accepts the value.
pub open spec fn none_selects(arms: Seq<ArmView>, value: ValueView) -> bool {
    forall|i: int| 0 <= i < arms.len() ==> !arm_selects(#[trigger] arms[i], value)
}

/// Whether the arm at `index` is the first of the list that accepts the value.
pub open spec fn is_winner(arms: Seq<ArmView>, value: ValueView, index: int) -> bool {
    &&& 0 <= index < arms.len()
    &&& arm_selects(arms[index], value)
    &&& none_selects(arms.take(index), value)
}

/// Whether the list ends in a wildcard arm without a guard.
pub open spec fn ends_in_wildcard(arms: Seq<ArmView>) -> bool {
    arms.len() > 0 && arms.last().pattern is Wildcard && arms.last().guard is None
}

} // verus!
