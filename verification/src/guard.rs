//! Guards: boolean conditions over the names that a pattern has bound.

use crate::bindings::{lookup, BindingEnvironment, BindingView};
use crate::value::{Value, ValueView};
use vstd::prelude::*;

verus! {

/// An order relation between two integers.
#[derive(Clone, Copy, Debug, PartialEq, Eq)]
pub enum Comparison {
    Less,
    LessOrEqual,
    Equal,
    NotEqual,
    GreaterOrEqual,
    Greater,
}

impl Comparison {
    /// Whether `left` stands in this relation to `right`.
    pub open spec fn relates(self, left: int, right: int) -> bool {
        match self {
            Comparison::Less => left < right,
            Comparison::LessOrEqual => left <= right,
            Comparison::Equal => left == right,
            Comparison::NotEqual => left != right,
            Comparison::GreaterOrEqual => left >= right,
            Comparison::Greater => left > right,
        }
    }

    /// Whether `left` stands in this relation to `right`.
    pub fn test(self, left: i64, right: i64) -> (b: bool)
        ensures
            b == self.relates(left as int, right as int),
    {
        match self {
            Comparison::Less => left < right,
            Comparison::LessOrEqual => left <= right,
            Comparison::Equal => left == right,
            Comparison::NotEqual => left != right,
            Comparison::GreaterOrEqual => left >= right,
            Comparison::Greater => left > right,
        }
    }
}

/// The mathematical content of a [`Guard`].
pub enum GuardView {
    Compare(Seq<char>, Comparison, int),
    Not(Box<GuardView>),
    And(Box<GuardView>, Box<GuardView>),
    Or(Box<GuardView>, Box<GuardView>),
}

/// A condition on the bindings of a match.
#[derive(Debug, PartialEq, Eq)]
pub enum Guard {
    /// The name is bound to an integer that stands in the relation to the given one.
    Compare(String, Comparison, i64),
    Not(Box<Guard>),
    And(Box<Guard>, Box<Guard>),
    Or(Box<Guard>, Box<Guard>),
}

impl View for Guard {
    type V = GuardView;

    open spec fn view(&self) -> GuardView
        decreases self,
    {
        match self {
            Guard::Compare(name, relation, bound) => GuardView::Compare(
                name@,
                *relation,
                *bound as int,
            ),
            Guard::Not(inner) => GuardView::Not(Box::new((**inner).view())),
            Guard::And(left, right) => GuardView::And(
                Box::new((**left).view()),
                Box::new((**right).view()),
            ),
            Guard::Or(left, right) => GuardView::Or(
                Box::new((**left).view()),
                Box::new((**right).view()),
            ),
        }
    }
}

/// Whether a guard is true under an environment. A comparison is false where
/// its name is unbound or bound to anything but an integer.
pub open spec fn guard_holds(guard: GuardView, env: Seq<BindingView>) -> bool
    decreases guard,
{
    match guard {
        GuardView::Compare(name, relation, bound) => match lookup(env, name) {
            Some(ValueView::Int(n)) => relation.relates(n, bound),
            _ => false,
        },
        GuardView::Not(inner) => !guard_holds(*inner, env),
        GuardView::And(left, right) => guard_holds(*left, env) && guard_holds(*right, env),
        GuardView::Or(left, right) => guard_holds(*left, env) || guard_holds(*right, env),
    }
}

/// Whether every name that a guard mentions is among `names`.
pub open spec fn guard_bound(guard: GuardView, names: Set<Seq<char>>) -> bool
    decreases guard,
{
    match guard {
        GuardView::Compare(name, _, _) => names.contains(name),
        GuardView::Not(inner) => guard_bound(*inner, names),
        GuardView::And(left, right) => guard_bound(*left, names) && guard_bound(*right, names),
        GuardView::Or(left, right) => guard_bound(*left, names) && guard_bound(*right, names),
    }
}

impl Guard {
    /// Evaluates the guard under the bindings of a match.
    pub fn holds(&self, env: &BindingEnvironment) -> (b: bool)
        ensures
            b == guard_holds(self@, env@),
        decreases self,
    {
        match self {
            Guard::Compare(name, relation, bound) => match env.find(name) {
                Some(Value::Int(n)) => relation.test(*n, *bound),
                _ => false,
            },
            Guard::Not(inner) => !inner.holds(env),
            Guard::And(left, right) => left.holds(env) && right.holds(env),
            Guard::Or(left, right) => left.holds(env) || right.holds(env),
        }
    }
}

impl Clone for Guard {
    /// A deep copy: an independent guard with the same content.
    fn clone(&self) -> (r: Self)
        ensures
            r@ == self@,
        decreases self,
    {
        match self {
            Guard::Compare(name, relation, bound) => Guard::Compare(name.clone(), *relation, *bound),
            Guard::Not(inner) => Guard::Not(Box::new((**inner).clone())),
            Guard::And(left, right) => Guard::And(
                Box::new((**left).clone()),
                Box::new((**right).clone()),
            ),
            Guard::Or(left, right) => Guard::Or(
                Box::new((**left).clone()),
                Box::new((**right).clone()),
            ),
        }
    }
}

} // verus!
