//! The binding environment that a successful match hands to the caller.

use crate::value::{Value, ValueView};
use vstd::prelude::*;

verus! {

/// One binding: a name, the value bound to it, and whether the binding is by
/// reference to the matched value or holds a copy of its own.
pub struct BindingView {
    pub name: Seq<char>,
    pub value: ValueView,
    pub by_reference: bool,
}

/// The value that an environment gives for `name`, looking from position
/// `from` on: that of the first binding of that name.
pub open spec fn lookup_from(env: Seq<BindingView>, name: Seq<char>, from: int) -> Option<
    ValueView,
>
    decreases env.len() - from,
{
    if from < 0 || from >= env.len() {
        None
    } else if env[from].name == name {
        Some(env[from].value)
    } else {
        lookup_from(env, name, from + 1)
    }
}

/// The value that an environment gives for `name`.
pub open spec fn lookup(env: Seq<BindingView>, name: Seq<char>) -> Option<ValueView> {
    lookup_from(env, name, 0)
}

/// The names of an environment's bindings, in insertion order.
pub open spec fn names_of(env: Seq<BindingView>) -> Seq<Seq<char>> {
    Seq::new(env.len(), |i: int| env[i].name)
}

/// What a name is bound to: a copy that the environment owns, or the matched
/// value itself, borrowed from the caller.
#[derive(Debug)]
pub enum Bound<'a> {
    Copied(Value),
    Aliased(&'a Value),
}

impl<'a> Bound<'a> {
    /// The bound value.
    pub open spec fn value(&self) -> ValueView {
        match self {
            Bound::Copied(v) => v@,
            Bound::Aliased(r) => r@,
        }
    }

    /// The bound value.
    pub fn get(&self) -> (r: &Value)
        ensures
            r@ == self.value(),
    {
        match self {
            Bound::Copied(v) => v,
            Bound::Aliased(r) => *r,
        }
    }
}

/// A name together with what it is bound to.
#[derive(Debug)]
pub struct Binding<'a> {
    pub name: String,
    pub bound: Bound<'a>,
}

impl<'a> View for Binding<'a> {
    type V = BindingView;

    open spec fn view(&self) -> BindingView {
        BindingView {
            name: self.name@,
            value: self.bound.value(),
            by_reference: self.bound is Aliased,
        }
    }
}

/// The views of a list of bindings, element by element.
pub open spec fn bindings_view<'a>(entries: Seq<Binding<'a>>) -> Seq<BindingView> {
    Seq::new(entries.len(), |i: int| entries[i]@)
}

/// An insertion-ordered mapping from names to values, read-only once built.
#[derive(Debug)]
pub struct BindingEnvironment<'a> {
    entries: Vec<Binding<'a>>,
}

impl<'a> View for BindingEnvironment<'a> {
    type V = Seq<BindingView>;

    closed spec fn view(&self) -> Seq<BindingView> {
        bindings_view(self.entries@)
    }
}

impl<'a> BindingEnvironment<'a> {
    /// The environment that holds `entries` in their order.
    pub fn from_entries(entries: Vec<Binding<'a>>) -> (env: Self)
        ensures
            env@ == bindings_view(entries@),
    {
        BindingEnvironment { entries }
    }

    /// The number of bindings.
    pub fn len(&self) -> (n: usize)
        ensures
            n == self@.len(),
    {
        self.entries.len()
    }

    /// Whether there is no binding at all.
    pub fn is_empty(&self) -> (b: bool)
        ensures
            b == (self@.len() == 0),
    {
        self.entries.len() == 0
    }

    /// The name of the binding at position `index`, if there is one.
    pub fn name_at(&self, index: usize) -> (name: Option<&String>)
        ensures
            match name {
                Some(name) => index < self@.len() && name@ == self@[index as int].name,
                None => index >= self@.len(),
            },
    {
        if index < self.entries.len() {
            Some(&self.entries[index].name)
        } else {
            None
        }
    }

    /// The value of the binding at position `index`, if there is one.
    pub fn value_at(&self, index: usize) -> (value: Option<&Value>)
        ensures
            match value {
                Some(value) => index < self@.len() && value@ == self@[index as int].value,
                None => index >= self@.len(),
            },
    {
        if index < self.entries.len() {
            Some(self.entries[index].bound.get())
        } else {
            None
        }
    }

    /// Whether the binding at position `index` is by reference, if there is one.
    pub fn is_by_reference(&self, index: usize) -> (aliased: Option<bool>)
        ensures
            match aliased {
                Some(aliased) => index < self@.len() && aliased == self@[index as int].by_reference,
                None => index >= self@.len(),
            },
    {
        if index < self.entries.len() {
            match &self.entries[index].bound {
                Bound::Copied(_) => Some(false),
                Bound::Aliased(_) => Some(true),
            }
        } else {
            None
        }
    }

    /// The value bound to `name`, if the name is bound.
    pub fn get(&self, name: &str) -> (found: Option<&Value>)
        ensures
            match found {
                Some(value) => lookup(self@, name@) == Some(value@),
                None => lookup(self@, name@) is None,
            },
    {
        let key: String = name.to_owned();
        self.find(&key)
    }

    /// The value bound to `name`, if the name is bound.
    pub fn find(&self, name: &String) -> (found: Option<&Value>)
        ensures
            match found {
                Some(value) => lookup(self@, name@) == Some(value@),
                None => lookup(self@, name@) is None,
            },
    {
        let mut i: usize = 0;
        while i < self.entries.len()
            invariant
                i <= self.entries.len(),
                lookup(self@, name@) == lookup_from(self@, name@, i as int),
            decreases self.entries.len() - i,
        {
            if self.entries[i].name == *name {
                return Some(self.entries[i].bound.get());
            }
            i += 1;
        }
        None
    }
}

} // verus!
