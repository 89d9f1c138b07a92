//! Lists of names, compared as sets.

use vstd::prelude::*;

verus! {

/// The views of a list of names, element by element.
pub open spec fn names_view(names: Seq<String>) -> Seq<Seq<char>> {
    Seq::new(names.len(), |i: int| names[i]@)
}

/// Whether `name` occurs in `names`.
pub fn contains_name(names: &Vec<String>, name: &String) -> (b: bool)
    ensures
        b == names_view(names@).contains(name@),
{
    let ghost views = names_view(names@);
    let mut i: usize = 0;
    while i < names.len()
        invariant
            i <= names.len(),
            views == names_view(names@),
            forall|k: int| 0 <= k < i ==> views[k] != name@,
        decreases names.len() - i,
    {
        if names[i] == *name {
            assert(views[i as int] == name@);
            return true;
        }
        i += 1;
    }
    false
}

/// Whether each name of `names` occurs in `others`.
pub fn all_contained(names: &Vec<String>, others: &Vec<String>) -> (b: bool)
    ensures
        b == names_view(names@).to_set().subset_of(names_view(others@).to_set()),
{
    let ghost views = names_view(names@);
    let ghost other_views = names_view(others@);
    let mut i: usize = 0;
    while i < names.len()
        invariant
            i <= names.len(),
            views == names_view(names@),
            other_views == names_view(others@),
            forall|k: int| 0 <= k < i ==> other_views.contains(#[trigger] views[k]),
        decreases names.len() - i,
    {
        if !contains_name(others, &names[i]) {
            assert(views[i as int] == names@[i as int]@);
            assert(views.to_set().contains(views[i as int]));
            return false;
        }
        assert(views[i as int] == names@[i as int]@);
        i += 1;
    }
    assert forall|name: Seq<char>| views.to_set().contains(name) implies other_views.to_set().contains(
        name,
    ) by {
        let k = choose|k: int| 0 <= k < views.len() && views[k] == name;
        assert(other_views.contains(views[k]));
    }
    true
}

/// Whether two lists hold the same names, whatever their order or number.
pub fn same_name_set(names: &Vec<String>, others: &Vec<String>) -> (b: bool)
    ensures
        b == (names_view(names@).to_set() == names_view(others@).to_set()),
{
    let b = all_contained(names, others) && all_contained(others, names);
    proof {
        let left = names_view(names@).to_set();
        let right = names_view(others@).to_set();
        if b {
            assert(left =~= right);
        }
    }
    b
}

/// Whether no name occurs twice in `names`.
pub fn all_distinct(names: &Vec<String>) -> (b: bool)
    ensures
        b == names_view(names@).no_duplicates(),
{
    let ghost views = names_view(names@);
    let mut i: usize = 0;
    while i < names.len()
        invariant
            i <= names.len(),
            views == names_view(names@),
            forall|k: int, l: int| 0 <= k < l < i ==> views[k] != views[l],
        decreases names.len() - i,
    {
        let mut j: usize = 0;
        while j < i
            invariant
                j <= i,
                i < names.len(),
                views == names_view(names@),
                forall|k: int| 0 <= k < j ==> views[k] != views[i as int],
            decreases i - j,
        {
            if names[j] == names[i] {
                assert(views[j as int] == views[i as int]);
                return false;
            }
            j += 1;
        }
        i += 1;
    }
    true
}

} // verus!
