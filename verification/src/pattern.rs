//! The closed set of patterns, and the names that a pattern binds.

use vstd::prelude::*;

verus! {

/// The mathematical content of a [`Scalar`].
pub enum ScalarView {
    Int(int),
    /// A character, given by its code point.
    Char(int),
}

/// A bound of a range pattern: an integer, or a character ordered by its code point.
#[derive(Clone, Copy, Debug, PartialEq, Eq)]
pub enum Scalar {
    Int(i64),
    Char(char),
}

impl View for Scalar {
    type V = ScalarView;

    open spec fn view(&self) -> ScalarView {
        match self {
            Scalar::Int(i) => ScalarView::Int(*i as int),
            Scalar::Char(c) => ScalarView::Char(*c as int),
        }
    }
}

/// The mathematical content of a [`Pattern`].
pub enum PatternView {
    Wildcard,
    Binding(Seq<char>),
    LiteralInt(int),
    /// A character, given by its code point.
    LiteralChar(int),
    LiteralBool(bool),
    LiteralStr(Seq<char>),
    /// Lower and upper bound, both inclusive.
    Range(ScalarView, ScalarView),
    Or(Seq<PatternView>),
    Tuple(Seq<PatternView>),
    /// Struct name, field patterns in the order written, and whether fields
    /// that are not named may be present.
    StructPattern(Seq<char>, Seq<(Seq<char>, PatternView)>, bool),
    /// Enum name, case name, payload patterns, and whether the payload is ignored.
    VariantPattern(Seq<char>, Seq<char>, Seq<PatternView>, bool),
    /// Inner pattern, the name bound to the whole value, and whether that
    /// binding is by reference.
    Binder(Box<PatternView>, Seq<char>, bool),
}

/// The pattern for one named field of a struct pattern.
#[derive(Debug, PartialEq, Eq)]
pub struct FieldPattern {
    pub name: String,
    pub pattern: Pattern,
}

/// A pattern.
#[derive(Debug, PartialEq, Eq)]
pub enum Pattern {
    /// Matches any value and binds nothing.
    Wildcard,
    /// Matches any value and binds the name to a copy of it.
    Binding(String),
    LiteralInt(i64),
    LiteralChar(char),
    LiteralBool(bool),
    LiteralStr(String),
    /// Matches a scalar of the bounds' kind that lies between them, both included.
    Range(Scalar, Scalar),
    /// Matches what any of the alternatives matches; the first that does gives the bindings.
    Or(Vec<Pattern>),
    /// Matches a tuple of the same length, element by element.
    Tuple(Vec<Pattern>),
    /// Matches a struct of this name whose named fields match; with `false` as
    /// the last component the value may have no other fields.
    StructPattern(String, Vec<FieldPattern>, bool),
    /// Matches this case of this enum; with `true` as the last component the
    /// payload is not looked at.
    VariantPattern(String, String, Vec<Pattern>, bool),
    /// Matches what the inner pattern matches and binds the name to the whole
    /// value, by reference if the last component is `true`.
    Binder(Box<Pattern>, String, bool),
}

impl View for FieldPattern {
    type V = (Seq<char>, PatternView);

    open spec fn view(&self) -> (Seq<char>, PatternView)
        decreases self,
    {
        (self.name@, self.pattern@)
    }
}

impl View for Pattern {
    type V = PatternView;

    open spec fn view(&self) -> PatternView
        decreases self,
    {
        match self {
            Pattern::Wildcard => PatternView::Wildcard,
            Pattern::Binding(name) => PatternView::Binding(name@),
            Pattern::LiteralInt(i) => PatternView::LiteralInt(*i as int),
            Pattern::LiteralChar(c) => PatternView::LiteralChar(*c as int),
            Pattern::LiteralBool(b) => PatternView::LiteralBool(*b),
            Pattern::LiteralStr(s) => PatternView::LiteralStr(s@),
            Pattern::Range(low, high) => PatternView::Range(low@, high@),
            Pattern::Or(alternatives) => PatternView::Or(patterns_view(alternatives@)),
            Pattern::Tuple(elements) => PatternView::Tuple(patterns_view(elements@)),
            Pattern::StructPattern(name, fields, has_rest) => PatternView::StructPattern(
                name@,
                field_patterns_view(fields@),
                *has_rest,
            ),
            Pattern::VariantPattern(enum_name, case_name, payload, ellipsis) => {
                PatternView::VariantPattern(
                    enum_name@,
                    case_name@,
                    patterns_view(payload@),
                    *ellipsis,
                )
            },
            Pattern::Binder(inner, name, by_reference) => PatternView::Binder(
                Box::new((**inner).view()),
                name@,
                *by_reference,
            ),
        }
    }
}

/// The views of a list of patterns, element by element.
pub open spec fn patterns_view(patterns: Seq<Pattern>) -> Seq<PatternView>
    decreases patterns,
{
    Seq::new(
        patterns.len(),
        |i: int|
            if 0 <= i < patterns.len() {
                patterns[i]@
            } else {
                arbitrary()
            },
    )
}

/// The views of a list of field patterns, element by element.
pub open spec fn field_patterns_view(fields: Seq<FieldPattern>) -> Seq<(Seq<char>, PatternView)>
    decreases fields,
{
    Seq::new(fields.len(), |i: int| if 0 <= i < fields.len() { fields[i]@ } else { arbitrary() })
}

impl Clone for FieldPattern {
    fn clone(&self) -> (r: Self)
        ensures
            r@ == self@,
        decreases self,
    {
        FieldPattern { name: self.name.clone(), pattern: self.pattern.clone() }
    }
}

impl Clone for Pattern {
    /// A deep copy: an independent pattern with the same content.
    fn clone(&self) -> (r: Self)
        ensures
            r@ == self@,
        decreases self,
    {
        match self {
            Pattern::Wildcard => Pattern::Wildcard,
            Pattern::Binding(name) => Pattern::Binding(name.clone()),
            Pattern::LiteralInt(i) => Pattern::LiteralInt(*i),
            Pattern::LiteralChar(c) => Pattern::LiteralChar(*c),
            Pattern::LiteralBool(b) => Pattern::LiteralBool(*b),
            Pattern::LiteralStr(s) => Pattern::LiteralStr(s.clone()),
            Pattern::Range(low, high) => Pattern::Range(*low, *high),
            Pattern::Or(alternatives) => Pattern::Or(clone_patterns(alternatives)),
            Pattern::Tuple(elements) => Pattern::Tuple(clone_patterns(elements)),
            Pattern::StructPattern(name, fields, has_rest) => Pattern::StructPattern(
                name.clone(),
                clone_field_patterns(fields),
                *has_rest,
            ),
            Pattern::VariantPattern(enum_name, case_name, payload, ellipsis) => {
                Pattern::VariantPattern(
                    enum_name.clone(),
                    case_name.clone(),
                    clone_patterns(payload),
                    *ellipsis,
                )
            },
            Pattern::Binder(inner, name, by_reference) => Pattern::Binder(
                Box::new((**inner).clone()),
                name.clone(),
                *by_reference,
            ),
        }
    }
}

fn clone_patterns(patterns: &Vec<Pattern>) -> (copies: Vec<Pattern>)
    ensures
        patterns_view(copies@) == patterns_view(patterns@),
    decreases patterns,
{
    let mut copies: Vec<Pattern> = Vec::new();
    let mut i: usize = 0;
    while i < patterns.len()
        invariant
            i <= patterns.len(),
            copies.len() == i,
            forall|k: int| 0 <= k < i ==> copies@[k]@ == patterns@[k]@,
        decreases patterns.len() - i,
    {
        copies.push(patterns[i].clone());
        i += 1;
    }
    assert(patterns_view(copies@) =~= patterns_view(patterns@));
    copies
}

fn clone_field_patterns(fields: &Vec<FieldPattern>) -> (copies: Vec<FieldPattern>)
    ensures
        field_patterns_view(copies@) == field_patterns_view(fields@),
    decreases fields,
{
    let mut copies: Vec<FieldPattern> = Vec::new();
    let mut i: usize = 0;
    while i < fields.len()
        invariant
            i <= fields.len(),
            copies.len() == i,
            forall|k: int| 0 <= k < i ==> copies@[k]@ == fields@[k]@,
        decreases fields.len() - i,
    {
        copies.push(fields[i].clone());
        i += 1;
    }
    assert(field_patterns_view(copies@) =~= field_patterns_view(fields@));
    copies
}

} // verus!
