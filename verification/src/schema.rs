//! Declarations of enums, and the values that keep to them: every variant
//! inside such a value names a declared case of a declared enum and carries a
//! payload of the length that the case was declared with.

use crate::value::{fields_view, values_view, Field, Value, ValueView};
use vstd::prelude::*;

verus! {

/// One case of an enum: its name and the length of its payload.
#[derive(Debug, PartialEq, Eq)]
pub struct CaseDeclaration {
    pub name: String,
    pub arity: usize,
}

/// An enum: its name and its cases.
#[derive(Debug, PartialEq, Eq)]
pub struct EnumDeclaration {
    pub name: String,
    pub cases: Vec<CaseDeclaration>,
}

/// The mathematical content of an [`EnumDeclaration`].
pub struct EnumDeclarationView {
    pub name: Seq<char>,
    pub cases: Seq<(Seq<char>, nat)>,
}

impl View for CaseDeclaration {
    type V = (Seq<char>, nat);

    open spec fn view(&self) -> (Seq<char>, nat) {
        (self.name@, self.arity as nat)
    }
}

/// The views of a list of cases, element by element.
pub open spec fn cases_view(cases: Seq<CaseDeclaration>) -> Seq<(Seq<char>, nat)> {
    Seq::new(cases.len(), |i: int| cases[i]@)
}

impl View for EnumDeclaration {
    type V = EnumDeclarationView;

    open spec fn view(&self) -> EnumDeclarationView {
        EnumDeclarationView { name: self.name@, cases: cases_view(self.cases@) }
    }
}

/// The views of a list of declarations, element by element.
pub open spec fn declarations_view(declarations: Seq<EnumDeclaration>) -> Seq<EnumDeclarationView> {
    Seq::new(declarations.len(), |i: int| declarations[i]@)
}

/// The payload length of the first case called `case_name`, looking from
/// position `from` on.
pub open spec fn arity_in(cases: Seq<(Seq<char>, nat)>, case_name: Seq<char>, from: int) -> Option<
    nat,
>
    decreases cases.len() - from,
{
    if from < 0 || from >= cases.len() {
        None
    } else if cases[from].0 == case_name {
        Some(cases[from].1)
    } else {
        arity_in(cases, case_name, from + 1)
    }
}

/// The cases of the first enum called `enum_name`, looking from position
/// `from` on.
pub open spec fn cases_of(
    declarations: Seq<EnumDeclarationView>,
    enum_name: Seq<char>,
    from: int,
) -> Option<Seq<(Seq<char>, nat)>>
    decreases declarations.len() - from,
{
    if from < 0 || from >= declarations.len() {
        None
    } else if declarations[from].name == enum_name {
        Some(declarations[from].cases)
    } else {
        cases_of(declarations, enum_name, from + 1)
    }
}

/// The payload length that the declarations fix for a case of an enum, if
/// they declare that enum with that case.
pub open spec fn declared_arity(
    declarations: Seq<EnumDeclarationView>,
    enum_name: Seq<char>,
    case_name: Seq<char>,
) -> Option<nat> {
    match cases_of(declarations, enum_name, 0) {
        Some(cases) => arity_in(cases, case_name, 0),
        None => None,
    }
}

/// Whether every variant inside a value, the value itself included, is a
/// declared case with a payload of the declared length.
pub open spec fn conforms(value: ValueView, declarations: Seq<EnumDeclarationView>) -> bool
    decreases value, 0nat,
{
    match value {
        ValueView::Tuple(items) => each_conforms(items, declarations, 0),
        ValueView::Struct(_, fields) => fields_conform(fields, declarations, 0),
        ValueView::Variant(enum_name, case_name, payload) => {
            &&& declared_arity(declarations, enum_name, case_name) == Some(payload.len())
            &&& each_conforms(payload, declarations, 0)
        },
        _ => true,
    }
}

/// Whether [`conforms`] holds of each value from position `from` on.
pub open spec fn each_conforms(
    items: Seq<ValueView>,
    declarations: Seq<EnumDeclarationView>,
    from: int,
) -> bool
    decreases items, items.len() - from,
{
    if from < 0 || from >= items.len() {
        true
    } else {
        conforms(items[from], declarations) && each_conforms(items, declarations, from + 1)
    }
}

/// Whether [`conforms`] holds of each field's value from position `from` on.
pub open spec fn fields_conform(
    fields: Seq<(Seq<char>, ValueView)>,
    declarations: Seq<EnumDeclarationView>,
    from: int,
) -> bool
    decreases fields, fields.len() - from,
{
    if from < 0 || from >= fields.len() {
        true
    } else {
        conforms(fields[from].1, declarations) && fields_conform(fields, declarations, from + 1)
    }
}

/// The payload length that the declarations fix for a case of an enum, if
/// they declare that enum with that case.
pub fn arity_of(declarations: &Vec<EnumDeclaration>, enum_name: &String, case_name: &String) -> (arity:
    Option<usize>)
    ensures
        match arity {
            Some(n) => declared_arity(declarations_view(declarations@), enum_name@, case_name@)
                == Some(n as nat),
            None => declared_arity(declarations_view(declarations@), enum_name@, case_name@)
                is None,
        },
{
    let ghost views = declarations_view(declarations@);
    let mut i: usize = 0;
    while i < declarations.len()
        invariant
            i <= declarations.len(),
            views == declarations_view(declarations@),
            cases_of(views, enum_name@, 0) == cases_of(views, enum_name@, i as int),
        decreases declarations.len() - i,
    {
        assert(views[i as int] == declarations@[i as int]@);
        if declarations[i].name == *enum_name {
            return arity_among(&declarations[i].cases, case_name);
        }
        i += 1;
    }
    None
}

/// The payload length of the first case called `case_name`.
fn arity_among(cases: &Vec<CaseDeclaration>, case_name: &String) -> (arity: Option<usize>)
    ensures
        match arity {
            Some(n) => arity_in(cases_view(cases@), case_name@, 0) == Some(n as nat),
            None => arity_in(cases_view(cases@), case_name@, 0) is None,
        },
{
    let ghost views = cases_view(cases@);
    let mut i: usize = 0;
    while i < cases.len()
        invariant
            i <= cases.len(),
            views == cases_view(cases@),
            arity_in(views, case_name@, 0) == arity_in(views, case_name@, i as int),
        decreases cases.len() - i,
    {
        assert(views[i as int] == cases@[i as int]@);
        if cases[i].name == *case_name {
            return Some(cases[i].arity);
        }
        i += 1;
    }
    None
}

/// Whether every variant inside `value`, the value itself included, is a
/// declared case with a payload of the declared length.
pub fn conforms_to(value: &Value, declarations: &Vec<EnumDeclaration>) -> (b: bool)
    ensures
        b == conforms(value@, declarations_view(declarations@)),
    decreases value,
{
    match value {
        Value::Tuple(items) => all_conform(items, declarations),
        Value::Struct(_, fields) => all_fields_conform(fields, declarations),
        Value::Variant(enum_name, case_name, payload) => {
            assert(values_view(payload@).len() == payload.len());
            match arity_of(declarations, enum_name, case_name) {
                Some(arity) => arity == payload.len() && all_conform(payload, declarations),
                None => false,
            }
        },
        _ => true,
    }
}

/// Whether each value of a list passes [`conforms_to`].
fn all_conform(items: &Vec<Value>, declarations: &Vec<EnumDeclaration>) -> (b: bool)
    ensures
        b == each_conforms(values_view(items@), declarations_view(declarations@), 0),
    decreases items,
{
    let ghost views = values_view(items@);
    let ghost decls = declarations_view(declarations@);
    let mut i: usize = 0;
    while i < items.len()
        invariant
            i <= items.len(),
            views == values_view(items@),
            decls == declarations_view(declarations@),
            each_conforms(views, decls, 0) == each_conforms(views, decls, i as int),
        decreases items.len() - i,
    {
        assert(views[i as int] == items@[i as int]@);
        if !conforms_to(&items[i], declarations) {
            return false;
        }
        i += 1;
    }
    true
}

/// Whether each field's value of a list passes [`conforms_to`].
fn all_fields_conform(fields: &Vec<Field>, declarations: &Vec<EnumDeclaration>) -> (b: bool)
    ensures
        b == fields_conform(fields_view(fields@), declarations_view(declarations@), 0),
    decreases fields,
{
    let ghost views = fields_view(fields@);
    let ghost decls = declarations_view(declarations@);
    let mut i: usize = 0;
    while i < fields.len()
        invariant
            i <= fields.len(),
            views == fields_view(fields@),
            decls == declarations_view(declarations@),
            fields_conform(views, decls, 0) == fields_conform(views, decls, i as int),
        decreases fields.len() - i,
    {
        assert(views[i as int] == fields@[i as int]@);
        if !conforms_to(&fields[i].value, declarations) {
            return false;
        }
        i += 1;
    }
    true
}

} // verus!
