//! The closed set of values that patterns are matched against.

use vstd::prelude::*;

verus! {

/// The mathematical content of a [`Value`].
pub enum ValueView {
    Int(int),
    Char(char),
    Bool(bool),
    Str(Seq<char>),
    Tuple(Seq<ValueView>),
    /// A struct's name and its fields, in the order in which they were written.
    Struct(Seq<char>, Seq<(Seq<char>, ValueView)>),
    /// An enum's name, the case's name, and the positional payload.
    Variant(Seq<char>, Seq<char>, Seq<ValueView>),
}

/// One named field of a struct value.
#[derive(Debug, PartialEq, Eq)]
pub struct Field {
    pub name: String,
    pub value: Value,
}

/// A matchable value.
#[derive(Debug, PartialEq, Eq)]
pub enum Value {
    Int(i64),
    Char(char),
    Bool(bool),
    Str(String),
    Tuple(Vec<Value>),
    /// A struct's name and its fields. The fields are a mapping from names to
    /// values: where a name is written twice, the first field of that name is
    /// the one that is read.
    Struct(String, Vec<Field>),
    /// An enum's name, the name of one of its cases, and the case's positional
    /// payload. Whether the enum has that case, with a payload of that
    /// length, is for [`crate::schema::conforms_to`] to say; matching does not
    /// depend on it.
    Variant(String, String, Vec<Value>),
}

/// The value of the field called `name` in a struct's field list, looking
/// from position `from` on: that of the first field of that name.
pub open spec fn field_value_from(
    fields: Seq<(Seq<char>, ValueView)>,
    name: Seq<char>,
    from: int,
) -> Option<ValueView>
    decreases fields.len() - from,
{
    if from < 0 || from >= fields.len() {
        None
    } else if fields[from].0 == name {
        Some(fields[from].1)
    } else {
        field_value_from(fields, name, from + 1)
    }
}

/// The value of the field called `name` in a struct's field list.
pub open spec fn field_value(fields: Seq<(Seq<char>, ValueView)>, name: Seq<char>) -> Option<
    ValueView,
> {
    field_value_from(fields, name, 0)
}

impl View for Field {
    type V = (Seq<char>, ValueView);

    open spec fn view(&self) -> (Seq<char>, ValueView)
        decreases self,
    {
        (self.name@, self.value@)
    }
}

impl View for Value {
    type V = ValueView;

    open spec fn view(&self) -> ValueView
        decreases self,
    {
        match self {
            Value::Int(i) => ValueView::Int(*i as int),
            Value::Char(c) => ValueView::Char(*c),
            Value::Bool(b) => ValueView::Bool(*b),
            Value::Str(s) => ValueView::Str(s@),
            Value::Tuple(items) => ValueView::Tuple(values_view(items@)),
            Value::Struct(name, fields) => ValueView::Struct(name@, fields_view(fields@)),
            Value::Variant(enum_name, case_name, payload) => ValueView::Variant(
                enum_name@,
                case_name@,
                values_view(payload@),
            ),
        }
    }
}

/// The views of a list of values, element by element.
pub open spec fn values_view(items: Seq<Value>) -> Seq<ValueView>
    decreases items,
{
    Seq::new(items.len(), |i: int| if 0 <= i < items.len() { items[i]@ } else { arbitrary() })
}

/// The views of a list of fields, element by element.
pub open spec fn fields_view(fields: Seq<Field>) -> Seq<(Seq<char>, ValueView)>
    decreases fields,
{
    Seq::new(fields.len(), |i: int| if 0 <= i < fields.len() { fields[i]@ } else { arbitrary() })
}

impl Clone for Field {
    fn clone(&self) -> (r: Self)
        ensures
            r@ == self@,
        decreases self,
    {
        Field { name: self.name.clone(), value: self.value.clone() }
    }
}

impl Clone for Value {
    /// A deep copy: an independent value with the same content.
    fn clone(&self) -> (r: Self)
        ensures
            r@ == self@,
        decreases self,
    {
        match self {
            Value::Int(i) => Value::Int(*i),
            Value::Char(c) => Value::Char(*c),
            Value::Bool(b) => Value::Bool(*b),
            Value::Str(s) => Value::Str(s.clone()),
            Value::Tuple(items) => Value::Tuple(clone_values(items)),
            Value::Struct(name, fields) => Value::Struct(name.clone(), clone_fields(fields)),
            Value::Variant(enum_name, case_name, payload) => Value::Variant(
                enum_name.clone(),
                case_name.clone(),
                clone_values(payload),
            ),
        }
    }
}

fn clone_values(items: &Vec<Value>) -> (copies: Vec<Value>)
    ensures
        values_view(copies@) == values_view(items@),
    decreases items,
{
    let mut copies: Vec<Value> = Vec::new();
    let mut i: usize = 0;
    while i < items.len()
        invariant
            i <= items.len(),
            copies.len() == i,
            forall|k: int| 0 <= k < i ==> copies@[k]@ == items@[k]@,
        decreases items.len() - i,
    {
        copies.push(items[i].clone());
        i += 1;
    }
    assert(values_view(copies@) =~= values_view(items@));
    copies
}

fn clone_fields(fields: &Vec<Field>) -> (copies: Vec<Field>)
    ensures
        fields_view(copies@) == fields_view(fields@),
    decreases fields,
{
    let mut copies: Vec<Field> = Vec::new();
    let mut i: usize = 0;
    while i < fields.len()
        invariant
            i <= fields.len(),
            copies.len() == i,
            forall|k: int| 0 <= k < i ==> copies@[k]@ == fields@[k]@,
        decreases fields.len() - i,
    {
        copies.push(fields[i].clone());
        i += 1;
    }
    assert(fields_view(copies@) =~= fields_view(fields@));
    copies
}

} // verus!
