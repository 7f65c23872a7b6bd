//! What a record shows of itself to a query: its fields by name.

use super::value::conversion::result_view;
use super::value::{Value, ValueView};
use vstd::prelude::*;

verus! {

/// Represents possible errors of looking a field up.
#[derive(Debug)]
pub enum ReflectError {
    /// The record has the field, but no `Value` can hold what is in it.
    UnsupportedType { field: String, field_type: String },
    /// The record has no field of this name.
    NoField(String),
}

/// A `ReflectError` as a plain value.
pub enum ReflectErrorView {
    UnsupportedType { field: Seq<char>, field_type: Seq<char> },
    NoField(Seq<char>),
}

impl View for ReflectError {
    type V = ReflectErrorView;

    open spec fn view(&self) -> ReflectErrorView {
        match self {
            ReflectError::UnsupportedType { field, field_type } => ReflectErrorView::UnsupportedType {
                field: field@,
                field_type: field_type@,
            },
            ReflectError::NoField(name) => ReflectErrorView::NoField(name@),
        }
    }
}

/// The fields of a record as plain values: each name with its value.
pub open spec fn fields_view(fields: Seq<(String, Value)>) -> Seq<(Seq<char>, ValueView)> {
    fields.map_values(|field: (String, Value)| (field.0@, field.1@))
}

/// A list of names as plain values.
pub open spec fn names_view(names: Seq<String>) -> Seq<Seq<char>> {
    names.map_values(|name: String| name@)
}

/// A record whose fields a query can read by name.
///
/// The three `spec` functions say what the record holds; the three methods
/// hand it out. A verified implementation is held to hand out what it says
/// it holds. Of an implementation that does not say what it holds, nothing
/// is known.
pub trait Reflectable {
    /// What `get_field` gives for a name.
    open spec fn field(&self, name: Seq<char>) -> Result<ValueView, ReflectErrorView> {
        arbitrary()
    }

    /// The fields that `fields` lists, in its order.
    open spec fn listed_fields(&self) -> Seq<(Seq<char>, ValueView)> {
        arbitrary()
    }

    /// The names that `field_names` lists, in its order.
    open spec fn names() -> Seq<Seq<char>> {
        arbitrary()
    }

    /// Returns value of `field`.
    ///
    /// If the field does not exist or its content cannot be held by a
    /// `Value`, an error is returned.
    fn get_field(&self, field: &str) -> (r: Result<Value, ReflectError>)
        ensures
            result_view(r) == self.field(field@),
    ;

    /// Returns field names along with their values.
    ///
    /// A field whose content cannot be held by a `Value` is left out.
    fn fields(&self) -> (r: Vec<(String, Value)>)
        ensures
            fields_view(r@) == self.listed_fields(),
    ;

    /// Returns field names.
    fn field_names() -> (r: Vec<String>)
        ensures
            names_view(r@) == Self::names(),
    ;
}

} // verus!
