//! Tasks of a to-do list: records that a query can read.

use crate::datetime::DateTime;
use crate::query::evaluator::reflect::{
    fields_view, names_view, ReflectError, ReflectErrorView, Reflectable,
};
use crate::query::evaluator::value::{Value, ValueView};
use crate::text::{owned, str_eq};
use vstd::prelude::*;

verus! {

/// Represents task.
#[derive(Debug, PartialEq)]
pub struct Task {
    pub name: String,
    pub description: String,
    pub date: DateTime,
    pub category: String,
    pub status: Status,
}

/// Represents task status.
#[derive(Clone, Copy, Debug, PartialEq, Eq, PartialOrd, Structural)]
pub enum Status {
    On,
    Off,
}

impl Status {
    /// The status as it is written.
    pub open spec fn name(self) -> Seq<char> {
        match self {
            Status::On => "on"@,
            Status::Off => "off"@,
        }
    }

    /// The status that a text writes: `on` or `off`, in lower case, in
    /// upper case or with a capital.
    pub open spec fn named(text: Seq<char>) -> Option<Status> {
        if text == "on"@ || text == "ON"@ || text == "On"@ {
            Some(Status::On)
        } else if text == "off"@ || text == "OFF"@ || text == "Off"@ {
            Some(Status::Off)
        } else {
            None
        }
    }

    /// The text given to whoever writes a status in another way.
    pub open spec fn expected() -> Seq<char> {
        "String must be one of the possible value: ['on', 'On', 'ON', 'off', 'Off', 'OFF']"@
    }

    /// The status as it is written.
    pub fn as_str(&self) -> (s: &'static str)
        ensures
            s@ == self.name(),
    {
        match self {
            Status::On => "on",
            Status::Off => "off",
        }
    }

    /// Reads a status.
    pub fn from_str(s: &str) -> (r: Result<Status, &'static str>)
        ensures
            match r {
                Ok(status) => Status::named(s@) == Some(status),
                Err(message) => Status::named(s@) is None && message@ == Status::expected(),
            },
    {
        if str_eq(s, "on") || str_eq(s, "ON") || str_eq(s, "On") {
            Ok(Status::On)
        } else if str_eq(s, "off") || str_eq(s, "OFF") || str_eq(s, "Off") {
            Ok(Status::Off)
        } else {
            Err("String must be one of the possible value: ['on', 'On', 'ON', 'off', 'Off', 'OFF']")
        }
    }
}

impl std::str::FromStr for Status {
    type Err = &'static str;

    fn from_str(s: &str) -> (r: Result<Status, &'static str>)
        ensures
            match r {
                Ok(status) => Status::named(s@) == Some(status),
                Err(message) => Status::named(s@) is None && message@ == Status::expected(),
            },
    {
        Status::from_str(s)
    }
}

/// The names of the fields of a task.
pub open spec fn task_field_names() -> Seq<Seq<char>> {
    seq!["name"@, "description"@, "date"@, "category"@, "status"@]
}

/// Reflectable implementation to be able to use task in select queries.
impl Reflectable for Task {
    open spec fn field(&self, name: Seq<char>) -> Result<ValueView, ReflectErrorView> {
        if name == "name"@ {
            Ok(ValueView::String(self.name@))
        } else if name == "description"@ {
            Ok(ValueView::String(self.description@))
        } else if name == "date"@ {
            Ok(ValueView::DateTime(self.date@))
        } else if name == "category"@ {
            Ok(ValueView::String(self.category@))
        } else if name == "status"@ {
            Ok(ValueView::String(self.status.name()))
        } else {
            Err(ReflectErrorView::NoField(name))
        }
    }

    open spec fn listed_fields(&self) -> Seq<(Seq<char>, ValueView)> {
        seq![
            ("name"@, ValueView::String(self.name@)),
            ("description"@, ValueView::String(self.description@)),
            ("date"@, ValueView::DateTime(self.date@)),
            ("category"@, ValueView::String(self.category@)),
            ("status"@, ValueView::String(self.status.name())),
        ]
    }

    open spec fn names() -> Seq<Seq<char>> {
        task_field_names()
    }

    fn get_field(&self, field: &str) -> (r: Result<Value, ReflectError>) {
        if str_eq(field, "name") {
            Ok(Value::String(self.name.clone()))
        } else if str_eq(field, "description") {
            Ok(Value::String(self.description.clone()))
        } else if str_eq(field, "date") {
            Ok(Value::DateTime(self.date))
        } else if str_eq(field, "category") {
            Ok(Value::String(self.category.clone()))
        } else if str_eq(field, "status") {
            Ok(Value::String(owned(self.status.as_str())))
        } else {
            Err(ReflectError::NoField(owned(field)))
        }
    }

    fn fields(&self) -> (r: Vec<(String, Value)>) {
        let mut r: Vec<(String, Value)> = Vec::new();
        r.push((owned("name"), Value::String(self.name.clone())));
        r.push((owned("description"), Value::String(self.description.clone())));
        r.push((owned("date"), Value::DateTime(self.date)));
        r.push((owned("category"), Value::String(self.category.clone())));
        r.push((owned("status"), Value::String(owned(self.status.as_str()))));
        assert(fields_view(r@) =~= self.listed_fields());
        r
    }

    fn field_names() -> (r: Vec<String>) {
        let mut r: Vec<String> = Vec::new();
        r.push(owned("name"));
        r.push(owned("description"));
        r.push(owned("date"));
        r.push(owned("category"));
        r.push(owned("status"));
        assert(names_view(r@) =~= task_field_names());
        r
    }
}

} // verus!
