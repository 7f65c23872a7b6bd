//! The types of values and the conversions between them.

use super::{number_of_text, Number, NumberView, Value, ValueView};
use crate::datetime::{is_instant, minute_instant, DateTime, Instant};
use crate::text::{owned, str_eq};
use vstd::prelude::*;

verus! {

/// The type of a `Value`.
#[derive(Clone, Copy, Debug, PartialEq, Eq, Structural)]
pub enum Type {
    DateTime,
    Number,
    Bool,
    String,
    Null,
}

impl Type {
    /// The precedence of the type as a number: the smaller, the stronger.
    pub open spec fn spec_precedence(self) -> u8 {
        match self {
            Type::DateTime => 0,
            Type::Number => 1,
            Type::Bool => 3,
            Type::String => 4,
            Type::Null => 5,
        }
    }

    /// Returns precedence of the type.
    ///
    /// When an operator combines values of two types, the value whose type
    /// has the larger number is converted to the type with the smaller one.
    #[verifier::when_used_as_spec(spec_precedence)]
    pub fn precedence(self) -> (p: u8)
        ensures
            p == self.spec_precedence(),
    {
        match self {
            Type::DateTime => 0,
            Type::Number => 1,
            Type::Bool => 3,
            Type::String => 4,
            Type::Null => 5,
        }
    }

    /// The name of the type.
    pub open spec fn name(self) -> Seq<char> {
        match self {
            Type::DateTime => "DateTime"@,
            Type::Number => "Number"@,
            Type::Bool => "Bool"@,
            Type::String => "String"@,
            Type::Null => "Null"@,
        }
    }

    /// The name of the type.
    pub fn as_str(&self) -> (s: &'static str)
        ensures
            s@ == self.name(),
    {
        match self {
            Type::DateTime => "DateTime",
            Type::Number => "Number",
            Type::Bool => "Bool",
            Type::String => "String",
            Type::Null => "Null",
        }
    }
}

/// Represents possible errors of type conversion.
#[derive(Debug)]
pub enum ConversionError {
    /// No value of the type `from` converts to the type `to`.
    NotAllowed { from: Type, to: Type },
    /// Values of this type convert to `dest_type`, but this one does not.
    Failed { value: Value, dest_type: Type, reason: String },
}

/// A `ConversionError` as a plain value.
pub enum ConversionErrorView {
    NotAllowed { from: Type, to: Type },
    Failed { value: ValueView, dest_type: Type, reason: Seq<char> },
}

impl View for ConversionError {
    type V = ConversionErrorView;

    open spec fn view(&self) -> ConversionErrorView {
        match self {
            ConversionError::NotAllowed { from, to } => ConversionErrorView::NotAllowed {
                from: *from,
                to: *to,
            },
            ConversionError::Failed { value, dest_type, reason } => ConversionErrorView::Failed {
                value: value@,
                dest_type: *dest_type,
                reason: reason@,
            },
        }
    }
}

/// The reason given where a number is no point in time.
pub open spec fn out_of_range_reason() -> Seq<char> {
    "Number is out-of-range"@
}

/// The reason given where a text is no date and time.
pub open spec fn not_a_datetime_reason() -> Seq<char> {
    "text does not have the form %Y-%m-%d %H:%M"@
}

/// The reason given where a text is no number.
pub open spec fn not_a_number_reason() -> Seq<char> {
    "invalid number literal"@
}

/// The reason given where a text is neither `true` nor `false`.
pub open spec fn not_a_bool_reason() -> Seq<char> {
    "provided string was not `true` or `false`"@
}

impl ValueView {
    /// The type of the value.
    pub open spec fn get_type(self) -> Type {
        match self {
            ValueView::Null => Type::Null,
            ValueView::Bool(_) => Type::Bool,
            ValueView::Number(_) => Type::Number,
            ValueView::String(_) => Type::String,
            ValueView::DateTime(_) => Type::DateTime,
        }
    }

    /// The value as a point in time. A point in time is itself, a number
    /// counts the seconds since the Unix epoch, a text is read to the minute.
    pub open spec fn to_datetime(self) -> Result<Instant, ConversionErrorView> {
        match self {
            ValueView::DateTime(d) => Ok(d),
            ValueView::Number(n) => if is_instant(n.as_i64(), 0) {
                Ok(Instant { secs: n.as_i64(), nanos: 0 })
            } else {
                Err(
                    ConversionErrorView::Failed {
                        value: self,
                        dest_type: Type::DateTime,
                        reason: out_of_range_reason(),
                    },
                )
            },
            ValueView::String(s) => match minute_instant(s) {
                Some((secs, nanos)) => Ok(Instant { secs, nanos }),
                None => Err(
                    ConversionErrorView::Failed {
                        value: self,
                        dest_type: Type::DateTime,
                        reason: not_a_datetime_reason(),
                    },
                ),
            },
            _ => Err(ConversionErrorView::NotAllowed { from: self.get_type(), to: Type::DateTime }),
        }
    }

    /// The value as a number. A number is itself, `false` and `true` are 0
    /// and 1, a point in time is its seconds since the Unix epoch, a text is
    /// read as an integer or else as a double.
    pub open spec fn to_number(self) -> Result<NumberView, ConversionErrorView> {
        match self {
            ValueView::Number(n) => Ok(n),
            ValueView::Bool(b) => Ok(
                NumberView::Int(
                    if b {
                        1
                    } else {
                        0
                    },
                ),
            ),
            ValueView::DateTime(d) => Ok(NumberView::Int(d.secs)),
            ValueView::String(s) => match number_of_text(s) {
                Some(n) => Ok(n),
                None => Err(
                    ConversionErrorView::Failed {
                        value: self,
                        dest_type: Type::Number,
                        reason: not_a_number_reason(),
                    },
                ),
            },
            ValueView::Null => Err(
                ConversionErrorView::NotAllowed { from: Type::Null, to: Type::Number },
            ),
        }
    }

    /// The value as a text. A text is itself, a boolean or a number is
    /// written out, a point in time is printed to the minute.
    pub open spec fn to_string(self) -> Result<Seq<char>, ConversionErrorView> {
        match self {
            ValueView::Null => Err(
                ConversionErrorView::NotAllowed { from: Type::Null, to: Type::String },
            ),
            _ => Ok(self.text()),
        }
    }

    /// The value as a boolean. A boolean is itself, a number is false only
    /// where it is 0 as an integer, a text must be `true` or `false`.
    pub open spec fn to_bool(self) -> Result<bool, ConversionErrorView> {
        match self {
            ValueView::Bool(b) => Ok(b),
            ValueView::Number(n) => Ok(n.as_i64() != 0),
            ValueView::String(s) => if s == "true"@ {
                Ok(true)
            } else if s == "false"@ {
                Ok(false)
            } else {
                Err(
                    ConversionErrorView::Failed {
                        value: self,
                        dest_type: Type::Bool,
                        reason: not_a_bool_reason(),
                    },
                )
            },
            _ => Err(ConversionErrorView::NotAllowed { from: self.get_type(), to: Type::Bool }),
        }
    }

    /// The value converted to the type `to`. Nothing converts to `Null`.
    pub open spec fn cast_to(self, to: Type) -> Result<ValueView, ConversionErrorView> {
        match to {
            Type::DateTime => match self.to_datetime() {
                Ok(d) => Ok(ValueView::DateTime(d)),
                Err(e) => Err(e),
            },
            Type::Number => match self.to_number() {
                Ok(n) => Ok(ValueView::Number(n)),
                Err(e) => Err(e),
            },
            Type::Bool => match self.to_bool() {
                Ok(b) => Ok(ValueView::Bool(b)),
                Err(e) => Err(e),
            },
            Type::String => match self.to_string() {
                Ok(s) => Ok(ValueView::String(s)),
                Err(e) => Err(e),
            },
            Type::Null => Err(
                ConversionErrorView::NotAllowed { from: self.get_type(), to: Type::Null },
            ),
        }
    }
}

/// Two values brought to one type: where their types differ, the value of
/// the type with the larger precedence number is converted to the type of
/// the other.
pub open spec fn unified(left: ValueView, right: ValueView) -> Result<
    (ValueView, ValueView),
    ConversionErrorView,
> {
    let l = left.get_type();
    let r = right.get_type();
    if l.precedence() == r.precedence() {
        Ok((left, right))
    } else if l.precedence() < r.precedence() {
        match right.cast_to(l) {
            Ok(v) => Ok((left, v)),
            Err(e) => Err(e),
        }
    } else {
        match left.cast_to(r) {
            Ok(v) => Ok((v, right)),
            Err(e) => Err(e),
        }
    }
}

/// A result with both of its sides as plain values.
pub open spec fn result_view<T: View, E: View>(r: Result<T, E>) -> Result<T::V, E::V> {
    match r {
        Ok(t) => Ok(t@),
        Err(e) => Err(e@),
    }
}

impl Value {
    /// Returns the type of this value.
    pub fn get_type(&self) -> (t: Type)
        ensures
            t == self@.get_type(),
    {
        match self {
            Value::Null => Type::Null,
            Value::Bool(_) => Type::Bool,
            Value::Number(_) => Type::Number,
            Value::String(_) => Type::String,
            Value::DateTime(_) => Type::DateTime,
        }
    }

    /// Unify types so that both values have one type and can be compared.
    ///
    /// Where the types differ, the value of the type with the larger
    /// precedence number is converted to the type of the other.
    pub fn unify_types(left: &Value, right: &Value) -> (r: Result<(Value, Value), ConversionError>)
        ensures
            match r {
                Ok((l, r)) => unified(left@, right@) == Ok::<_, ConversionErrorView>((l@, r@)),
                Err(e) => unified(left@, right@) == Err::<(ValueView, ValueView), _>(e@),
            },
    {
        let left_type = left.get_type();
        let right_type = right.get_type();
        if left_type.precedence() == right_type.precedence() {
            Ok((left.duplicate(), right.duplicate()))
        } else if left_type.precedence() < right_type.precedence() {
            match right.cast_to(left_type) {
                Ok(v) => Ok((left.duplicate(), v)),
                Err(e) => Err(e),
            }
        } else {
            match left.cast_to(right_type) {
                Ok(v) => Ok((v, right.duplicate())),
                Err(e) => Err(e),
            }
        }
    }

    /// Try to cast this value to the given type.
    pub fn cast_to(&self, to: Type) -> (r: Result<Value, ConversionError>)
        ensures
            result_view(r) == self@.cast_to(to),
    {
        match to {
            Type::DateTime => match self.cast_to_datetime() {
                Ok(d) => Ok(Value::DateTime(d)),
                Err(e) => Err(e),
            },
            Type::Number => match self.cast_to_number() {
                Ok(n) => Ok(Value::Number(n)),
                Err(e) => Err(e),
            },
            Type::Bool => match self.cast_to_bool() {
                Ok(b) => Ok(Value::Bool(b)),
                Err(e) => Err(e),
            },
            Type::String => match self.cast_to_string() {
                Ok(s) => Ok(Value::String(s)),
                Err(e) => Err(e),
            },
            Type::Null => Err(ConversionError::NotAllowed { from: self.get_type(), to: Type::Null }),
        }
    }

    /// Try to cast this value to a point in time.
    pub fn cast_to_datetime(&self) -> (r: Result<DateTime, ConversionError>)
        ensures
            result_view(r) == self@.to_datetime(),
    {
        match self {
            Value::DateTime(d) => Ok(*d),
            Value::Number(n) => match DateTime::from_timestamp(n.as_i64(), 0) {
                Some(d) => Ok(d),
                None => Err(
                    ConversionError::Failed {
                        value: self.duplicate(),
                        dest_type: Type::DateTime,
                        reason: owned("Number is out-of-range"),
                    },
                ),
            },
            Value::String(s) => match DateTime::parse(s.as_str()) {
                Some(d) => Ok(d),
                None => Err(
                    ConversionError::Failed {
                        value: self.duplicate(),
                        dest_type: Type::DateTime,
                        reason: owned("text does not have the form %Y-%m-%d %H:%M"),
                    },
                ),
            },
            _ => Err(ConversionError::NotAllowed { from: self.get_type(), to: Type::DateTime }),
        }
    }

    /// Try to cast this value to a number.
    pub fn cast_to_number(&self) -> (r: Result<Number, ConversionError>)
        ensures
            result_view(r) == self@.to_number(),
    {
        match self {
            Value::Number(n) => Ok(n.duplicate()),
            Value::Bool(b) => Ok(
                Number::Int(
                    if *b {
                        1
                    } else {
                        0
                    },
                ),
            ),
            Value::DateTime(d) => Ok(Number::Int(d.timestamp())),
            Value::String(s) => match Number::parse(s.as_str()) {
                Some(n) => Ok(n),
                None => Err(
                    ConversionError::Failed {
                        value: self.duplicate(),
                        dest_type: Type::Number,
                        reason: owned("invalid number literal"),
                    },
                ),
            },
            Value::Null => Err(ConversionError::NotAllowed { from: Type::Null, to: Type::Number }),
        }
    }

    /// Try to cast this value to a text.
    pub fn cast_to_string(&self) -> (r: Result<String, ConversionError>)
        ensures
            result_view(r) == self@.to_string(),
    {
        match self {
            Value::Null => Err(ConversionError::NotAllowed { from: Type::Null, to: Type::String }),
            _ => Ok(self.to_text()),
        }
    }

    /// Try to cast this value to a boolean.
    pub fn cast_to_bool(&self) -> (r: Result<bool, ConversionError>)
        ensures
            r is Ok ==> self@.to_bool() == Ok::<bool, ConversionErrorView>(r->Ok_0),
            r is Err ==> self@.to_bool() == Err::<bool, ConversionErrorView>(r->Err_0@),
    {
        match self {
            Value::Bool(b) => Ok(*b),
            Value::Number(n) => Ok(n.as_i64() != 0),
            Value::String(s) => if str_eq(s.as_str(), "true") {
                Ok(true)
            } else if str_eq(s.as_str(), "false") {
                Ok(false)
            } else {
                Err(
                    ConversionError::Failed {
                        value: self.duplicate(),
                        dest_type: Type::Bool,
                        reason: owned("provided string was not `true` or `false`"),
                    },
                )
            },
            _ => Err(ConversionError::NotAllowed { from: self.get_type(), to: Type::Bool }),
        }
    }
}

} // verus!
