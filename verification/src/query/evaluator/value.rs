//! The values that expressions of a query evaluate to.



pub mod conversion;
pub mod operations;

use crate::datetime::{instant_order, DateTime, Instant};
use crate::float::{
    compare_bits, double_prefix, float_order, read_double, signed_special, truncated,
    widen_to_bits, widened, Float, FloatView,
};
use crate::text::{bytes_before, i64_to_string, int_text, owned, parse_i64, str_before, str_eq, whole_i64};
use core::cmp::Ordering;
use vstd::prelude::*;
use vstd::std_specs::cmp::{PartialEqSpecImpl, PartialOrdSpecImpl};
use vstd::std_specs::convert::FromSpecImpl;
use vstd::utf8::encode_utf8;

verus! {

/// A number: a 64-bit integer or a double.
#[derive(Clone, Debug)]
pub enum Number {
    Int(i64),
    Float(Float),
}

/// A `Number` as a plain value.
pub enum NumberView {
    Int(i64),
    Float(FloatView),
}

impl View for Number {
    type V = NumberView;

    open spec fn view(&self) -> NumberView {
        match self {
            Number::Int(i) => NumberView::Int(*i),
            Number::Float(f) => NumberView::Float(f@),
        }
    }
}

impl NumberView {
    /// The number as a 64-bit integer: a double is cut off toward zero.
    pub open spec fn as_i64(self) -> i64 {
        match self {
            NumberView::Int(i) => i,
            NumberView::Float(f) => truncated(f.bits) as i64,
        }
    }

    /// The bits of the number as a double: an integer is widened to the
    /// nearest double.
    pub open spec fn as_bits(self) -> u64 {
        match self {
            NumberView::Int(i) => widened(i as int),
            NumberView::Float(f) => f.bits,
        }
    }

    /// How two numbers compare. Two integers compare as integers; where a
    /// double takes part, both compare as doubles.
    pub open spec fn order(self, other: NumberView) -> Option<Ordering> {
        match (self, other) {
            (NumberView::Int(a), NumberView::Int(b)) => if a < b {
                Some(Ordering::Less)
            } else if a == b {
                Some(Ordering::Equal)
            } else {
                Some(Ordering::Greater)
            },
            _ => float_order(self.as_bits(), other.as_bits()),
        }
    }

    /// The text that prints the number.
    pub open spec fn text(self) -> Seq<char> {
        match self {
            NumberView::Int(i) => int_text(i as int),
            NumberView::Float(f) => f.text,
        }
    }
}

/// The double that a text writes, the whole of it: what `double_prefix`
/// reads where it reads all of the text, or else an infinity or a NaN
/// behind a sign.
pub open spec fn double_of_text(s: Seq<char>) -> Option<FloatView> {
    match double_prefix(s) {
        Ok((bits, text, rest)) => if rest.len() == 0 {
            Some(FloatView { bits, text })
        } else {
            signed_special(s)
        },
        Err(_) => signed_special(s),
    }
}

/// The number that a text writes, the whole of it: a 64-bit integer where it
/// reads as one, else a double.
pub open spec fn number_of_text(s: Seq<char>) -> Option<NumberView> {
    match whole_i64(s) {
        Some(i) => Some(NumberView::Int(i)),
        None => match double_of_text(s) {
            Some(f) => Some(NumberView::Float(f)),
            None => None,
        },
    }
}

impl Number {
    /// The number as a 64-bit integer: a double is cut off toward zero.
    pub fn as_i64(&self) -> (n: i64)
        ensures
            n == self@.as_i64(),
    {
        match self {
            Number::Int(i) => *i,
            Number::Float(f) => f.truncate(),
        }
    }

    /// The bits of the number as a double.
    pub fn as_bits(&self) -> (bits: u64)
        ensures
            bits == self@.as_bits(),
    {
        match self {
            Number::Int(i) => widen_to_bits(*i),
            Number::Float(f) => f.bits(),
        }
    }

    /// A copy of this number.
    pub fn duplicate(&self) -> (n: Number)
        ensures
            n == *self,
    {
        match self {
            Number::Int(i) => Number::Int(*i),
            Number::Float(f) => Number::Float(f.duplicate()),
        }
    }

    /// Reads a number from a text: an integer first, then a double.
    pub fn parse(text: &str) -> (r: Option<Number>)
        ensures
            match r {
                Some(n) => number_of_text(text@) == Some(n@),
                None => number_of_text(text@) is None,
            },
    {
        match parse_i64(text) {
            Some(i) => {
                return Some(Number::Int(i));
            },
            None => {},
        }
        match read_double(text) {
            Ok((number, rest)) => if rest.is_empty() {
                return Some(Number::Float(number));
            },
            Err(_) => {},
        }
        match Float::read_signed_special(text) {
            Some(number) => Some(Number::Float(number)),
            None => None,
        }
    }

    /// The text that prints the number.
    pub fn to_text(&self) -> (s: String)
        ensures
            s@ == self@.text(),
    {
        match self {
            Number::Int(i) => i64_to_string(*i),
            Number::Float(f) => owned(f.text()),
        }
    }

    /// How this number stands to `other`.
    pub fn compare(&self, other: &Number) -> (r: Option<Ordering>)
        ensures
            r == self@.order(other@),
    {
        match (self, other) {
            (Number::Int(a), Number::Int(b)) => if *a < *b {
                Some(Ordering::Less)
            } else if *a == *b {
                Some(Ordering::Equal)
            } else {
                Some(Ordering::Greater)
            },
            _ => compare_bits(self.as_bits(), other.as_bits()),
        }
    }
}

impl std::str::FromStr for Number {
    type Err = ();

    fn from_str(s: &str) -> (r: Result<Number, ()>)
        ensures
            match r {
                Ok(n) => number_of_text(s@) == Some(n@),
                Err(_) => number_of_text(s@) is None,
            },
    {
        match Number::parse(s) {
            Some(n) => Ok(n),
            None => Err(()),
        }
    }
}

impl PartialEq for Number {
    fn eq(&self, other: &Number) -> (equal: bool) {
        match self.compare(other) {
            Some(Ordering::Equal) => true,
            _ => false,
        }
    }
}

impl PartialEqSpecImpl for Number {
    open spec fn obeys_eq_spec() -> bool {
        true
    }

    open spec fn eq_spec(&self, other: &Number) -> bool {
        self@.order(other@) == Some(Ordering::Equal)
    }
}

impl PartialOrd for Number {
    fn partial_cmp(&self, other: &Number) -> (r: Option<Ordering>) {
        self.compare(other)
    }
}

impl PartialOrdSpecImpl for Number {
    open spec fn obeys_partial_cmp_spec() -> bool {
        true
    }

    open spec fn partial_cmp_spec(&self, other: &Number) -> Option<Ordering> {
        self@.order(other@)
    }
}

impl From<i64> for Number {
    fn from(value: i64) -> (n: Number) {
        Number::Int(value)
    }
}

impl FromSpecImpl<i64> for Number {
    open spec fn obeys_from_spec() -> bool {
        true
    }

    open spec fn from_spec(value: i64) -> Number {
        Number::Int(value)
    }
}

/// A value: what a field of a record holds and what an expression gives.
#[derive(Clone, Debug)]
pub enum Value {
    Null,
    Bool(bool),
    Number(Number),
    String(String),
    DateTime(DateTime),
}

/// A `Value` as a plain value.
pub enum ValueView {
    Null,
    Bool(bool),
    Number(NumberView),
    String(Seq<char>),
    DateTime(Instant),
}

impl View for Value {
    type V = ValueView;

    open spec fn view(&self) -> ValueView {
        match self {
            Value::Null => ValueView::Null,
            Value::Bool(b) => ValueView::Bool(*b),
            Value::Number(n) => ValueView::Number(n@),
            Value::String(s) => ValueView::String(s@),
            Value::DateTime(d) => ValueView::DateTime(d@),
        }
    }
}

impl ValueView {
    /// The place of the variant among the variants, by which values of
    /// different variants are ordered.
    pub open spec fn rank(self) -> int {
        match self {
            ValueView::Null => 0,
            ValueView::Bool(_) => 1,
            ValueView::Number(_) => 2,
            ValueView::String(_) => 3,
            ValueView::DateTime(_) => 4,
        }
    }

    /// How two values compare: values of different variants by the rank of
    /// the variant, two of one variant by what they hold. Strings are ordered
    /// by their UTF-8 bytes, `false` comes before `true`.
    pub open spec fn order(self, other: ValueView) -> Option<Ordering> {
        match (self, other) {
            (ValueView::Null, ValueView::Null) => Some(Ordering::Equal),
            (ValueView::Bool(a), ValueView::Bool(b)) => if !a && b {
                Some(Ordering::Less)
            } else if a == b {
                Some(Ordering::Equal)
            } else {
                Some(Ordering::Greater)
            },
            (ValueView::Number(a), ValueView::Number(b)) => a.order(b),
            (ValueView::String(a), ValueView::String(b)) => if a == b {
                Some(Ordering::Equal)
            } else if bytes_before(encode_utf8(a), encode_utf8(b)) {
                Some(Ordering::Less)
            } else {
                Some(Ordering::Greater)
            },
            (ValueView::DateTime(a), ValueView::DateTime(b)) => instant_order(a, b),
            _ => if self.rank() < other.rank() {
                Some(Ordering::Less)
            } else {
                Some(Ordering::Greater)
            },
        }
    }

    /// The text that shows the value: `NULL` for the null value, else the
    /// text of what it holds, a point in time to the minute.
    pub open spec fn text(self) -> Seq<char> {
        match self {
            ValueView::Null => "NULL"@,
            ValueView::Bool(b) => if b {
                "true"@
            } else {
                "false"@
            },
            ValueView::Number(n) => n.text(),
            ValueView::String(s) => s,
            ValueView::DateTime(d) => crate::datetime::minute_text(d.secs, d.nanos),
        }
    }
}

impl Value {
    /// A copy of this value.
    pub fn duplicate(&self) -> (v: Value)
        ensures
            v == *self,
    {
        match self {
            Value::Null => Value::Null,
            Value::Bool(b) => Value::Bool(*b),
            Value::Number(n) => Value::Number(n.duplicate()),
            Value::String(s) => Value::String(s.clone()),
            Value::DateTime(d) => Value::DateTime(*d),
        }
    }

    /// The place of the variant among the variants.
    fn rank(&self) -> (r: u8)
        ensures
            r == self@.rank(),
    {
        match self {
            Value::Null => 0,
            Value::Bool(_) => 1,
            Value::Number(_) => 2,
            Value::String(_) => 3,
            Value::DateTime(_) => 4,
        }
    }

    /// How this value stands to `other`.
    pub fn compare(&self, other: &Value) -> (r: Option<Ordering>)
        ensures
            r == self@.order(other@),
    {
        match (self, other) {
            (Value::Null, Value::Null) => Some(Ordering::Equal),
            (Value::Bool(a), Value::Bool(b)) => if !*a && *b {
                Some(Ordering::Less)
            } else if *a == *b {
                Some(Ordering::Equal)
            } else {
                Some(Ordering::Greater)
            },
            (Value::Number(a), Value::Number(b)) => a.compare(b),
            (Value::String(a), Value::String(b)) => if str_eq(a.as_str(), b.as_str()) {
                Some(Ordering::Equal)
            } else if str_before(a.as_str(), b.as_str()) {
                Some(Ordering::Less)
            } else {
                Some(Ordering::Greater)
            },
            (Value::DateTime(a), Value::DateTime(b)) => a.compare(b),
            _ => if self.rank() < other.rank() {
                Some(Ordering::Less)
            } else {
                Some(Ordering::Greater)
            },
        }
    }

    /// The text that shows the value.
    pub fn to_text(&self) -> (s: String)
        ensures
            s@ == self@.text(),
    {
        match self {
            Value::Null => owned("NULL"),
            Value::Bool(b) => if *b {
                owned("true")
            } else {
                owned("false")
            },
            Value::Number(n) => n.to_text(),
            Value::String(s) => s.clone(),
            Value::DateTime(d) => d.format(),
        }
    }
}

impl PartialEq for Value {
    fn eq(&self, other: &Value) -> (equal: bool) {
        match self.compare(other) {
            Some(Ordering::Equal) => true,
            _ => false,
        }
    }
}

impl PartialEqSpecImpl for Value {
    open spec fn obeys_eq_spec() -> bool {
        true
    }

    open spec fn eq_spec(&self, other: &Value) -> bool {
        self@.order(other@) == Some(Ordering::Equal)
    }
}

impl PartialOrd for Value {
    fn partial_cmp(&self, other: &Value) -> (r: Option<Ordering>) {
        self.compare(other)
    }
}

impl PartialOrdSpecImpl for Value {
    open spec fn obeys_partial_cmp_spec() -> bool {
        true
    }

    open spec fn partial_cmp_spec(&self, other: &Value) -> Option<Ordering> {
        self@.order(other@)
    }
}

} // verus!
