//! The operators of a query on values.

use super::conversion::{unified, Type};
use super::{Value, ValueView};
use crate::query::ast::expression::BinaryOp;
use crate::query::{EvaluationError, EvaluationErrorView};
use crate::text::{contains_text, str_contains};
use core::cmp::Ordering;
use vstd::prelude::*;

verus! {

/// Represents possible errors of performing a binary operation on two values.
#[derive(Debug)]
pub enum BinaryOperationError {
    /// The operator does not take values of these two types.
    Unsupported { left: Type, right: Type, operator: BinaryOp },
    /// The operator takes such values, but failed on these two.
    Failed { operation: BinaryOp, left: Value, right: Value, reason: String },
}

/// A `BinaryOperationError` as a plain value.
pub enum BinaryOperationErrorView {
    Unsupported { left: Type, right: Type, operator: BinaryOp },
    Failed { operation: BinaryOp, left: ValueView, right: ValueView, reason: Seq<char> },
}

impl View for BinaryOperationError {
    type V = BinaryOperationErrorView;

    open spec fn view(&self) -> BinaryOperationErrorView {
        match self {
            BinaryOperationError::Unsupported {
                left,
                right,
                operator,
            } => BinaryOperationErrorView::Unsupported {
                left: *left,
                right: *right,
                operator: *operator,
            },
            BinaryOperationError::Failed {
                operation,
                left,
                right,
                reason,
            } => BinaryOperationErrorView::Failed {
                operation: *operation,
                left: left@,
                right: right@,
                reason: reason@,
            },
        }
    }
}

/// Represents possible errors of performing a unary operation on a value.
#[derive(Debug)]
pub enum UnaryOperationError {
    /// The operator does not take values of this type.
    Unsupported { value_type: Type, operation: BinaryOp },
    /// The operator takes such values, but failed on this one.
    Failed { operation: BinaryOp, value: Value, reason: String },
}

/// A `UnaryOperationError` as a plain value.
pub enum UnaryOperationErrorView {
    Unsupported { value_type: Type, operation: BinaryOp },
    Failed { operation: BinaryOp, value: ValueView, reason: Seq<char> },
}

impl View for UnaryOperationError {
    type V = UnaryOperationErrorView;

    open spec fn view(&self) -> UnaryOperationErrorView {
        match self {
            UnaryOperationError::Unsupported {
                value_type,
                operation,
            } => UnaryOperationErrorView::Unsupported {
                value_type: *value_type,
                operation: *operation,
            },
            UnaryOperationError::Failed {
                operation,
                value,
                reason,
            } => UnaryOperationErrorView::Failed {
                operation: *operation,
                value: value@,
                reason: reason@,
            },
        }
    }
}

/// The error of an operator that does not take the types of its operands.
pub open spec fn unsupported(left: ValueView, right: ValueView, operator: BinaryOp)
    -> EvaluationErrorView {
    EvaluationErrorView::BinaryOperation(
        BinaryOperationErrorView::Unsupported {
            left: left.get_type(),
            right: right.get_type(),
            operator,
        },
    )
}

/// Whether an order is the one that a comparison operator asks for.
pub open spec fn order_meets(order: Option<Ordering>, operator: BinaryOp) -> bool {
    match operator {
        BinaryOp::Lt => order == Some(Ordering::Less),
        BinaryOp::Lte => order == Some(Ordering::Less) || order == Some(Ordering::Equal),
        BinaryOp::Gt => order == Some(Ordering::Greater),
        BinaryOp::Gte => order == Some(Ordering::Greater) || order == Some(Ordering::Equal),
        _ => order == Some(Ordering::Equal),
    }
}

/// What a comparison of two unified values gives: they are brought to one
/// type and then compared as the operator asks.
pub open spec fn compared(left: ValueView, right: ValueView, operator: BinaryOp) -> Result<
    ValueView,
    EvaluationErrorView,
> {
    match unified(left, right) {
        Ok((l, r)) => Ok(ValueView::Bool(order_meets(l.order(r), operator))),
        Err(e) => Err(EvaluationErrorView::Conversion(e)),
    }
}

/// What `=` gives. Where one side is null, no types are unified: the result
/// tells whether the other side is null too.
pub open spec fn equal(left: ValueView, right: ValueView) -> Result<ValueView, EvaluationErrorView> {
    if left is Null {
        Ok(ValueView::Bool(right is Null))
    } else if right is Null {
        Ok(ValueView::Bool(false))
    } else {
        compared(left, right, BinaryOp::Eq)
    }
}

/// What `<`, `<=`, `>` and `>=` give: no order is asked of a null value.
pub open spec fn ordered(left: ValueView, right: ValueView, operator: BinaryOp) -> Result<
    ValueView,
    EvaluationErrorView,
> {
    if left is Null || right is Null {
        Err(unsupported(left, right, operator))
    } else {
        compared(left, right, operator)
    }
}

/// What `AND` (`conjunction` set) and `OR` give. One side must be a boolean
/// as it stands; the other side is converted to one. Where both are
/// booleans, it is the left one that stands and the right one that is
/// converted, which changes nothing.
pub open spec fn connected(left: ValueView, right: ValueView, conjunction: bool) -> Result<
    ValueView,
    EvaluationErrorView,
> {
    let (fixed, other) = match (left, right) {
        (ValueView::Bool(b), _) => (Some(b), right),
        (_, ValueView::Bool(b)) => (Some(b), left),
        _ => (None, right),
    };
    match fixed {
        Some(b) => match other.to_bool() {
            Ok(c) => Ok(
                ValueView::Bool(
                    if conjunction {
                        b && c
                    } else {
                        b || c
                    },
                ),
            ),
            Err(e) => Err(EvaluationErrorView::Conversion(e)),
        },
        None => Err(
            unsupported(
                left,
                right,
                if conjunction {
                    BinaryOp::And
                } else {
                    BinaryOp::Or
                },
            ),
        ),
    }
}

/// What `LIKE` gives: the pattern must be a text as it stands; the left
/// side is converted to a text, in which the pattern is looked for.
pub open spec fn matched(left: ValueView, pattern: ValueView) -> Result<
    ValueView,
    EvaluationErrorView,
> {
    match pattern {
        ValueView::String(p) => match left.to_string() {
            Ok(s) => Ok(ValueView::Bool(contains_text(s, p))),
            Err(e) => Err(EvaluationErrorView::Conversion(e)),
        },
        _ => Err(unsupported(left, pattern, BinaryOp::Like)),
    }
}

/// What `NOT` gives: the value is converted to a boolean and negated.
pub open spec fn negated(value: ValueView) -> Result<ValueView, EvaluationErrorView> {
    match value.to_bool() {
        Ok(b) => Ok(ValueView::Bool(!b)),
        Err(e) => Err(EvaluationErrorView::Conversion(e)),
    }
}

/// The result of an operator with both of its sides as plain values.
pub open spec fn outcome(r: Result<Value, EvaluationError>) -> Result<
    ValueView,
    EvaluationErrorView,
> {
    match r {
        Ok(v) => Ok(v@),
        Err(e) => Err(e@),
    }
}

impl Value {
    /// Unifies the two values and tells whether their order is the one that
    /// `operator` asks for.
    fn compare_unified(left: &Value, right: &Value, operator: BinaryOp) -> (r: Result<
        Value,
        EvaluationError,
    >)
        ensures
            outcome(r) == compared(left@, right@, operator),
    {
        match Value::unify_types(left, right) {
            Ok((l, r)) => {
                let order = l.compare(&r);
                let less = match order {
                    Some(Ordering::Less) => true,
                    _ => false,
                };
                let same = match order {
                    Some(Ordering::Equal) => true,
                    _ => false,
                };
                let greater = match order {
                    Some(Ordering::Greater) => true,
                    _ => false,
                };
                let met = match operator {
                    BinaryOp::Lt => less,
                    BinaryOp::Lte => less || same,
                    BinaryOp::Gt => greater,
                    BinaryOp::Gte => greater || same,
                    _ => same,
                };
                Ok(Value::Bool(met))
            },
            Err(e) => Err(EvaluationError::Conversion(e)),
        }
    }

    /// Tests that `left` and `right` are equal.
    ///
    /// If `left` and `right` are of different types, they will be unified.
    pub fn eq(left: &Value, right: &Value) -> (r: Result<Value, EvaluationError>)
        ensures
            outcome(r) == equal(left@, right@),
    {
        match (left, right) {
            (Value::Null, other) => Ok(Value::Bool(other.get_type() == Type::Null)),
            (other, Value::Null) => Ok(Value::Bool(other.get_type() == Type::Null)),
            _ => Value::compare_unified(left, right, BinaryOp::Eq),
        }
    }

    /// Tests that `left` is less than or equals to `right`.
    ///
    /// If `left` and `right` are of different types, they will be unified.
    pub fn lte(left: &Value, right: &Value) -> (r: Result<Value, EvaluationError>)
        ensures
            outcome(r) == ordered(left@, right@, BinaryOp::Lte),
    {
        match Value::unsupported_null(left, right, BinaryOp::Lte) {
            Ok(()) => Value::compare_unified(left, right, BinaryOp::Lte),
            Err(e) => Err(e),
        }
    }

    /// Tests that `left` is less than `right`.
    ///
    /// If `left` and `right` are of different types, they will be unified.
    pub fn lt(left: &Value, right: &Value) -> (r: Result<Value, EvaluationError>)
        ensures
            outcome(r) == ordered(left@, right@, BinaryOp::Lt),
    {
        match Value::unsupported_null(left, right, BinaryOp::Lt) {
            Ok(()) => Value::compare_unified(left, right, BinaryOp::Lt),
            Err(e) => Err(e),
        }
    }

    /// Tests that `left` is greater than or equals to `right`.
    ///
    /// If `left` and `right` are of different types, they will be unified.
    pub fn gte(left: &Value, right: &Value) -> (r: Result<Value, EvaluationError>)
        ensures
            outcome(r) == ordered(left@, right@, BinaryOp::Gte),
    {
        match Value::unsupported_null(left, right, BinaryOp::Gte) {
            Ok(()) => Value::compare_unified(left, right, BinaryOp::Gte),
            Err(e) => Err(e),
        }
    }

    /// Tests that `left` is greater than `right`.
    ///
    /// If `left` and `right` are of different types, they will be unified.
    pub fn gt(left: &Value, right: &Value) -> (r: Result<Value, EvaluationError>)
        ensures
            outcome(r) == ordered(left@, right@, BinaryOp::Gt),
    {
        match Value::unsupported_null(left, right, BinaryOp::Gt) {
            Ok(()) => Value::compare_unified(left, right, BinaryOp::Gt),
            Err(e) => Err(e),
        }
    }

    /// Converts `other` to a boolean and connects it with `fixed`.
    fn connect(fixed: bool, other: &Value, conjunction: bool) -> (r: Result<Value, EvaluationError>)
        ensures
            outcome(r) == (match other@.to_bool() {
                Ok(c) => Ok::<ValueView, EvaluationErrorView>(
                    ValueView::Bool(
                        if conjunction {
                            fixed && c
                        } else {
                            fixed || c
                        },
                    ),
                ),
                Err(e) => Err(EvaluationErrorView::Conversion(e)),
            }),
    {
        match other.cast_to_bool() {
            Ok(c) => Ok(
                Value::Bool(
                    if conjunction {
                        fixed && c
                    } else {
                        fixed || c
                    },
                ),
            ),
            Err(e) => Err(EvaluationError::Conversion(e)),
        }
    }

    /// Performs a logical "and" operation between `left` and `right`.
    ///
    /// One of the values must be a boolean. Another will be converted to bool.
    pub fn and(left: &Value, right: &Value) -> (r: Result<Value, EvaluationError>)
        ensures
            outcome(r) == connected(left@, right@, true),
    {
        match (left, right) {
            (Value::Bool(b), other) => Value::connect(*b, other, true),
            (other, Value::Bool(b)) => Value::connect(*b, other, true),
            _ => Err(
                EvaluationError::BinaryOperation(
                    BinaryOperationError::Unsupported {
                        left: left.get_type(),
                        right: right.get_type(),
                        operator: BinaryOp::And,
                    },
                ),
            ),
        }
    }

    /// Performs a logical "or" operation between `left` and `right`.
    ///
    /// One of the values must be a boolean. Another will be converted to bool.
    pub fn or(left: &Value, right: &Value) -> (r: Result<Value, EvaluationError>)
        ensures
            outcome(r) == connected(left@, right@, false),
    {
        match (left, right) {
            (Value::Bool(b), other) => Value::connect(*b, other, false),
            (other, Value::Bool(b)) => Value::connect(*b, other, false),
            _ => Err(
                EvaluationError::BinaryOperation(
                    BinaryOperationError::Unsupported {
                        left: left.get_type(),
                        right: right.get_type(),
                        operator: BinaryOp::Or,
                    },
                ),
            ),
        }
    }

    /// Looks for `pattern` in `left`.
    ///
    /// `pattern` must be a string. `left` value will be converted to string.
    pub fn like(left: &Value, pattern: &Value) -> (r: Result<Value, EvaluationError>)
        ensures
            outcome(r) == matched(left@, pattern@),
    {
        match pattern {
            Value::String(p) => match left.cast_to_string() {
                Ok(s) => Ok(Value::Bool(str_contains(s.as_str(), p.as_str()))),
                Err(e) => Err(EvaluationError::Conversion(e)),
            },
            _ => Err(
                EvaluationError::BinaryOperation(
                    BinaryOperationError::Unsupported {
                        left: left.get_type(),
                        right: pattern.get_type(),
                        operator: BinaryOp::Like,
                    },
                ),
            ),
        }
    }

    /// Performs a logical "not" operation on `value`.
    ///
    /// Value will be converted to bool.
    pub fn not(value: &Value) -> (r: Result<Value, EvaluationError>)
        ensures
            outcome(r) == negated(value@),
    {
        match value.cast_to_bool() {
            Ok(b) => Ok(Value::Bool(!b)),
            Err(e) => Err(EvaluationError::Conversion(e)),
        }
    }

    /// Refuses a null operand for an operator that orders its operands.
    fn unsupported_null(left: &Value, right: &Value, op: BinaryOp) -> (r: Result<
        (),
        EvaluationError,
    >)
        ensures
            match r {
                Ok(_) => !(left@ is Null) && !(right@ is Null),
                Err(e) => (left@ is Null || right@ is Null) && e@ == unsupported(left@, right@, op),
            },
    {
        match (left, right) {
            (Value::Null, _) | (_, Value::Null) => Err(
                EvaluationError::BinaryOperation(
                    BinaryOperationError::Unsupported {
                        left: left.get_type(),
                        right: right.get_type(),
                        operator: op,
                    },
                ),
            ),
            _ => Ok(()),
        }
    }
}

} // verus!
