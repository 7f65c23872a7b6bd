//! The evaluation of expressions against a record.

use crate::query::ast::expression::{
    BinaryOp, BinaryOperation, Expression, ExpressionView, Identifier, Literal, LiteralView,
    Operation, UnaryOp, UnaryOperation,
};
use crate::query::evaluator::reflect::Reflectable;
use crate::query::evaluator::value::operations::{
    connected, equal, matched, negated, ordered, outcome,
};
use crate::query::evaluator::value::{Value, ValueView};
use crate::query::{EvaluationError, EvaluationErrorView};
use vstd::prelude::*;
use vstd::std_specs::convert::FromSpecImpl;

verus! {

impl LiteralView {
    /// The value that the literal stands for.
    pub open spec fn value(self) -> ValueView {
        match self {
            LiteralView::Null => ValueView::Null,
            LiteralView::Bool(b) => ValueView::Bool(b),
            LiteralView::Number(n) => ValueView::Number(n),
            LiteralView::String(s) => ValueView::String(s),
        }
    }
}

/// What a binary operator gives for two values.
pub open spec fn applied(op: BinaryOp, left: ValueView, right: ValueView) -> Result<
    ValueView,
    EvaluationErrorView,
> {
    match op {
        BinaryOp::Eq => equal(left, right),
        BinaryOp::Like => matched(left, right),
        BinaryOp::And => connected(left, right, true),
        BinaryOp::Or => connected(left, right, false),
        _ => ordered(left, right, op),
    }
}

/// The value of an expression for a record. An identifier is the field of
/// that name, a literal stands for itself, an operator is applied to the
/// values of its operands. Both operands are evaluated, the left one first,
/// and the first error ends the evaluation.
pub open spec fn evaluated<C: Reflectable>(expression: ExpressionView, context: &C) -> Result<
    ValueView,
    EvaluationErrorView,
>
    decreases expression,
{
    match expression {
        ExpressionView::Identifier(name) => match context.field(name) {
            Ok(value) => Ok(value),
            Err(e) => Err(EvaluationErrorView::Reflect(e)),
        },
        ExpressionView::Literal(literal) => Ok(literal.value()),
        ExpressionView::Unary(op, operand) => match evaluated(*operand, context) {
            Ok(value) => negated(value),
            Err(e) => Err(e),
        },
        ExpressionView::Binary(left, op, right) => match evaluated(*left, context) {
            Ok(l) => match evaluated(*right, context) {
                Ok(r) => applied(op, l, r),
                Err(e) => Err(e),
            },
            Err(e) => Err(e),
        },
    }
}

impl<'a> From<&'a Literal> for Value {
    fn from(literal: &'a Literal) -> (value: Value) {
        match literal {
            Literal::Null => Value::Null,
            Literal::Bool(b) => Value::Bool(*b),
            Literal::Number(n) => Value::Number(n.duplicate()),
            Literal::String(s) => Value::String(s.clone()),
        }
    }
}

impl<'a> FromSpecImpl<&'a Literal> for Value {
    open spec fn obeys_from_spec() -> bool {
        true
    }

    open spec fn from_spec(literal: &'a Literal) -> Value {
        match literal {
            Literal::Null => Value::Null,
            Literal::Bool(b) => Value::Bool(*b),
            Literal::Number(n) => Value::Number(*n),
            Literal::String(s) => Value::String(*s),
        }
    }
}

impl Expression {
    /// Evaluate this expression with a given `context`.
    pub fn eval<C: Reflectable>(&self, context: &C) -> (r: Result<Value, EvaluationError>)
        ensures
            outcome(r) == evaluated(self@, context),
        decreases self,
    {
        match self {
            Expression::Identifier(identifier) => identifier.read(context),
            Expression::Literal(literal) => Ok(literal.value()),
            Expression::Operation(operation) => operation.apply(context),
        }
    }
}

impl Operation {
    /// Apply this operation with a given `context`.
    pub fn apply<C: Reflectable>(&self, context: &C) -> (r: Result<Value, EvaluationError>)
        ensures
            outcome(r) == evaluated(self@, context),
        decreases self,
    {
        match self {
            Operation::Unary(unary) => unary.apply(context),
            Operation::Binary(binary) => binary.apply(context),
        }
    }
}

impl BinaryOperation {
    /// Apply this binary operation with a given `context`.
    pub fn apply<C: Reflectable>(&self, context: &C) -> (r: Result<Value, EvaluationError>)
        ensures
            outcome(r) == evaluated(self@, context),
        decreases self,
    {
        let left = match self.left_expression.eval(context) {
            Ok(value) => value,
            Err(e) => {
                return Err(e);
            },
        };
        let right = match self.right_expression.eval(context) {
            Ok(value) => value,
            Err(e) => {
                return Err(e);
            },
        };
        match self.op {
            BinaryOp::Gt => Value::gt(&left, &right),
            BinaryOp::Lt => Value::lt(&left, &right),
            BinaryOp::Gte => Value::gte(&left, &right),
            BinaryOp::Lte => Value::lte(&left, &right),
            BinaryOp::Eq => Value::eq(&left, &right),
            BinaryOp::Like => Value::like(&left, &right),
            BinaryOp::And => Value::and(&left, &right),
            BinaryOp::Or => Value::or(&left, &right),
        }
    }
}

impl UnaryOperation {
    /// Apply this unary operation with a given `context`.
    pub fn apply<C: Reflectable>(&self, context: &C) -> (r: Result<Value, EvaluationError>)
        ensures
            outcome(r) == evaluated(self@, context),
        decreases self,
    {
        let value = match self.expression.eval(context) {
            Ok(value) => value,
            Err(e) => {
                return Err(e);
            },
        };
        match self.op {
            UnaryOp::Not => Value::not(&value),
        }
    }
}

impl Identifier {
    /// Read the value of identifier for a given `context`.
    pub fn read<C: Reflectable>(&self, context: &C) -> (r: Result<Value, EvaluationError>)
        ensures
            outcome(r) == (match context.field(self@) {
                Ok(value) => Ok::<ValueView, EvaluationErrorView>(value),
                Err(e) => Err(EvaluationErrorView::Reflect(e)),
            }),
    {
        match context.get_field(self.0.as_str()) {
            Ok(value) => Ok(value),
            Err(e) => Err(EvaluationError::Reflect(e)),
        }
    }
}

impl Literal {
    /// Convert literal to the value.
    pub fn value(&self) -> (value: Value)
        ensures
            value@ == self@.value(),
    {
        Value::from(self)
    }
}

} // verus!
