//! The expressions of a query: identifiers, literals and operations on them.

use crate::query::evaluator::value::{Number, NumberView};
use crate::text::owned;
use vstd::prelude::*;

verus! {

/// Expression that can be evaluated to a `Value`.
#[derive(Debug, PartialEq)]
pub enum Expression {
    Identifier(Identifier),
    Literal(Literal),
    Operation(Box<Operation>),
}

/// Name of a field that a record may have.
#[derive(Clone, Debug, PartialEq)]
pub struct Identifier(pub String);

/// Possible literals.
#[derive(Clone, Debug, PartialEq)]
pub enum Literal {
    Number(Number),
    String(String),
    Bool(bool),
    Null,
}

/// Expression operations.
#[derive(Debug, PartialEq)]
pub enum Operation {
    Unary(UnaryOperation),
    Binary(BinaryOperation),
}

/// Unary operation on one expression.
#[derive(Debug, PartialEq)]
pub struct UnaryOperation {
    pub expression: Expression,
    pub op: UnaryOp,
}

/// Possible unary operators.
#[derive(Clone, Copy, Debug, PartialEq, Eq, Structural)]
pub enum UnaryOp {
    Not,
}

/// Binary operation on two expressions.
#[derive(Debug, PartialEq)]
pub struct BinaryOperation {
    pub left_expression: Expression,
    pub op: BinaryOp,
    pub right_expression: Expression,
}

/// Possible binary operators.
#[derive(Clone, Copy, Debug, PartialEq, Eq, Structural)]
pub enum BinaryOp {
    Gt,
    Lt,
    Gte,
    Lte,
    Eq,
    Like,
    And,
    Or,
}

/// A `Literal` as a plain value.
pub enum LiteralView {
    Number(NumberView),
    String(Seq<char>),
    Bool(bool),
    Null,
}

/// An `Expression` as a plain value: the tree, with its names and strings as
/// sequences of characters.
pub enum ExpressionView {
    Identifier(Seq<char>),
    Literal(LiteralView),
    Unary(UnaryOp, Box<ExpressionView>),
    Binary(Box<ExpressionView>, BinaryOp, Box<ExpressionView>),
}

impl View for BinaryOp {
    type V = BinaryOp;

    open spec fn view(&self) -> BinaryOp {
        *self
    }
}

impl View for Identifier {
    type V = Seq<char>;

    open spec fn view(&self) -> Seq<char> {
        self.0@
    }
}

impl View for Literal {
    type V = LiteralView;

    open spec fn view(&self) -> LiteralView {
        match self {
            Literal::Number(n) => LiteralView::Number(n@),
            Literal::String(s) => LiteralView::String(s@),
            Literal::Bool(b) => LiteralView::Bool(*b),
            Literal::Null => LiteralView::Null,
        }
    }
}

impl View for Expression {
    type V = ExpressionView;

    open spec fn view(&self) -> ExpressionView
        decreases self,
    {
        match self {
            Expression::Identifier(name) => ExpressionView::Identifier(name@),
            Expression::Literal(literal) => ExpressionView::Literal(literal@),
            Expression::Operation(operation) => match **operation {
                Operation::Unary(unary) => ExpressionView::Unary(
                    unary.op,
                    Box::new(unary.expression@),
                ),
                Operation::Binary(binary) => ExpressionView::Binary(
                    Box::new(binary.left_expression@),
                    binary.op,
                    Box::new(binary.right_expression@),
                ),
            },
        }
    }
}

impl View for UnaryOperation {
    type V = ExpressionView;

    open spec fn view(&self) -> ExpressionView {
        ExpressionView::Unary(self.op, Box::new(self.expression@))
    }
}

impl View for BinaryOperation {
    type V = ExpressionView;

    open spec fn view(&self) -> ExpressionView {
        ExpressionView::Binary(
            Box::new(self.left_expression@),
            self.op,
            Box::new(self.right_expression@),
        )
    }
}

impl View for Operation {
    type V = ExpressionView;

    open spec fn view(&self) -> ExpressionView {
        match self {
            Operation::Unary(unary) => unary@,
            Operation::Binary(binary) => binary@,
        }
    }
}

impl Identifier {
    /// A copy of this name.
    pub fn duplicate(&self) -> (copy: Identifier)
        ensures
            copy == *self,
    {
        Identifier(self.0.clone())
    }
}

impl Literal {
    /// A copy of this literal.
    pub fn duplicate(&self) -> (copy: Literal)
        ensures
            copy == *self,
    {
        match self {
            Literal::Number(n) => Literal::Number(n.duplicate()),
            Literal::String(s) => Literal::String(s.clone()),
            Literal::Bool(b) => Literal::Bool(*b),
            Literal::Null => Literal::Null,
        }
    }
}

impl Expression {
    /// A copy of this tree.
    pub fn duplicate(&self) -> (copy: Expression)
        ensures
            copy@ == self@,
        decreases self,
    {
        match self {
            Expression::Identifier(name) => Expression::Identifier(name.duplicate()),
            Expression::Literal(literal) => Expression::Literal(literal.duplicate()),
            Expression::Operation(operation) => match &**operation {
                Operation::Unary(unary) => Expression::Operation(
                    Box::new(
                        Operation::Unary(
                            UnaryOperation {
                                expression: unary.expression.duplicate(),
                                op: unary.op,
                            },
                        ),
                    ),
                ),
                Operation::Binary(binary) => Expression::Operation(
                    Box::new(
                        Operation::Binary(
                            BinaryOperation {
                                left_expression: binary.left_expression.duplicate(),
                                op: binary.op,
                                right_expression: binary.right_expression.duplicate(),
                            },
                        ),
                    ),
                ),
            },
        }
    }
}

impl Clone for Expression {
    fn clone(&self) -> (copy: Expression)
        ensures
            copy@ == self@,
    {
        self.duplicate()
    }
}

impl BinaryOp {
    /// The operator as it is written in a query.
    pub open spec fn symbol(self) -> Seq<char> {
        match self {
            BinaryOp::Gt => ">"@,
            BinaryOp::Lt => "<"@,
            BinaryOp::Gte => ">="@,
            BinaryOp::Lte => "<="@,
            BinaryOp::Eq => "="@,
            BinaryOp::Like => "LIKE"@,
            BinaryOp::And => "AND"@,
            BinaryOp::Or => "OR"@,
        }
    }

    /// The operator as it is written in a query.
    pub fn as_str(&self) -> (s: &'static str)
        ensures
            s@ == self.symbol(),
    {
        match self {
            BinaryOp::Gt => ">",
            BinaryOp::Lt => "<",
            BinaryOp::Gte => ">=",
            BinaryOp::Lte => "<=",
            BinaryOp::Eq => "=",
            BinaryOp::Like => "LIKE",
            BinaryOp::And => "AND",
            BinaryOp::Or => "OR",
        }
    }

    /// The operator as an owned text.
    pub fn to_text(&self) -> (s: String)
        ensures
            s@ == self.symbol(),
    {
        owned(self.as_str())
    }
}

} // verus!
