//! A small query language over records that show their fields by name.

pub mod ast;
pub mod evaluator;
pub mod laws;

use crate::query::evaluator::reflect::{ReflectError, ReflectErrorView};
use crate::query::evaluator::value::conversion::{ConversionError, ConversionErrorView};
use crate::query::evaluator::value::operations::{
    BinaryOperationError, BinaryOperationErrorView, UnaryOperationError, UnaryOperationErrorView,
};
use vstd::prelude::*;

pub use crate::query::ast::Query;
pub use crate::query::evaluator::reflect;
pub use crate::query::evaluator::result_set::ResultSet;

verus! {

/// Represents possible errors of expression evaluation.
#[derive(Debug)]
pub enum EvaluationError {
    Reflect(ReflectError),
    Conversion(ConversionError),
    BinaryOperation(BinaryOperationError),
    UnaryOperation(UnaryOperationError),
}

/// An `EvaluationError` as a plain value.
pub enum EvaluationErrorView {
    Reflect(ReflectErrorView),
    Conversion(ConversionErrorView),
    BinaryOperation(BinaryOperationErrorView),
    UnaryOperation(UnaryOperationErrorView),
}

impl View for EvaluationError {
    type V = EvaluationErrorView;

    open spec fn view(&self) -> EvaluationErrorView {
        match self {
            EvaluationError::Reflect(e) => EvaluationErrorView::Reflect(e@),
            EvaluationError::Conversion(e) => EvaluationErrorView::Conversion(e@),
            EvaluationError::BinaryOperation(e) => EvaluationErrorView::BinaryOperation(e@),
            EvaluationError::UnaryOperation(e) => EvaluationErrorView::UnaryOperation(e@),
        }
    }
}

} // verus!
