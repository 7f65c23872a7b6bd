//! The evaluation of queries: values, records, expressions, execution and
//! the table of results.

pub mod expression;
pub mod query;
pub mod reflect;
pub mod result_set;
pub mod value;
