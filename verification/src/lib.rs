//! A to-do list whose tasks are found by queries: `SELECT <fields> [WHERE
//! <predicate>]` over records that show their fields by name.

pub mod datetime;
pub mod float;
pub mod query;
pub mod task;
pub mod text;
