//! The execution of a query: records are filtered by the predicate and
//! projected to a table.

use crate::query::ast::grammar::{FieldView, QueryView};
use crate::query::ast::expression::ExpressionView;
use crate::query::ast::{Field, FieldsProjection, Predicate, Query};
use crate::query::evaluator::expression::evaluated;
use crate::query::evaluator::reflect::{fields_view, names_view, ReflectErrorView, Reflectable};
use crate::query::evaluator::result_set::{ResultSet, Table};
use crate::query::evaluator::value::{Value, ValueView};
use crate::query::{EvaluationError, EvaluationErrorView};
use vstd::prelude::*;

verus! {

/// The table with the columns that the fields ask for, added field by
/// field: a name asks for the column of that name, `*` for a column for
/// each of `names`.
pub open spec fn with_fields(table: Table, fields: Seq<FieldView>, names: Seq<Seq<char>>) -> Table
    decreases fields.len(),
{
    if fields.len() == 0 {
        table
    } else {
        let before = with_fields(table, fields.drop_last(), names);
        match fields.last() {
            FieldView::Asterisk => before.with_columns(names),
            FieldView::Name(name) => before.with_column(name),
        }
    }
}

/// The names of the columns that a projection gives to records with fields
/// called `names`: each name once, at the place where it is asked for
/// first.
pub open spec fn projected_columns(fields: Seq<FieldView>, names: Seq<Seq<char>>) -> Seq<
    Seq<char>,
> {
    with_fields(Table::empty(), fields, names).columns
}

/// The values that a record gives to a row, field by field: a name gives
/// the field of that name, `*` gives every field that the record lists. A
/// field that the record does not have ends the row with its error.
pub open spec fn row_values<T: Reflectable>(fields: Seq<FieldView>, item: &T) -> Result<
    Seq<(Seq<char>, ValueView)>,
    ReflectErrorView,
>
    decreases fields.len(),
{
    if fields.len() == 0 {
        Ok(Seq::empty())
    } else {
        match row_values(fields.drop_last(), item) {
            Ok(values) => match fields.last() {
                FieldView::Asterisk => Ok(values + item.listed_fields()),
                FieldView::Name(name) => match item.field(name) {
                    Ok(value) => Ok(values.push((name, value))),
                    Err(e) => Err(e),
                },
            },
            Err(e) => Err(e),
        }
    }
}

/// The table after the records have given it a row each, in their order.
/// The first record that cannot give its row ends the projection with its
/// error.
pub open spec fn projected<T: Reflectable>(fields: Seq<FieldView>, items: Seq<T>, table: Table)
    -> Result<Table, EvaluationErrorView>
    decreases items.len(),
{
    if items.len() == 0 {
        Ok(table)
    } else {
        match projected(fields, items.drop_last(), table) {
            Ok(before) => match row_values(fields, &items.last()) {
                Ok(values) => Ok(before.with_row(values)),
                Err(e) => Err(EvaluationErrorView::Reflect(e)),
            },
            Err(e) => Err(e),
        }
    }
}

/// Whether a record passes the predicate: the value of the expression for
/// the record, converted to a boolean.
pub open spec fn tested<T: Reflectable>(predicate: ExpressionView, item: &T) -> Result<
    bool,
    EvaluationErrorView,
> {
    match evaluated(predicate, item) {
        Ok(value) => match value.to_bool() {
            Ok(b) => Ok(b),
            Err(e) => Err(EvaluationErrorView::Conversion(e)),
        },
        Err(e) => Err(e),
    }
}

/// The records that pass the predicate, in their order. The first record
/// for which the predicate has no answer ends the filtering with its
/// error.
pub open spec fn filtered<T: Reflectable>(predicate: ExpressionView, items: Seq<T>) -> Result<
    Seq<T>,
    EvaluationErrorView,
>
    decreases items.len(),
{
    if items.len() == 0 {
        Ok(Seq::empty())
    } else {
        match filtered(predicate, items.drop_last()) {
            Ok(kept) => match tested(predicate, &items.last()) {
                Ok(passes) => if passes {
                    Ok(kept.push(items.last()))
                } else {
                    Ok(kept)
                },
                Err(e) => Err(e),
            },
            Err(e) => Err(e),
        }
    }
}

/// The table that a projection makes of records: the columns that the
/// fields ask for, then a row for each record.
pub open spec fn projection<T: Reflectable>(fields: Seq<FieldView>, items: Seq<T>) -> Result<
    Table,
    EvaluationErrorView,
> {
    projected(fields, items, Table::empty().with_columns(projected_columns(fields, T::names())))
}

/// The table that a query makes of records: those that pass the predicate,
/// if there is one, are projected.
pub open spec fn executed<T: Reflectable>(query: QueryView, items: Seq<T>) -> Result<
    Table,
    EvaluationErrorView,
> {
    match query.predicate {
        Some(predicate) => match filtered(predicate, items) {
            Ok(kept) => projection(query.fields, kept),
            Err(e) => Err(e),
        },
        None => projection(query.fields, items),
    }
}

/// The records behind a list of references.
pub open spec fn referred<T>(items: Seq<&T>) -> Seq<T> {
    items.map_values(|item: &T| *item)
}

/// A table or an error as plain values.
pub open spec fn table_outcome(r: Result<ResultSet, EvaluationError>) -> Result<
    Table,
    EvaluationErrorView,
> {
    match r {
        Ok(table) => Ok(table@),
        Err(e) => Err(e@),
    }
}

impl Query {
    /// Execute the query on given `items`.
    ///
    /// The items are filtered by the predicate and then projected to a
    /// `ResultSet`.
    pub fn execute<T: Reflectable>(&self, items: &[T]) -> (r: Result<ResultSet, EvaluationError>)
        ensures
            table_outcome(r) == executed(self@, items@),
    {
        match &self.predicate {
            Some(predicate) => match predicate.filter(items) {
                Ok(kept) => self.fields_projection.project_references(&kept),
                Err(e) => Err(e),
            },
            None => self.fields_projection.project(items),
        }
    }
}

impl FieldsProjection {
    /// Return the column names, that need to be projected in a `ResultSet`.
    pub fn columns<T: Reflectable>(&self) -> (names: Vec<String>)
        ensures
            names_view(names@) == projected_columns(self@, T::names()),
    {
        let field_names = T::field_names();
        let mut table = ResultSet::new();
        let mut i: usize = 0;
        while i < self.0.len()
            invariant
                i <= self.0.len(),
                names_view(field_names@) == T::names(),
                table@ == with_fields(Table::empty(), self@.take(i as int), T::names()),
            decreases self.0.len() - i,
        {
            proof {
                assert(self@.take(i + 1).drop_last() =~= self@.take(i as int));
                assert(self@.take(i + 1).last() == self.0@[i as int]@);
            }
            match &self.0[i] {
                Field::Asterisk => {
                    table.add_columns(&field_names);
                },
                Field::Name(name) => {
                    table.add_column(name.0.as_str());
                },
            }
            i += 1;
        }
        assert(self@.take(self.0.len() as int) =~= self@);
        let columns = table.columns();
        let mut names: Vec<String> = Vec::new();
        let mut k: usize = 0;
        while k < columns.len()
            invariant
                k <= columns.len(),
                names.len() == k,
                forall|j: int| 0 <= j < k ==> names@[j] == columns@[j],
            decreases columns.len() - k,
        {
            names.push(columns[k].clone());
            k += 1;
        }
        assert(names@ =~= columns@);
        names
    }

    /// Gathers the values that `item` gives to its row.
    fn row<T: Reflectable>(&self, item: &T) -> (r: Result<Vec<(String, Value)>, EvaluationError>)
        ensures
            match r {
                Ok(values) => row_values(self@, item) == Ok::<_, ReflectErrorView>(
                    fields_view(values@),
                ),
                Err(e) => row_values(self@, item) matches Err(reflect) && e@
                    == EvaluationErrorView::Reflect(reflect),
            },
    {
        let mut values: Vec<(String, Value)> = Vec::new();
        let mut i: usize = 0;
        assert(fields_view(values@) =~= Seq::empty());
        while i < self.0.len()
            invariant
                i <= self.0.len(),
                row_values(self@.take(i as int), item) == Ok::<_, ReflectErrorView>(
                    fields_view(values@),
                ),
            decreases self.0.len() - i,
        {
            proof {
                assert(self@.take(i + 1).drop_last() =~= self@.take(i as int));
                assert(self@.take(i + 1).last() == self.0@[i as int]@);
            }
            match &self.0[i] {
                Field::Asterisk => {
                    let mut listed = item.fields();
                    proof {
                        assert(fields_view(values@ + listed@) =~= fields_view(values@)
                            + fields_view(listed@));
                    }
                    values.append(&mut listed);
                },
                Field::Name(name) => match item.get_field(name.0.as_str()) {
                    Ok(value) => {
                        let pair = (name.0.clone(), value);
                        proof {
                            assert(fields_view(values@.push(pair)) =~= fields_view(values@).push(
                                (name@, value@),
                            ));
                        }
                        values.push(pair);
                    },
                    Err(e) => {
                        proof {
                            lemma_row_error(self@, item, i as int);
                        }
                        return Err(EvaluationError::Reflect(e));
                    },
                },
            }
            i += 1;
        }
        assert(self@.take(self.0.len() as int) =~= self@);
        Ok(values)
    }

    /// Projects `items` to the `ResultSet`.
    pub fn project<T: Reflectable>(&self, items: &[T]) -> (r: Result<ResultSet, EvaluationError>)
        ensures
            table_outcome(r) == projection(self@, items@),
    {
        let mut references: Vec<&T> = Vec::new();
        let mut i: usize = 0;
        while i < items.len()
            invariant
                i <= items.len(),
                references.len() == i,
                forall|k: int| 0 <= k < i ==> *references@[k] == items@[k],
            decreases items.len() - i,
        {
            references.push(&items[i]);
            i += 1;
        }
        assert(referred(references@) =~= items@);
        self.project_references(&references)
    }

    /// Projects the items behind `items` to the `ResultSet`.
    pub fn project_references<T: Reflectable>(&self, items: &Vec<&T>) -> (r: Result<
        ResultSet,
        EvaluationError,
    >)
        ensures
            table_outcome(r) == projection(self@, referred(items@)),
    {
        let mut result_set = ResultSet::with_columns(&self.columns::<T>());
        let ghost all = referred(items@);
        let ghost start = result_set@;
        let mut i: usize = 0;
        while i < items.len()
            invariant
                i <= items.len(),
                all == referred(items@),
                start == Table::empty().with_columns(projected_columns(self@, T::names())),
                projected(self@, all.take(i as int), start) == Ok::<_, EvaluationErrorView>(
                    result_set@,
                ),
            decreases items.len() - i,
        {
            proof {
                assert(all.take(i + 1).drop_last() =~= all.take(i as int));
                assert(all.take(i + 1).last() == *items@[i as int]);
            }
            match self.row(items[i]) {
                Ok(values) => {
                    result_set.add_row(values);
                },
                Err(e) => {
                    proof {
                        let first = all.take(i + 1);
                        assert(row_values(self@, &first.last()) is Err);
                        assert(projected(self@, first.drop_last(), start) is Ok);
                        assert(projected(self@, first, start) == Err::<Table, _>(e@));
                        lemma_projection_error(self@, all, start, i as int);
                    }
                    return Err(e);
                },
            }
            i += 1;
        }
        assert(all.take(items.len() as int) =~= all);
        Ok(result_set)
    }
}

impl Predicate {
    /// Test given `value` by predicate.
    pub fn test<T: Reflectable>(&self, value: &T) -> (r: Result<bool, EvaluationError>)
        ensures
            match r {
                Ok(b) => tested(self@, value) == Ok::<_, EvaluationErrorView>(b),
                Err(e) => tested(self@, value) == Err::<bool, _>(e@),
            },
    {
        match self.expr.eval(value) {
            Ok(value) => match value.cast_to_bool() {
                Ok(b) => Ok(b),
                Err(e) => Err(EvaluationError::Conversion(e)),
            },
            Err(e) => Err(e),
        }
    }

    /// Filter given values by predicate.
    pub fn filter<'a, T: Reflectable>(&self, items: &'a [T]) -> (r: Result<
        Vec<&'a T>,
        EvaluationError,
    >)
        ensures
            match r {
                Ok(kept) => filtered(self@, items@) == Ok::<_, EvaluationErrorView>(
                    referred(kept@),
                ),
                Err(e) => filtered(self@, items@) == Err::<Seq<T>, _>(e@),
            },
    {
        let mut kept: Vec<&'a T> = Vec::new();
        let mut i: usize = 0;
        assert(referred(kept@) =~= Seq::empty());
        while i < items.len()
            invariant
                i <= items.len(),
                filtered(self@, items@.take(i as int)) == Ok::<_, EvaluationErrorView>(
                    referred(kept@),
                ),
            decreases items.len() - i,
        {
            proof {
                assert(items@.take(i + 1).drop_last() =~= items@.take(i as int));
                assert(items@.take(i + 1).last() == items@[i as int]);
            }
            match self.test(&items[i]) {
                Ok(passes) => {
                    if passes {
                        proof {
                            assert(referred(kept@.push(&items@[i as int])) =~= referred(kept@).push(
                                items@[i as int],
                            ));
                        }
                        kept.push(&items[i]);
                    }
                },
                Err(e) => {
                    proof {
                        lemma_filter_error(self@, items@, i as int);
                    }
                    return Err(e);
                },
            }
            i += 1;
        }
        assert(items@.take(items.len() as int) =~= items@);
        Ok(kept)
    }
}

/// An error among the first fields is the error of the row.
pub proof fn lemma_row_error<T: Reflectable>(fields: Seq<FieldView>, item: &T, i: int)
    requires
        0 <= i < fields.len(),
        row_values(fields.take(i + 1), item) is Err,
    ensures
        row_values(fields, item) == row_values(fields.take(i + 1), item),
    decreases fields.len(),
{
    if i + 1 == fields.len() {
        assert(fields.take(i + 1) =~= fields);
    } else {
        assert(fields.drop_last().take(i + 1) =~= fields.take(i + 1));
        lemma_row_error(fields.drop_last(), item, i);
    }
}

/// An error among the first records is the error of the projection.
pub proof fn lemma_projection_error<T: Reflectable>(
    fields: Seq<FieldView>,
    items: Seq<T>,
    table: Table,
    i: int,
)
    requires
        0 <= i < items.len(),
        projected(fields, items.take(i + 1), table) is Err,
    ensures
        projected(fields, items, table) == projected(fields, items.take(i + 1), table),
    decreases items.len(),
{
    if i + 1 == items.len() {
        assert(items.take(i + 1) =~= items);
    } else {
        assert(items.drop_last().take(i + 1) =~= items.take(i + 1));
        lemma_projection_error(fields, items.drop_last(), table, i);
    }
}

/// An error among the first records is the error of the filtering.
pub proof fn lemma_filter_error<T: Reflectable>(predicate: ExpressionView, items: Seq<T>, i: int)
    requires
        0 <= i < items.len(),
        filtered(predicate, items.take(i + 1)) is Err,
    ensures
        filtered(predicate, items) == filtered(predicate, items.take(i + 1)),
    decreases items.len(),
{
    if i + 1 == items.len() {
        assert(items.take(i + 1) =~= items);
    } else {
        assert(items.drop_last().take(i + 1) =~= items.take(i + 1));
        lemma_filter_error(predicate, items.drop_last(), i);
    }
}

} // verus!
