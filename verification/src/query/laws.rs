//! What holds of every query, every record and every table.

use crate::query::ast::expression::{BinaryOp, ExpressionView};
use crate::query::ast::grammar::{whole_query, FieldView, MismatchView, QueryView};
use crate::query::evaluator::query::{
    executed, filtered, projected, projected_columns, projection, row_values, tested, with_fields,
};
use crate::query::evaluator::reflect::Reflectable;
use crate::query::evaluator::result_set::{
    cell, extends, last_value, lemma_no_value, lemma_placed, lemma_position,
    lemma_position_in_longer,
    lemma_with_column_well_formed, lemma_with_row_well_formed, null_row, position, Table,
};
use crate::query::evaluator::value::conversion::{unified, ConversionErrorView, Type};
use crate::query::evaluator::value::operations::{connected, equal, ordered, unsupported};
use crate::query::evaluator::value::{NumberView, ValueView};
use crate::text::lemma_int_text_reads_back;
use crate::query::EvaluationErrorView;
use vstd::prelude::*;

verus! {

/// A new row leaves the rows before it as they were, but for null in every
/// column that it adds; it has a column for each of its names, and holds in
/// each column the last value given under its name, null where none was.
///
/// So a value under a name that the table does not know yet gets a column
/// behind the known ones, and every earlier row is null there.
pub proof fn lemma_with_row(table: Table, values: Seq<(Seq<char>, ValueView)>)
    requires
        table.well_formed(),
    ensures
        ({
            let after = table.with_row(values);
            &&& after.well_formed()
            &&& after.rows.len() == table.rows.len() + 1
            &&& extends(after, table)
            &&& forall|k: int|
                0 <= k < values.len() ==> position(after.columns, (#[trigger] values[k]).0) is Some
            &&& forall|k: int|
                0 <= k < values.len() && position(table.columns, (#[trigger] values[k]).0) is None
                    ==> position(after.columns, values[k].0)->Some_0 >= table.columns.len()
            &&& forall|j: int|
                0 <= j < after.columns.len() ==> #[trigger] after.rows.last()[j] == cell(
                    values,
                    after.columns[j],
                )
        }),
{
    let empty = null_row(table.columns.len());
    lemma_placed(table, empty, values);
    lemma_with_row_well_formed(table, values);
    let (placed, filled) = table.placed(empty, values);
    let after = table.with_row(values);
    assert forall|i: int| 0 <= i < table.rows.len() implies #[trigger] after.rows[i]
        == table.rows[i] + null_row((after.columns.len() - table.columns.len()) as nat) by {
        assert(after.rows[i] == placed.rows[i]);
    }
    assert forall|k: int|
        0 <= k < values.len() && position(table.columns, (#[trigger] values[k]).0) is None implies position(
        after.columns,
        values[k].0,
    )->Some_0 >= table.columns.len() by {
        lemma_position(after.columns, values[k].0);
        lemma_position(table.columns, values[k].0);
        let at = position(after.columns, values[k].0)->Some_0;
        if at < table.columns.len() {
            assert(after.columns[at] == after.columns.take(table.columns.len() as int)[at]);
        }
    }
    assert forall|j: int| 0 <= j < after.columns.len() implies #[trigger] after.rows.last()[j]
        == cell(values, after.columns[j]) by {
        assert(after.rows.last() == filled);
        assert(filled[j] == (match last_value(values, after.columns[j]) {
            Some(value) => value,
            None => empty[j],
        }));
    }
}

/// The column of a name that the table does not know is empty.
pub proof fn lemma_unknown_column_is_empty(table: Table, name: Seq<char>)
    requires
        forall|j: int| 0 <= j < table.columns.len() ==> table.columns[j] != name,
    ensures
        table.column(name) == Seq::<ValueView>::empty(),
{
    lemma_position(table.columns, name);
}

/// What filtering keeps are the records that pass the predicate, in the
/// order in which they were given; and filtering fails where the predicate
/// has no answer for one of the records.
pub proof fn lemma_filter_keeps_order<T: Reflectable>(predicate: ExpressionView, items: Seq<T>)
    ensures
        filtered(predicate, items) matches Ok(kept) ==> kept == items.filter(
            |item: T| tested(predicate, &item) == Ok::<bool, EvaluationErrorView>(true),
        ),
        filtered(predicate, items) is Err <==> exists|i: int|
            0 <= i < items.len() && tested(predicate, &#[trigger] items[i]) is Err,
    decreases items.len(),
{
    reveal(Seq::filter);
    if items.len() > 0 {
        let before = items.drop_last();
        lemma_filter_keeps_order(predicate, before);
        if filtered(predicate, items) is Err {
            if filtered(predicate, before) is Err {
                let i = choose|i: int|
                    0 <= i < before.len() && tested(predicate, &#[trigger] before[i]) is Err;
                assert(items[i] == before[i]);
            } else {
                assert(tested(predicate, &items[items.len() - 1]) is Err);
            }
        } else {
            assert forall|i: int| 0 <= i < items.len() implies !(tested(
                predicate,
                &#[trigger] items[i],
            ) is Err) by {
                if i < before.len() {
                    assert(items[i] == before[i]);
                }
            }
        }
    }
}

/// A record gives its row where it has every field that the projection
/// names, and only there.
pub proof fn lemma_row_needs_its_fields<T: Reflectable>(fields: Seq<FieldView>, item: &T)
    ensures
        row_values(fields, item) is Ok <==> forall|i: int|
            0 <= i < fields.len() ==> (#[trigger] fields[i] matches FieldView::Name(name)
                ==> item.field(name) is Ok),
    decreases fields.len(),
{
    if fields.len() > 0 {
        let earlier = fields.drop_last();
        lemma_row_needs_its_fields(earlier, item);
        assert forall|i: int| 0 <= i < earlier.len() implies earlier[i] == fields[i] by {}
        let last = fields.len() - 1;
        assert(fields[last] == fields.last());
        if row_values(fields, item) is Ok {
            assert forall|i: int| 0 <= i < fields.len() implies (#[trigger] fields[i] matches FieldView::Name(
                name,
            ) ==> item.field(name) is Ok) by {
                if i < last {
                    assert(earlier[i] == fields[i]);
                }
            }
        }
    }
}

/// A projection succeeds where every record gives its row, and only there.
pub proof fn lemma_projection_needs_its_rows<T: Reflectable>(
    fields: Seq<FieldView>,
    items: Seq<T>,
    table: Table,
)
    ensures
        projected(fields, items, table) is Ok <==> forall|i: int|
            0 <= i < items.len() ==> row_values(fields, &#[trigger] items[i]) is Ok,
    decreases items.len(),
{
    if items.len() > 0 {
        let earlier = items.drop_last();
        lemma_projection_needs_its_rows(fields, earlier, table);
        assert forall|i: int| 0 <= i < earlier.len() implies earlier[i] == items[i] by {}
        let last = items.len() - 1;
        assert(items[last] == items.last());
        if projected(fields, items, table) is Ok {
            assert forall|i: int| 0 <= i < items.len() implies row_values(
                fields,
                &#[trigger] items[i],
            ) is Ok by {
                if i < last {
                    assert(earlier[i] == items[i]);
                }
            }
        }
    }
}

/// Whether the row at the place `at` of the table is the row of `item`:
/// the record gives its values, the table has a column for each of their
/// names, and the row holds in each column what the record gives under
/// the name of the column, null where it gives nothing.
pub open spec fn is_row_of<T: Reflectable>(
    table: Table,
    at: int,
    fields: Seq<FieldView>,
    item: &T,
) -> bool {
    let values = row_values(fields, item)->Ok_0;
    &&& row_values(fields, item) is Ok
    &&& forall|k: int|
        0 <= k < values.len() ==> position(table.columns, (#[trigger] values[k]).0) is Some
    &&& forall|j: int|
        0 <= j < table.columns.len() ==> #[trigger] table.rows[at][j] == cell(
            values,
            table.columns[j],
        )
}

/// The table after the projection of records onto a well-formed table.
proof fn lemma_projected<T: Reflectable>(fields: Seq<FieldView>, items: Seq<T>, start: Table)
    requires
        start.well_formed(),
    ensures
        projected(fields, items, start) matches Ok(table) ==> {
            &&& table.well_formed()
            &&& extends(table, start)
            &&& table.rows.len() == start.rows.len() + items.len()
            &&& forall|i: int|
                0 <= i < items.len() ==> is_row_of(
                    table,
                    start.rows.len() + i,
                    fields,
                    &#[trigger] items[i],
                )
        },
    decreases items.len(),
{
    if items.len() == 0 {
        assert(start.columns.take(start.columns.len() as int) =~= start.columns);
        assert forall|i: int| 0 <= i < start.rows.len() implies #[trigger] start.rows[i]
            == start.rows[i] + null_row(0) by {
            assert(start.rows[i] + null_row(0) =~= start.rows[i]);
        }
    } else if projected(fields, items, start) is Ok {
        let earlier = items.drop_last();
        lemma_projected(fields, earlier, start);
        let before = projected(fields, earlier, start)->Ok_0;
        let last = row_values(fields, &items.last())->Ok_0;
        let table = before.with_row(last);
        lemma_with_row(before, last);
        let old_width = before.columns.len() as int;
        let base = start.rows.len() as int;
        assert(table.columns.take(start.columns.len() as int) =~= table.columns.take(
            old_width,
        ).take(start.columns.len() as int));
        assert forall|i: int| 0 <= i < start.rows.len() implies #[trigger] table.rows[i]
            == start.rows[i] + null_row((table.columns.len() - start.columns.len()) as nat) by {
            assert(before.rows[i] == start.rows[i] + null_row(
                (old_width - start.columns.len()) as nat,
            ));
            assert(table.rows[i] == before.rows[i] + null_row(
                (table.columns.len() - old_width) as nat,
            ));
            assert(start.rows[i] + null_row((old_width - start.columns.len()) as nat) + null_row(
                (table.columns.len() - old_width) as nat,
            ) =~= start.rows[i] + null_row((table.columns.len() - start.columns.len()) as nat));
        }
        assert forall|i: int| 0 <= i < items.len() implies is_row_of(
            table,
            base + i,
            fields,
            &#[trigger] items[i],
        ) by {
            if i < earlier.len() {
                assert(items[i] == earlier[i]);
                assert(is_row_of(before, base + i, fields, &earlier[i]));
                let values = row_values(fields, &earlier[i])->Ok_0;
                assert forall|k: int| 0 <= k < values.len() implies position(
                    table.columns,
                    (#[trigger] values[k]).0,
                ) is Some by {
                    lemma_position_in_longer(before.columns, table.columns, values[k].0);
                }
                assert forall|j: int| 0 <= j < table.columns.len() implies #[trigger] table.rows[base
                    + i][j] == cell(values, table.columns[j]) by {
                    assert(table.rows[base + i] == before.rows[base + i] + null_row(
                        (table.columns.len() - old_width) as nat,
                    ));
                    if j < old_width {
                        assert(table.columns[j] == table.columns.take(old_width)[j]);
                        assert(before.rows[base + i].len() == old_width);
                    } else {
                        assert(before.rows[base + i].len() == old_width);
                        assert forall|k: int| 0 <= k < values.len() implies (#[trigger] values[k]).0
                            != table.columns[j] by {
                            lemma_position(before.columns, values[k].0);
                            let at = position(before.columns, values[k].0)->Some_0;
                            assert(table.columns[at] == table.columns.take(old_width)[at]);
                        }
                        lemma_no_value(values, table.columns[j]);
                    }
                }
            } else {
                assert(items[i] == items.last());
                assert(table.rows[base + i] == table.rows.last());
            }
        }
    }
}

/// A projection gives each record one row, in the order in which the
/// records were given: the row at the place of a record holds, in each
/// column, what that record gives under the name of the column, and null
/// where it gives nothing.
pub proof fn lemma_projection_keeps_order<T: Reflectable>(fields: Seq<FieldView>, items: Seq<T>)
    ensures
        projection(fields, items) matches Ok(table) ==> {
            &&& table.well_formed()
            &&& table.rows.len() == items.len()
            &&& forall|i: int| 0 <= i < items.len() ==> is_row_of(table, i, fields, &#[trigger] items[i])
        },
{
    let names = projected_columns(fields, T::names());
    let start = Table::empty().with_columns(names);
    lemma_with_columns(Table::empty(), names);
    lemma_projected(fields, items, start);
}

/// Columns added to a well-formed table leave it well formed, with the
/// rows it had.
pub proof fn lemma_with_columns(table: Table, names: Seq<Seq<char>>)
    requires
        table.well_formed(),
    ensures
        table.with_columns(names).well_formed(),
        table.with_columns(names).rows.len() == table.rows.len(),
    decreases names.len(),
{
    if names.len() > 0 {
        lemma_with_column_well_formed(table, names[0]);
        lemma_with_columns(table.with_column(names[0]), names.skip(1));
    }
}

/// A text is read as one query, and a query gives one table or one error
/// for given records: two readings of a text are the same query, and the
/// same records give them the same answer.
pub proof fn lemma_one_text_one_answer<T: Reflectable>(
    text: Seq<char>,
    first: QueryView,
    second: QueryView,
    items: Seq<T>,
)
    requires
        whole_query(text) == Ok::<QueryView, MismatchView>(first),
        whole_query(text) == Ok::<QueryView, MismatchView>(second),
    ensures
        first == second,
        executed(first, items) == executed(second, items),
{
}

/// An integer converted to a text and back is the same integer.
pub proof fn lemma_integer_survives_its_text(n: i64)
    ensures
        ValueView::Number(NumberView::Int(n)).to_string() matches Ok(text) && ValueView::String(
            text,
        ).to_number() == Ok::<NumberView, ConversionErrorView>(NumberView::Int(n)),
{
    lemma_int_text_reads_back(n);
}

/// A value that is not null and the null value cannot be brought to one
/// type: the null value would have to be converted, and nothing converts
/// from `Null`.
pub proof fn lemma_unify_with_null(value: ValueView)
    requires
        !(value is Null),
    ensures
        unified(value, ValueView::Null) == Err::<(ValueView, ValueView), _>(
            ConversionErrorView::NotAllowed { from: Type::Null, to: value.get_type() },
        ),
        unified(ValueView::Null, value) == Err::<(ValueView, ValueView), _>(
            ConversionErrorView::NotAllowed { from: Type::Null, to: value.get_type() },
        ),
{
}

/// Whatever is compared with the null value by `=`, the answer tells
/// whether it is null itself.
pub proof fn lemma_equal_to_null(value: ValueView)
    ensures
        equal(value, ValueView::Null) == Ok::<_, EvaluationErrorView>(
            ValueView::Bool(value is Null),
        ),
        equal(ValueView::Null, value) == Ok::<_, EvaluationErrorView>(
            ValueView::Bool(value is Null),
        ),
{
}

/// No order is asked of the null value: `<`, `<=`, `>` and `>=` refuse it
/// on either side.
pub proof fn lemma_null_has_no_order(value: ValueView, operator: BinaryOp)
    requires
        operator == BinaryOp::Lt || operator == BinaryOp::Lte || operator == BinaryOp::Gt
            || operator == BinaryOp::Gte,
    ensures
        ordered(value, ValueView::Null, operator) == Err::<ValueView, _>(
            unsupported(value, ValueView::Null, operator),
        ),
        ordered(ValueView::Null, value, operator) == Err::<ValueView, _>(
            unsupported(ValueView::Null, value, operator),
        ),
{
}

/// `AND` and `OR` refuse two operands of which none is a boolean.
pub proof fn lemma_connective_needs_a_boolean(left: ValueView, right: ValueView, conjunction: bool)
    requires
        !(left is Bool),
        !(right is Bool),
    ensures
        connected(left, right, conjunction) == Err::<ValueView, _>(
            unsupported(
                left,
                right,
                if conjunction {
                    BinaryOp::And
                } else {
                    BinaryOp::Or
                },
            ),
        ),
{
}

/// Whether a projection asks for a column called `name` of records with
/// fields called `names`: a field of the projection is that name, or it is
/// `*` and the records have a field of that name.
pub open spec fn asks_for(fields: Seq<FieldView>, names: Seq<Seq<char>>, name: Seq<char>) -> bool {
    exists|i: int|
        0 <= i < fields.len() && match #[trigger] fields[i] {
            FieldView::Name(asked) => asked == name,
            FieldView::Asterisk => names.contains(name),
        }
}

/// The columns of a table with a column for each of the names are the
/// columns it had and those names.
proof fn lemma_columns_with_names(table: Table, names: Seq<Seq<char>>, name: Seq<char>)
    requires
        table.well_formed(),
    ensures
        table.with_columns(names).well_formed(),
        position(table.with_columns(names).columns, name) is Some <==> position(
            table.columns,
            name,
        ) is Some || names.contains(name),
    decreases names.len(),
{
    lemma_position(table.columns, name);
    if names.len() > 0 {
        let first = table.with_column(names[0]);
        lemma_with_column_well_formed(table, names[0]);
        lemma_position(first.columns, name);
        lemma_position(table.columns, names[0]);
        lemma_columns_with_names(first, names.skip(1), name);
        if names.contains(name) {
            let i = choose|i: int| 0 <= i < names.len() && names[i] == name;
            if i > 0 {
                assert(names.skip(1)[i - 1] == name);
            }
        }
        if names.skip(1).contains(name) {
            let i = choose|i: int| 0 <= i < names.skip(1).len() && names.skip(1)[i] == name;
            assert(names[i + 1] == name);
        }
        if position(first.columns, name) is Some && position(table.columns, name) is None {
            let at = position(first.columns, name)->Some_0;
            assert(first.columns == table.columns.push(names[0]));
            assert(at == table.columns.len());
            assert(names[0] == name);
        }
        if position(table.columns, name) is Some {
            let at = position(table.columns, name)->Some_0;
            assert(first.columns[at] == name);
        }
        if names[0] == name {
            if position(table.columns, name) is None {
                assert(first.columns.last() == name);
            }
        }
    }
}

/// A projection names each column once, and names exactly the columns that
/// it asks for.
pub proof fn lemma_projected_columns(
    fields: Seq<FieldView>,
    names: Seq<Seq<char>>,
    name: Seq<char>,
)
    ensures
        with_fields(Table::empty(), fields, names).well_formed(),
        position(projected_columns(fields, names), name) is Some <==> asks_for(fields, names, name),
    decreases fields.len(),
{
    if fields.len() == 0 {
        lemma_position(Seq::<Seq<char>>::empty(), name);
    } else {
        let earlier = fields.drop_last();
        let before = with_fields(Table::empty(), earlier, names);
        lemma_projected_columns(earlier, names, name);
        lemma_position(before.columns, name);
        match fields.last() {
            FieldView::Asterisk => {
                lemma_columns_with_names(before, names, name);
            },
            FieldView::Name(asked) => {
                lemma_with_column_well_formed(before, asked);
                let after = before.with_column(asked);
                lemma_position(after.columns, name);
                lemma_position(before.columns, asked);
                if position(before.columns, name) is Some {
                    let at = position(before.columns, name)->Some_0;
                    assert(after.columns[at] == name);
                }
                if position(after.columns, name) is Some && position(before.columns, name) is None {
                    let at = position(after.columns, name)->Some_0;
                    assert(after.columns == before.columns.push(asked));
                    assert(at == before.columns.len());
                }
                if asked == name && position(before.columns, name) is None {
                    assert(after.columns.last() == name);
                }
            },
        }
        if asks_for(earlier, names, name) {
            let i = choose|i: int|
                0 <= i < earlier.len() && match #[trigger] earlier[i] {
                    FieldView::Name(asked) => asked == name,
                    FieldView::Asterisk => names.contains(name),
                };
            assert(fields[i] == earlier[i]);
        }
        if asks_for(fields, names, name) && !asks_for(earlier, names, name) {
            let i = choose|i: int|
                0 <= i < fields.len() && match #[trigger] fields[i] {
                    FieldView::Name(asked) => asked == name,
                    FieldView::Asterisk => names.contains(name),
                };
            if i < earlier.len() {
                assert(fields[i] == earlier[i]);
            }
            assert(i == fields.len() - 1);
        }
        let last = fields.len() - 1;
        assert(fields[last] == fields.last());
    }
}

} // verus!
