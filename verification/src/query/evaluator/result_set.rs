//! The table that a query gives: named columns and rows of values.

use crate::query::evaluator::reflect::{fields_view, names_view};
use crate::query::evaluator::value::{Value, ValueView};
use crate::text::{owned, str_eq};
use vstd::prelude::*;

verus! {

/// A `ResultSet` as a plain value: the names of its columns in the order in
/// which they were added, and its rows in the order in which they were
/// added, each with one value for each column.
pub struct Table {
    pub columns: Seq<Seq<char>>,
    pub rows: Seq<Seq<ValueView>>,
}

/// The values of a row as plain values.
pub open spec fn row_view(row: Seq<Value>) -> Seq<ValueView> {
    row.map_values(|value: Value| value@)
}

/// Rows as plain values.
pub open spec fn rows_view(rows: Seq<Vec<Value>>) -> Seq<Seq<ValueView>> {
    rows.map_values(|row: Vec<Value>| row_view(row@))
}

/// A row of `width` null values.
pub open spec fn null_row(width: nat) -> Seq<ValueView> {
    Seq::new(width, |i: int| ValueView::Null)
}

/// The names of a list of named values.
pub open spec fn names_of(values: Seq<(Seq<char>, ValueView)>) -> Seq<Seq<char>> {
    values.map_values(|value: (Seq<char>, ValueView)| value.0)
}

/// The place of the first column called `name`.
pub open spec fn position(columns: Seq<Seq<char>>, name: Seq<char>) -> Option<int>
    decreases columns.len(),
{
    if columns.len() == 0 {
        None
    } else {
        match position(columns.drop_last(), name) {
            Some(i) => Some(i),
            None => if columns.last() == name {
                Some(columns.len() - 1)
            } else {
                None
            },
        }
    }
}

impl Table {
    /// The table without columns and rows.
    pub open spec fn empty() -> Table {
        Table { columns: Seq::empty(), rows: Seq::empty() }
    }

    /// No name stands for two columns, and every row has a value for each
    /// column.
    pub open spec fn well_formed(self) -> bool {
        &&& forall|i: int, j: int|
            0 <= i < j < self.columns.len() ==> self.columns[i] != self.columns[j]
        &&& forall|i: int| 0 <= i < self.rows.len() ==> (#[trigger] self.rows[i]).len() == self.columns.len()
    }

    /// The table with a column called `name`: as it is where it has one, else
    /// with the column added behind the others and null in every row.
    pub open spec fn with_column(self, name: Seq<char>) -> Table {
        if position(self.columns, name) is Some {
            self
        } else {
            Table {
                columns: self.columns.push(name),
                rows: self.rows.map_values(|row: Seq<ValueView>| row.push(ValueView::Null)),
            }
        }
    }

    /// The table with a column for each of the names, added in their order.
    pub open spec fn with_columns(self, names: Seq<Seq<char>>) -> Table
        decreases names.len(),
    {
        if names.len() == 0 {
            self
        } else {
            self.with_column(names[0]).with_columns(names.skip(1))
        }
    }

    /// How a row is filled: the table and the row under way after the
    /// values are put into the row, one after the other. A value for a
    /// column of the table takes its place in the row; a value for an
    /// unknown name gets a new column, which is null in the rows of the
    /// table.
    pub open spec fn placed(self, row: Seq<ValueView>, values: Seq<(Seq<char>, ValueView)>) -> (
        Table,
        Seq<ValueView>,
    )
        decreases values.len(),
    {
        if values.len() == 0 {
            (self, row)
        } else {
            let (name, value) = values[0];
            match position(self.columns, name) {
                Some(i) => self.placed(row.update(i, value), values.skip(1)),
                None => self.with_column(name).placed(row.push(value), values.skip(1)),
            }
        }
    }

    /// The table with one more row, made of the given values. Each name gets
    /// a column unless it has one. The row holds in each column the last
    /// value given under the name of the column, null where none is given.
    pub open spec fn with_row(self, values: Seq<(Seq<char>, ValueView)>) -> Table {
        let wider = self.with_columns(names_of(values));
        Table {
            columns: wider.columns,
            rows: wider.rows.push(
                Seq::new(wider.columns.len(), |j: int| cell(values, wider.columns[j])),
            ),
        }
    }

    /// The table with one more row for each list of values, in their order.
    pub open spec fn with_rows(self, rows: Seq<Seq<(Seq<char>, ValueView)>>) -> Table
        decreases rows.len(),
    {
        if rows.len() == 0 {
            self
        } else {
            self.with_row(rows[0]).with_rows(rows.skip(1))
        }
    }

    /// The values of the column called `name`, one of each row; nothing
    /// where there is no such column.
    pub open spec fn column(self, name: Seq<char>) -> Seq<ValueView> {
        match position(self.columns, name) {
            Some(i) => self.rows.map_values(|row: Seq<ValueView>| row[i]),
            None => Seq::empty(),
        }
    }

    /// The values of the row at `index`; nothing where there is no such row.
    pub open spec fn row(self, index: int) -> Seq<ValueView> {
        if 0 <= index < self.rows.len() {
            self.rows[index]
        } else {
            Seq::empty()
        }
    }

    /// The text of every value, row by row.
    pub open spec fn cells(self) -> Seq<Seq<Seq<char>>> {
        self.rows.map_values(|row: Seq<ValueView>| row.map_values(|value: ValueView| value.text()))
    }
}

/// What `position` finds is a column of that name, and the first.
pub proof fn lemma_position(columns: Seq<Seq<char>>, name: Seq<char>)
    ensures
        match position(columns, name) {
            Some(i) => 0 <= i < columns.len() && columns[i] == name && forall|j: int|
                0 <= j < i ==> columns[j] != name,
            None => forall|j: int| 0 <= j < columns.len() ==> columns[j] != name,
        },
    decreases columns.len(),
{
    if columns.len() > 0 {
        lemma_position(columns.drop_last(), name);
        assert forall|j: int| 0 <= j < columns.len() - 1 implies columns[j] == columns.drop_last()[j] by {}
    }
}

/// A column of that name before which there is none is what `position`
/// finds.
pub proof fn lemma_position_is(columns: Seq<Seq<char>>, name: Seq<char>, i: int)
    requires
        0 <= i < columns.len(),
        columns[i] == name,
        forall|j: int| 0 <= j < i ==> columns[j] != name,
    ensures
        position(columns, name) == Some(i),
{
    lemma_position(columns, name);
}

/// A table with one more column is well formed and has the rows it had.
pub proof fn lemma_with_column_well_formed(table: Table, name: Seq<char>)
    requires
        table.well_formed(),
    ensures
        table.with_column(name).well_formed(),
        table.with_column(name).rows.len() == table.rows.len(),
        table.with_column(name).columns.len() >= table.columns.len(),
{
    lemma_position(table.columns, name);
}

/// The value that a list of named values has for a name: the last one
/// under that name.
pub open spec fn last_value(values: Seq<(Seq<char>, ValueView)>, name: Seq<char>) -> Option<
    ValueView,
>
    decreases values.len(),
{
    if values.len() == 0 {
        None
    } else {
        match last_value(values.skip(1), name) {
            Some(value) => Some(value),
            None => if values[0].0 == name {
                Some(values[0].1)
            } else {
                None
            },
        }
    }
}

/// What stands in the column called `name` of a row made of `values`: the
/// last value under that name, null where there is none.
pub open spec fn cell(values: Seq<(Seq<char>, ValueView)>, name: Seq<char>) -> ValueView {
    match last_value(values, name) {
        Some(value) => value,
        None => ValueView::Null,
    }
}

/// Whether `longer` begins with the columns of `shorter` and gives every
/// row of `shorter` null in each column behind them.
pub open spec fn extends(longer: Table, shorter: Table) -> bool {
    &&& shorter.columns.len() <= longer.columns.len()
    &&& longer.columns.take(shorter.columns.len() as int) == shorter.columns
    &&& shorter.rows.len() <= longer.rows.len()
    &&& forall|i: int|
        0 <= i < shorter.rows.len() ==> #[trigger] longer.rows[i] == shorter.rows[i] + null_row(
            (longer.columns.len() - shorter.columns.len()) as nat,
        )
}

/// A name that no value stands under has no value.
pub proof fn lemma_no_value(values: Seq<(Seq<char>, ValueView)>, name: Seq<char>)
    requires
        forall|k: int| 0 <= k < values.len() ==> (#[trigger] values[k]).0 != name,
    ensures
        last_value(values, name) is None,
    decreases values.len(),
{
    if values.len() > 0 {
        let rest = values.skip(1);
        assert forall|k: int| 0 <= k < rest.len() implies (#[trigger] rest[k]).0 != name by {
            assert(rest[k] == values[k + 1]);
        }
        lemma_no_value(rest, name);
    }
}

/// A column of a table is still a column, at its place, of a table that
/// begins with the columns of the first.
pub proof fn lemma_position_in_longer(shorter: Seq<Seq<char>>, longer: Seq<Seq<char>>, name: Seq<char>)
    requires
        shorter.len() <= longer.len(),
        longer.take(shorter.len() as int) == shorter,
        position(shorter, name) is Some,
    ensures
        position(longer, name) == position(shorter, name),
{
    lemma_position(shorter, name);
    lemma_position(longer, name);
    let i = position(shorter, name)->Some_0;
    assert(longer[i] == longer.take(shorter.len() as int)[i]);
    assert forall|j: int| 0 <= j < i implies longer[j] != name by {
        assert(longer[j] == longer.take(shorter.len() as int)[j]);
    }
}

/// What `placed` leaves: the table with a column for each of the names,
/// well formed and an extension of the one it began with, and a row that
/// holds for each column the last value under its name, or else what it
/// held before.
pub proof fn lemma_placed(table: Table, row: Seq<ValueView>, values: Seq<(Seq<char>, ValueView)>)
    requires
        table.well_formed(),
        row.len() == table.columns.len(),
    ensures
        ({
            let (after, filled) = table.placed(row, values);
            &&& after == table.with_columns(names_of(values))
            &&& after.well_formed()
            &&& filled.len() == after.columns.len()
            &&& after.rows.len() == table.rows.len()
            &&& extends(after, table)
            &&& forall|k: int|
                0 <= k < values.len() ==> position(after.columns, (#[trigger] values[k]).0) is Some
            &&& forall|j: int|
                0 <= j < after.columns.len() ==> #[trigger] filled[j] == (match last_value(
                    values,
                    after.columns[j],
                ) {
                    Some(value) => value,
                    None => row[j],
                }) && (last_value(values, after.columns[j]) is None ==> j < row.len())
        }),
    decreases values.len(),
{
    let (after, filled) = table.placed(row, values);
    if values.len() == 0 {
        assert(after.columns.take(table.columns.len() as int) =~= table.columns);
        assert forall|i: int| 0 <= i < table.rows.len() implies #[trigger] after.rows[i]
            == table.rows[i] + null_row(0) by {
            assert(table.rows[i] + null_row(0) =~= table.rows[i]);
        }
    } else {
        let (name, value) = values[0];
        let rest = values.skip(1);
        lemma_position(table.columns, name);
        assert forall|k: int| 0 <= k < rest.len() implies rest[k] == values[k + 1] by {}
        assert(names_of(values)[0] == name);
        assert(names_of(values).skip(1) =~= names_of(rest));
        match position(table.columns, name) {
            Some(at) => {
                let marked = row.update(at, value);
                lemma_placed(table, marked, rest);
                assert forall|k: int| 0 <= k < values.len() implies position(
                    after.columns,
                    (#[trigger] values[k]).0,
                ) is Some by {
                    if k == 0 {
                        lemma_position_in_longer(table.columns, after.columns, name);
                    } else {
                        assert(values[k] == rest[k - 1]);
                    }
                }
                assert forall|j: int| 0 <= j < after.columns.len() implies #[trigger] filled[j] == (
                match last_value(values, after.columns[j]) {
                    Some(value) => value,
                    None => row[j],
                }) && (last_value(values, after.columns[j]) is None ==> j < row.len()) by {
                    if last_value(rest, after.columns[j]) is None {
                        assert(j < row.len());
                        assert(after.columns[j] == after.columns.take(table.columns.len() as int)[j]);
                        if after.columns[j] == name {
                            assert(j == at);
                        }
                    }
                }
            },
            None => {
                let wider = table.with_column(name);
                let longer = row.push(value);
                lemma_with_column_well_formed(table, name);
                lemma_placed(wider, longer, rest);
                let width = table.columns.len() as int;
                assert(after.columns[width] == after.columns.take(wider.columns.len() as int)[width]);
                assert(after.columns.take(width) =~= after.columns.take(
                    wider.columns.len() as int,
                ).take(width));
                assert(after.columns.take(width) =~= table.columns);
                assert forall|i: int| 0 <= i < table.rows.len() implies #[trigger] after.rows[i]
                    == table.rows[i] + null_row((after.columns.len() - width) as nat) by {
                    assert(wider.rows[i] == table.rows[i].push(ValueView::Null));
                    assert(after.rows[i] == wider.rows[i] + null_row(
                        (after.columns.len() - wider.columns.len()) as nat,
                    ));
                    assert(table.rows[i].push(ValueView::Null) + null_row(
                        (after.columns.len() - wider.columns.len()) as nat,
                    ) =~= table.rows[i] + null_row((after.columns.len() - width) as nat));
                }
                assert forall|k: int| 0 <= k < values.len() implies position(
                    after.columns,
                    (#[trigger] values[k]).0,
                ) is Some by {
                    if k == 0 {
                        lemma_position(wider.columns, name);
                        lemma_position_in_longer(wider.columns, after.columns, name);
                    } else {
                        assert(values[k] == rest[k - 1]);
                    }
                }
                assert forall|j: int| 0 <= j < after.columns.len() implies #[trigger] filled[j] == (
                match last_value(values, after.columns[j]) {
                    Some(value) => value,
                    None => row[j],
                }) && (last_value(values, after.columns[j]) is None ==> j < row.len()) by {
                    if last_value(rest, after.columns[j]) is None {
                        assert(j < longer.len());
                        if j < width {
                            assert(after.columns[j] == after.columns.take(width)[j]);
                        }
                    }
                }
            },
        }
    }
}

/// A table with one more row is well formed.
pub proof fn lemma_with_row_well_formed(table: Table, values: Seq<(Seq<char>, ValueView)>)
    requires
        table.well_formed(),
    ensures
        table.with_row(values).well_formed(),
        table.with_row(values) == ({
            let (after, filled) = table.placed(null_row(table.columns.len()), values);
            Table { columns: after.columns, rows: after.rows.push(filled) }
        }),
{
    let empty = null_row(table.columns.len());
    lemma_placed(table, empty, values);
    let (after, filled) = table.placed(empty, values);
    assert(filled =~= Seq::new(after.columns.len(), |j: int| cell(values, after.columns[j])));
}

/// What `tabled` draws for a table with the given column names and texts in
/// its cells: the names in one row, each in a column of its own, then the
/// rows, in the style `modern_rounded`.
pub uninterp spec fn table_text(columns: Seq<Seq<char>>, cells: Seq<Seq<Seq<char>>>) -> Seq<char>;

/// The texts of cells as plain values.
pub open spec fn cells_view(cells: Seq<Vec<String>>) -> Seq<Seq<Seq<char>>> {
    cells.map_values(|row: Vec<String>| names_view(row@))
}

/// Draws the table with `tabled`: the builder gets each name through
/// `push_column` and each row through `push_record`, and what it builds is
/// printed in the style `modern_rounded`. The contract names the text.
#[verifier::external_body]
fn draw_table(columns: &Vec<String>, cells: &Vec<Vec<String>>) -> (s: String)
    requires
        forall|i: int| 0 <= i < cells.len() ==> (#[trigger] cells@[i]).len() == columns.len(),
    ensures
        s@ == table_text(names_view(columns@), cells_view(cells@)),
{
    let mut builder = tabled::builder::Builder::new();
    for column in columns {
        builder.push_column(std::iter::once(column));
    }
    for row in cells {
        builder.push_record(row);
    }
    builder.build().with(tabled::settings::Style::modern_rounded()).to_string()
}

/// Looks for the column called `name`.
fn find_column(columns: &Vec<String>, name: &str) -> (r: Option<usize>)
    ensures
        match r {
            Some(i) => position(names_view(columns@), name@) == Some(i as int) && i < columns.len(),
            None => position(names_view(columns@), name@) is None,
        },
{
    let mut i: usize = 0;
    while i < columns.len()
        invariant
            i <= columns.len(),
            forall|j: int| 0 <= j < i ==> names_view(columns@)[j] != name@,
        decreases columns.len() - i,
    {
        if str_eq(columns[i].as_str(), name) {
            proof {
                lemma_position_is(names_view(columns@), name@, i as int);
            }
            return Some(i);
        }
        i += 1;
    }
    proof {
        lemma_position(names_view(columns@), name@);
    }
    None
}

/// Adds the column called `name` unless there is one.
fn put_column(columns: &mut Vec<String>, rows: &mut Vec<Vec<Value>>, name: &str)
    requires
        (Table { columns: names_view(old(columns)@), rows: rows_view(old(rows)@) }).well_formed(),
    ensures
        (Table { columns: names_view(final(columns)@), rows: rows_view(final(rows)@) }) == (Table {
            columns: names_view(old(columns)@),
            rows: rows_view(old(rows)@),
        }).with_column(name@),
{
    let ghost before = Table { columns: names_view(columns@), rows: rows_view(rows@) };
    if find_column(columns, name).is_none() {
        columns.push(owned(name));
        assert(names_view(columns@) =~= before.columns.push(name@));
        let mut i: usize = 0;
        while i < rows.len()
            invariant
                i <= rows.len(),
                rows.len() == before.rows.len(),
                forall|k: int| 0 <= k < i ==> row_view(#[trigger] rows@[k]@) == before.rows[k].push(ValueView::Null),
                forall|k: int| i <= k < rows.len() ==> row_view(#[trigger] rows@[k]@) == before.rows[k],
            decreases rows.len() - i,
        {
            let mut row: Vec<Value> = Vec::new();
            let ghost earlier = rows@;
            std::mem::swap(&mut row, &mut rows[i]);
            proof {
                assert(row_view(row@.push(Value::Null)) =~= row_view(row@).push(ValueView::Null));
            }
            row.push(Value::Null);
            rows.set(i, row);
            i += 1;
        }
        assert(rows_view(rows@) =~= before.rows.map_values(
            |row: Seq<ValueView>| row.push(ValueView::Null),
        ));
    }
}

/// Adds a row made of the given values.
fn put_row(columns: &mut Vec<String>, rows: &mut Vec<Vec<Value>>, values: Vec<(String, Value)>)
    requires
        (Table { columns: names_view(old(columns)@), rows: rows_view(old(rows)@) }).well_formed(),
    ensures
        (Table { columns: names_view(final(columns)@), rows: rows_view(final(rows)@) }) == (Table {
            columns: names_view(old(columns)@),
            rows: rows_view(old(rows)@),
        }).with_row(fields_view(values@)),
{
    let ghost before = Table { columns: names_view(columns@), rows: rows_view(rows@) };
    let mut row: Vec<Value> = Vec::new();
    let mut k: usize = 0;
    while k < columns.len()
        invariant
            k <= columns.len(),
            row.len() == k,
            forall|j: int| 0 <= j < k ==> row@[j]@ == ValueView::Null,
        decreases columns.len() - k,
    {
        row.push(Value::Null);
        k += 1;
    }
    assert(row_view(row@) =~= null_row(before.columns.len()));
    let mut values = values;
    let ghost all = fields_view(values@);
    let mut i: usize = 0;
    let count = values.len();
    assert(all.skip(0) =~= all);
    while i < count
        invariant
            i <= count,
            count == values.len(),
            count == all.len(),
            fields_view(values@).skip(i as int) == all.skip(i as int),
            (Table { columns: names_view(columns@), rows: rows_view(rows@) }).well_formed(),
            row.len() == columns.len(),
            before.placed(null_row(before.columns.len()), all) == (Table {
                columns: names_view(columns@),
                rows: rows_view(rows@),
            }).placed(row_view(row@), all.skip(i as int)),
        decreases count - i,
    {
        let ghost current = Table { columns: names_view(columns@), rows: rows_view(rows@) };
        let ghost pending = all.skip(i as int);
        let mut pair: (String, Value) = (String::new(), Value::Null);
        let ghost earlier = fields_view(values@);
        std::mem::swap(&mut pair, &mut values[i]);
        let (name, value) = pair;
        proof {
            assert(pending[0] == earlier[i as int]);
            assert(pending[0] == (name@, value@));
            assert(pending.skip(1) =~= all.skip(i + 1));
            assert(fields_view(values@).skip(i + 1) =~= earlier.skip(i + 1));
            assert(earlier.skip(i + 1) =~= earlier.skip(i as int).skip(1));
        }
        match find_column(columns, name.as_str()) {
            Some(at) => {
                proof {
                    assert(row_view(row@.update(at as int, value)) =~= row_view(row@).update(
                        at as int,
                        value@,
                    ));
                }
                row.set(at, value);
            },
            None => {
                proof {
                    lemma_with_column_well_formed(current, name@);
                    assert(row_view(row@.push(value)) =~= row_view(row@).push(value@));
                }
                put_column(columns, rows, name.as_str());
                row.push(value);
            },
        }
        i += 1;
    }
    proof {
        assert(row_view(row@) == before.placed(null_row(before.columns.len()), all).1);
        assert(rows_view(rows@.push(row)) =~= rows_view(rows@).push(row_view(row@)));
        lemma_with_row_well_formed(before, all);
    }
    rows.push(row);
}

/// A table of data representing a query result set.
pub struct ResultSet {
    columns: Vec<String>,
    rows: Vec<Vec<Value>>,
}

impl View for ResultSet {
    type V = Table;

    closed spec fn view(&self) -> Table {
        Table { columns: names_view(self.columns@), rows: rows_view(self.rows@) }
    }
}

impl ResultSet {
    #[verifier::type_invariant]
    spec fn well_formed(self) -> bool {
        self@.well_formed()
    }

    /// Create new empty result set.
    pub fn new() -> (r: ResultSet)
        ensures
            r@ == Table::empty(),
    {
        let r = ResultSet { columns: Vec::new(), rows: Vec::new() };
        assert(r@ =~= Table::empty()) by {
            assert(r@.columns =~= Seq::empty());
            assert(r@.rows =~= Seq::empty());
        }
        r
    }

    /// Create a result set with predefined `columns`.
    pub fn with_columns(columns: &Vec<String>) -> (r: ResultSet)
        ensures
            r@ == Table::empty().with_columns(names_view(columns@)),
    {
        let mut result_set = ResultSet::new();
        result_set.add_columns(columns);
        result_set
    }

    /// Add new column with name `column_name` to the result set.
    ///
    /// The column is filled with `Value::Null` on existing rows. Nothing
    /// changes where the result set has a column of that name.
    pub fn add_column(&mut self, column_name: &str)
        ensures
            final(self)@ == old(self)@.with_column(column_name@),
    {
        proof {
            use_type_invariant(&*self);
        }
        let mut taken = ResultSet { columns: Vec::new(), rows: Vec::new() };
        std::mem::swap(self, &mut taken);
        let ResultSet { mut columns, mut rows } = taken;
        put_column(&mut columns, &mut rows, column_name);
        proof {
            lemma_with_column_well_formed(old(self)@, column_name@);
        }
        *self = ResultSet { columns, rows };
    }

    /// Add multiple columns to the result set.
    ///
    /// Columns are filled with `Value::Null` on existing rows.
    pub fn add_columns(&mut self, columns: &Vec<String>)
        ensures
            final(self)@ == old(self)@.with_columns(names_view(columns@)),
    {
        let ghost names = names_view(columns@);
        let mut i: usize = 0;
        assert(names.skip(0) =~= names);
        while i < columns.len()
            invariant
                i <= columns.len(),
                names == names_view(columns@),
                old(self)@.with_columns(names) == self@.with_columns(names.skip(i as int)),
            decreases columns.len() - i,
        {
            proof {
                assert(names.skip(i as int)[0] == columns@[i as int]@);
                assert(names.skip(i as int).skip(1) =~= names.skip(i + 1));
            }
            self.add_column(columns[i].as_str());
            i += 1;
        }
    }

    /// Add new row with `values` to the result set.
    ///
    /// New columns will be added if required.
    pub fn add_row(&mut self, values: Vec<(String, Value)>)
        ensures
            final(self)@ == old(self)@.with_row(fields_view(values@)),
    {
        proof {
            use_type_invariant(&*self);
        }
        let mut taken = ResultSet { columns: Vec::new(), rows: Vec::new() };
        std::mem::swap(self, &mut taken);
        let ResultSet { mut columns, mut rows } = taken;
        proof {
            lemma_with_row_well_formed(old(self)@, fields_view(values@));
        }
        put_row(&mut columns, &mut rows, values);
        *self = ResultSet { columns, rows };
    }

    /// Add multiple `rows` to the result set.
    ///
    /// New columns will be added if required.
    pub fn add_rows(&mut self, rows: Vec<Vec<(String, Value)>>)
        ensures
            final(self)@ == old(self)@.with_rows(rows_of(rows@)),
    {
        let ghost all = rows_of(rows@);
        let mut rows = rows;
        let count = rows.len();
        let mut i: usize = 0;
        assert(all.skip(0) =~= all);
        while i < count
            invariant
                i <= count,
                count == rows.len(),
                count == all.len(),
                rows_of(rows@).skip(i as int) == all.skip(i as int),
                old(self)@.with_rows(all) == self@.with_rows(all.skip(i as int)),
            decreases count - i,
        {
            let ghost earlier = rows_of(rows@);
            let mut row: Vec<(String, Value)> = Vec::new();
            std::mem::swap(&mut row, &mut rows[i]);
            proof {
                assert(all.skip(i as int)[0] == earlier[i as int]);
                assert(all.skip(i as int).skip(1) =~= all.skip(i + 1));
                assert(rows_of(rows@).skip(i + 1) =~= earlier.skip(i + 1));
                assert(earlier.skip(i + 1) =~= earlier.skip(i as int).skip(1));
            }
            self.add_row(row);
            i += 1;
        }
    }

    /// Returns the column names.
    ///
    /// The columns will be returned in the order in which they were added.
    pub fn columns(&self) -> (names: &Vec<String>)
        ensures
            names_view(names@) == self@.columns,
    {
        &self.columns
    }

    /// Returns the rows.
    ///
    /// The rows will be returned in the order in which they were added.
    /// The values in a row are in the order of the columns.
    pub fn rows(&self) -> (rows: &Vec<Vec<Value>>)
        ensures
            rows_view(rows@) == self@.rows,
    {
        &self.rows
    }

    /// Returns all values of the column with name `column_name`.
    ///
    /// If there is no such column, nothing is returned.
    pub fn get_column(&self, column_name: &str) -> (values: Vec<Value>)
        ensures
            row_view(values@) == self@.column(column_name@),
    {
        proof {
            use_type_invariant(self);
        }
        let mut values: Vec<Value> = Vec::new();
        match find_column(&self.columns, column_name) {
            Some(at) => {
                let mut i: usize = 0;
                while i < self.rows.len()
                    invariant
                        i <= self.rows.len(),
                        self@.well_formed(),
                        at < self.columns.len(),
                        values.len() == i,
                        forall|k: int| 0 <= k < i ==> values@[k]@ == self@.rows[k][at as int],
                    decreases self.rows.len() - i,
                {
                    proof {
                        assert(self@.rows[i as int].len() == self@.columns.len());
                    }
                    values.push(self.rows[i][at].duplicate());
                    i += 1;
                }
                assert(row_view(values@) =~= self@.column(column_name@));
            },
            None => {
                assert(row_view(values@) =~= self@.column(column_name@));
            },
        }
        values
    }

    /// Print the result set in the table format: a box with rounded corners,
    /// the column names in its first row, then the rows, each cell with the
    /// text of its value.
    pub fn to_text(&self) -> (s: String)
        ensures
            s@ == table_text(self@.columns, self@.cells()),
    {
        proof {
            use_type_invariant(self);
        }
        let mut cells: Vec<Vec<String>> = Vec::new();
        let mut i: usize = 0;
        while i < self.rows.len()
            invariant
                i <= self.rows.len(),
                self@.well_formed(),
                cells.len() == i,
                forall|k: int| 0 <= k < i ==> names_view(#[trigger] cells@[k]@) == self@.cells()[k],
            decreases self.rows.len() - i,
        {
            let row = &self.rows[i];
            let mut texts: Vec<String> = Vec::new();
            let mut j: usize = 0;
            while j < row.len()
                invariant
                    j <= row.len(),
                    texts.len() == j,
                    forall|k: int| 0 <= k < j ==> texts@[k]@ == row@[k]@.text(),
                decreases row.len() - j,
            {
                texts.push(row[j].to_text());
                j += 1;
            }
            proof {
                assert(self@.rows[i as int].len() == self@.columns.len());
                assert(names_view(texts@) =~= self@.cells()[i as int]);
            }
            cells.push(texts);
            i += 1;
        }
        proof {
            assert(cells_view(cells@) =~= self@.cells());
            assert forall|k: int| 0 <= k < cells.len() implies (#[trigger] cells@[k]).len()
                == self.columns.len() by {
                assert(names_view(cells@[k]@).len() == self@.cells()[k].len());
                assert(self@.rows[k].len() == self@.columns.len());
            }
        }
        draw_table(&self.columns, &cells)
    }

    /// Returns the values of the row at index `idx`.
    ///
    /// If there is no row at the index, nothing is returned.
    pub fn get_row(&self, idx: usize) -> (values: Vec<Value>)
        ensures
            row_view(values@) == self@.row(idx as int),
    {
        let mut values: Vec<Value> = Vec::new();
        if idx < self.rows.len() {
            let row = &self.rows[idx];
            let mut i: usize = 0;
            while i < row.len()
                invariant
                    i <= row.len(),
                    values.len() == i,
                    forall|k: int| 0 <= k < i ==> values@[k] == row@[k],
                decreases row.len() - i,
            {
                values.push(row[i].duplicate());
                i += 1;
            }
            assert(values@ =~= row@);
        } else {
            assert(row_view(values@) =~= Seq::<ValueView>::empty());
        }
        values
    }
}

/// Lists of rows as plain values.
pub open spec fn rows_of(rows: Seq<Vec<(String, Value)>>) -> Seq<Seq<(Seq<char>, ValueView)>> {
    rows.map_values(|row: Vec<(String, Value)>| fields_view(row@))
}

} // verus!
