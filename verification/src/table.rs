//! A table: a named schema and an append-only sequence of records.

use crate::cell::{CellValue, CellView, DataType};
use crate::column::{Column, ColumnView};
use crate::constraint::ColumnConstraint;
use crate::error::{null_name, Error, ErrorView};
use crate::assoc::{distinct_keys, has_key, lookup};
use crate::record::{Record, RecordView};
use crate::views::{lemma_deep_view_empty, lemma_deep_view_push};
use vstd::prelude::*;
use vstd::string::StringExecFns;

verus! {

/// Whether some column has the given name.
pub open spec fn names_column(columns: Seq<ColumnView>, key: Seq<char>) -> bool {
    exists|i: int| 0 <= i < columns.len() && (#[trigger] columns[i]).key == key
}

/// The position of the column with the given name, if there is one.
pub open spec fn column_position(columns: Seq<ColumnView>, key: Seq<char>) -> Option<int> {
    if names_column(columns, key) {
        Some(choose|i: int| 0 <= i < columns.len() && (#[trigger] columns[i]).key == key)
    } else {
        None
    }
}

/// Whether some column is a primary key.
pub open spec fn has_primary(columns: Seq<ColumnView>) -> bool {
    exists|i: int| 0 <= i < columns.len() && (#[trigger] columns[i]).constraints.primary_key
}

/// Whether no two columns share a name.
pub open spec fn distinct_names(columns: Seq<ColumnView>) -> bool {
    forall|i: int, j: int|
        0 <= i < j < columns.len() ==> (#[trigger] columns[i]).key != (#[trigger] columns[j]).key
}

/// Whether at most one column is a primary key.
pub open spec fn single_primary(columns: Seq<ColumnView>) -> bool {
    forall|i: int, j: int|
        0 <= i < j < columns.len() ==> !((#[trigger] columns[i]).constraints.primary_key && (
        #[trigger] columns[j]).constraints.primary_key)
}

/// Whether the columns can form a schema: names distinct, at most one primary key.
pub open spec fn admissible(columns: Seq<ColumnView>) -> bool {
    distinct_names(columns) && single_primary(columns)
}

/// Why a table named `table_key` with the given columns does not take a further
/// column of the given name and constraints, if it does not: the name is taken,
/// or the column would be a second primary key.
pub open spec fn column_refusal(
    table_key: Seq<char>,
    columns: Seq<ColumnView>,
    key: Seq<char>,
    constraints: ColumnConstraint,
) -> Option<ErrorView> {
    if names_column(columns, key) {
        Some(ErrorView::ColumnAlreadyExists { key, table_key })
    } else if constraints.primary_key && has_primary(columns) {
        Some(ErrorView::PrimaryColumnAlreadyExists { key, table_key })
    } else {
        None
    }
}

/// The refusal met first when the columns from position `from` on are added one
/// by one, in order, to those before them.
pub open spec fn columns_refusal(table_key: Seq<char>, columns: Seq<ColumnView>, from: int) -> Option<
    ErrorView,
>
    decreases columns.len() - from,
{
    if from < 0 || from >= columns.len() {
        None
    } else {
        match column_refusal(
            table_key,
            columns.take(from),
            columns[from].key,
            columns[from].constraints,
        ) {
            Some(e) => Some(e),
            None => columns_refusal(table_key, columns, from + 1),
        }
    }
}

/// In columns with distinct names, the column at a position is the one found
/// under its name.
pub proof fn lemma_position_of_column(columns: Seq<ColumnView>, i: int)
    requires
        distinct_names(columns),
        0 <= i < columns.len(),
    ensures
        names_column(columns, columns[i].key),
        column_position(columns, columns[i].key) == Some(i),
{
    let key = columns[i].key;
    let j = choose|j: int| 0 <= j < columns.len() && (#[trigger] columns[j]).key == key;
    if j < i {
        assert(columns[j].key != columns[i].key);
    } else if i < j {
        assert(columns[i].key != columns[j].key);
    }
}

/// A further column keeps the columns admissible exactly if it is not refused.
pub proof fn lemma_admissible_push(table_key: Seq<char>, columns: Seq<ColumnView>, column: ColumnView)
    requires
        admissible(columns),
    ensures
        admissible(columns.push(column)) <==> column_refusal(
            table_key,
            columns,
            column.key,
            column.constraints,
        ) is None,
{
    let after = columns.push(column);
    let n = columns.len() as int;
    if column_refusal(table_key, columns, column.key, column.constraints) is None {
        assert forall|i: int, j: int| 0 <= i < j < after.len() implies (#[trigger] after[i]).key != (
        #[trigger] after[j]).key by {
            if j == n {
                assert(columns[i].key != column.key);
            } else {
                assert(columns[i].key != columns[j].key);
            }
        }
        assert forall|i: int, j: int| 0 <= i < j < after.len() implies !((
        #[trigger] after[i]).constraints.primary_key && (
        #[trigger] after[j]).constraints.primary_key) by {
            if j == n {
                assert(!(columns[i].constraints.primary_key && column.constraints.primary_key));
            } else {
                assert(!(columns[i].constraints.primary_key && columns[j].constraints.primary_key));
            }
        }
    } else if names_column(columns, column.key) {
        let i = choose|i: int| 0 <= i < columns.len() && (#[trigger] columns[i]).key == column.key;
        assert(after[i].key == after[n].key);
    } else {
        let i = choose|i: int|
            0 <= i < columns.len() && (#[trigger] columns[i]).constraints.primary_key;
        assert(after[i].constraints.primary_key && after[n].constraints.primary_key);
    }
}

/// Columns are admissible exactly if none of them is refused when they are
/// added one by one.
pub proof fn lemma_admissible_iff_none_refused(table_key: Seq<char>, columns: Seq<ColumnView>)
    ensures
        admissible(columns) <==> columns_refusal(table_key, columns, 0) is None,
{
    lemma_refusal_from(table_key, columns, 0);
    assert(columns.take(0) =~= Seq::<ColumnView>::empty());
}

/// With the columns before `from` admissible, all are admissible exactly if
/// none from `from` on is refused.
proof fn lemma_refusal_from(table_key: Seq<char>, columns: Seq<ColumnView>, from: int)
    requires
        0 <= from <= columns.len(),
        admissible(columns.take(from)),
    ensures
        admissible(columns) <==> columns_refusal(table_key, columns, from) is None,
    decreases columns.len() - from,
{
    if from == columns.len() {
        assert(columns.take(from) =~= columns);
    } else {
        let before = columns.take(from);
        let column = columns[from];
        lemma_admissible_push(table_key, before, column);
        assert(before.push(column) =~= columns.take(from + 1));
        if column_refusal(table_key, before, column.key, column.constraints) is None {
            lemma_refusal_from(table_key, columns, from + 1);
        } else {
            let part = columns.take(from + 1);
            if admissible(columns) {
                assert forall|i: int, j: int| 0 <= i < j < part.len() implies (
                #[trigger] part[i]).key != (#[trigger] part[j]).key by {
                    assert(columns[i].key != columns[j].key);
                }
                assert forall|i: int, j: int| 0 <= i < j < part.len() implies !((
                #[trigger] part[i]).constraints.primary_key && (
                #[trigger] part[j]).constraints.primary_key) by {
                    assert(!(columns[i].constraints.primary_key
                        && columns[j].constraints.primary_key));
                }
                assert(false);
            }
        }
    }
}

/// Whether no record has a name twice.
pub open spec fn all_distinct_keys(records: Seq<RecordView>) -> bool {
    forall|r: int| 0 <= r < records.len() ==> distinct_keys(#[trigger] records[r])
}

/// The mathematical value of a table.
pub struct TableView {
    pub key: Seq<char>,
    pub columns: Seq<ColumnView>,
    pub records: Seq<RecordView>,
}

impl TableView {
    /// What holds of every table: the columns are admissible and no record has
    /// a name twice.
    pub open spec fn valid(self) -> bool {
        admissible(self.columns) && all_distinct_keys(self.records)
    }

    /// Whether the table was made without columns and has none: it then takes
    /// any record.
    pub open spec fn schemaless(self) -> bool {
        self.columns.len() == 0
    }

    /// The table with one more column at the end of its schema.
    pub open spec fn with_column(self, column: ColumnView) -> TableView {
        TableView { key: self.key, columns: self.columns.push(column), records: self.records }
    }

    /// The table with one more record at the end.
    pub open spec fn with_record(self, values: RecordView) -> TableView {
        TableView { key: self.key, columns: self.columns, records: self.records.push(values) }
    }

    /// What is wrong with one entry of a record, if anything: its name is no
    /// column's, or its value is not of the column's type.
    pub open spec fn entry_refusal(self, entry: (Seq<char>, CellView)) -> Option<ErrorView> {
        match column_position(self.columns, entry.0) {
            None => Some(ErrorView::BadColumnKey { key: entry.0, table_key: self.key }),
            Some(i) => if self.columns[i].accepts(entry.1) {
                None
            } else {
                Some(
                    ErrorView::DataTypeMismatch {
                        column_key: self.columns[i].key,
                        expected: self.columns[i].data_type.name(),
                        received: entry.1.data_type().name(),
                    },
                )
            },
        }
    }

    /// What is wrong with the first entry, from position `from` on, with which
    /// anything is wrong.
    pub open spec fn entries_refusal(self, values: RecordView, from: int) -> Option<ErrorView>
        decreases values.len() - from,
    {
        if from < 0 || from >= values.len() {
            None
        } else {
            match self.entry_refusal(values[from]) {
                Some(e) => Some(e),
                None => self.entries_refusal(values, from + 1),
            }
        }
    }

    /// The refusal of a record that lacks a value which column `j` must have.
    pub open spec fn absence_refusal(self, values: RecordView, j: int) -> Option<ErrorView> {
        let column = self.columns[j];
        if column.constraints.requires_value() && !has_key(values, column.key) {
            Some(
                ErrorView::DataTypeMismatch {
                    column_key: column.key,
                    expected: column.data_type.name(),
                    received: null_name(),
                },
            )
        } else {
            None
        }
    }

    /// The refusal for the first column, from position `from` on, whose required
    /// value the record lacks.
    pub open spec fn absences_refusal(self, values: RecordView, from: int) -> Option<ErrorView>
        decreases self.columns.len() - from,
    {
        if from < 0 || from >= self.columns.len() {
            None
        } else {
            match self.absence_refusal(values, from) {
                Some(e) => Some(e),
                None => self.absences_refusal(values, from + 1),
            }
        }
    }

    /// Whether some record of the table holds the value under the name.
    pub open spec fn stores(self, key: Seq<char>, value: CellView) -> bool {
        exists|r: int|
            0 <= r < self.records.len() && lookup(#[trigger] self.records[r], key) == Some(value)
    }

    /// The refusal of a record whose value for column `j`, which keeps its
    /// values distinct, is already stored under that column.
    pub open spec fn repeat_refusal(self, values: RecordView, j: int) -> Option<ErrorView> {
        let column = self.columns[j];
        match lookup(values, column.key) {
            Some(value) => if column.constraints.requires_distinct() && self.stores(
                column.key,
                value,
            ) {
                Some(ErrorView::RecordAlreadyExists { key: column.key, table_key: self.key })
            } else {
                None
            },
            None => None,
        }
    }

    /// The refusal for the first column, from position `from` on, whose stored
    /// values the record would repeat.
    pub open spec fn repeats_refusal(self, values: RecordView, from: int) -> Option<ErrorView>
        decreases self.columns.len() - from,
    {
        if from < 0 || from >= self.columns.len() {
            None
        } else {
            match self.repeat_refusal(values, from) {
                Some(e) => Some(e),
                None => self.repeats_refusal(values, from + 1),
            }
        }
    }

    /// Why the table does not take the record, if it does not.
    ///
    /// A table without columns takes every record. Otherwise the entries are
    /// held against the schema in their order, then the columns that must have
    /// a value, in schema order, then the columns that keep their values
    /// distinct, in schema order; the first failure is the refusal.
    pub open spec fn record_refusal(self, values: RecordView) -> Option<ErrorView> {
        if self.schemaless() {
            None
        } else {
            match self.entries_refusal(values, 0) {
                Some(e) => Some(e),
                None => match self.absences_refusal(values, 0) {
                    Some(e) => Some(e),
                    None => self.repeats_refusal(values, 0),
                },
            }
        }
    }
}

impl TableView {
    /// Whether the table takes the record, said directly: the table has no
    /// columns; or every entry of the record names a column and holds a value
    /// of the column's type, the record has a value for every column that must
    /// have one, and it repeats no stored value of a column that keeps its
    /// values distinct.
    pub open spec fn takes(self, values: RecordView) -> bool {
        self.schemaless() || {
            &&& forall|e: int| 0 <= e < values.len() ==> self.entry_refusal(#[trigger] values[e]) is None
            &&& forall|j: int|
                0 <= j < self.columns.len() && (
                #[trigger] self.columns[j]).constraints.requires_value() ==> has_key(
                    values,
                    self.columns[j].key,
                )
            &&& forall|j: int|
                0 <= j < self.columns.len() && (
                #[trigger] self.columns[j]).constraints.requires_distinct() && lookup(
                    values,
                    self.columns[j].key,
                ) is Some ==> !self.stores(
                    self.columns[j].key,
                    lookup(values, self.columns[j].key)->0,
                )
        }
    }

    /// Whether the records respect the schema: every entry of every record
    /// names a column and holds a value of the column's type.
    pub open spec fn records_conform(self) -> bool {
        forall|r: int, e: int|
            0 <= r < self.records.len() && 0 <= e < self.records[r].len() ==> self.entry_refusal(
                #[trigger] self.records[r][e],
            ) is None
    }

    /// Whether every record has a value for every column that must have one.
    pub open spec fn required_present(self) -> bool {
        forall|r: int, j: int|
            0 <= r < self.records.len() && 0 <= j < self.columns.len() && (
            #[trigger] self.columns[j]).constraints.requires_value() ==> has_key(
                #[trigger] self.records[r],
                self.columns[j].key,
            )
    }

    /// Whether no two records hold the same value under a column that keeps its
    /// values distinct.
    pub open spec fn values_distinct(self) -> bool {
        forall|j: int, p: int, q: int|
            0 <= j < self.columns.len() && (
            #[trigger] self.columns[j]).constraints.requires_distinct() && 0 <= p < q
                < self.records.len() && lookup(#[trigger] self.records[p], self.columns[j].key) is Some
                ==> lookup(self.records[p], self.columns[j].key) != lookup(
                #[trigger] self.records[q],
                self.columns[j].key,
            )
    }

    /// Whether the records respect the schema and its constraints.
    pub open spec fn constraints_kept(self) -> bool {
        self.records_conform() && self.required_present() && self.values_distinct()
    }
}

/// No entry from `from` on is refused exactly if each of them names a column
/// and holds a value of its type.
proof fn lemma_entries_refusal(table: TableView, values: RecordView, from: int)
    requires
        0 <= from,
    ensures
        table.entries_refusal(values, from) is None <==> (forall|e: int|
            from <= e < values.len() ==> table.entry_refusal(#[trigger] values[e]) is None),
    decreases values.len() - from,
{
    if from < values.len() {
        lemma_entries_refusal(table, values, from + 1);
        if table.entry_refusal(values[from]) is None {
            assert forall|e: int| from <= e < values.len() && (forall|e: int|
                from + 1 <= e < values.len() ==> table.entry_refusal(#[trigger] values[e]) is None)
                implies table.entry_refusal(#[trigger] values[e]) is None by {}
        }
    }
}

/// No column from `from` on lacks a required value exactly if the record has a
/// value for each of them that must have one.
proof fn lemma_absences_refusal(table: TableView, values: RecordView, from: int)
    requires
        0 <= from,
    ensures
        table.absences_refusal(values, from) is None <==> (forall|j: int|
            from <= j < table.columns.len() && (
            #[trigger] table.columns[j]).constraints.requires_value() ==> has_key(
                values,
                table.columns[j].key,
            )),
    decreases table.columns.len() - from,
{
    if from < table.columns.len() {
        lemma_absences_refusal(table, values, from + 1);
        if table.absence_refusal(values, from) is None {
            assert forall|j: int|
                from <= j < table.columns.len() && (
                #[trigger] table.columns[j]).constraints.requires_value() && (forall|j: int|
                    from + 1 <= j < table.columns.len() && (
                    #[trigger] table.columns[j]).constraints.requires_value() ==> has_key(
                        values,
                        table.columns[j].key,
                    )) implies has_key(values, table.columns[j].key) by {}
        } else {
            assert(table.columns[from].constraints.requires_value());
        }
    }
}

/// No column from `from` on has a stored value repeated exactly if the record
/// repeats no stored value of any of them that keeps its values distinct.
proof fn lemma_repeats_refusal(table: TableView, values: RecordView, from: int)
    requires
        0 <= from,
    ensures
        table.repeats_refusal(values, from) is None <==> (forall|j: int|
            from <= j < table.columns.len() && (
            #[trigger] table.columns[j]).constraints.requires_distinct() && lookup(
                values,
                table.columns[j].key,
            ) is Some ==> !table.stores(
                table.columns[j].key,
                lookup(values, table.columns[j].key)->0,
            )),
    decreases table.columns.len() - from,
{
    if from < table.columns.len() {
        lemma_repeats_refusal(table, values, from + 1);
        if table.repeat_refusal(values, from) is None {
            assert forall|j: int|
                from <= j < table.columns.len() && (
                #[trigger] table.columns[j]).constraints.requires_distinct() && lookup(
                    values,
                    table.columns[j].key,
                ) is Some && (forall|j: int|
                    from + 1 <= j < table.columns.len() && (
                    #[trigger] table.columns[j]).constraints.requires_distinct() && lookup(
                        values,
                        table.columns[j].key,
                    ) is Some ==> !table.stores(
                        table.columns[j].key,
                        lookup(values, table.columns[j].key)->0,
                    )) implies !table.stores(
                table.columns[j].key,
                lookup(values, table.columns[j].key)->0,
            ) by {}
        } else {
            assert(table.columns[from].constraints.requires_distinct());
        }
    }
}

/// A record is refused exactly if the table does not take it.
pub proof fn lemma_refused_iff_not_taken(table: TableView, values: RecordView)
    ensures
        table.record_refusal(values) is None <==> table.takes(values),
{
    lemma_entries_refusal(table, values, 0);
    lemma_absences_refusal(table, values, 0);
    lemma_repeats_refusal(table, values, 0);
}

/// The checks at insertion keep the schema and its constraints: a table with
/// columns whose records respect them still has only such records after it
/// has taken one more.
pub proof fn lemma_insertion_keeps_constraints(table: TableView, values: RecordView)
    requires
        !table.schemaless(),
        table.constraints_kept(),
        table.takes(values),
    ensures
        table.with_record(values).constraints_kept(),
{
    let after = table.with_record(values);
    let n = table.records.len() as int;
    assert(after.records[n] == values);
    assert forall|r: int, e: int|
        0 <= r < after.records.len() && 0 <= e < after.records[r].len() implies after.entry_refusal(
        #[trigger] after.records[r][e],
    ) is None by {
        if r < n {
            assert(table.entry_refusal(table.records[r][e]) is None);
        } else {
            assert(table.entry_refusal(values[e]) is None);
        }
    }
    assert forall|r: int, j: int|
        0 <= r < after.records.len() && 0 <= j < after.columns.len() && (
        #[trigger] after.columns[j]).constraints.requires_value() implies has_key(
        #[trigger] after.records[r],
        after.columns[j].key,
    ) by {
        if r < n {
            assert(has_key(table.records[r], table.columns[j].key));
        }
    }
    assert forall|j: int, p: int, q: int|
        0 <= j < after.columns.len() && (
        #[trigger] after.columns[j]).constraints.requires_distinct() && 0 <= p < q
            < after.records.len() && lookup(#[trigger] after.records[p], after.columns[j].key) is Some
        implies lookup(after.records[p], after.columns[j].key) != lookup(
        #[trigger] after.records[q],
        after.columns[j].key,
    ) by {
        let key = table.columns[j].key;
        if q < n {
            assert(lookup(table.records[p], key) != lookup(table.records[q], key));
        } else if lookup(values, key) is Some {
            let value = lookup(values, key)->0;
            assert(!table.stores(key, value));
            assert(lookup(table.records[p], key) != Some(value));
        }
    }
}

/// The number of primary-key columns.
pub open spec fn primary_count(columns: Seq<ColumnView>) -> nat
    decreases columns.len(),
{
    if columns.len() == 0 {
        0
    } else {
        primary_count(columns.drop_last()) + if columns.last().constraints.primary_key {
            1nat
        } else {
            0nat
        }
    }
}

/// Columns have no primary key exactly if they count none, and admissible
/// columns count at most one.
pub proof fn lemma_primary_count(columns: Seq<ColumnView>)
    ensures
        has_primary(columns) <==> primary_count(columns) >= 1,
        single_primary(columns) ==> primary_count(columns) <= 1,
    decreases columns.len(),
{
    if columns.len() > 0 {
        let shorter = columns.drop_last();
        let n = shorter.len() as int;
        lemma_primary_count(shorter);
        if has_primary(shorter) {
            let i = choose|i: int|
                0 <= i < shorter.len() && (#[trigger] shorter[i]).constraints.primary_key;
            assert(columns[i].constraints.primary_key);
        }
        if columns[n].constraints.primary_key {
            assert(has_primary(columns));
        }
        if has_primary(columns) {
            let i = choose|i: int|
                0 <= i < columns.len() && (#[trigger] columns[i]).constraints.primary_key;
            if i < n {
                assert(shorter[i].constraints.primary_key);
            }
        }
        if single_primary(columns) {
            assert forall|i: int, j: int| 0 <= i < j < shorter.len() implies !((
            #[trigger] shorter[i]).constraints.primary_key && (
            #[trigger] shorter[j]).constraints.primary_key) by {
                assert(!(columns[i].constraints.primary_key && columns[j].constraints.primary_key));
            }
            if columns[n].constraints.primary_key && has_primary(shorter) {
                let i = choose|i: int|
                    0 <= i < shorter.len() && (#[trigger] shorter[i]).constraints.primary_key;
                assert(columns[i].constraints.primary_key && columns[n].constraints.primary_key);
            }
        }
    }
}

/// Of two primary-key columns added one after the other, the second is
/// refused: where the first is taken, a second of another name fails with
/// `PrimaryColumnAlreadyExists`, and the schema, which stays as the first add
/// left it, has exactly one primary-key column.
pub proof fn lemma_second_primary_refused(
    table: TableView,
    first: ColumnView,
    second_key: Seq<char>,
    second_constraints: ColumnConstraint,
)
    requires
        table.valid(),
        first.constraints.primary_key,
        second_constraints.primary_key,
        column_refusal(table.key, table.columns, first.key, first.constraints) is None,
        second_key != first.key,
        !names_column(table.columns, second_key),
    ensures
        column_refusal(
            table.key,
            table.with_column(first).columns,
            second_key,
            second_constraints,
        ) == Some(ErrorView::PrimaryColumnAlreadyExists { key: second_key, table_key: table.key }),
        primary_count(table.with_column(first).columns) == 1,
        table.with_column(first).valid(),
{
    let after = table.with_column(first).columns;
    let n = table.columns.len() as int;
    assert(after[n].constraints.primary_key);
    assert(has_primary(after));
    if names_column(after, second_key) {
        let i = choose|i: int| 0 <= i < after.len() && (#[trigger] after[i]).key == second_key;
        if i < n {
            assert(table.columns[i].key == second_key);
        }
    }
    lemma_admissible_push(table.key, table.columns, first);
    lemma_primary_count(after);
}

/// A table with columns refuses every record that holds, under the name of one
/// of its columns, a value of another type than the column's. Where all the
/// record's names are names of columns, the refusal is a `DataTypeMismatch`;
/// else it may be the `BadColumnKey` of a name that stands before.
pub proof fn lemma_mismatch_refused(table: TableView, values: RecordView, at: int)
    requires
        !table.schemaless(),
        0 <= at < values.len(),
        column_position(table.columns, values[at].0) matches Some(c) && !table.columns[c].accepts(
            values[at].1,
        ),
    ensures
        table.record_refusal(values) is Some,
        !table.takes(values),
        (forall|i: int|
            0 <= i < values.len() ==> names_column(table.columns, (#[trigger] values[i]).0))
            ==> table.record_refusal(values) matches Some(ErrorView::DataTypeMismatch { .. }),
{
    lemma_refused_iff_not_taken(table, values);
    assert(table.entry_refusal(values[at]) is Some);
    if forall|i: int|
        0 <= i < values.len() ==> names_column(table.columns, (#[trigger] values[i]).0) {
        lemma_mismatch_from(table, values, at, 0);
    }
}

/// The entries from `from` on, one of which holds a value of the wrong type
/// while all name columns, are refused with a `DataTypeMismatch`.
proof fn lemma_mismatch_from(table: TableView, values: RecordView, at: int, from: int)
    requires
        0 <= from <= at < values.len(),
        forall|i: int| 0 <= i < values.len() ==> names_column(table.columns, (#[trigger] values[i]).0),
        table.entry_refusal(values[at]) is Some,
    ensures
        table.entries_refusal(values, from) matches Some(ErrorView::DataTypeMismatch { .. }),
    decreases at - from,
{
    assert(names_column(table.columns, values[from].0));
    assert(names_column(table.columns, values[at].0));
    if from < at && table.entry_refusal(values[from]) is None {
        lemma_mismatch_from(table, values, at, from + 1);
    }
}

/// A table without columns refuses no record.
pub proof fn lemma_schemaless_takes_all(table: TableView, values: RecordView)
    requires
        table.schemaless(),
    ensures
        table.record_refusal(values) is None,
{
}

/// A named schema with the records inserted so far.
#[derive(Debug, PartialEq, Eq)]
pub struct Table {
    key: String,
    records: Vec<Record>,
    columns: Vec<Column>,
}

impl View for Table {
    type V = TableView;

    closed spec fn view(&self) -> TableView {
        TableView {
            key: self.key@,
            columns: self.columns.deep_view(),
            records: self.records.deep_view(),
        }
    }
}

impl DeepView for Table {
    type V = TableView;

    #[verifier::inline]
    open spec fn deep_view(&self) -> TableView {
        self.view()
    }
}

/// The columns a table starts with: those given, or none.
pub open spec fn initial_columns(columns: Option<Vec<Column>>) -> Seq<ColumnView> {
    match columns {
        Some(columns) => columns.deep_view(),
        None => Seq::empty(),
    }
}

impl Table {
    /// What holds of every table.
    #[verifier::type_invariant]
    pub open spec fn well_formed(self) -> bool {
        self@.valid()
    }

    /// A table with the given name and columns and no record.
    pub fn new(key: String, columns: Option<Vec<Column>>) -> (r: Self)
        requires
            admissible(initial_columns(columns)),
        ensures
            r@ == (TableView {
                key: key@,
                columns: initial_columns(columns),
                records: Seq::empty(),
            }),
    {
        let columns = match columns {
            Some(columns) => columns,
            None => {
                let none: Vec<Column> = Vec::new();
                proof {
                    lemma_deep_view_empty(none);
                }
                none
            },
        };
        let records: Vec<Record> = Vec::new();
        proof {
            lemma_deep_view_empty(records);
        }
        Self { key, records, columns }
    }

    /// The table's name.
    pub fn key(&self) -> (r: &String)
        ensures
            r@ == self@.key,
    {
        &self.key
    }

    /// The schema, in order.
    pub fn columns(&self) -> (r: &Vec<Column>)
        ensures
            r.deep_view() == self@.columns,
            self@.valid(),
    {
        proof {
            use_type_invariant(self);
        }
        &self.columns
    }

    /// The records, in the order in which they were inserted.
    pub fn records(&self) -> (r: &Vec<Record>)
        ensures
            r.deep_view() == self@.records,
            self@.valid(),
    {
        proof {
            use_type_invariant(self);
        }
        &self.records
    }

    /// The position of the column with the given name.
    fn find_column(&self, key: &String) -> (r: Option<usize>)
        ensures
            self@.valid(),
            match r {
                Some(i) => i < self.columns@.len() && column_position(self@.columns, key@) == Some(
                    i as int,
                ),
                None => !names_column(self@.columns, key@),
            },
    {
        proof {
            use_type_invariant(self);
        }
        let mut i: usize = 0;
        while i < self.columns.len()
            invariant
                i <= self.columns.len(),
                self@.valid(),
                forall|j: int| 0 <= j < i ==> (#[trigger] self@.columns[j]).key != key@,
            decreases self.columns.len() - i,
        {
            if self.columns[i].key == *key {
                proof {
                    lemma_position_of_column(self@.columns, i as int);
                }
                return Some(i);
            }
            i += 1;
        }
        None
    }

    /// Whether some column is a primary key.
    fn any_primary(&self) -> (r: bool)
        ensures
            r == has_primary(self@.columns),
    {
        let mut i: usize = 0;
        while i < self.columns.len()
            invariant
                i <= self.columns.len(),
                forall|j: int| 0 <= j < i ==> !(#[trigger] self@.columns[j]).constraints.primary_key,
            decreases self.columns.len() - i,
        {
            if self.columns[i].constraints.primary_key {
                assert(self@.columns[i as int].constraints.primary_key);
                return true;
            }
            i += 1;
        }
        false
    }

    /// Adds a column at the end of the schema and hands it back.
    ///
    /// Fails, and leaves the table as it was, where the name is taken or the
    /// column would be a second primary key.
    pub fn add_column(&mut self, key: String, data_type: DataType, constraints: ColumnConstraint) -> (r:
        Result<&Column, Error>)
        ensures
            match r {
                Ok(column) => {
                    &&& column_refusal(old(self)@.key, old(self)@.columns, key@, constraints) is None
                    &&& column@ == (ColumnView { key: key@, data_type, constraints })
                    &&& final(self)@ == old(self)@.with_column(column@)
                },
                Err(e) => {
                    &&& column_refusal(old(self)@.key, old(self)@.columns, key@, constraints)
                        == Some(e@)
                    &&& final(self)@ == old(self)@
                },
            },
    {
        proof {
            use_type_invariant(&*self);
        }
        if self.find_column(&key).is_some() {
            return Err(Error::ColumnAlreadyExists { key, table_key: self.key.clone() });
        }
        if constraints.primary_key && self.any_primary() {
            return Err(Error::PrimaryColumnAlreadyExists { key, table_key: self.key.clone() });
        }
        let column = Column::new(key, data_type, constraints);
        proof {
            lemma_admissible_push(self@.key, self@.columns, column@);
            lemma_deep_view_push(self.columns, column);
        }
        let mut columns: Vec<Column> = Vec::new();
        proof {
            lemma_deep_view_empty(columns);
        }
        std::mem::swap(&mut columns, &mut self.columns);
        columns.push(column);
        self.columns = columns;
        let n = self.columns.len();
        Ok(&self.columns[n - 1])
    }

    /// A table with the given name and columns and no record, where the columns
    /// can form a schema; else the refusal that the first offending column
    /// would meet if the columns were added one by one.
    pub fn build(key: String, columns: Option<Vec<Column>>) -> (r: Result<Table, Error>)
        ensures
            match r {
                Ok(table) => {
                    &&& admissible(initial_columns(columns))
                    &&& table@ == (TableView {
                        key: key@,
                        columns: initial_columns(columns),
                        records: Seq::empty(),
                    })
                },
                Err(e) => {
                    &&& !admissible(initial_columns(columns))
                    &&& columns_refusal(key@, initial_columns(columns), 0) == Some(e@)
                },
            },
    {
        let refusal = match &columns {
            Some(list) => first_columns_refusal(&key, list),
            None => {
                proof {
                    lemma_admissible_iff_none_refused(key@, initial_columns(columns));
                }
                None
            },
        };
        match refusal {
            Some(e) => Err(e),
            None => Ok(Table::new(key, columns)),
        }
    }

    /// What is wrong with the first entry of the record with which anything is
    /// wrong.
    fn check_entries(&self, values: &Record) -> (r: Option<Error>)
        ensures
            r.deep_view() == self@.entries_refusal(values@, 0),
    {
        let entries = values.entries();
        let mut i: usize = 0;
        while i < entries.len()
            invariant
                i <= entries.len(),
                entries.deep_view() == values@,
                self@.entries_refusal(values@, 0) == self@.entries_refusal(values@, i as int),
            decreases entries.len() - i,
        {
            let name = &entries[i].0;
            let value = &entries[i].1;
            assert(values@[i as int] == (name@, value@));
            match self.find_column(name) {
                None => {
                    return Some(
                        Error::BadColumnKey { key: name.clone(), table_key: self.key.clone() },
                    );
                },
                Some(c) => {
                    let column = &self.columns[c];
                    assert(self@.columns[c as int] == column@);
                    if !column.accepts_value(value) {
                        return Some(
                            Error::DataTypeMismatch {
                                column_key: column.key.clone(),
                                expected: column.data_type.to_string(),
                                received: value.to_string(),
                            },
                        );
                    }
                },
            }
            i += 1;
        }
        None
    }

    /// The refusal for the first column whose required value the record lacks.
    fn check_absences(&self, values: &Record) -> (r: Option<Error>)
        ensures
            r.deep_view() == self@.absences_refusal(values@, 0),
    {
        let mut j: usize = 0;
        while j < self.columns.len()
            invariant
                j <= self.columns.len(),
                self@.absences_refusal(values@, 0) == self@.absences_refusal(values@, j as int),
            decreases self.columns.len() - j,
        {
            let column = &self.columns[j];
            assert(self@.columns[j as int] == column@);
            if column.constraints.demands_value() && !values.contains_key(&column.key) {
                return Some(
                    Error::DataTypeMismatch {
                        column_key: column.key.clone(),
                        expected: column.data_type.to_string(),
                        received: String::from_str("Null"),
                    },
                );
            }
            j += 1;
        }
        None
    }

    /// Whether some record of the table holds the value under the name.
    fn holds(&self, key: &String, value: &CellValue) -> (r: bool)
        ensures
            r == self@.stores(key@, value@),
    {
        let mut k: usize = 0;
        while k < self.records.len()
            invariant
                k <= self.records.len(),
                forall|q: int|
                    0 <= q < k ==> lookup(#[trigger] self@.records[q], key@) != Some(value@),
            decreases self.records.len() - k,
        {
            let record = &self.records[k];
            assert(self@.records[k as int] == record@);
            match record.get(key) {
                Some(stored) => {
                    if stored.same_as(value) {
                        return true;
                    }
                },
                None => {},
            }
            k += 1;
        }
        false
    }

    /// The refusal for the first column whose stored values the record would
    /// repeat.
    fn check_repeats(&self, values: &Record) -> (r: Option<Error>)
        ensures
            r.deep_view() == self@.repeats_refusal(values@, 0),
    {
        let mut j: usize = 0;
        while j < self.columns.len()
            invariant
                j <= self.columns.len(),
                self@.repeats_refusal(values@, 0) == self@.repeats_refusal(values@, j as int),
            decreases self.columns.len() - j,
        {
            let column = &self.columns[j];
            assert(self@.columns[j as int] == column@);
            if column.constraints.demands_distinct() {
                match values.get(&column.key) {
                    Some(value) => {
                        if self.holds(&column.key, value) {
                            return Some(
                                Error::RecordAlreadyExists {
                                    key: column.key.clone(),
                                    table_key: self.key.clone(),
                                },
                            );
                        }
                    },
                    None => {},
                }
            }
            j += 1;
        }
        None
    }

    /// Appends the record and hands it back, where the table takes it.
    ///
    /// A table without columns takes every record. A table with columns refuses
    /// a record in which an entry names no column or holds a value of another
    /// type than the column's, a record that lacks a value which a column must
    /// have, and a record that repeats a stored value of a column that keeps its
    /// values distinct. A refused record leaves the table as it was.
    pub fn add_record(&mut self, values: Record) -> (r: Result<&Record, Error>)
        ensures
            r is Ok <==> old(self)@.takes(values@),
            match r {
                Ok(record) => {
                    &&& old(self)@.record_refusal(values@) is None
                    &&& record@ == values@
                    &&& final(self)@ == old(self)@.with_record(values@)
                },
                Err(e) => {
                    &&& old(self)@.record_refusal(values@) == Some(e@)
                    &&& final(self)@ == old(self)@
                },
            },
    {
        proof {
            use_type_invariant(&*self);
            use_type_invariant(&values);
            lemma_refused_iff_not_taken(self@, values@);
        }
        if self.columns.len() > 0 {
            match self.check_entries(&values) {
                Some(e) => {
                    return Err(e);
                },
                None => {},
            }
            match self.check_absences(&values) {
                Some(e) => {
                    return Err(e);
                },
                None => {},
            }
            match self.check_repeats(&values) {
                Some(e) => {
                    return Err(e);
                },
                None => {},
            }
        }
        proof {
            lemma_deep_view_push(self.records, values);
            let after = self@.records.push(values@);
            assert forall|r: int| 0 <= r < after.len() implies distinct_keys(#[trigger] after[r]) by {
                if r < self@.records.len() {
                    assert(distinct_keys(self@.records[r]));
                }
            }
        }
        let mut records: Vec<Record> = Vec::new();
        proof {
            lemma_deep_view_empty(records);
        }
        std::mem::swap(&mut records, &mut self.records);
        records.push(values);
        self.records = records;
        let n = self.records.len();
        Ok(&self.records[n - 1])
    }
}

/// The refusal met first when the columns are added one by one, in order, to a
/// new table of the given name.
fn first_columns_refusal(key: &String, columns: &Vec<Column>) -> (r: Option<Error>)
    ensures
        r.deep_view() == columns_refusal(key@, columns.deep_view(), 0),
        r is None <==> admissible(columns.deep_view()),
{
    let ghost all = columns.deep_view();
    proof {
        lemma_admissible_iff_none_refused(key@, all);
    }
    let mut primary_seen = false;
    let mut j: usize = 0;
    while j < columns.len()
        invariant
            j <= columns.len(),
            all == columns.deep_view(),
            primary_seen == has_primary(all.take(j as int)),
            columns_refusal(key@, all, 0) == columns_refusal(key@, all, j as int),
        decreases columns.len() - j,
    {
        let column = &columns[j];
        let ghost before = all.take(j as int);
        assert(all[j as int] == column@);
        let mut i: usize = 0;
        while i < j
            invariant
                i <= j,
                j < columns.len(),
                all == columns.deep_view(),
                before == all.take(j as int),
                column@ == all[j as int],
                columns_refusal(key@, all, 0) == columns_refusal(key@, all, j as int),
                forall|q: int| 0 <= q < i ==> (#[trigger] before[q]).key != column@.key,
            decreases j - i,
        {
            assert(before[i as int] == columns[i as int]@);
            if columns[i].key == column.key {
                assert(names_column(before, column@.key));
                return Some(
                    Error::ColumnAlreadyExists { key: column.key.clone(), table_key: key.clone() },
                );
            }
            i += 1;
        }
        assert(!names_column(before, column@.key));
        if column.constraints.primary_key && primary_seen {
            return Some(
                Error::PrimaryColumnAlreadyExists {
                    key: column.key.clone(),
                    table_key: key.clone(),
                },
            );
        }
        proof {
            let next = all.take(j + 1);
            assert(next =~= before.push(column@));
            if has_primary(before) {
                let q = choose|q: int|
                    0 <= q < before.len() && (#[trigger] before[q]).constraints.primary_key;
                assert(next[q].constraints.primary_key);
            }
            if column@.constraints.primary_key {
                assert(next[j as int].constraints.primary_key);
            }
            if has_primary(next) {
                let q = choose|q: int|
                    0 <= q < next.len() && (#[trigger] next[q]).constraints.primary_key;
                if q < j {
                    assert(before[q].constraints.primary_key);
                }
            }
        }
        primary_seen = primary_seen || column.constraints.primary_key;
        j += 1;
    }
    None
}

} // verus!
