//! A database: tables by name, changed only by applying requests.

use crate::cell::DataType;
use crate::column::{Column, ColumnView};
use crate::constraint::ColumnConstraint;
use crate::error::{Error, ErrorView};
use crate::assoc::distinct_keys;
use crate::record::{Record, RecordView};
use crate::request::{DatabaseRequest, RequestView};
use crate::table::{
    column_refusal, columns_refusal, initial_columns, lemma_admissible_iff_none_refused,
    lemma_insertion_keeps_constraints, lemma_refused_iff_not_taken, Table, TableView,
};
use crate::views::{lemma_deep_view_empty, lemma_deep_view_push, lemma_deep_view_update};
use vstd::prelude::*;

verus! {

/// Whether some table has the given name.
pub open spec fn names_table(tables: Seq<TableView>, key: Seq<char>) -> bool {
    exists|i: int| 0 <= i < tables.len() && (#[trigger] tables[i]).key == key
}

/// The position of the table with the given name, if there is one.
pub open spec fn table_position(tables: Seq<TableView>, key: Seq<char>) -> Option<int> {
    if names_table(tables, key) {
        Some(choose|i: int| 0 <= i < tables.len() && (#[trigger] tables[i]).key == key)
    } else {
        None
    }
}

/// Whether no two tables share a name.
pub open spec fn distinct_tables(tables: Seq<TableView>) -> bool {
    forall|i: int, j: int|
        0 <= i < j < tables.len() ==> (#[trigger] tables[i]).key != (#[trigger] tables[j]).key
}

/// Whether every table is valid.
pub open spec fn all_valid(tables: Seq<TableView>) -> bool {
    forall|i: int| 0 <= i < tables.len() ==> (#[trigger] tables[i]).valid()
}

/// What holds of the tables of every database: each is valid, no name twice.
pub open spec fn consistent(tables: Seq<TableView>) -> bool {
    distinct_tables(tables) && all_valid(tables)
}

/// The table with the given name and columns and no record.
pub open spec fn empty_table(key: Seq<char>, columns: Seq<ColumnView>) -> TableView {
    TableView { key, columns, records: Seq::empty() }
}

/// Why the tables do not take a new table of the given name and columns, if
/// they do not: the name is taken, or the columns cannot form a schema.
pub open spec fn creation_refusal(
    tables: Seq<TableView>,
    key: Seq<char>,
    columns: Seq<ColumnView>,
) -> Option<ErrorView> {
    if names_table(tables, key) {
        Some(ErrorView::TableAlreadyExists { key })
    } else {
        columns_refusal(key, columns, 0)
    }
}

/// Why the record cannot be inserted under the given table name, if it cannot:
/// there is no such table, or the table refuses the record.
pub open spec fn insertion_refusal(
    tables: Seq<TableView>,
    key: Seq<char>,
    data: RecordView,
) -> Option<ErrorView> {
    match table_position(tables, key) {
        None => Some(ErrorView::BadTableKey { key }),
        Some(i) => tables[i].record_refusal(data),
    }
}

/// The tables after the record has been appended to the table of the given name.
pub open spec fn after_insertion(
    tables: Seq<TableView>,
    key: Seq<char>,
    data: RecordView,
) -> Seq<TableView> {
    match table_position(tables, key) {
        None => tables,
        Some(i) => tables.update(i, tables[i].with_record(data)),
    }
}

/// Why a column of the given name and constraints cannot be added to the
/// table of the given name, if it cannot: there is no such table, or the table
/// refuses the column.
pub open spec fn column_addition_refusal(
    tables: Seq<TableView>,
    table_key: Seq<char>,
    key: Seq<char>,
    constraints: ColumnConstraint,
) -> Option<ErrorView> {
    match table_position(tables, table_key) {
        None => Some(ErrorView::BadTableKey { key: table_key }),
        Some(i) => column_refusal(tables[i].key, tables[i].columns, key, constraints),
    }
}

/// The tables after the column has been added to the table of the given name.
pub open spec fn after_column_addition(
    tables: Seq<TableView>,
    table_key: Seq<char>,
    column: ColumnView,
) -> Seq<TableView> {
    match table_position(tables, table_key) {
        None => tables,
        Some(i) => tables.update(i, tables[i].with_column(column)),
    }
}

/// Why the request fails on the tables, if it does.
pub open spec fn request_refusal(tables: Seq<TableView>, request: RequestView) -> Option<ErrorView> {
    match request {
        RequestView::CreateTable { key, .. } => creation_refusal(
            tables,
            key,
            request.initial_columns(),
        ),
        RequestView::InsertInto { key, data } => insertion_refusal(tables, key, data),
    }
}

/// The tables after a request that does not fail.
pub open spec fn after_request(tables: Seq<TableView>, request: RequestView) -> Seq<TableView> {
    match request {
        RequestView::CreateTable { key, .. } => tables.push(
            empty_table(key, request.initial_columns()),
        ),
        RequestView::InsertInto { key, data } => after_insertion(tables, key, data),
    }
}

/// The tables after one request, which leaves them untouched where it fails.
pub open spec fn step(tables: Seq<TableView>, request: RequestView) -> Seq<TableView> {
    if request_refusal(tables, request) is Some {
        tables
    } else {
        after_request(tables, request)
    }
}

/// What becomes of the tables when the requests from position `from` on are
/// applied in order up to the first that fails: the tables reached, and that
/// request's error if there was one.
pub open spec fn run(tables: Seq<TableView>, requests: Seq<RequestView>, from: int) -> (
    Seq<TableView>,
    Option<ErrorView>,
)
    decreases requests.len() - from,
{
    if from < 0 || from >= requests.len() {
        (tables, None)
    } else {
        match request_refusal(tables, requests[from]) {
            Some(e) => (tables, Some(e)),
            None => run(after_request(tables, requests[from]), requests, from + 1),
        }
    }
}

/// In tables with distinct names, the table at a position is the one found
/// under its name.
pub proof fn lemma_position_of_table(tables: Seq<TableView>, i: int)
    requires
        distinct_tables(tables),
        0 <= i < tables.len(),
    ensures
        names_table(tables, tables[i].key),
        table_position(tables, tables[i].key) == Some(i),
{
    let key = tables[i].key;
    let j = choose|j: int| 0 <= j < tables.len() && (#[trigger] tables[j]).key == key;
    if j < i {
        assert(tables[j].key != tables[i].key);
    } else if i < j {
        assert(tables[i].key != tables[j].key);
    }
}

/// Consistent tables stay consistent where one of them is replaced by a valid
/// table of the same name.
pub proof fn lemma_update_consistent(tables: Seq<TableView>, at: int, table: TableView)
    requires
        consistent(tables),
        0 <= at < tables.len(),
        table.valid(),
        table.key == tables[at].key,
    ensures
        consistent(tables.update(at, table)),
{
    let after = tables.update(at, table);
    assert forall|i: int| 0 <= i < after.len() implies (#[trigger] after[i]).valid() by {
        if i != at {
            assert(tables[i].valid());
        }
    }
    assert forall|i: int, j: int| 0 <= i < j < after.len() implies (#[trigger] after[i]).key != (
    #[trigger] after[j]).key by {
        assert(tables[i].key != tables[j].key);
    }
}

/// A request carried out on consistent tables leaves them consistent, given
/// that a record to insert has no name twice.
pub proof fn lemma_step_consistent(tables: Seq<TableView>, request: RequestView)
    requires
        consistent(tables),
        request matches RequestView::InsertInto { data, .. } ==> distinct_keys(data),
    ensures
        consistent(step(tables, request)),
{
    if request_refusal(tables, request) is None {
        let after = after_request(tables, request);
        match request {
            RequestView::CreateTable { key, .. } => {
                let columns = request.initial_columns();
                lemma_admissible_iff_none_refused(key, columns);
                let n = tables.len() as int;
                assert(after[n].valid());
                assert forall|i: int| 0 <= i < after.len() implies (#[trigger] after[i]).valid() by {
                    if i < n {
                        assert(tables[i].valid());
                    }
                }
                assert forall|i: int, j: int| 0 <= i < j < after.len() implies (
                #[trigger] after[i]).key != (#[trigger] after[j]).key by {
                    if j < n {
                        assert(tables[i].key != tables[j].key);
                    } else {
                        assert(tables[i].key != key);
                    }
                }
            },
            RequestView::InsertInto { key, data } => {
                let at = table_position(tables, key)->0;
                assert(tables[at].valid());
                let grown = tables[at].with_record(data);
                assert forall|r: int| 0 <= r < grown.records.len() implies distinct_keys(
                    #[trigger] grown.records[r],
                ) by {
                    if r < tables[at].records.len() {
                        assert(distinct_keys(tables[at].records[r]));
                    }
                }
                assert forall|i: int| 0 <= i < after.len() implies (#[trigger] after[i]).valid() by {
                    if i != at {
                        assert(tables[i].valid());
                    }
                }
                assert forall|i: int, j: int| 0 <= i < j < after.len() implies (
                #[trigger] after[i]).key != (#[trigger] after[j]).key by {
                    assert(tables[i].key != tables[j].key);
                }
            },
        }
    }
}

/// A run over the first `k` requests, continued by a run over the rest from
/// where the first one ended, is the run over all of them.
proof fn lemma_run_split(tables: Seq<TableView>, requests: Seq<RequestView>, from: int, k: int)
    requires
        0 <= from <= k <= requests.len(),
        run(tables, requests.take(k), from).1 is None,
    ensures
        run(tables, requests, from) == run(run(tables, requests.take(k), from).0, requests, k),
    decreases k - from,
{
    let first = requests.take(k);
    if from < k {
        assert(first[from] == requests[from]);
        lemma_run_split(after_request(tables, requests[from]), requests, from + 1, k);
    }
}

/// Requests are carried out in order, and the first that fails ends the run:
/// where the requests before position `k` all succeed and the request at `k`
/// fails, the run over all the requests ends in the tables that the first `k`
/// requests leave, whatever the requests after `k` are, and with the error of
/// the request at `k`.
pub proof fn lemma_run_stops_at_first_failure(
    tables: Seq<TableView>,
    requests: Seq<RequestView>,
    k: int,
)
    requires
        0 <= k < requests.len(),
        run(tables, requests.take(k), 0).1 is None,
        request_refusal(run(tables, requests.take(k), 0).0, requests[k]) is Some,
    ensures
        run(tables, requests, 0).0 == run(tables, requests.take(k), 0).0,
        run(tables, requests, 0).1 == request_refusal(
            run(tables, requests.take(k), 0).0,
            requests[k],
        ),
{
    lemma_run_split(tables, requests, 0, k);
}

/// Requests that all succeed are all carried out: the run over a list and one
/// more request is the run over the list, followed by that request's step.
pub proof fn lemma_run_push(tables: Seq<TableView>, requests: Seq<RequestView>, last: RequestView)
    requires
        run(tables, requests, 0).1 is None,
    ensures
        run(tables, requests.push(last), 0).0 == step(run(tables, requests, 0).0, last),
        run(tables, requests.push(last), 0).1 == request_refusal(run(tables, requests, 0).0, last),
{
    let all = requests.push(last);
    let k = requests.len() as int;
    assert(all.take(k) =~= requests);
    lemma_run_split(tables, all, 0, k);
    let reached = run(tables, requests, 0).0;
    assert(all[k] == last);
    assert(run(after_request(reached, last), all, k + 1) == (after_request(reached, last), None::<
        ErrorView,
    >));
}

/// A run leaves consistent tables consistent, given that no record to insert
/// has a name twice.
pub proof fn lemma_run_consistent(tables: Seq<TableView>, requests: Seq<RequestView>, from: int)
    requires
        consistent(tables),
        0 <= from,
        forall|i: int|
            0 <= i < requests.len() ==> (#[trigger] requests[i] matches RequestView::InsertInto {
                data,
                ..
            } ==> distinct_keys(data)),
    ensures
        consistent(run(tables, requests, from).0),
    decreases requests.len() - from,
{
    if from < requests.len() {
        lemma_step_consistent(tables, requests[from]);
        if request_refusal(tables, requests[from]) is None {
            lemma_run_consistent(after_request(tables, requests[from]), requests, from + 1);
        }
    }
}

/// Whether every table that has columns holds only records that respect its
/// schema and its constraints.
pub open spec fn constraints_kept(tables: Seq<TableView>) -> bool {
    forall|i: int|
        0 <= i < tables.len() ==> (#[trigger] tables[i]).schemaless() || tables[i].constraints_kept()
}

/// A request keeps the schemas and their constraints: where every table with
/// columns holds only records that respect them, this is still so after the
/// request.
pub proof fn lemma_step_keeps_constraints(tables: Seq<TableView>, request: RequestView)
    requires
        constraints_kept(tables),
    ensures
        constraints_kept(step(tables, request)),
{
    if request_refusal(tables, request) is None {
        let after = after_request(tables, request);
        match request {
            RequestView::CreateTable { key, .. } => {
                assert forall|i: int| 0 <= i < after.len() implies (#[trigger] after[i]).schemaless()
                    || after[i].constraints_kept() by {
                    if i < tables.len() {
                        assert(tables[i].schemaless() || tables[i].constraints_kept());
                    }
                }
            },
            RequestView::InsertInto { key, data } => {
                let at = table_position(tables, key)->0;
                assert(tables[at].schemaless() || tables[at].constraints_kept());
                if !tables[at].schemaless() {
                    lemma_refused_iff_not_taken(tables[at], data);
                    lemma_insertion_keeps_constraints(tables[at], data);
                }
                assert forall|i: int| 0 <= i < after.len() implies (#[trigger] after[i]).schemaless()
                    || after[i].constraints_kept() by {
                    if i != at {
                        assert(tables[i].schemaless() || tables[i].constraints_kept());
                    }
                }
            },
        }
    }
}

/// A run keeps the schemas and their constraints: a database that starts
/// without tables and is changed by requests alone never holds, in a table
/// with columns, a record that its schema or its constraints forbid.
pub proof fn lemma_run_keeps_constraints(
    tables: Seq<TableView>,
    requests: Seq<RequestView>,
    from: int,
)
    requires
        constraints_kept(tables),
        0 <= from,
    ensures
        constraints_kept(run(tables, requests, from).0),
    decreases requests.len() - from,
{
    if from < requests.len() {
        lemma_step_keeps_constraints(tables, requests[from]);
        if request_refusal(tables, requests[from]) is None {
            lemma_run_keeps_constraints(after_request(tables, requests[from]), requests, from + 1);
        }
    }
}

/// A name that is taken cannot be given to a second table: the request to make
/// one fails with `TableAlreadyExists` and leaves every table, the first of
/// that name among them, as it was.
pub proof fn lemma_taken_name_refused(
    tables: Seq<TableView>,
    key: Seq<char>,
    columns: Option<Seq<ColumnView>>,
)
    requires
        names_table(tables, key),
    ensures
        request_refusal(tables, RequestView::CreateTable { key, columns }) == Some(
            ErrorView::TableAlreadyExists { key },
        ),
        step(tables, RequestView::CreateTable { key, columns }) == tables,
{
}

/// A table made without columns takes whatever is inserted into it: after the
/// request that makes it, a request to insert any record under its name
/// succeeds and appends the record.
pub proof fn lemma_schemaless_table_takes_all(
    tables: Seq<TableView>,
    key: Seq<char>,
    data: RecordView,
)
    requires
        consistent(tables),
        !names_table(tables, key),
    ensures
        request_refusal(tables, RequestView::CreateTable { key, columns: None }) is None,
        ({
            let made = after_request(tables, RequestView::CreateTable { key, columns: None });
            let insert = RequestView::InsertInto { key, data };
            &&& request_refusal(made, insert) is None
            &&& after_request(made, insert) == tables.push(
                empty_table(key, Seq::empty()).with_record(data),
            )
        }),
{
    let create = RequestView::CreateTable { key, columns: None };
    let made = after_request(tables, create);
    let n = tables.len() as int;
    assert(made[n].key == key);
    assert forall|i: int, j: int| 0 <= i < j < made.len() implies (#[trigger] made[i]).key != (
    #[trigger] made[j]).key by {
        if j < n {
            assert(tables[i].key != tables[j].key);
        } else {
            assert(tables[i].key != key);
        }
    }
    lemma_position_of_table(made, n);
    assert(made.update(n, made[n].with_record(data)) =~= tables.push(
        empty_table(key, Seq::empty()).with_record(data),
    ));
}

/// The tables of a database.
#[derive(Debug)]
pub struct Database {
    tables: Vec<Table>,
}

impl View for Database {
    type V = Seq<TableView>;

    closed spec fn view(&self) -> Seq<TableView> {
        self.tables.deep_view()
    }
}

impl DeepView for Database {
    type V = Seq<TableView>;

    #[verifier::inline]
    open spec fn deep_view(&self) -> Seq<TableView> {
        self.view()
    }
}

impl Database {
    /// What holds of every database.
    #[verifier::type_invariant]
    pub open spec fn well_formed(self) -> bool {
        consistent(self@)
    }

    /// A database without tables.
    pub fn new() -> (r: Self)
        ensures
            r@ == Seq::<TableView>::empty(),
    {
        let tables: Vec<Table> = Vec::new();
        proof {
            lemma_deep_view_empty(tables);
        }
        Self { tables }
    }

    /// The position of the table with the given name.
    fn find_table(&self, key: &String) -> (r: Option<usize>)
        ensures
            consistent(self@),
            match r {
                Some(i) => i < self.tables@.len() && table_position(self@, key@) == Some(i as int),
                None => !names_table(self@, key@),
            },
    {
        proof {
            use_type_invariant(self);
        }
        let mut i: usize = 0;
        while i < self.tables.len()
            invariant
                i <= self.tables.len(),
                consistent(self@),
                forall|j: int| 0 <= j < i ==> (#[trigger] self@[j]).key != key@,
            decreases self.tables.len() - i,
        {
            if *self.tables[i].key() == *key {
                proof {
                    lemma_position_of_table(self@, i as int);
                }
                return Some(i);
            }
            i += 1;
        }
        None
    }

    /// The number of tables.
    pub fn len(&self) -> (r: usize)
        ensures
            r == self@.len(),
    {
        self.tables.len()
    }

    /// Makes a table of the given name, with the given columns or without a
    /// schema, and hands it back.
    ///
    /// Fails, and leaves every table as it was, where the name is taken, and
    /// where the columns cannot form a schema: then with the refusal that the
    /// first offending column would meet if the columns were added one by one.
    pub fn add_table(&mut self, key: String, columns: Option<Vec<Column>>) -> (r: Result<
        &Table,
        Error,
    >)
        ensures
            match r {
                Ok(table) => {
                    &&& creation_refusal(old(self)@, key@, initial_columns(columns)) is None
                    &&& table@ == empty_table(key@, initial_columns(columns))
                    &&& final(self)@ == old(self)@.push(table@)
                },
                Err(e) => {
                    &&& creation_refusal(old(self)@, key@, initial_columns(columns)) == Some(e@)
                    &&& final(self)@ == old(self)@
                },
            },
    {
        if self.find_table(&key).is_some() {
            return Err(Error::TableAlreadyExists { key });
        }
        let table = match Table::build(key, columns) {
            Ok(table) => table,
            Err(e) => {
                return Err(e);
            },
        };
        proof {
            use_type_invariant(&table);
            lemma_deep_view_push(self.tables, table);
            lemma_admissible_iff_none_refused(key@, initial_columns(columns));
            lemma_step_consistent(
                self@,
                RequestView::CreateTable { key: key@, columns: Some(initial_columns(columns)) },
            );
        }
        let mut tables: Vec<Table> = Vec::new();
        proof {
            lemma_deep_view_empty(tables);
        }
        std::mem::swap(&mut tables, &mut self.tables);
        tables.push(table);
        self.tables = tables;
        let n = self.tables.len();
        Ok(&self.tables[n - 1])
    }

    /// The table of the given name.
    pub fn get_table(&self, key: &String) -> (r: Result<&Table, Error>)
        ensures
            match r {
                Ok(table) => table_position(self@, key@) matches Some(i) && table@ == self@[i],
                Err(e) => !names_table(self@, key@) && e@ == (ErrorView::BadTableKey { key: key@ }),
            },
    {
        match self.find_table(key) {
            Some(i) => Ok(&self.tables[i]),
            None => Err(Error::BadTableKey { key: key.clone() }),
        }
    }

    /// Appends the record to the table of the given name.
    ///
    /// Fails, and leaves every table as it was, where there is no such table
    /// and where the table refuses the record.
    pub fn insert_into(&mut self, key: &String, data: Record) -> (r: Result<(), Error>)
        ensures
            match r {
                Ok(()) => {
                    &&& insertion_refusal(old(self)@, key@, data@) is None
                    &&& final(self)@ == after_insertion(old(self)@, key@, data@)
                },
                Err(e) => {
                    &&& insertion_refusal(old(self)@, key@, data@) == Some(e@)
                    &&& final(self)@ == old(self)@
                },
            },
    {
        let at = match self.find_table(key) {
            Some(i) => i,
            None => {
                return Err(Error::BadTableKey { key: key.clone() });
            },
        };
        proof {
            use_type_invariant(&data);
            lemma_step_consistent(self@, RequestView::InsertInto { key: key@, data: data@ });
        }
        let ghost before = self.tables;
        let mut tables: Vec<Table> = Vec::new();
        proof {
            lemma_deep_view_empty(tables);
        }
        std::mem::swap(&mut tables, &mut self.tables);
        let mut table = Table::new(String::new(), None);
        std::mem::swap(&mut table, &mut tables[at]);
        let failure = match table.add_record(data) {
            Ok(_) => None,
            Err(e) => Some(e),
        };
        proof {
            lemma_deep_view_update(before, at as int, table);
        }
        std::mem::swap(&mut table, &mut tables[at]);
        proof {
            assert(tables@ =~= before@.update(at as int, tables@[at as int]));
            if failure is Some {
                assert(tables.deep_view() =~= before.deep_view());
            }
        }
        self.tables = tables;
        match failure {
            Some(e) => Err(e),
            None => Ok(()),
        }
    }

    /// Adds a column at the end of the schema of the table of the given name.
    ///
    /// Fails, and leaves every table as it was, where there is no such table,
    /// where the table has a column of that name, and where the column would be
    /// the table's second primary key.
    pub fn add_column(
        &mut self,
        table_key: &String,
        key: String,
        data_type: DataType,
        constraints: ColumnConstraint,
    ) -> (r: Result<(), Error>)
        ensures
            match r {
                Ok(()) => {
                    &&& column_addition_refusal(old(self)@, table_key@, key@, constraints) is None
                    &&& final(self)@ == after_column_addition(
                        old(self)@,
                        table_key@,
                        ColumnView { key: key@, data_type, constraints },
                    )
                },
                Err(e) => {
                    &&& column_addition_refusal(old(self)@, table_key@, key@, constraints) == Some(
                        e@,
                    )
                    &&& final(self)@ == old(self)@
                },
            },
    {
        let at = match self.find_table(table_key) {
            Some(i) => i,
            None => {
                return Err(Error::BadTableKey { key: table_key.clone() });
            },
        };
        let ghost before = self.tables;
        let mut tables: Vec<Table> = Vec::new();
        proof {
            lemma_deep_view_empty(tables);
        }
        std::mem::swap(&mut tables, &mut self.tables);
        let mut table = Table::new(String::new(), None);
        std::mem::swap(&mut table, &mut tables[at]);
        let failure = match table.add_column(key, data_type, constraints) {
            Ok(_) => None,
            Err(e) => Some(e),
        };
        proof {
            use_type_invariant(&table);
            lemma_deep_view_update(before, at as int, table);
            lemma_update_consistent(before.deep_view(), at as int, table@);
        }
        std::mem::swap(&mut table, &mut tables[at]);
        proof {
            assert(tables@ =~= before@.update(at as int, tables@[at as int]));
            if failure is Some {
                assert(tables.deep_view() =~= before.deep_view());
            }
        }
        self.tables = tables;
        match failure {
            Some(e) => Err(e),
            None => Ok(()),
        }
    }

    /// Carries out one request.
    pub fn apply(&mut self, request: DatabaseRequest) -> (r: Result<(), Error>)
        ensures
            final(self)@ == step(old(self)@, request@),
            match r {
                Ok(()) => request_refusal(old(self)@, request@) is None,
                Err(e) => request_refusal(old(self)@, request@) == Some(e@),
            },
    {
        match request {
            DatabaseRequest::CreateTable { key, columns } => {
                match self.add_table(key, columns) {
                    Ok(_) => Ok(()),
                    Err(e) => Err(e),
                }
            },
            DatabaseRequest::InsertInto { key, data } => self.insert_into(&key, data),
        }
    }

    /// Carries out the requests strictly in order, up to the first that fails.
    ///
    /// The first request that fails ends the run with its error. What the
    /// requests before it did stays done, and no request after it is tried.
    #[verifier::loop_isolation(false)]
    pub fn process_requests(&mut self, requests: Vec<DatabaseRequest>) -> (r: Result<(), Error>)
        ensures
            final(self)@ == run(old(self)@, requests.deep_view(), 0).0,
            match r {
                Ok(()) => run(old(self)@, requests.deep_view(), 0).1 is None,
                Err(e) => run(old(self)@, requests.deep_view(), 0).1 == Some(e@),
            },
    {
        let ghost all = requests.deep_view();
        let mut requests = requests;
        let mut i: usize = 0;
        while i < requests.len()
            invariant
                i <= requests.len(),
                requests@.len() == all.len(),
                forall|k: int| i <= k < requests@.len() ==> (#[trigger] requests@[k])@ == all[k],
                run(old(self)@, all, 0) == run(self@, all, i as int),
            decreases requests.len() - i,
        {
            let mut request = DatabaseRequest::CreateTable { key: String::new(), columns: None };
            std::mem::swap(&mut request, &mut requests[i]);
            assert(request@ == all[i as int]);
            match self.apply(request) {
                Ok(()) => {},
                Err(e) => {
                    return Err(e);
                },
            }
            i += 1;
        }
        Ok(())
    }
}

} // verus!
