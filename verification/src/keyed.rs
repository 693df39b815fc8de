//! A keyed store: records addressed by the key of a table and the key of a
//! record in it. A record maps column keys to column values.

use crate::assoc::{
    distinct_keys, has_key, lemma_position_of_entry, lemma_put, lookup, position, put,
};
use crate::views::{lemma_deep_view_empty, lemma_deep_view_push, lemma_deep_view_update};
use vstd::arithmetic::power::pow;
use vstd::prelude::*;
use vstd::string::StringExecFns;

verus! {

/// The character that writes a digit below ten.
pub open spec fn digit_char(d: int) -> char {
    ('0' as int + d) as char
}

/// The decimal digits of a number, the most significant first, without
/// leading zeros.
pub open spec fn decimal_text(n: nat) -> Seq<char>
    decreases n,
{
    if n < 10 {
        seq![digit_char(n as int)]
    } else {
        decimal_text(n / 10).push(digit_char((n % 10) as int))
    }
}

/// An integer in decimal, with a minus sign in front where it is negative.
pub open spec fn integer_text(value: int) -> Seq<char> {
    if value < 0 {
        seq!['-'] + decimal_text((-value) as nat)
    } else {
        decimal_text(value as nat)
    }
}

/// The character that writes a digit below sixteen, in lower case.
pub open spec fn hex_char(d: int) -> char {
    if d < 10 {
        ('0' as int + d) as char
    } else {
        ('a' as int + d - 10) as char
    }
}

/// The hexadecimal digit of a 128-bit value at position `k` of its 32 digits,
/// counted from the most significant.
pub open spec fn hex_digit_at(value: u128, k: int) -> int {
    (value as int / pow(16, (31 - k) as nat)) % 16
}

/// How many hyphens stand before position `i` of a hyphenated identifier.
pub open spec fn hyphens_before(i: int) -> int {
    (if i > 8 {
        1int
    } else {
        0int
    }) + (if i > 13 {
        1int
    } else {
        0int
    }) + (if i > 18 {
        1int
    } else {
        0int
    }) + (if i > 23 {
        1int
    } else {
        0int
    })
}

/// A 128-bit identifier in its hyphenated form: its 32 hexadecimal digits in
/// lower case, the most significant first, in groups of 8, 4, 4, 4 and 12 with
/// a hyphen between two groups.
pub open spec fn hyphenated(value: u128) -> Seq<char> {
    Seq::new(
        36,
        |i: int|
            if i == 8 || i == 13 || i == 18 || i == 23 {
                '-'
            } else {
                hex_char(hex_digit_at(value, i - hyphens_before(i)))
            },
    )
}

/// The text of one digit.
fn digit_text(d: u64) -> (r: &'static str)
    requires
        d < 10,
    ensures
        r@ == seq![digit_char(d as int)],
{
    proof {
        reveal_strlit("0");
        reveal_strlit("1");
        reveal_strlit("2");
        reveal_strlit("3");
        reveal_strlit("4");
        reveal_strlit("5");
        reveal_strlit("6");
        reveal_strlit("7");
        reveal_strlit("8");
        reveal_strlit("9");
    }
    let r = if d == 0 {
        "0"
    } else if d == 1 {
        "1"
    } else if d == 2 {
        "2"
    } else if d == 3 {
        "3"
    } else if d == 4 {
        "4"
    } else if d == 5 {
        "5"
    } else if d == 6 {
        "6"
    } else if d == 7 {
        "7"
    } else if d == 8 {
        "8"
    } else {
        "9"
    };
    assert(r@ =~= seq![digit_char(d as int)]);
    r
}

/// Writes a number in decimal.
fn decimal(n: u64) -> (r: String)
    ensures
        r@ == decimal_text(n as nat),
    decreases n,
{
    if n < 10 {
        String::from_str(digit_text(n))
    } else {
        let head = decimal(n / 10);
        let r = head.concat(digit_text(n % 10));
        assert(r@ =~= decimal_text((n / 10) as nat).push(digit_char((n % 10) as int)));
        r
    }
}

/// Writes an integer in decimal.
pub fn integer_to_string(value: i64) -> (r: String)
    ensures
        r@ == integer_text(value as int),
{
    if value < 0 {
        let magnitude: u64 = if value == i64::MIN {
            0x8000_0000_0000_0000
        } else {
            (-value) as u64
        };
        proof {
            reveal_strlit("-");
        }
        let digits = decimal(magnitude);
        let r = String::from_str("-").concat(digits.as_str());
        assert(r@ =~= seq!['-'] + decimal_text((-value) as nat));
        r
    } else {
        decimal(value as u64)
    }
}

/// Formats the identifier through `uuid::Uuid`: `Uuid::from_u128` takes the
/// value as sixteen bytes, the most significant first, and the `Display` of
/// `Uuid` writes them hyphenated in lower-case hexadecimal.
#[verifier::external_body]
fn uuid_to_string(value: u128) -> (r: String)
    ensures
        r@ == hyphenated(value),
{
    uuid::Uuid::from_u128(value).to_string()
}

/// A key of a table, a record or a column.
#[derive(Debug, PartialEq, Eq, Hash)]
pub enum Key {
    Integer(i64),
    String(String),
    /// A universally unique identifier, by its 128-bit value.
    Uuid(u128),
}

/// The mathematical value of a key.
pub enum KeyView {
    Integer(i64),
    String(Seq<char>),
    Uuid(u128),
}

impl KeyView {
    /// The key as text: an integer in decimal, a string as it is, an
    /// identifier hyphenated.
    pub open spec fn text(self) -> Seq<char> {
        match self {
            KeyView::Integer(value) => integer_text(value as int),
            KeyView::String(value) => value,
            KeyView::Uuid(value) => hyphenated(value),
        }
    }
}

impl View for Key {
    type V = KeyView;

    open spec fn view(&self) -> KeyView {
        match self {
            Key::Integer(value) => KeyView::Integer(*value),
            Key::String(value) => KeyView::String(value@),
            Key::Uuid(value) => KeyView::Uuid(*value),
        }
    }
}

impl DeepView for Key {
    type V = KeyView;

    #[verifier::inline]
    open spec fn deep_view(&self) -> KeyView {
        self.view()
    }
}

impl Clone for Key {
    fn clone(&self) -> (r: Self)
        ensures
            r@ == self@,
    {
        match self {
            Key::Integer(value) => Key::Integer(*value),
            Key::String(value) => Key::String(value.clone()),
            Key::Uuid(value) => Key::Uuid(*value),
        }
    }
}

impl Key {
    /// Whether two keys are the same: the same variant with the same payload.
    pub fn same_as(&self, other: &Key) -> (r: bool)
        ensures
            r == (self@ == other@),
    {
        match self {
            Key::Integer(a) => match other {
                Key::Integer(b) => *a == *b,
                _ => false,
            },
            Key::String(a) => match other {
                Key::String(b) => *a == *b,
                _ => false,
            },
            Key::Uuid(a) => match other {
                Key::Uuid(b) => *a == *b,
                _ => false,
            },
        }
    }

    /// The key as text.
    pub fn to_string(&self) -> (r: String)
        ensures
            r@ == self@.text(),
    {
        match self {
            Key::Integer(value) => integer_to_string(*value),
            Key::String(value) => value.clone(),
            Key::Uuid(value) => uuid_to_string(*value),
        }
    }
}

/// The value of one column of a record.
#[derive(Debug, PartialEq, Eq)]
pub enum ColumnValue {
    ForeignKey(String),
    String(String),
    Integer(i64),
}

/// The mathematical value of a column value.
pub enum ColumnValueView {
    ForeignKey(Seq<char>),
    String(Seq<char>),
    Integer(i64),
}

impl View for ColumnValue {
    type V = ColumnValueView;

    open spec fn view(&self) -> ColumnValueView {
        match self {
            ColumnValue::ForeignKey(value) => ColumnValueView::ForeignKey(value@),
            ColumnValue::String(value) => ColumnValueView::String(value@),
            ColumnValue::Integer(value) => ColumnValueView::Integer(*value),
        }
    }
}

impl DeepView for ColumnValue {
    type V = ColumnValueView;

    #[verifier::inline]
    open spec fn deep_view(&self) -> ColumnValueView {
        self.view()
    }
}

impl Clone for ColumnValue {
    fn clone(&self) -> (r: Self)
        ensures
            r@ == self@,
    {
        match self {
            ColumnValue::ForeignKey(value) => ColumnValue::ForeignKey(value.clone()),
            ColumnValue::String(value) => ColumnValue::String(value.clone()),
            ColumnValue::Integer(value) => ColumnValue::Integer(*value),
        }
    }
}

/// The position of the entry with the given key.
fn find<V: DeepView>(entries: &Vec<(Key, V)>, key: &Key) -> (r: Option<usize>)
    requires
        distinct_keys(entries.deep_view()),
    ensures
        match r {
            Some(i) => i < entries@.len() && position(entries.deep_view(), key@) == Some(i as int),
            None => !has_key(entries.deep_view(), key@),
        },
{
    let mut i: usize = 0;
    while i < entries.len()
        invariant
            i <= entries.len(),
            distinct_keys(entries.deep_view()),
            forall|j: int| 0 <= j < i ==> (#[trigger] entries.deep_view()[j]).0 != key@,
        decreases entries.len() - i,
    {
        if entries[i].0.same_as(key) {
            proof {
                lemma_position_of_entry(entries.deep_view(), i as int);
            }
            return Some(i);
        }
        i += 1;
    }
    None
}

/// Sets the key to the value.
fn upsert<V: DeepView>(entries: &mut Vec<(Key, V)>, key: Key, value: V)
    requires
        distinct_keys(old(entries).deep_view()),
    ensures
        final(entries).deep_view() == put(old(entries).deep_view(), key@, value.deep_view()),
        distinct_keys(final(entries).deep_view()),
{
    let found = find(entries, &key);
    proof {
        lemma_put(entries.deep_view(), key@, value.deep_view());
        lemma_deep_view_push(*entries, (key, value));
    }
    match found {
        Some(i) => {
            proof {
                lemma_deep_view_update(*entries, i as int, (key, value));
            }
            let mut entry = (key, value);
            std::mem::swap(&mut entry, &mut entries[i]);
        },
        None => {
            entries.push((key, value));
        },
    }
}

/// The mathematical value of a record: its entries, no key twice.
pub type RecordView = Seq<(KeyView, ColumnValueView)>;

/// A record: column values by column key.
#[derive(Debug)]
pub struct Record {
    columns: Vec<(Key, ColumnValue)>,
}

impl View for Record {
    type V = RecordView;

    closed spec fn view(&self) -> RecordView {
        self.columns.deep_view()
    }
}

impl DeepView for Record {
    type V = RecordView;

    #[verifier::inline]
    open spec fn deep_view(&self) -> RecordView {
        self.view()
    }
}

/// The entries after each pair of `data` from position `from` on has been
/// set, in order, as a string value under a string key.
pub open spec fn with_data(entries: RecordView, data: Seq<(Seq<char>, Seq<char>)>, from: int) -> RecordView
    decreases data.len() - from,
{
    if from < 0 || from >= data.len() {
        entries
    } else {
        with_data(
            put(entries, KeyView::String(data[from].0), ColumnValueView::String(data[from].1)),
            data,
            from + 1,
        )
    }
}

impl Record {
    /// What holds of every record: no key occurs twice.
    #[verifier::type_invariant]
    pub open spec fn well_formed(self) -> bool {
        distinct_keys(self@)
    }

    /// The record without columns.
    pub fn new() -> (r: Self)
        ensures
            r@ == Seq::<(KeyView, ColumnValueView)>::empty(),
    {
        let columns: Vec<(Key, ColumnValue)> = Vec::new();
        proof {
            lemma_deep_view_empty(columns);
        }
        Self { columns }
    }

    /// Sets each name of `data` to its text, in order.
    pub fn set_data(&mut self, data: Vec<(String, String)>)
        ensures
            final(self)@ == with_data(old(self)@, data.deep_view(), 0),
    {
        let ghost pairs = data.deep_view();
        let mut i: usize = 0;
        while i < data.len()
            invariant
                i <= data.len(),
                pairs == data.deep_view(),
                with_data(old(self)@, pairs, 0) == with_data(self@, pairs, i as int),
            decreases data.len() - i,
        {
            assert(pairs[i as int] == (data[i as int].0@, data[i as int].1@));
            self.set_column_value(
                Key::String(data[i].0.clone()),
                ColumnValue::String(data[i].1.clone()),
            );
            i += 1;
        }
    }

    /// Sets the column of the given key to the value.
    pub fn set_column_value(&mut self, column_key: Key, value: ColumnValue)
        ensures
            final(self)@ == put(old(self)@, column_key@, value@),
    {
        proof {
            use_type_invariant(&*self);
        }
        let mut columns: Vec<(Key, ColumnValue)> = Vec::new();
        proof {
            lemma_deep_view_empty(columns);
        }
        std::mem::swap(&mut columns, &mut self.columns);
        upsert(&mut columns, column_key, value);
        self.columns = columns;
    }

    /// All the columns with their values.
    pub fn get_all_values(&self) -> (r: &Vec<(Key, ColumnValue)>)
        ensures
            r.deep_view() == self@,
            distinct_keys(self@),
    {
        proof {
            use_type_invariant(self);
        }
        &self.columns
    }
}

/// The mathematical value of a table of the keyed store.
pub struct TableView {
    pub key: KeyView,
    pub records: Seq<(KeyView, RecordView)>,
}

impl TableView {
    /// What holds of the value of every table: no record key occurs twice, and
    /// no record has a column key twice.
    pub open spec fn valid(self) -> bool {
        distinct_keys(self.records) && records_valid(self.records)
    }

    /// The table after the record has been set under the key.
    pub open spec fn with_record(self, record_key: KeyView, record: RecordView) -> TableView {
        TableView { key: self.key, records: put(self.records, record_key, record) }
    }
}

/// Whether no record has a column key twice.
pub open spec fn records_valid(records: Seq<(KeyView, RecordView)>) -> bool {
    forall|i: int| 0 <= i < records.len() ==> distinct_keys((#[trigger] records[i]).1)
}

/// A table of the keyed store: records by key.
#[derive(Debug)]
pub struct Table {
    key: Key,
    records: Vec<(Key, Record)>,
}

impl View for Table {
    type V = TableView;

    closed spec fn view(&self) -> TableView {
        TableView { key: self.key@, records: self.records.deep_view() }
    }
}

impl DeepView for Table {
    type V = TableView;

    #[verifier::inline]
    open spec fn deep_view(&self) -> TableView {
        self.view()
    }
}

/// Why a key was not found.
#[derive(Debug, PartialEq, Eq)]
pub enum BadKeyError {
    Table { key: Key },
    Record { key: Key, table_key: Key },
    Column { key: Key, table_key: Key },
}

/// The mathematical value of a key error.
pub enum BadKeyErrorView {
    Table { key: KeyView },
    Record { key: KeyView, table_key: KeyView },
    Column { key: KeyView, table_key: KeyView },
}

impl BadKeyErrorView {
    /// The text that describes the error.
    pub open spec fn message(self) -> Seq<char> {
        match self {
            BadKeyErrorView::Table { key } => "table with key `"@ + key.text() + "` not found"@,
            BadKeyErrorView::Record { key, table_key } => "record with key `"@ + key.text()
                + "` not found in table `"@ + table_key.text() + "`"@,
            BadKeyErrorView::Column { key, table_key } => "column with key `"@ + key.text()
                + "` not found in table `"@ + table_key.text() + "`"@,
        }
    }
}

impl View for BadKeyError {
    type V = BadKeyErrorView;

    open spec fn view(&self) -> BadKeyErrorView {
        match self {
            BadKeyError::Table { key } => BadKeyErrorView::Table { key: key@ },
            BadKeyError::Record { key, table_key } => BadKeyErrorView::Record {
                key: key@,
                table_key: table_key@,
            },
            BadKeyError::Column { key, table_key } => BadKeyErrorView::Column {
                key: key@,
                table_key: table_key@,
            },
        }
    }
}

impl BadKeyError {
    /// The text that describes the error.
    pub fn to_string(&self) -> (r: String)
        ensures
            r@ == self@.message(),
    {
        match self {
            BadKeyError::Table { key } => String::from_str("table with key `").concat(
                key.to_string().as_str(),
            ).concat("` not found"),
            BadKeyError::Record { key, table_key } => String::from_str("record with key `").concat(
                key.to_string().as_str(),
            ).concat("` not found in table `").concat(table_key.to_string().as_str()).concat("`"),
            BadKeyError::Column { key, table_key } => String::from_str("column with key `").concat(
                key.to_string().as_str(),
            ).concat("` not found in table `").concat(table_key.to_string().as_str()).concat("`"),
        }
    }
}

impl Table {
    /// What holds of every table.
    #[verifier::type_invariant]
    pub open spec fn well_formed(self) -> bool {
        self@.valid()
    }

    /// The table of the given key, without records.
    pub fn new(table_key: Key) -> (r: Self)
        ensures
            r@ == (TableView { key: table_key@, records: Seq::empty() }),
    {
        let records: Vec<(Key, Record)> = Vec::new();
        proof {
            lemma_deep_view_empty(records);
        }
        Self { key: table_key, records }
    }

    /// The record under the given key.
    pub fn get_record(&self, record_key: &Key) -> (r: Result<&Record, BadKeyError>)
        ensures
            match r {
                Ok(record) => lookup(self@.records, record_key@) == Some(record@),
                Err(e) => !has_key(self@.records, record_key@) && e@ == (BadKeyErrorView::Record {
                    key: record_key@,
                    table_key: self@.key,
                }),
            },
    {
        proof {
            use_type_invariant(self);
        }
        match find(&self.records, record_key) {
            Some(i) => {
                assert(self@.records[i as int].1 == self.records[i as int].1@);
                Ok(&self.records[i].1)
            },
            None => Err(BadKeyError::Record { key: record_key.clone(), table_key: self.key.clone() }),
        }
    }

    /// Sets the record under the given key: a new record, or in place of the
    /// one that stood there. Always succeeds.
    pub fn upsert_record(&mut self, record_key: Key, record: Record) -> (r: Result<(), BadKeyError>)
        ensures
            r is Ok,
            final(self)@ == old(self)@.with_record(record_key@, record@),
    {
        proof {
            use_type_invariant(&*self);
            use_type_invariant(&record);
            lemma_put(self@.records, record_key@, record@);
            let after = put(self@.records, record_key@, record@);
            assert forall|i: int| 0 <= i < after.len() implies distinct_keys(
                (#[trigger] after[i]).1,
            ) by {
                if after[i] != (record_key@, record@) {
                    assert(after[i] == self@.records[i]);
                }
            }
        }
        let mut records: Vec<(Key, Record)> = Vec::new();
        proof {
            lemma_deep_view_empty(records);
        }
        std::mem::swap(&mut records, &mut self.records);
        upsert(&mut records, record_key, record);
        self.records = records;
        Ok(())
    }
}

/// The mathematical value of a keyed store: its tables by key.
pub type StoreView = Seq<(KeyView, TableView)>;

/// Whether every table is valid and is stored under its own key.
pub open spec fn tables_valid(tables: StoreView) -> bool {
    forall|i: int|
        0 <= i < tables.len() ==> (#[trigger] tables[i]).1.valid() && tables[i].1.key == tables[i].0
}

/// The table of the given key as it is after the record has been set under
/// the record key: the table that was there with the record set, or a new
/// table with that record alone.
pub open spec fn table_after_set(
    tables: StoreView,
    table_key: KeyView,
    record_key: KeyView,
    record: RecordView,
) -> TableView {
    match lookup(tables, table_key) {
        Some(table) => table.with_record(record_key, record),
        None => TableView { key: table_key, records: seq![(record_key, record)] },
    }
}

/// What a point lookup finds: the record, or why there is none.
pub open spec fn found(tables: StoreView, table_key: KeyView, record_key: KeyView) -> Result<
    RecordView,
    BadKeyErrorView,
> {
    match lookup(tables, table_key) {
        None => Err(BadKeyErrorView::Table { key: table_key }),
        Some(table) => match lookup(table.records, record_key) {
            Some(record) => Ok(record),
            None => Err(BadKeyErrorView::Record { key: record_key, table_key: table.key }),
        },
    }
}

/// What is set can be found: after a record has been set under a table key
/// and a record key, a lookup with these keys finds that record.
pub proof fn lemma_set_then_found(
    tables: StoreView,
    table_key: KeyView,
    record_key: KeyView,
    record: RecordView,
)
    requires
        distinct_keys(tables),
        tables_valid(tables),
    ensures
        found(
            put(tables, table_key, table_after_set(tables, table_key, record_key, record)),
            table_key,
            record_key,
        ) == Ok::<RecordView, BadKeyErrorView>(record),
{
    let table = table_after_set(tables, table_key, record_key, record);
    lemma_put(tables, table_key, table);
    match lookup(tables, table_key) {
        Some(before) => {
            let i = position(tables, table_key)->0;
            assert(tables[i].1.valid());
            lemma_put(before.records, record_key, record);
        },
        None => {
            let only = seq![(record_key, record)];
            assert(only[0].0 == record_key);
            assert(distinct_keys(only));
            lemma_position_of_entry(only, 0);
        },
    }
}

/// A keyed store: tables by key, each with its records by key.
#[derive(Debug)]
pub struct Database {
    tables: Vec<(Key, Table)>,
}

impl View for Database {
    type V = StoreView;

    closed spec fn view(&self) -> StoreView {
        self.tables.deep_view()
    }
}

impl Database {
    /// What holds of every keyed store: no table key occurs twice, and every
    /// table is valid and stored under its own key.
    #[verifier::type_invariant]
    pub open spec fn well_formed(self) -> bool {
        distinct_keys(self@) && tables_valid(self@)
    }

    /// The store without tables.
    pub fn new() -> (r: Self)
        ensures
            r@ == Seq::<(KeyView, TableView)>::empty(),
    {
        let tables: Vec<(Key, Table)> = Vec::new();
        proof {
            lemma_deep_view_empty(tables);
        }
        Self { tables }
    }

    /// Sets the record under the record key in the table of the table key,
    /// making the table where there is none of that key.
    pub fn set(&mut self, table_key: Key, record_key: Key, record: Record)
        ensures
            final(self)@ == put(
                old(self)@,
                table_key@,
                table_after_set(old(self)@, table_key@, record_key@, record@),
            ),
    {
        proof {
            use_type_invariant(&*self);
            use_type_invariant(&record);
        }
        let ghost before = self@;
        let ghost after_table = table_after_set(before, table_key@, record_key@, record@);
        let found = find(&self.tables, &table_key);
        let mut tables: Vec<(Key, Table)> = Vec::new();
        proof {
            lemma_deep_view_empty(tables);
        }
        std::mem::swap(&mut tables, &mut self.tables);
        let mut table = match found {
            Some(i) => {
                let mut taken = (Key::Integer(0), Table::new(Key::Integer(0)));
                std::mem::swap(&mut taken, &mut tables[i]);
                assert(before[i as int].1 == taken.1@);
                taken.1
            },
            None => Table::new(table_key.clone()),
        };
        let _ = table.upsert_record(record_key, record);
        proof {
            use_type_invariant(&table);
            if found is None {
                assert(table@.records =~= seq![(record_key@, record@)]);
            } else {
                assert(before[found->0 as int].1.key == before[found->0 as int].0);
            }
            assert(table@ == after_table);
            lemma_put(before, table_key@, after_table);
            let after = put(before, table_key@, after_table);
            assert forall|i: int| 0 <= i < after.len() implies (#[trigger] after[i]).1.valid()
                && after[i].1.key == after[i].0 by {
                if after[i] != (table_key@, after_table) {
                    assert(after[i] == before[i]);
                }
            }
        }
        match found {
            Some(i) => {
                proof {
                    lemma_deep_view_update(tables, i as int, (table_key, table));
                }
                let mut entry = (table_key, table);
                std::mem::swap(&mut entry, &mut tables[i]);
            },
            None => {
                proof {
                    lemma_deep_view_push(tables, (table_key, table));
                }
                tables.push((table_key, table));
            },
        }
        assert(tables.deep_view() =~= put(before, table_key@, after_table));
        self.tables = tables;
    }

    /// The record under the record key in the table of the table key.
    pub fn get(&self, table_key: &Key, record_key: &Key) -> (r: Result<&Record, BadKeyError>)
        ensures
            match r {
                Ok(record) => found(self@, table_key@, record_key@) == Ok::<
                    RecordView,
                    BadKeyErrorView,
                >(record@),
                Err(e) => found(self@, table_key@, record_key@) == Err::<RecordView, BadKeyErrorView>(
                    e@,
                ),
            },
    {
        proof {
            use_type_invariant(self);
        }
        match find(&self.tables, table_key) {
            Some(i) => {
                assert(self@[i as int].1 == self.tables[i as int].1@);
                match self.tables[i].1.get_record(record_key) {
                    Ok(entry) => Ok(entry),
                    Err(error) => Err(error),
                }
            },
            None => Err(BadKeyError::Table { key: table_key.clone() }),
        }
    }
}

impl Default for Database {
    fn default() -> (r: Self)
        ensures
            r@ == Seq::<(KeyView, TableView)>::empty(),
    {
        Self::new()
    }
}

} // verus!
