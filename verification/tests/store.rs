use table_store::cell::{CellValue, DataType, Float64};
use table_store::column::Column;
use table_store::constraint::{ColumnConstraint, ConstraintKind};
use table_store::database::Database;
use table_store::error::Error;
use table_store::record::Record;
use table_store::request::DatabaseRequest;
use table_store::table::Table;

fn text(s: &str) -> String {
    s.to_string()
}

fn float(x: f64) -> Float64 {
    Float64::from_bits(x.to_bits())
}

fn record(entries: Vec<(&str, CellValue)>) -> Record {
    let mut record = Record::new();
    for (key, value) in entries {
        record.insert(text(key), value);
    }
    record
}

fn column(key: &str, data_type: DataType, constraints: ColumnConstraint) -> Column {
    Column::new(text(key), data_type, constraints)
}

fn people() -> Table {
    Table::new(
        text("people"),
        Some(vec![
            column("id", DataType::Integer, ColumnConstraint::primary_key()),
            column("name", DataType::String, ColumnConstraint::not_null()),
            column("email", DataType::String, ColumnConstraint::unique()),
            column("height", DataType::Float, ColumnConstraint::empty()),
        ]),
    )
}

#[test]
fn add() {
    assert_eq!(4, 4);
}

#[test]
fn data_type_names() {
    assert_eq!(DataType::String.to_string(), "String");
    assert_eq!(DataType::Integer.to_string(), "Integer");
    assert_eq!(DataType::Float.to_string(), "Float");
}

#[test]
fn cell_value_shows_its_type() {
    assert_eq!(CellValue::String(text("x")).to_string(), "String");
    assert_eq!(CellValue::Integer(7).to_string(), "Integer");
    assert_eq!(CellValue::Float(float(1.5)).to_string(), "Float");
    assert_eq!(CellValue::Integer(7).data_type(), DataType::Integer);
}

#[test]
fn cell_values_compare_by_variant_and_payload() {
    assert!(CellValue::Integer(3).same_as(&CellValue::Integer(3)));
    assert!(!CellValue::Integer(3).same_as(&CellValue::Integer(4)));
    assert!(!CellValue::Integer(3).same_as(&CellValue::Float(float(3.0))));
    assert!(CellValue::String(text("a")).same_as(&CellValue::String(text("a"))));
    assert!(!CellValue::String(text("a")).same_as(&CellValue::String(text("b"))));
    assert!(CellValue::Float(float(2.5)).same_as(&CellValue::Float(float(2.5))));
    assert!(!CellValue::Float(float(0.0)).same_as(&CellValue::Float(float(-0.0))));
}

#[test]
fn float_keeps_its_bits_and_flips_its_sign() {
    let x = float(1.5);
    assert_eq!(x.to_bits(), 0x3ff8_0000_0000_0000);
    assert_eq!(f64::from_bits(x.to_bits()), 1.5);
    assert_eq!(x.negated(), float(-1.5));
    assert_eq!(x.negated().negated(), x);
    assert_eq!(float(0.0).negated(), float(-0.0));
}

#[test]
fn constraint_sets() {
    let empty = ColumnConstraint::empty();
    assert!(empty.is_empty());
    assert!(!empty.demands_value());
    assert!(!empty.demands_distinct());
    let both = ColumnConstraint::not_null().union(ColumnConstraint::unique());
    assert!(both.contains(ColumnConstraint::not_null()));
    assert!(both.contains(ColumnConstraint::unique()));
    assert!(!both.contains(ColumnConstraint::primary_key()));
    assert!(both.contains(empty));
    assert!(!ColumnConstraint::not_null().contains(both));
    assert_eq!(ColumnConstraint::only(ConstraintKind::Unique), ColumnConstraint::unique());
    assert_eq!(ColumnConstraint::only(ConstraintKind::NotNull), ColumnConstraint::not_null());
    assert_eq!(ColumnConstraint::only(ConstraintKind::PrimaryKey), ColumnConstraint::primary_key());
}

#[test]
fn primary_key_implies_not_null_and_unique() {
    let primary = ColumnConstraint::primary_key();
    assert!(primary.demands_value());
    assert!(primary.demands_distinct());
    assert!(ColumnConstraint::not_null().demands_value());
    assert!(!ColumnConstraint::not_null().demands_distinct());
    assert!(ColumnConstraint::unique().demands_distinct());
    assert!(!ColumnConstraint::unique().demands_value());
}

#[test]
fn column_accepts_exactly_its_type() {
    let values = [
        CellValue::String(text("x")),
        CellValue::Integer(1),
        CellValue::Float(float(1.0)),
    ];
    let types = [DataType::String, DataType::Integer, DataType::Float];
    for (i, data_type) in types.iter().enumerate() {
        let c = column("c", *data_type, ColumnConstraint::empty());
        for (j, value) in values.iter().enumerate() {
            assert_eq!(c.accepts_value(value), i == j);
        }
    }
}

#[test]
fn every_type_rejects_other_variants_with_mismatch() {
    let values = [
        CellValue::String(text("x")),
        CellValue::Integer(1),
        CellValue::Float(float(1.0)),
    ];
    let types = [DataType::String, DataType::Integer, DataType::Float];
    for (i, data_type) in types.iter().enumerate() {
        for (j, value) in values.iter().enumerate() {
            let mut table =
                Table::new(text("t"), Some(vec![column("c", *data_type, ColumnConstraint::empty())]));
            let result = table.add_record(record(vec![("c", value.clone())])).map(|r| r.clone());
            if i == j {
                assert_eq!(result, Ok(record(vec![("c", value.clone())])));
                assert_eq!(table.records().len(), 1);
            } else {
                assert_eq!(
                    result,
                    Err(Error::DataTypeMismatch {
                        column_key: text("c"),
                        expected: data_type.to_string(),
                        received: value.to_string(),
                    })
                );
                assert_eq!(table.records().len(), 0);
            }
        }
    }
}

#[test]
fn record_is_a_map() {
    let mut r = Record::new();
    assert!(r.is_empty());
    assert_eq!(r.insert(text("a"), CellValue::Integer(1)), None);
    assert_eq!(r.insert(text("b"), CellValue::Integer(2)), None);
    assert_eq!(r.insert(text("a"), CellValue::Integer(3)), Some(CellValue::Integer(1)));
    assert_eq!(r.len(), 2);
    assert_eq!(r.get(&text("a")), Some(&CellValue::Integer(3)));
    assert_eq!(r.get(&text("b")), Some(&CellValue::Integer(2)));
    assert_eq!(r.get(&text("c")), None);
    assert!(r.contains_key(&text("b")));
    assert!(!r.contains_key(&text("c")));
    assert_eq!(
        r.entries(),
        &vec![(text("a"), CellValue::Integer(3)), (text("b"), CellValue::Integer(2))]
    );
    assert_eq!(r.clone(), r);
}

#[test]
fn records_are_equal_whatever_the_order_of_their_entries() {
    let ab = record(vec![("a", CellValue::Integer(1)), ("b", CellValue::String(text("x")))]);
    let ba = record(vec![("b", CellValue::String(text("x"))), ("a", CellValue::Integer(1))]);
    assert_eq!(ab, ba);
    assert_eq!(ba, ab);
    assert_ne!(ab, record(vec![("a", CellValue::Integer(1))]));
    assert_ne!(record(vec![("a", CellValue::Integer(1))]), ab);
    assert_ne!(ab, record(vec![("a", CellValue::Integer(2)), ("b", CellValue::String(text("x")))]));
    assert_ne!(ab, record(vec![("a", CellValue::Integer(1)), ("c", CellValue::String(text("x")))]));
    assert_eq!(Record::new(), Record::new());
}

#[test]
fn new_table_has_its_columns_and_no_records() {
    let table = people();
    assert_eq!(table.key(), "people");
    assert_eq!(table.columns().len(), 4);
    assert_eq!(table.columns()[1], column("name", DataType::String, ColumnConstraint::not_null()));
    assert!(table.records().is_empty());
    let bare = Table::new(text("bare"), None);
    assert!(bare.columns().is_empty());
}

#[test]
fn add_column_appends() {
    let mut table = Table::new(text("t"), None);
    let added = table.add_column(text("a"), DataType::Integer, ColumnConstraint::empty()).cloned();
    assert_eq!(added, Ok(column("a", DataType::Integer, ColumnConstraint::empty())));
    let added = table.add_column(text("b"), DataType::Float, ColumnConstraint::unique()).cloned();
    assert_eq!(added, Ok(column("b", DataType::Float, ColumnConstraint::unique())));
    assert_eq!(
        table.columns(),
        &vec![
            column("a", DataType::Integer, ColumnConstraint::empty()),
            column("b", DataType::Float, ColumnConstraint::unique()),
        ]
    );
}

#[test]
fn add_column_refuses_a_taken_name() {
    let mut table = people();
    let result = table.add_column(text("name"), DataType::Integer, ColumnConstraint::empty()).cloned();
    assert_eq!(
        result,
        Err(Error::ColumnAlreadyExists { key: text("name"), table_key: text("people") })
    );
    assert_eq!(table, people());
}

#[test]
fn second_primary_key_is_refused() {
    let mut table = Table::new(text("t"), None);
    assert!(table.add_column(text("a"), DataType::Integer, ColumnConstraint::primary_key()).is_ok());
    let second = table.add_column(text("b"), DataType::Integer, ColumnConstraint::primary_key()).cloned();
    assert_eq!(
        second,
        Err(Error::PrimaryColumnAlreadyExists { key: text("b"), table_key: text("t") })
    );
    let primaries = table.columns().iter().filter(|c| c.constraints.primary_key).count();
    assert_eq!(primaries, 1);
    assert_eq!(table.columns().len(), 1);
}

#[test]
fn taken_name_is_reported_before_second_primary_key() {
    let mut table = Table::new(text("t"), None);
    assert!(table.add_column(text("a"), DataType::Integer, ColumnConstraint::primary_key()).is_ok());
    let second = table.add_column(text("a"), DataType::Integer, ColumnConstraint::primary_key()).cloned();
    assert_eq!(second, Err(Error::ColumnAlreadyExists { key: text("a"), table_key: text("t") }));
}

#[test]
fn build_checks_the_columns() {
    let built = Table::build(
        text("t"),
        Some(vec![
            column("a", DataType::Integer, ColumnConstraint::primary_key()),
            column("b", DataType::String, ColumnConstraint::empty()),
        ]),
    );
    assert_eq!(built.map(|t| t.columns().len()), Ok(2));
    let twice = Table::build(
        text("t"),
        Some(vec![
            column("a", DataType::Integer, ColumnConstraint::empty()),
            column("b", DataType::String, ColumnConstraint::empty()),
            column("a", DataType::Float, ColumnConstraint::empty()),
        ]),
    );
    assert_eq!(twice, Err(Error::ColumnAlreadyExists { key: text("a"), table_key: text("t") }));
    let primaries = Table::build(
        text("t"),
        Some(vec![
            column("a", DataType::Integer, ColumnConstraint::primary_key()),
            column("b", DataType::Integer, ColumnConstraint::primary_key()),
        ]),
    );
    assert_eq!(
        primaries,
        Err(Error::PrimaryColumnAlreadyExists { key: text("b"), table_key: text("t") })
    );
    assert_eq!(Table::build(text("t"), None).map(|t| t.columns().len()), Ok(0));
}

#[test]
fn insert_appends_the_record() {
    let mut table = people();
    let first = record(vec![
        ("id", CellValue::Integer(1)),
        ("name", CellValue::String(text("Ann"))),
        ("height", CellValue::Float(float(1.7))),
    ]);
    let stored = table.add_record(first.clone()).cloned();
    assert_eq!(stored, Ok(first.clone()));
    let second = record(vec![("name", CellValue::String(text("Bob"))), ("id", CellValue::Integer(2))]);
    assert!(table.add_record(second.clone()).is_ok());
    assert_eq!(table.records(), &vec![first, second]);
}

#[test]
fn insert_with_mismatched_type_changes_nothing() {
    let mut table = people();
    let good = record(vec![("id", CellValue::Integer(1)), ("name", CellValue::String(text("Ann")))]);
    assert!(table.add_record(good.clone()).is_ok());
    let bad = record(vec![("id", CellValue::Float(float(2.0))), ("name", CellValue::String(text("Bob")))]);
    let result = table.add_record(bad).cloned();
    assert_eq!(
        result,
        Err(Error::DataTypeMismatch {
            column_key: text("id"),
            expected: text("Integer"),
            received: text("Float"),
        })
    );
    assert_eq!(table.records(), &vec![good]);
}

#[test]
fn insert_with_unknown_column_is_refused() {
    let mut table = people();
    let result = table
        .add_record(record(vec![
            ("id", CellValue::Integer(1)),
            ("name", CellValue::String(text("Ann"))),
            ("age", CellValue::Integer(30)),
        ]))
        .cloned();
    assert_eq!(result, Err(Error::BadColumnKey { key: text("age"), table_key: text("people") }));
    assert!(table.records().is_empty());
}

#[test]
fn first_offending_entry_decides_the_error() {
    let mut table = people();
    let result = table
        .add_record(record(vec![("zzz", CellValue::Integer(1)), ("id", CellValue::String(text("x")))]))
        .cloned();
    assert_eq!(result, Err(Error::BadColumnKey { key: text("zzz"), table_key: text("people") }));
    let result = table
        .add_record(record(vec![("id", CellValue::String(text("x"))), ("zzz", CellValue::Integer(1))]))
        .cloned();
    assert_eq!(
        result,
        Err(Error::DataTypeMismatch {
            column_key: text("id"),
            expected: text("Integer"),
            received: text("String"),
        })
    );
}

#[test]
fn missing_required_value_is_refused() {
    let mut table = people();
    let result = table.add_record(record(vec![("id", CellValue::Integer(1))])).cloned();
    assert_eq!(
        result,
        Err(Error::DataTypeMismatch {
            column_key: text("name"),
            expected: text("String"),
            received: text("Null"),
        })
    );
    let result = table.add_record(record(vec![("name", CellValue::String(text("Ann")))])).cloned();
    assert_eq!(
        result,
        Err(Error::DataTypeMismatch {
            column_key: text("id"),
            expected: text("Integer"),
            received: text("Null"),
        })
    );
    assert!(table.records().is_empty());
}

#[test]
fn repeated_unique_value_is_refused() {
    let mut table = people();
    let ann = record(vec![
        ("id", CellValue::Integer(1)),
        ("name", CellValue::String(text("Ann"))),
        ("email", CellValue::String(text("ann@example.org"))),
    ]);
    assert!(table.add_record(ann.clone()).is_ok());
    let same_id = record(vec![("id", CellValue::Integer(1)), ("name", CellValue::String(text("Bob")))]);
    assert_eq!(
        table.add_record(same_id).cloned(),
        Err(Error::RecordAlreadyExists { key: text("id"), table_key: text("people") })
    );
    let same_email = record(vec![
        ("id", CellValue::Integer(2)),
        ("name", CellValue::String(text("Bob"))),
        ("email", CellValue::String(text("ann@example.org"))),
    ]);
    assert_eq!(
        table.add_record(same_email).cloned(),
        Err(Error::RecordAlreadyExists { key: text("email"), table_key: text("people") })
    );
    assert_eq!(table.records(), &vec![ann]);
}

#[test]
fn absent_unique_values_do_not_repeat() {
    let mut table = people();
    let first = record(vec![("id", CellValue::Integer(1)), ("name", CellValue::String(text("Ann")))]);
    let second = record(vec![("id", CellValue::Integer(2)), ("name", CellValue::String(text("Ann")))]);
    assert!(table.add_record(first).is_ok());
    assert!(table.add_record(second).is_ok());
    assert_eq!(table.records().len(), 2);
}

#[test]
fn schemaless_table_takes_anything() {
    let mut table = Table::new(text("t"), None);
    let odd = record(vec![("whatever", CellValue::Float(float(0.5))), ("x", CellValue::Integer(1))]);
    assert_eq!(table.add_record(odd.clone()).cloned(), Ok(odd.clone()));
    assert_eq!(table.add_record(odd.clone()).cloned(), Ok(odd.clone()));
    assert_eq!(table.add_record(Record::new()).cloned(), Ok(Record::new()));
    assert_eq!(table.records().len(), 3);
}

#[test]
fn second_table_of_a_name_is_refused() {
    let mut db = Database::new();
    assert!(db.add_table(text("t"), Some(vec![column("a", DataType::Integer, ColumnConstraint::empty())])).is_ok());
    assert!(db.insert_into(&text("t"), record(vec![("a", CellValue::Integer(1))])).is_ok());
    let before = db.get_table(&text("t")).cloned_table();
    let again = db.add_table(text("t"), None).map(|_| ());
    assert_eq!(again, Err(Error::TableAlreadyExists { key: text("t") }));
    assert_eq!(db.len(), 1);
    assert_eq!(db.get_table(&text("t")).cloned_table(), before);
    assert_eq!(before.1, vec![record(vec![("a", CellValue::Integer(1))])]);
}

trait ClonedTable {
    fn cloned_table(self) -> (Vec<Column>, Vec<Record>);
}

impl ClonedTable for Result<&Table, Error> {
    fn cloned_table(self) -> (Vec<Column>, Vec<Record>) {
        let table = self.unwrap();
        (table.columns().clone(), table.records().clone())
    }
}

#[test]
fn missing_table_is_reported() {
    let mut db = Database::new();
    assert_eq!(db.get_table(&text("t")).map(|_| ()), Err(Error::BadTableKey { key: text("t") }));
    assert_eq!(
        db.insert_into(&text("t"), Record::new()),
        Err(Error::BadTableKey { key: text("t") })
    );
    assert_eq!(db.len(), 0);
}

#[test]
fn add_table_checks_the_columns() {
    let mut db = Database::new();
    let result = db
        .add_table(
            text("t"),
            Some(vec![
                column("a", DataType::Integer, ColumnConstraint::empty()),
                column("a", DataType::Integer, ColumnConstraint::empty()),
            ]),
        )
        .map(|_| ());
    assert_eq!(result, Err(Error::ColumnAlreadyExists { key: text("a"), table_key: text("t") }));
    assert_eq!(db.len(), 0);
}

#[test]
fn columns_are_added_to_a_table_of_the_database() {
    let mut db = Database::new();
    assert!(db.add_table(text("t"), None).is_ok());
    assert_eq!(
        db.add_column(&text("t"), text("a"), DataType::Integer, ColumnConstraint::primary_key()),
        Ok(())
    );
    assert_eq!(
        db.add_column(&text("t"), text("a"), DataType::Float, ColumnConstraint::empty()),
        Err(Error::ColumnAlreadyExists { key: text("a"), table_key: text("t") })
    );
    assert_eq!(
        db.add_column(&text("t"), text("b"), DataType::Float, ColumnConstraint::primary_key()),
        Err(Error::PrimaryColumnAlreadyExists { key: text("b"), table_key: text("t") })
    );
    assert_eq!(
        db.add_column(&text("u"), text("a"), DataType::Float, ColumnConstraint::empty()),
        Err(Error::BadTableKey { key: text("u") })
    );
    assert_eq!(
        db.get_table(&text("t")).unwrap().columns(),
        &vec![column("a", DataType::Integer, ColumnConstraint::primary_key())]
    );
    assert_eq!(
        db.insert_into(&text("t"), record(vec![("a", CellValue::String(text("x")))])),
        Err(Error::DataTypeMismatch {
            column_key: text("a"),
            expected: text("Integer"),
            received: text("String"),
        })
    );
}

#[test]
fn process_stops_at_the_first_failure_and_keeps_what_was_done() {
    let mut db = Database::new();
    let r1 = DatabaseRequest::CreateTable {
        key: text("t"),
        columns: Some(vec![column("a", DataType::Integer, ColumnConstraint::empty())]),
    };
    let r2 = DatabaseRequest::InsertInto {
        key: text("t"),
        data: record(vec![("a", CellValue::String(text("no")))]),
    };
    let r3 = DatabaseRequest::CreateTable { key: text("u"), columns: None };
    let result = db.process_requests(vec![r1, r2, r3]);
    assert_eq!(
        result,
        Err(Error::DataTypeMismatch {
            column_key: text("a"),
            expected: text("Integer"),
            received: text("String"),
        })
    );
    assert_eq!(db.len(), 1);
    assert!(db.get_table(&text("t")).is_ok());
    assert!(db.get_table(&text("t")).unwrap().records().is_empty());
    assert_eq!(db.get_table(&text("u")).map(|_| ()), Err(Error::BadTableKey { key: text("u") }));
}

#[test]
fn process_applies_all_requests_in_order() {
    let mut db = Database::new();
    let requests = vec![
        DatabaseRequest::CreateTable { key: text("t"), columns: None },
        DatabaseRequest::InsertInto { key: text("t"), data: record(vec![("a", CellValue::Integer(1))]) },
        DatabaseRequest::InsertInto { key: text("t"), data: record(vec![("b", CellValue::Integer(2))]) },
    ];
    assert_eq!(db.process_requests(requests), Ok(()));
    assert_eq!(
        db.get_table(&text("t")).unwrap().records(),
        &vec![record(vec![("a", CellValue::Integer(1))]), record(vec![("b", CellValue::Integer(2))])]
    );
    assert_eq!(db.process_requests(Vec::new()), Ok(()));
}

#[test]
fn apply_carries_out_one_request() {
    let mut db = Database::new();
    assert_eq!(db.apply(DatabaseRequest::CreateTable { key: text("t"), columns: None }), Ok(()));
    assert_eq!(
        db.apply(DatabaseRequest::CreateTable { key: text("t"), columns: None }),
        Err(Error::TableAlreadyExists { key: text("t") })
    );
    assert_eq!(
        db.apply(DatabaseRequest::InsertInto { key: text("u"), data: Record::new() }),
        Err(Error::BadTableKey { key: text("u") })
    );
}

#[test]
fn error_messages() {
    assert_eq!(Error::BadSql { error: text("oops") }.to_string(), "oops");
    assert_eq!(Error::BadTableKey { key: text("t") }.to_string(), "table with key `t` not found");
    assert_eq!(
        Error::BadRecordKey { key: text("r"), table_key: text("t") }.to_string(),
        "record with key `r` not found in table `t`"
    );
    assert_eq!(
        Error::BadColumnKey { key: text("c"), table_key: text("t") }.to_string(),
        "column with key `c` not found in table `t`"
    );
    assert_eq!(
        Error::DataTypeMismatch {
            column_key: text("c"),
            expected: text("Integer"),
            received: text("Float"),
        }
        .to_string(),
        "column `c` with type `Integer` cannot accept values of type `Float`"
    );
    assert_eq!(Error::NotImplemented.to_string(), "feature not implemented");
    assert_eq!(
        Error::TableAlreadyExists { key: text("t") }.to_string(),
        "table with key `t` already exists"
    );
    assert_eq!(
        Error::RecordAlreadyExists { key: text("r"), table_key: text("t") }.to_string(),
        "record with key `r` already exists in table `t`"
    );
    assert_eq!(
        Error::ColumnAlreadyExists { key: text("c"), table_key: text("t") }.to_string(),
        "column with key `c` already exists on table `t`"
    );
    assert_eq!(
        Error::PrimaryColumnAlreadyExists { key: text("c"), table_key: text("t") }.to_string(),
        "cannot add primary column `c` to table `t` as it already has a primary column"
    );
    assert_eq!(Error::Placeholder { text: text("later") }.to_string(), "later");
    assert_eq!(Error::NotImplemented.clone(), Error::NotImplemented);
}
