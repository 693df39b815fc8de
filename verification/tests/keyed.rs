use table_store::keyed::{integer_to_string, BadKeyError, ColumnValue, Database, Key, Record, Table};

fn k(x: &str) -> Key {
    Key::String(x.to_string())
}

fn person(name: &str) -> Record {
    let mut record = Record::new();
    record.set_column_value(k("name"), ColumnValue::String(name.to_string()));
    record
}

fn named(name: &str) -> Result<Vec<(Key, ColumnValue)>, BadKeyError> {
    Ok(vec![(k("name"), ColumnValue::String(name.to_string()))])
}

fn values(found: Result<&Record, BadKeyError>) -> Result<Vec<(Key, ColumnValue)>, BadKeyError> {
    found.map(|record| record.get_all_values().clone())
}

#[test]
fn keys_are_shown_as_text() {
    assert_eq!(Key::Integer(42).to_string(), "42");
    assert_eq!(Key::Integer(-7).to_string(), "-7");
    assert_eq!(Key::Integer(0).to_string(), "0");
    assert_eq!(Key::Integer(i64::MIN).to_string(), "-9223372036854775808");
    assert_eq!(Key::Integer(i64::MAX).to_string(), "9223372036854775807");
    assert_eq!(k("people").to_string(), "people");
    assert_eq!(
        Key::Uuid(0xa1a2a3a4b1b2c1c2d1d2d3d4d5d6d7d8).to_string(),
        "a1a2a3a4-b1b2-c1c2-d1d2-d3d4d5d6d7d8"
    );
    assert_eq!(Key::Uuid(0).to_string(), "00000000-0000-0000-0000-000000000000");
    assert_eq!(Key::Uuid(0x1f).to_string(), "00000000-0000-0000-0000-00000000001f");
    assert_eq!(Key::Uuid(u128::MAX).to_string(), "ffffffff-ffff-ffff-ffff-ffffffffffff");
}

#[test]
fn integers_are_written_in_decimal() {
    for value in [0, 1, 9, 10, 11, 99, 100, 12345, -1, -10, -12345, i64::MAX, i64::MIN, i64::MIN + 1] {
        assert_eq!(integer_to_string(value), value.to_string());
    }
}

#[test]
fn keys_compare_by_variant_and_payload() {
    assert!(Key::Integer(1).same_as(&Key::Integer(1)));
    assert!(!Key::Integer(1).same_as(&Key::Integer(2)));
    assert!(!Key::Integer(1).same_as(&Key::Uuid(1)));
    assert!(!Key::Integer(1).same_as(&k("1")));
    assert!(k("a").same_as(&k("a")));
    assert!(Key::Uuid(5).same_as(&Key::Uuid(5)));
    assert_eq!(Key::Uuid(5).clone(), Key::Uuid(5));
    assert_eq!(
        ColumnValue::ForeignKey("x".to_string()).clone(),
        ColumnValue::ForeignKey("x".to_string())
    );
}

#[test]
fn record_columns_are_set_and_replaced() {
    let mut record = Record::new();
    record.set_column_value(k("a"), ColumnValue::Integer(1));
    record.set_column_value(Key::Integer(7), ColumnValue::ForeignKey("f".to_string()));
    record.set_column_value(k("a"), ColumnValue::Integer(2));
    assert_eq!(
        record.get_all_values(),
        &vec![
            (k("a"), ColumnValue::Integer(2)),
            (Key::Integer(7), ColumnValue::ForeignKey("f".to_string())),
        ]
    );
}

#[test]
fn set_data_sets_strings_under_string_keys() {
    let mut record = Record::new();
    record.set_column_value(k("b"), ColumnValue::Integer(0));
    record.set_data(vec![
        ("a".to_string(), "1".to_string()),
        ("b".to_string(), "2".to_string()),
        ("a".to_string(), "3".to_string()),
    ]);
    assert_eq!(
        record.get_all_values(),
        &vec![
            (k("b"), ColumnValue::String("2".to_string())),
            (k("a"), ColumnValue::String("3".to_string())),
        ]
    );
}

#[test]
fn table_upserts_and_finds_records() {
    let mut table = Table::new(k("people"));
    assert_eq!(table.upsert_record(Key::Integer(1), person("Ann")), Ok(()));
    assert_eq!(table.upsert_record(Key::Integer(2), person("Bob")), Ok(()));
    assert_eq!(values(table.get_record(&Key::Integer(1))), named("Ann"));
    assert_eq!(table.upsert_record(Key::Integer(1), person("Cid")), Ok(()));
    assert_eq!(values(table.get_record(&Key::Integer(1))), named("Cid"));
    assert_eq!(values(table.get_record(&Key::Integer(2))), named("Bob"));
    assert_eq!(
        values(table.get_record(&Key::Integer(3))),
        Err(BadKeyError::Record { key: Key::Integer(3), table_key: k("people") })
    );
}

#[test]
fn store_sets_and_gets_by_two_keys() {
    let mut db = Database::new();
    assert_eq!(
        values(db.get(&k("people"), &Key::Integer(1))),
        Err(BadKeyError::Table { key: k("people") })
    );
    db.set(k("people"), Key::Integer(1), person("Ann"));
    db.set(k("pets"), Key::Integer(1), person("Rex"));
    db.set(k("people"), Key::Integer(2), person("Bob"));
    assert_eq!(values(db.get(&k("people"), &Key::Integer(1))), named("Ann"));
    assert_eq!(values(db.get(&k("people"), &Key::Integer(2))), named("Bob"));
    assert_eq!(values(db.get(&k("pets"), &Key::Integer(1))), named("Rex"));
    db.set(k("people"), Key::Integer(1), person("Cid"));
    assert_eq!(values(db.get(&k("people"), &Key::Integer(1))), named("Cid"));
    assert_eq!(
        values(db.get(&k("people"), &Key::Integer(3))),
        Err(BadKeyError::Record { key: Key::Integer(3), table_key: k("people") })
    );
    assert_eq!(
        values(db.get(&k("plants"), &Key::Integer(1))),
        Err(BadKeyError::Table { key: k("plants") })
    );
    let fresh = Database::default();
    assert_eq!(
        values(fresh.get(&k("people"), &Key::Integer(1))),
        Err(BadKeyError::Table { key: k("people") })
    );
}

#[test]
fn key_errors_are_described() {
    assert_eq!(
        BadKeyError::Table { key: k("people") }.to_string(),
        "table with key `people` not found"
    );
    assert_eq!(
        BadKeyError::Record { key: Key::Integer(3), table_key: k("people") }.to_string(),
        "record with key `3` not found in table `people`"
    );
    assert_eq!(
        BadKeyError::Column { key: Key::Uuid(1), table_key: Key::Integer(-2) }.to_string(),
        "column with key `00000000-0000-0000-0000-000000000001` not found in table `-2`"
    );
}
