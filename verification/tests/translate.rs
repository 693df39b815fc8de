use table_store::cell::{CellValue, DataType, Float64};
use table_store::column::Column;
use table_store::constraint::ColumnConstraint;
use table_store::database::Database;
use table_store::error::Error;
use sqlparser::dialect::PostgreSqlDialect;
use sqlparser::parser::Parser;
use table_store::grammar::{lower_parsed, lower_statement, lower_statements};
use table_store::interpreter::{
    float_literals, interpret_create_table_statement, interpret_expr, interpret_insert_statement,
    interpret_query_statement, interpret_sql_statement, interpret_statements,
};
use table_store::literal::{has_decimal_point, parse_integer, FloatReadings};
use table_store::record::Record;
use table_store::request::DatabaseRequest;
use table_store::statement::{ColumnDefinition, InsertSource, SqlExpr, SqlStatement, SqlType};

fn s(x: &str) -> String {
    x.to_string()
}

fn parse_sql_statements(query: &str) -> Result<Vec<SqlStatement>, Error> {
    lower_parsed(Parser::parse_sql(&PostgreSqlDialect {}, query))
}

fn parse_sql_query(query: String, readings: &FloatReadings) -> Result<Vec<DatabaseRequest>, Error> {
    let statements = parse_sql_statements(&query)?;
    interpret_statements(statements, readings)
}

fn fl(x: f64) -> Float64 {
    Float64::from_bits(x.to_bits())
}

fn rec(entries: Vec<(&str, CellValue)>) -> Record {
    let mut record = Record::new();
    for (key, value) in entries {
        record.insert(s(key), value);
    }
    record
}

fn none() -> FloatReadings {
    FloatReadings::new()
}

fn read(texts: &[&str]) -> FloatReadings {
    let mut readings = FloatReadings::new();
    for t in texts {
        readings.insert(s(t), fl(t.parse::<f64>().unwrap()));
    }
    readings
}

fn def(name: &str, data_type: SqlType) -> ColumnDefinition {
    ColumnDefinition { name: s(name), data_type }
}

#[test]
fn create_table_is_translated() {
    let requests = parse_sql_query(s("CREATE TABLE t (a INT, b TEXT)"), &none());
    assert_eq!(
        requests,
        Ok(vec![DatabaseRequest::CreateTable {
            key: s("t"),
            columns: Some(vec![
                Column::new(s("a"), DataType::Integer, ColumnConstraint::empty()),
                Column::new(s("b"), DataType::String, ColumnConstraint::empty()),
            ]),
        }])
    );
}

#[test]
fn insert_is_translated() {
    let requests = parse_sql_query(s("INSERT INTO t (a, b) VALUES (-3, 'x')"), &none());
    assert_eq!(
        requests,
        Ok(vec![DatabaseRequest::InsertInto {
            key: s("t"),
            data: rec(vec![("a", CellValue::Integer(-3)), ("b", CellValue::String(s("x")))]),
        }])
    );
}

#[test]
fn create_table_without_columns_is_schemaless() {
    let requests = parse_sql_query(s("CREATE TABLE t ()"), &none()).unwrap();
    assert_eq!(requests, vec![DatabaseRequest::CreateTable { key: s("t"), columns: None }]);
    let mut db = Database::new();
    assert_eq!(db.process_requests(requests), Ok(()));
    let inserts = parse_sql_query(
        s("INSERT INTO t (anything, goes) VALUES (1, 'here'); INSERT INTO t (x) VALUES ('y')"),
        &none(),
    )
    .unwrap();
    assert_eq!(db.process_requests(inserts), Ok(()));
    assert_eq!(
        db.get_table(&s("t")).unwrap().records(),
        &vec![
            rec(vec![("anything", CellValue::Integer(1)), ("goes", CellValue::String(s("here")))]),
            rec(vec![("x", CellValue::String(s("y")))]),
        ]
    );
}

#[test]
fn statements_are_parsed_into_the_model() {
    let parsed = parse_sql_statements(
        "CREATE TABLE s.t (a INT NOT NULL, b TEXT PRIMARY KEY, c FLOAT UNIQUE, d BOOLEAN DEFAULT true)",
    );
    assert_eq!(
        parsed,
        Ok(vec![SqlStatement::CreateTable {
            name: vec![s("s"), s("t")],
            columns: vec![
                def("a", SqlType::Int),
                def("b", SqlType::Text),
                def("c", SqlType::Float),
                def("d", SqlType::Other),
            ],
        }])
    );
    let parsed = parse_sql_statements(
        "INSERT INTO t (a, b, c, d) VALUES (1, -2.5, 'x', NULL), (4, 5, 6, 7); SELECT * FROM t; \
         INSERT INTO t SELECT * FROM u; INSERT INTO t DEFAULT VALUES",
    );
    assert_eq!(
        parsed,
        Ok(vec![
            SqlStatement::Insert {
                table_name: vec![s("t")],
                columns: vec![s("a"), s("b"), s("c"), s("d")],
                source: InsertSource::Values(vec![
                    vec![
                        SqlExpr::Number(s("1")),
                        SqlExpr::NegatedNumber(s("2.5")),
                        SqlExpr::SingleQuotedString(s("x")),
                        SqlExpr::Other,
                    ],
                    vec![
                        SqlExpr::Number(s("4")),
                        SqlExpr::Number(s("5")),
                        SqlExpr::Number(s("6")),
                        SqlExpr::Number(s("7")),
                    ],
                ]),
            },
            SqlStatement::Query,
            SqlStatement::Insert { table_name: vec![s("t")], columns: vec![], source: InsertSource::Other },
            SqlStatement::Insert { table_name: vec![s("t")], columns: vec![], source: InsertSource::Absent },
        ])
    );
    assert_eq!(parse_sql_statements(""), Ok(vec![]));
}

#[test]
fn bad_sql_carries_the_parser_message() {
    let result = parse_sql_query(s("SELEC 1"), &none());
    assert_eq!(
        result,
        Err(Error::BadSql {
            error: s("sql parser error: Expected an SQL statement, found: SELEC at Line: 1, Column 1"),
        })
    );
    assert_eq!(
        result.unwrap_err().to_string(),
        "sql parser error: Expected an SQL statement, found: SELEC at Line: 1, Column 1"
    );
    let result = parse_sql_statements("INSERT INTO t (a) VALUES ('unterminated");
    assert_eq!(
        result,
        Err(Error::BadSql {
            error: s("sql parser error: Unterminated string literal at Line: 1, Column 27"),
        })
    );
}

#[test]
fn each_statement_is_lowered_by_itself() {
    let parsed = Parser::parse_sql(
        &PostgreSqlDialect {},
        "CREATE TABLE t (a INT); INSERT INTO t (a) VALUES (1); SELECT 1; DROP TABLE t",
    )
    .unwrap();
    let lowered = lower_statements(&parsed);
    assert_eq!(lowered.len(), 4);
    for (statement, copy) in parsed.iter().zip(lowered.iter()) {
        assert_eq!(&lower_statement(statement), copy);
    }
    assert_eq!(lowered[2], SqlStatement::Query);
    assert_eq!(lowered[3], SqlStatement::Other);
    assert_eq!(lower_statements(&Vec::new()), Vec::new());
}

#[test]
fn column_constraint_clauses_are_dropped() {
    let requests = parse_sql_query(
        s("CREATE TABLE t (a INT PRIMARY KEY, b TEXT NOT NULL UNIQUE, c FLOAT DEFAULT 1.5)"),
        &none(),
    );
    assert_eq!(
        requests,
        Ok(vec![DatabaseRequest::CreateTable {
            key: s("t"),
            columns: Some(vec![
                Column::new(s("a"), DataType::Integer, ColumnConstraint::empty()),
                Column::new(s("b"), DataType::String, ColumnConstraint::empty()),
                Column::new(s("c"), DataType::Float, ColumnConstraint::empty()),
            ]),
        }])
    );
    let mut db = Database::new();
    assert_eq!(db.process_requests(requests.unwrap()), Ok(()));
    let twice = parse_sql_query(
        s("INSERT INTO t (a, b) VALUES (1, 'x'); INSERT INTO t (a, b) VALUES (1, 'x'); \
           INSERT INTO t (c) VALUES (2.5)"),
        &read(&["2.5"]),
    )
    .unwrap();
    assert_eq!(db.process_requests(twice), Ok(()));
    assert_eq!(db.get_table(&s("t")).unwrap().records().len(), 3);
}

#[test]
fn table_is_named_by_the_first_segment() {
    let requests = parse_sql_query(s("CREATE TABLE s.t (a INT); INSERT INTO s.t (a) VALUES (1)"), &none());
    assert_eq!(
        requests,
        Ok(vec![
            DatabaseRequest::CreateTable {
                key: s("s"),
                columns: Some(vec![Column::new(s("a"), DataType::Integer, ColumnConstraint::empty())]),
            },
            DatabaseRequest::InsertInto { key: s("s"), data: rec(vec![("a", CellValue::Integer(1))]) },
        ])
    );
    assert_eq!(
        interpret_create_table_statement(vec![], vec![def("a", SqlType::Int)]),
        Err(Error::NotImplemented)
    );
    assert_eq!(
        interpret_insert_statement(vec![], vec![], InsertSource::Values(vec![vec![]]), &none()),
        Err(Error::NotImplemented)
    );
}

#[test]
fn other_declared_types_are_not_implemented() {
    assert_eq!(
        parse_sql_query(s("CREATE TABLE t (a INT, b BOOLEAN)"), &none()),
        Err(Error::NotImplemented)
    );
    assert_eq!(
        parse_sql_query(s("CREATE TABLE t (a INTEGER)"), &none()),
        Err(Error::NotImplemented)
    );
    assert_eq!(
        interpret_create_table_statement(vec![s("t")], vec![def("a", SqlType::Other)]),
        Err(Error::NotImplemented)
    );
}

#[test]
fn create_table_from_the_model() {
    assert_eq!(
        interpret_create_table_statement(vec![s("t")], vec![]),
        Ok(DatabaseRequest::CreateTable { key: s("t"), columns: None })
    );
    assert_eq!(
        interpret_create_table_statement(
            vec![s("t"), s("ignored")],
            vec![
                def("a", SqlType::Text),
                def("b", SqlType::Float),
                def("c", SqlType::Int),
            ]
        ),
        Ok(DatabaseRequest::CreateTable {
            key: s("t"),
            columns: Some(vec![
                Column::new(s("a"), DataType::String, ColumnConstraint::empty()),
                Column::new(s("b"), DataType::Float, ColumnConstraint::empty()),
                Column::new(s("c"), DataType::Integer, ColumnConstraint::empty()),
            ]),
        })
    );
}

#[test]
fn only_the_first_row_is_translated() {
    let requests = parse_sql_query(s("INSERT INTO t (a) VALUES (1), (2), (3)"), &none());
    assert_eq!(
        requests,
        Ok(vec![DatabaseRequest::InsertInto { key: s("t"), data: rec(vec![("a", CellValue::Integer(1))]) }])
    );
}

#[test]
fn untranslatable_inserts_are_not_implemented() {
    for query in [
        "INSERT INTO t SELECT * FROM u",
        "INSERT INTO t DEFAULT VALUES",
        "INSERT INTO t (a, b) VALUES (1)",
        "INSERT INTO t (a) VALUES (1, 2)",
        "INSERT INTO t (a) VALUES (NULL)",
        "INSERT INTO t (a) VALUES (true)",
        "INSERT INTO t (a) VALUES (1 + 2)",
        "INSERT INTO t (a) VALUES (-(3))",
        "INSERT INTO t (a) VALUES (+3)",
        "INSERT INTO t (a) VALUES (-'x')",
        "INSERT INTO t (a, b) VALUES (1, b)",
        "INSERT INTO t (a) VALUES (1e5)",
        "INSERT INTO t (a) VALUES (9223372036854775808)",
        "INSERT INTO t (a) VALUES (1.5)",
    ] {
        assert_eq!(parse_sql_query(s(query), &none()), Err(Error::NotImplemented), "{}", query);
    }
}

#[test]
fn other_statements_are_not_implemented() {
    for query in ["SELECT * FROM t", "UPDATE t SET a = 1", "DROP TABLE t", "DELETE FROM t"] {
        assert_eq!(parse_sql_query(s(query), &none()), Err(Error::NotImplemented), "{}", query);
    }
    assert_eq!(interpret_query_statement(), Err(Error::NotImplemented));
    assert_eq!(interpret_sql_statement(SqlStatement::Query, &none()), Err(Error::NotImplemented));
    assert_eq!(interpret_sql_statement(SqlStatement::Other, &none()), Err(Error::NotImplemented));
}

#[test]
fn the_first_untranslatable_statement_ends_translation() {
    let result = parse_sql_query(
        s("CREATE TABLE t (a INT); SELECT * FROM t; INSERT INTO t (a) VALUES (1)"),
        &none(),
    );
    assert_eq!(result, Err(Error::NotImplemented));
    let result = interpret_statements(
        vec![
            SqlStatement::CreateTable { name: vec![s("t")], columns: vec![] },
            SqlStatement::CreateTable { name: vec![s("u")], columns: vec![] },
        ],
        &none(),
    );
    assert_eq!(
        result,
        Ok(vec![
            DatabaseRequest::CreateTable { key: s("t"), columns: None },
            DatabaseRequest::CreateTable { key: s("u"), columns: None },
        ])
    );
    assert_eq!(interpret_statements(vec![], &none()), Ok(vec![]));
}

#[test]
fn integers_are_read_in_full_range() {
    let requests = parse_sql_query(
        s("INSERT INTO t (a, b, c, d) VALUES (9223372036854775807, -9223372036854775808, 0, -0)"),
        &none(),
    );
    assert_eq!(
        requests,
        Ok(vec![DatabaseRequest::InsertInto {
            key: s("t"),
            data: rec(vec![
                ("a", CellValue::Integer(i64::MAX)),
                ("b", CellValue::Integer(i64::MIN)),
                ("c", CellValue::Integer(0)),
                ("d", CellValue::Integer(0)),
            ]),
        }])
    );
    assert_eq!(
        parse_sql_query(s("INSERT INTO t (a) VALUES (-9223372036854775809)"), &none()),
        Err(Error::NotImplemented)
    );
}

#[test]
fn parse_integer_follows_decimal_notation() {
    assert_eq!(parse_integer("0"), Some(0));
    assert_eq!(parse_integer("42"), Some(42));
    assert_eq!(parse_integer("-42"), Some(-42));
    assert_eq!(parse_integer("+42"), Some(42));
    assert_eq!(parse_integer("007"), Some(7));
    assert_eq!(parse_integer("9223372036854775807"), Some(i64::MAX));
    assert_eq!(parse_integer("9223372036854775808"), None);
    assert_eq!(parse_integer("-9223372036854775808"), Some(i64::MIN));
    assert_eq!(parse_integer("-9223372036854775809"), None);
    assert_eq!(parse_integer("99999999999999999999999999"), None);
    assert_eq!(parse_integer(""), None);
    assert_eq!(parse_integer("-"), None);
    assert_eq!(parse_integer("+"), None);
    assert_eq!(parse_integer("--1"), None);
    assert_eq!(parse_integer("1.5"), None);
    assert_eq!(parse_integer("12a"), None);
    assert_eq!(parse_integer(" 1"), None);
    assert_eq!(parse_integer("1e5"), None);
    for text in ["0", "42", "-42", "+42", "007", "9223372036854775808", "", "-", "1.5", " 1", "٣"] {
        assert_eq!(parse_integer(text), text.parse::<i64>().ok(), "{}", text);
    }
}

#[test]
fn decimal_point_classifies_floats() {
    assert!(has_decimal_point("1.5"));
    assert!(has_decimal_point("."));
    assert!(has_decimal_point("10."));
    assert!(!has_decimal_point("15"));
    assert!(!has_decimal_point(""));
    assert!(!has_decimal_point("1e5"));
}

#[test]
fn floats_are_read_from_the_readings() {
    let readings = read(&["1.5", "2.5", ".5", "1."]);
    let requests = parse_sql_query(
        s("INSERT INTO t (a, b, c, d, e) VALUES (1.5, -2.5, .5, 1., - 1.5)"),
        &readings,
    );
    assert_eq!(
        requests,
        Ok(vec![DatabaseRequest::InsertInto {
            key: s("t"),
            data: rec(vec![
                ("a", CellValue::Float(fl(1.5))),
                ("b", CellValue::Float(fl(-2.5))),
                ("c", CellValue::Float(fl(0.5))),
                ("d", CellValue::Float(fl(1.0))),
                ("e", CellValue::Float(fl(-1.5))),
            ]),
        }])
    );
    assert_eq!(
        interpret_expr(&SqlExpr::NegatedNumber(s("0.0")), &read(&["0.0"])),
        Some(CellValue::Float(fl(-0.0)))
    );
    assert_eq!(interpret_expr(&SqlExpr::Number(s("2.5")), &read(&["1.5"])), None);
}

#[test]
fn readings_keep_the_first_value_of_a_text() {
    let mut readings = FloatReadings::new();
    assert_eq!(readings.get(&s("1.5")), None);
    readings.insert(s("1.5"), fl(1.5));
    readings.insert(s("2.5"), fl(2.5));
    readings.insert(s("1.5"), fl(9.0));
    assert_eq!(readings.len(), 3);
    assert_eq!(readings.get(&s("1.5")), Some(fl(1.5)));
    assert_eq!(readings.get(&s("2.5")), Some(fl(2.5)));
    assert_eq!(readings.get(&s("3.5")), None);
}

#[test]
fn float_literals_lists_what_has_to_be_read() {
    let statements = parse_sql_statements(
        "CREATE TABLE t (a FLOAT DEFAULT 9.5); \
         INSERT INTO t (a, b, c, d) VALUES (1.5, 2, -3.25, 'x.y'), (7.5, 8.5, 9.5, 10.5); \
         INSERT INTO t (a) VALUES (1.5)",
    )
    .unwrap();
    assert_eq!(float_literals(&statements), vec![s("1.5"), s("3.25"), s("1.5")]);
    let readings = read(&["1.5", "3.25"]);
    let requests = interpret_statements(statements, &readings).unwrap();
    assert_eq!(requests.len(), 3);
    assert_eq!(
        requests[1],
        DatabaseRequest::InsertInto {
            key: s("t"),
            data: rec(vec![
                ("a", CellValue::Float(fl(1.5))),
                ("b", CellValue::Integer(2)),
                ("c", CellValue::Float(fl(-3.25))),
                ("d", CellValue::String(s("x.y"))),
            ]),
        }
    );
    assert_eq!(float_literals(&vec![]), Vec::<String>::new());
}

#[test]
fn a_repeated_column_name_keeps_the_last_value() {
    let requests = parse_sql_query(s("INSERT INTO t (a, b, a) VALUES (1, 2, 3)"), &none());
    assert_eq!(
        requests,
        Ok(vec![DatabaseRequest::InsertInto {
            key: s("t"),
            data: rec(vec![("a", CellValue::Integer(3)), ("b", CellValue::Integer(2))]),
        }])
    );
}

#[test]
fn quoted_text_is_taken_as_it_is() {
    let requests = parse_sql_query(s("INSERT INTO t (a, b) VALUES ('it''s', '')"), &none());
    assert_eq!(
        requests,
        Ok(vec![DatabaseRequest::InsertInto {
            key: s("t"),
            data: rec(vec![("a", CellValue::String(s("it's"))), ("b", CellValue::String(s("")))]),
        }])
    );
}

#[test]
fn sql_runs_against_the_database() {
    let mut db = Database::new();
    let create = DatabaseRequest::CreateTable {
        key: s("people"),
        columns: Some(vec![
            Column::new(s("id"), DataType::Integer, ColumnConstraint::primary_key()),
            Column::new(s("name"), DataType::String, ColumnConstraint::not_null()),
            Column::new(s("height"), DataType::Float, ColumnConstraint::empty()),
        ]),
    };
    assert_eq!(db.process_requests(vec![create]), Ok(()));
    let setup = parse_sql_query(
        s("INSERT INTO people (id, name, height) VALUES (1, 'Ann', 1.7)"),
        &read(&["1.7"]),
    )
    .unwrap();
    assert_eq!(db.process_requests(setup), Ok(()));
    let repeat = parse_sql_query(s("INSERT INTO people (id, name) VALUES (1, 'Bob')"), &none()).unwrap();
    assert_eq!(
        db.process_requests(repeat),
        Err(Error::RecordAlreadyExists { key: s("id"), table_key: s("people") })
    );
    let nameless = parse_sql_query(s("INSERT INTO people (id) VALUES (2)"), &none()).unwrap();
    assert_eq!(
        db.process_requests(nameless),
        Err(Error::DataTypeMismatch { column_key: s("name"), expected: s("String"), received: s("Null") })
    );
    let wrong = parse_sql_query(s("INSERT INTO people (id, name) VALUES ('2', 'Bob')"), &none()).unwrap();
    assert_eq!(
        db.process_requests(wrong),
        Err(Error::DataTypeMismatch { column_key: s("id"), expected: s("Integer"), received: s("String") })
    );
    let twice = parse_sql_query(s("CREATE TABLE people (id INT)"), &none()).unwrap();
    assert_eq!(db.process_requests(twice), Err(Error::TableAlreadyExists { key: s("people") }));
    let primaries = DatabaseRequest::CreateTable {
        key: s("q"),
        columns: Some(vec![
            Column::new(s("a"), DataType::Integer, ColumnConstraint::primary_key()),
            Column::new(s("b"), DataType::Integer, ColumnConstraint::primary_key()),
        ]),
    };
    assert_eq!(
        db.process_requests(vec![primaries]),
        Err(Error::PrimaryColumnAlreadyExists { key: s("b"), table_key: s("q") })
    );
    let repeated = parse_sql_query(s("CREATE TABLE q (a INT, a TEXT)"), &none()).unwrap();
    assert_eq!(
        db.process_requests(repeated),
        Err(Error::ColumnAlreadyExists { key: s("a"), table_key: s("q") })
    );
    assert_eq!(
        db.get_table(&s("people")).unwrap().records(),
        &vec![rec(vec![
            ("id", CellValue::Integer(1)),
            ("name", CellValue::String(s("Ann"))),
            ("height", CellValue::Float(fl(1.7))),
        ])]
    );
}
