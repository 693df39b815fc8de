//! Translation of parsed statements into requests.
//!
//! Each statement is translated by itself into at most one request. Only
//! `CREATE TABLE` and `INSERT` with a `VALUES` list are translated; every other
//! statement, and every shape of these two that translation does not read, is
//! answered with [`Error::NotImplemented`].

use crate::cell::{CellValue, CellView, DataType};
use crate::column::{Column, ColumnView};
use crate::constraint::ColumnConstraint;
use crate::error::{Error, ErrorView};
use crate::literal::{
    has_decimal_point, integer_reading, parse_integer, reading, FloatReadings, ReadingsView,
};
use crate::assoc::put;
use crate::record::{Record, RecordView};
use crate::request::{DatabaseRequest, RequestView};
use crate::statement::{
    ColumnDefinition, ColumnDefinitionView, InsertSource, InsertSourceView, SqlExpr, SqlExprView,
    SqlStatement, SqlType, StatementView,
};
use crate::views::{lemma_deep_view_empty, lemma_deep_view_push};
use vstd::prelude::*;
use vstd::string::StringExecFns;

verus! {

/// The result of a translation, by the views of what it holds.
pub open spec fn outcome<T: View, E: View>(r: Result<T, E>) -> Result<T::V, E::V> {
    match r {
        Ok(value) => Ok(value@),
        Err(error) => Err(error@),
    }
}

/// The column type for a declared type: text is `String`, int is `Integer`,
/// float is `Float`, and no other declared type has one.
pub open spec fn declared_type(data_type: SqlType) -> Option<DataType> {
    match data_type {
        SqlType::Text => Some(DataType::String),
        SqlType::Int => Some(DataType::Integer),
        SqlType::Float => Some(DataType::Float),
        SqlType::Other => None,
    }
}

/// The column that a definition defines, if its declared type has a column
/// type: a column of the definition's name and of that type, with no
/// constraint.
///
/// This is a limitation: the constraint clauses that a definition may carry in
/// the source (`NOT NULL`, `UNIQUE`, `PRIMARY KEY`) are not read, and every
/// translated column has the empty constraint set.
pub open spec fn column_of(definition: ColumnDefinitionView) -> Option<ColumnView> {
    match declared_type(definition.data_type) {
        Some(data_type) => Some(
            ColumnView {
                key: definition.name,
                data_type,
                constraints: ColumnConstraint {
                    not_null: false,
                    unique: false,
                    primary_key: false,
                },
            },
        ),
        None => None,
    }
}

/// `done`, followed by the columns of the definitions from position `from` on,
/// in order; nothing if one of these definitions defines no column.
pub open spec fn columns_onto(
    done: Seq<ColumnView>,
    definitions: Seq<ColumnDefinitionView>,
    from: int,
) -> Option<Seq<ColumnView>>
    decreases definitions.len() - from,
{
    if from < 0 || from >= definitions.len() {
        Some(done)
    } else {
        match column_of(definitions[from]) {
            Some(column) => columns_onto(done.push(column), definitions, from + 1),
            None => None,
        }
    }
}

/// The columns of the definitions, in order; nothing if a definition defines
/// no column.
pub open spec fn columns_of(definitions: Seq<ColumnDefinitionView>) -> Option<Seq<ColumnView>> {
    columns_onto(Seq::empty(), definitions, 0)
}

/// What a `CREATE TABLE` statement translates to.
///
/// The table is named by the first segment of the statement's name. Without
/// column definitions the request asks for a table without a schema.
pub open spec fn create_table_translation(
    name: Seq<Seq<char>>,
    definitions: Seq<ColumnDefinitionView>,
) -> Result<RequestView, ErrorView> {
    if name.len() == 0 {
        Err(ErrorView::NotImplemented)
    } else if definitions.len() == 0 {
        Ok(RequestView::CreateTable { key: name[0], columns: None })
    } else {
        match columns_of(definitions) {
            Some(columns) => Ok(RequestView::CreateTable { key: name[0], columns: Some(columns) }),
            None => Err(ErrorView::NotImplemented),
        }
    }
}

/// The text of a numeric literal under a unary minus.
pub open spec fn with_minus(text: Seq<char>) -> Seq<char> {
    seq!['-'] + text
}

/// The cell that a numeric literal stands for.
///
/// A text with a decimal point is a float: its value is the reading of the
/// text, with the sign flipped under a unary minus. A text without one is an
/// integer, read in decimal with the minus sign in front where there is one.
pub open spec fn number_cell(text: Seq<char>, negated: bool, readings: ReadingsView) -> Option<
    CellView,
> {
    if text.contains('.') {
        match reading(readings, text) {
            Some(value) => Some(
                CellView::Float(
                    if negated {
                        value.spec_negated()
                    } else {
                        value
                    },
                ),
            ),
            None => None,
        }
    } else {
        match integer_reading(
            if negated {
                with_minus(text)
            } else {
                text
            },
        ) {
            Some(value) => Some(CellView::Integer(value)),
            None => None,
        }
    }
}

/// The cell that a value expression stands for, if it stands for one.
pub open spec fn expr_cell(expr: SqlExprView, readings: ReadingsView) -> Option<CellView> {
    match expr {
        SqlExprView::Number(text) => number_cell(text, false, readings),
        SqlExprView::NegatedNumber(text) => number_cell(text, true, readings),
        SqlExprView::SingleQuotedString(text) => Some(CellView::String(text)),
        SqlExprView::Other => None,
    }
}

/// `done`, after each column name from position `from` on has been set, in
/// order, to the cell of the expression at its position; nothing if one of
/// these expressions stands for no cell.
pub open spec fn row_onto(
    done: RecordView,
    columns: Seq<Seq<char>>,
    exprs: Seq<SqlExprView>,
    readings: ReadingsView,
    from: int,
) -> Option<RecordView>
    decreases exprs.len() - from,
{
    if from < 0 || from >= exprs.len() {
        Some(done)
    } else {
        match expr_cell(exprs[from], readings) {
            Some(cell) => row_onto(
                put(done, columns[from], cell),
                columns,
                exprs,
                readings,
                from + 1,
            ),
            None => None,
        }
    }
}

/// The record that a row of expressions gives under the column names.
pub open spec fn row_record(
    columns: Seq<Seq<char>>,
    exprs: Seq<SqlExprView>,
    readings: ReadingsView,
) -> Option<RecordView> {
    if exprs.len() != columns.len() {
        None
    } else {
        row_onto(Seq::empty(), columns, exprs, readings, 0)
    }
}

/// The row of an insert source that is translated: the first row of a `VALUES`
/// list.
pub open spec fn translated_row(source: InsertSourceView) -> Option<Seq<SqlExprView>> {
    match source {
        InsertSourceView::Values(rows) => if rows.len() > 0 {
            Some(rows[0])
        } else {
            None
        },
        _ => None,
    }
}

/// What an `INSERT` statement translates to.
///
/// The source has to be a `VALUES` list with at least one row; its first row
/// is translated. The row has to have as many expressions as there are column
/// names, each expression has to stand for a cell, and the table name has to
/// have a first segment.
pub open spec fn insert_translation(
    table_name: Seq<Seq<char>>,
    columns: Seq<Seq<char>>,
    source: InsertSourceView,
    readings: ReadingsView,
) -> Result<RequestView, ErrorView> {
    match translated_row(source) {
        Some(exprs) => match row_record(columns, exprs, readings) {
            Some(data) => if table_name.len() > 0 {
                Ok(RequestView::InsertInto { key: table_name[0], data })
            } else {
                Err(ErrorView::NotImplemented)
            },
            None => Err(ErrorView::NotImplemented),
        },
        None => Err(ErrorView::NotImplemented),
    }
}

/// What a statement translates to.
pub open spec fn translation(statement: StatementView, readings: ReadingsView) -> Result<
    RequestView,
    ErrorView,
> {
    match statement {
        StatementView::CreateTable { name, columns } => create_table_translation(name, columns),
        StatementView::Insert { table_name, columns, source } => insert_translation(
            table_name,
            columns,
            source,
            readings,
        ),
        StatementView::Query => Err(ErrorView::NotImplemented),
        StatementView::Other => Err(ErrorView::NotImplemented),
    }
}

/// `done`, followed by the requests of the statements from position `from` on,
/// in order; or the error of the first of these statements that has one.
pub open spec fn translations_onto(
    done: Seq<RequestView>,
    statements: Seq<StatementView>,
    readings: ReadingsView,
    from: int,
) -> Result<Seq<RequestView>, ErrorView>
    decreases statements.len() - from,
{
    if from < 0 || from >= statements.len() {
        Ok(done)
    } else {
        match translation(statements[from], readings) {
            Ok(request) => translations_onto(done.push(request), statements, readings, from + 1),
            Err(e) => Err(e),
        }
    }
}

/// The requests of the statements, one for each and in their order; or the
/// error of the first statement that has one.
pub open spec fn translations(statements: Seq<StatementView>, readings: ReadingsView) -> Result<
    Seq<RequestView>,
    ErrorView,
> {
    translations_onto(Seq::empty(), statements, readings, 0)
}

/// What `translations_onto` gives, position by position.
proof fn lemma_translations_onto(
    done: Seq<RequestView>,
    statements: Seq<StatementView>,
    readings: ReadingsView,
    from: int,
)
    requires
        0 <= from <= statements.len(),
    ensures
        match translations_onto(done, statements, readings, from) {
            Ok(requests) => {
                &&& requests.len() == done.len() + statements.len() - from
                &&& forall|i: int| 0 <= i < done.len() ==> requests[i] == done[i]
                &&& forall|i: int|
                    from <= i < statements.len() ==> translation(#[trigger] statements[i], readings)
                        == Ok::<RequestView, ErrorView>(requests[done.len() + i - from])
            },
            Err(e) => exists|k: int|
                {
                    &&& from <= k < statements.len()
                    &&& translation(#[trigger] statements[k], readings) == Err::<
                        RequestView,
                        ErrorView,
                    >(e)
                    &&& forall|i: int|
                        from <= i < k ==> translation(#[trigger] statements[i], readings) is Ok
                },
        },
    decreases statements.len() - from,
{
    if from < statements.len() {
        match translation(statements[from], readings) {
            Ok(request) => {
                let next = done.push(request);
                lemma_translations_onto(next, statements, readings, from + 1);
                match translations_onto(next, statements, readings, from + 1) {
                    Ok(requests) => {
                        assert forall|i: int| 0 <= i < done.len() implies requests[i] == done[i] by {
                            assert(next[i] == done[i]);
                        }
                        assert(requests[done.len() as int] == next[done.len() as int]);
                    },
                    Err(e) => {
                        let k = choose|k: int|
                            {
                                &&& from + 1 <= k < statements.len()
                                &&& translation(#[trigger] statements[k], readings) == Err::<
                                    RequestView,
                                    ErrorView,
                                >(e)
                                &&& forall|i: int|
                                    from + 1 <= i < k ==> translation(
                                        #[trigger] statements[i],
                                        readings,
                                    ) is Ok
                            };
                        assert(translation(statements[k], readings) == Err::<
                            RequestView,
                            ErrorView,
                        >(e));
                    },
                }
            },
            Err(e) => {
                assert(translation(statements[from], readings) == Err::<RequestView, ErrorView>(e));
            },
        }
    }
}

/// Each statement is translated by itself, and the requests keep the order of
/// the statements: the translations of statements are requests exactly if
/// every statement has one, and then the request at each position is that of
/// the statement there; else they are the error of the first statement that
/// has none.
pub proof fn lemma_translations_statement_by_statement(
    statements: Seq<StatementView>,
    readings: ReadingsView,
)
    ensures
        match translations(statements, readings) {
            Ok(requests) => {
                &&& requests.len() == statements.len()
                &&& forall|i: int|
                    0 <= i < statements.len() ==> translation(#[trigger] statements[i], readings)
                        == Ok::<RequestView, ErrorView>(requests[i])
            },
            Err(e) => exists|k: int|
                {
                    &&& 0 <= k < statements.len()
                    &&& translation(#[trigger] statements[k], readings) == Err::<
                        RequestView,
                        ErrorView,
                    >(e)
                    &&& forall|i: int|
                        0 <= i < k ==> translation(#[trigger] statements[i], readings) is Ok
                },
        },
{
    lemma_translations_onto(Seq::empty(), statements, readings, 0);
}

/// What `columns_onto` gives, position by position.
proof fn lemma_columns_onto(
    done: Seq<ColumnView>,
    definitions: Seq<ColumnDefinitionView>,
    from: int,
)
    requires
        0 <= from <= definitions.len(),
    ensures
        match columns_onto(done, definitions, from) {
            Some(columns) => {
                &&& columns.len() == done.len() + definitions.len() - from
                &&& forall|i: int| 0 <= i < done.len() ==> columns[i] == done[i]
                &&& forall|i: int|
                    from <= i < definitions.len() ==> column_of(#[trigger] definitions[i]) == Some(
                        columns[done.len() + i - from],
                    )
            },
            None => exists|k: int|
                from <= k < definitions.len() && column_of(#[trigger] definitions[k]) is None,
        },
    decreases definitions.len() - from,
{
    if from < definitions.len() {
        match column_of(definitions[from]) {
            Some(column) => {
                let next = done.push(column);
                lemma_columns_onto(next, definitions, from + 1);
                match columns_onto(next, definitions, from + 1) {
                    Some(columns) => {
                        assert forall|i: int| 0 <= i < done.len() implies columns[i] == done[i] by {
                            assert(next[i] == done[i]);
                        }
                        assert(columns[done.len() as int] == next[done.len() as int]);
                    },
                    None => {
                        let k = choose|k: int|
                            from + 1 <= k < definitions.len() && column_of(
                                #[trigger] definitions[k],
                            ) is None;
                        assert(column_of(definitions[k]) is None);
                    },
                }
            },
            None => {
                assert(column_of(definitions[from]) is None);
            },
        }
    }
}

/// The columns of definitions are one for each definition, in order; there
/// are none exactly if some definition declares a type that has no column
/// type.
pub proof fn lemma_columns_definition_by_definition(definitions: Seq<ColumnDefinitionView>)
    ensures
        match columns_of(definitions) {
            Some(columns) => {
                &&& columns.len() == definitions.len()
                &&& forall|i: int|
                    0 <= i < definitions.len() ==> column_of(#[trigger] definitions[i]) == Some(
                        columns[i],
                    )
            },
            None => exists|k: int|
                0 <= k < definitions.len() && (#[trigger] definitions[k]).data_type
                    == SqlType::Other,
        },
{
    lemma_columns_onto(Seq::empty(), definitions, 0);
    if columns_of(definitions) is None {
        let k = choose|k: int|
            0 <= k < definitions.len() && column_of(#[trigger] definitions[k]) is None;
        assert(definitions[k].data_type == SqlType::Other);
    }
}

/// The text under which the reading of a value expression is looked up, if
/// the expression is a float literal.
pub open spec fn float_text(expr: SqlExprView) -> Option<Seq<char>> {
    match expr {
        SqlExprView::Number(text) => if text.contains('.') {
            Some(text)
        } else {
            None
        },
        SqlExprView::NegatedNumber(text) => if text.contains('.') {
            Some(text)
        } else {
            None
        },
        _ => None,
    }
}

/// `done`, followed by the texts of the float literals among the expressions
/// from position `from` on, in order.
pub open spec fn row_float_texts(done: Seq<Seq<char>>, exprs: Seq<SqlExprView>, from: int) -> Seq<
    Seq<char>,
>
    decreases exprs.len() - from,
{
    if from < 0 || from >= exprs.len() {
        done
    } else {
        match float_text(exprs[from]) {
            Some(text) => row_float_texts(done.push(text), exprs, from + 1),
            None => row_float_texts(done, exprs, from + 1),
        }
    }
}

/// The expressions of a statement that translation reads as cells: the
/// translated row of an `INSERT`, and none of any other statement.
pub open spec fn translated_exprs(statement: StatementView) -> Seq<SqlExprView> {
    match statement {
        StatementView::Insert { source, .. } => match translated_row(source) {
            Some(exprs) => exprs,
            None => Seq::empty(),
        },
        _ => Seq::empty(),
    }
}

/// `done`, followed by the texts of the float literals that translation reads
/// in the statements from position `from` on, in order.
pub open spec fn float_texts_onto(
    done: Seq<Seq<char>>,
    statements: Seq<StatementView>,
    from: int,
) -> Seq<Seq<char>>
    decreases statements.len() - from,
{
    if from < 0 || from >= statements.len() {
        done
    } else {
        float_texts_onto(
            row_float_texts(done, translated_exprs(statements[from]), 0),
            statements,
            from + 1,
        )
    }
}

/// The texts of the float literals that translation reads in the statements,
/// in order, each as often as it occurs.
pub open spec fn float_texts(statements: Seq<StatementView>) -> Seq<Seq<char>> {
    float_texts_onto(Seq::empty(), statements, 0)
}

/// Whether the readings have one for each of the texts.
pub open spec fn covers(readings: ReadingsView, texts: Seq<Seq<char>>) -> bool {
    forall|i: int| 0 <= i < texts.len() ==> reading(readings, #[trigger] texts[i]) is Some
}

/// The texts gathered from a row hold what was gathered before and the text
/// of each float literal of the row from `from` on.
proof fn lemma_row_float_texts(done: Seq<Seq<char>>, exprs: Seq<SqlExprView>, from: int)
    requires
        0 <= from,
    ensures
        forall|i: int| 0 <= i < done.len() ==> row_float_texts(done, exprs, from).contains(done[i]),
        forall|j: int|
            from <= j < exprs.len() && float_text(#[trigger] exprs[j]) is Some ==> row_float_texts(
                done,
                exprs,
                from,
            ).contains(float_text(exprs[j])->0),
    decreases exprs.len() - from,
{
    let all = row_float_texts(done, exprs, from);
    if from < exprs.len() {
        let next = match float_text(exprs[from]) {
            Some(text) => done.push(text),
            None => done,
        };
        lemma_row_float_texts(next, exprs, from + 1);
        assert forall|i: int| 0 <= i < done.len() implies all.contains(done[i]) by {
            assert(next[i] == done[i]);
        }
        assert forall|j: int|
            from <= j < exprs.len() && float_text(#[trigger] exprs[j]) is Some implies all.contains(
            float_text(exprs[j])->0,
        ) by {
            if j == from {
                assert(next[done.len() as int] == float_text(exprs[j])->0);
            }
        }
    } else {
        assert forall|i: int| 0 <= i < done.len() implies all.contains(done[i]) by {
            assert(all[i] == done[i]);
        }
    }
}

/// The texts gathered from statements hold what was gathered before and the
/// text of each float literal that translation reads in the statements from
/// `from` on.
proof fn lemma_float_texts_onto(done: Seq<Seq<char>>, statements: Seq<StatementView>, from: int)
    requires
        0 <= from,
    ensures
        forall|i: int|
            0 <= i < done.len() ==> float_texts_onto(done, statements, from).contains(done[i]),
        forall|k: int, j: int|
            from <= k < statements.len() && 0 <= j < translated_exprs(statements[k]).len()
                && float_text(#[trigger] translated_exprs(statements[k])[j]) is Some
                ==> float_texts_onto(done, statements, from).contains(
                float_text(translated_exprs(statements[k])[j])->0,
            ),
    decreases statements.len() - from,
{
    let all = float_texts_onto(done, statements, from);
    if from < statements.len() {
        let exprs = translated_exprs(statements[from]);
        let next = row_float_texts(done, exprs, 0);
        lemma_row_float_texts(done, exprs, 0);
        lemma_float_texts_onto(next, statements, from + 1);
        assert forall|i: int| 0 <= i < done.len() implies all.contains(done[i]) by {
            assert(next.contains(done[i]));
            let q = choose|q: int| 0 <= q < next.len() && next[q] == done[i];
            assert(all.contains(next[q]));
        }
        assert forall|k: int, j: int|
            from <= k < statements.len() && 0 <= j < translated_exprs(statements[k]).len()
                && float_text(#[trigger] translated_exprs(statements[k])[j]) is Some implies all.contains(
            float_text(translated_exprs(statements[k])[j])->0,
        ) by {
            if k == from {
                let text = float_text(exprs[j])->0;
                assert(next.contains(text));
                let q = choose|q: int| 0 <= q < next.len() && next[q] == text;
                assert(all.contains(next[q]));
            }
        }
    } else {
        assert forall|i: int| 0 <= i < done.len() implies all.contains(done[i]) by {
            assert(all[i] == done[i]);
        }
    }
}

/// Readings for the float texts of the statements are all the readings that
/// translation asks for: with them, every float literal that translation reads
/// stands for a cell.
pub proof fn lemma_covered_floats_have_cells(
    statements: Seq<StatementView>,
    readings: ReadingsView,
    k: int,
    j: int,
)
    requires
        covers(readings, float_texts(statements)),
        0 <= k < statements.len(),
        0 <= j < translated_exprs(statements[k]).len(),
        float_text(translated_exprs(statements[k])[j]) is Some,
    ensures
        expr_cell(translated_exprs(statements[k])[j], readings) is Some,
{
    lemma_float_texts_onto(Seq::empty(), statements, 0);
    let expr = translated_exprs(statements[k])[j];
    let text = float_text(expr)->0;
    let texts = float_texts(statements);
    assert(texts.contains(text));
    let q = choose|q: int| 0 <= q < texts.len() && texts[q] == text;
    assert(reading(readings, texts[q]) is Some);
}

/// The column type for a declared type.
fn column_type(data_type: SqlType) -> (r: Option<DataType>)
    ensures
        r == declared_type(data_type),
{
    match data_type {
        SqlType::Text => Some(DataType::String),
        SqlType::Int => Some(DataType::Integer),
        SqlType::Float => Some(DataType::Float),
        SqlType::Other => None,
    }
}

/// Translates a `CREATE TABLE` statement, given by its name and its column
/// definitions.
///
/// A limitation: constraint clauses of the column definitions (`NOT NULL`,
/// `UNIQUE`, `PRIMARY KEY`) are dropped. Every column of the request has the
/// empty constraint set, whatever the statement said of it.
pub fn interpret_create_table_statement(name: Vec<String>, column_defs: Vec<ColumnDefinition>) -> (r:
    Result<DatabaseRequest, Error>)
    ensures
        outcome(r) == create_table_translation(name.deep_view(), column_defs.deep_view()),
{
    if name.len() == 0 {
        return Err(Error::NotImplemented);
    }
    let table_key = name[0].clone();
    assert(table_key@ == name.deep_view()[0]);
    if column_defs.len() == 0 {
        return Ok(DatabaseRequest::CreateTable { key: table_key, columns: None });
    }
    let ghost definitions = column_defs.deep_view();
    let mut columns: Vec<Column> = Vec::new();
    proof {
        lemma_deep_view_empty(columns);
    }
    let mut i: usize = 0;
    while i < column_defs.len()
        invariant
            i <= column_defs.len(),
            definitions == column_defs.deep_view(),
            columns_of(definitions) == columns_onto(columns.deep_view(), definitions, i as int),
        decreases column_defs.len() - i,
    {
        let definition = &column_defs[i];
        assert(definitions[i as int] == definition@);
        let data_type = match column_type(definition.data_type) {
            Some(data_type) => data_type,
            None => {
                return Err(Error::NotImplemented);
            },
        };
        let column = Column::new(definition.name.clone(), data_type, ColumnConstraint::empty());
        proof {
            lemma_deep_view_push(columns, column);
        }
        columns.push(column);
        i += 1;
    }
    Ok(DatabaseRequest::CreateTable { key: table_key, columns: Some(columns) })
}

/// The cell that a numeric literal stands for.
fn interpret_number(text: &String, negated: bool, readings: &FloatReadings) -> (r: Option<CellValue>)
    ensures
        r.deep_view() == number_cell(text@, negated, readings@),
{
    if has_decimal_point(text.as_str()) {
        match readings.get(text) {
            Some(value) => Some(
                CellValue::Float(
                    if negated {
                        value.negated()
                    } else {
                        value
                    },
                ),
            ),
            None => None,
        }
    } else {
        let value = if negated {
            let signed = String::from_str("-").concat(text.as_str());
            proof {
                reveal_strlit("-");
                assert(signed@ =~= with_minus(text@));
            }
            parse_integer(signed.as_str())
        } else {
            parse_integer(text.as_str())
        };
        match value {
            Some(value) => Some(CellValue::Integer(value)),
            None => None,
        }
    }
}

/// The cell that a value expression stands for, if it stands for one.
pub fn interpret_expr(expr: &SqlExpr, readings: &FloatReadings) -> (r: Option<CellValue>)
    ensures
        r.deep_view() == expr_cell(expr@, readings@),
{
    match expr {
        SqlExpr::Number(text) => interpret_number(text, false, readings),
        SqlExpr::NegatedNumber(text) => interpret_number(text, true, readings),
        SqlExpr::SingleQuotedString(text) => Some(CellValue::String(text.clone())),
        SqlExpr::Other => None,
    }
}

/// The record that a row of expressions gives under the column names.
fn interpret_row(columns: &Vec<String>, exprs: &Vec<SqlExpr>, readings: &FloatReadings) -> (r: Option<
    Record,
>)
    ensures
        r.deep_view() == row_record(columns.deep_view(), exprs.deep_view(), readings@),
{
    if exprs.len() != columns.len() {
        return None;
    }
    let ghost names = columns.deep_view();
    let ghost row = exprs.deep_view();
    let mut record = Record::new();
    let mut i: usize = 0;
    while i < exprs.len()
        invariant
            i <= exprs.len(),
            exprs.len() == columns.len(),
            names == columns.deep_view(),
            row == exprs.deep_view(),
            row_record(names, row, readings@) == row_onto(record@, names, row, readings@, i as int),
        decreases exprs.len() - i,
    {
        assert(row[i as int] == exprs[i as int]@);
        assert(names[i as int] == columns[i as int]@);
        match interpret_expr(&exprs[i], readings) {
            Some(cell) => {
                record.insert(columns[i].clone(), cell);
            },
            None => {
                return None;
            },
        }
        i += 1;
    }
    Some(record)
}

/// Translates an `INSERT` statement, given by its table name, its column names
/// and its source.
pub fn interpret_insert_statement(
    table_name: Vec<String>,
    columns: Vec<String>,
    source: InsertSource,
    readings: &FloatReadings,
) -> (r: Result<DatabaseRequest, Error>)
    ensures
        outcome(r) == insert_translation(
            table_name.deep_view(),
            columns.deep_view(),
            source@,
            readings@,
        ),
{
    let rows = match source {
        InsertSource::Values(rows) => rows,
        _ => {
            return Err(Error::NotImplemented);
        },
    };
    if rows.len() == 0 {
        return Err(Error::NotImplemented);
    }
    assert(rows.deep_view()[0] == rows[0].deep_view());
    let data = match interpret_row(&columns, &rows[0], readings) {
        Some(data) => data,
        None => {
            return Err(Error::NotImplemented);
        },
    };
    if table_name.len() == 0 {
        return Err(Error::NotImplemented);
    }
    let table_key = table_name[0].clone();
    assert(table_key@ == table_name.deep_view()[0]);
    Ok(DatabaseRequest::InsertInto { key: table_key, data })
}

/// Translates a read or selection statement: no such statement is translated.
pub fn interpret_query_statement() -> (r: Result<DatabaseRequest, Error>)
    ensures
        r == Err::<DatabaseRequest, Error>(Error::NotImplemented),
{
    Err(Error::NotImplemented)
}

/// Translates one statement into one request.
pub fn interpret_sql_statement(statement: SqlStatement, readings: &FloatReadings) -> (r: Result<
    DatabaseRequest,
    Error,
>)
    ensures
        outcome(r) == translation(statement@, readings@),
{
    match statement {
        SqlStatement::CreateTable { name, columns } => interpret_create_table_statement(
            name,
            columns,
        ),
        SqlStatement::Insert { table_name, columns, source } => interpret_insert_statement(
            table_name,
            columns,
            source,
            readings,
        ),
        SqlStatement::Query => interpret_query_statement(),
        SqlStatement::Other => Err(Error::NotImplemented),
    }
}

/// Translates the statements in order, each by itself, up to the first that
/// is not translated.
#[verifier::loop_isolation(false)]
pub fn interpret_statements(statements: Vec<SqlStatement>, readings: &FloatReadings) -> (r: Result<
    Vec<DatabaseRequest>,
    Error,
>)
    ensures
        match r {
            Ok(requests) => translations(statements.deep_view(), readings@) == Ok::<
                Seq<RequestView>,
                ErrorView,
            >(requests.deep_view()),
            Err(e) => translations(statements.deep_view(), readings@) == Err::<
                Seq<RequestView>,
                ErrorView,
            >(e@),
        },
{
    let ghost all = statements.deep_view();
    let mut pending = statements;
    let mut requests: Vec<DatabaseRequest> = Vec::new();
    proof {
        lemma_deep_view_empty(requests);
    }
    let mut i: usize = 0;
    while i < pending.len()
        invariant
            i <= pending.len(),
            pending@.len() == all.len(),
            forall|k: int| i <= k < pending@.len() ==> (#[trigger] pending@[k])@ == all[k],
            translations(all, readings@) == translations_onto(
                requests.deep_view(),
                all,
                readings@,
                i as int,
            ),
        decreases pending.len() - i,
    {
        let mut statement = SqlStatement::Other;
        std::mem::swap(&mut statement, &mut pending[i]);
        assert(statement@ == all[i as int]);
        match interpret_sql_statement(statement, readings) {
            Ok(request) => {
                proof {
                    lemma_deep_view_push(requests, request);
                }
                requests.push(request);
            },
            Err(e) => {
                return Err(e);
            },
        }
        i += 1;
    }
    Ok(requests)
}

/// Appends to `texts` the texts of the float literals of the row.
fn gather_row_float_texts(texts: &mut Vec<String>, exprs: &Vec<SqlExpr>)
    ensures
        final(texts).deep_view() == row_float_texts(old(texts).deep_view(), exprs.deep_view(), 0),
{
    let ghost row = exprs.deep_view();
    let ghost start = texts.deep_view();
    let mut i: usize = 0;
    while i < exprs.len()
        invariant
            i <= exprs.len(),
            row == exprs.deep_view(),
            row_float_texts(start, row, 0) == row_float_texts(texts.deep_view(), row, i as int),
        decreases exprs.len() - i,
    {
        assert(row[i as int] == exprs[i as int]@);
        match &exprs[i] {
            SqlExpr::Number(text) => {
                if has_decimal_point(text.as_str()) {
                    let copy = text.clone();
                    proof {
                        lemma_deep_view_push(*texts, copy);
                    }
                    texts.push(copy);
                }
            },
            SqlExpr::NegatedNumber(text) => {
                if has_decimal_point(text.as_str()) {
                    let copy = text.clone();
                    proof {
                        lemma_deep_view_push(*texts, copy);
                    }
                    texts.push(copy);
                }
            },
            _ => {},
        }
        i += 1;
    }
}

/// The texts of the float literals that translation reads in the statements:
/// what a table of readings has to hold for them.
pub fn float_literals(statements: &Vec<SqlStatement>) -> (r: Vec<String>)
    ensures
        r.deep_view() == float_texts(statements.deep_view()),
{
    let ghost all = statements.deep_view();
    let mut texts: Vec<String> = Vec::new();
    proof {
        lemma_deep_view_empty(texts);
    }
    let mut k: usize = 0;
    while k < statements.len()
        invariant
            k <= statements.len(),
            all == statements.deep_view(),
            float_texts(all) == float_texts_onto(texts.deep_view(), all, k as int),
        decreases statements.len() - k,
    {
        assert(all[k as int] == statements[k as int]@);
        match &statements[k] {
            SqlStatement::Insert { source, .. } => {
                match source {
                    InsertSource::Values(rows) => {
                        if rows.len() > 0 {
                            assert(rows.deep_view()[0] == rows[0].deep_view());
                            gather_row_float_texts(&mut texts, &rows[0]);
                        }
                    },
                    _ => {},
                }
            },
            _ => {},
        }
        k += 1;
    }
    texts
}

} // verus!
