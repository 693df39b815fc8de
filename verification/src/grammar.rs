//! The grammar: statement trees of the `sqlparser` crate are copied, as far as
//! translation reads them, into [`SqlStatement`] values.
//!
//! The trees are opaque here. What is read of them is read by small functions
//! whose results are named by functions without a body, and the contracts of
//! this module say how the statements handed out are made of what those names
//! stand for.

use crate::error::{Error, ErrorView};
use crate::statement::{
    ColumnDefinition, ColumnDefinitionView, InsertSource, InsertSourceView, SqlExpr, SqlExprView,
    SqlStatement, SqlType, StatementView,
};
use crate::views::{lemma_deep_view_empty, lemma_deep_view_push};
use sqlparser::ast::{
    ColumnDef, Expr, Ident, Query, SetExpr, Statement, UnaryOperator, Value,
};
use sqlparser::parser::ParserError;
use vstd::prelude::*;

verus! {

#[verifier::external_type_specification]
#[verifier::external_body]
pub struct ExStatement(sqlparser::ast::Statement);

#[verifier::external_type_specification]
#[verifier::external_body]
pub struct ExIdent(sqlparser::ast::Ident);

#[verifier::external_type_specification]
#[verifier::external_body]
pub struct ExColumnDef(sqlparser::ast::ColumnDef);

#[verifier::external_type_specification]
#[verifier::external_body]
pub struct ExExpr(sqlparser::ast::Expr);

#[verifier::external_type_specification]
#[verifier::external_body]
pub struct ExQuery(sqlparser::ast::Query);

#[verifier::external_type_specification]
#[verifier::external_body]
pub struct ExParserError(sqlparser::parser::ParserError);

/// What translation reads of a statement, one level deep.
#[allow(inconsistent_fields)]
pub enum StatementParts {
    CreateTable { name: Vec<Ident>, columns: Vec<ColumnDef> },
    Insert { table_name: Vec<Ident>, columns: Vec<Ident>, source: Option<Box<Query>> },
    Query,
    Other,
}

/// What translation reads of an insert source, one level deep.
pub enum SourceParts {
    Absent,
    Values(Vec<Vec<Expr>>),
    Other,
}

/// The parts of a statement.
pub uninterp spec fn statement_shape(statement: Statement) -> StatementParts;

/// The values of the identifiers, in order.
pub uninterp spec fn ident_values(idents: Seq<Ident>) -> Seq<Seq<char>>;

/// A column definition, as translation reads it.
pub uninterp spec fn column_model(definition: ColumnDef) -> ColumnDefinitionView;

/// The parts of an insert source.
pub uninterp spec fn source_shape(source: Option<Box<Query>>) -> SourceParts;

/// The shape of a value expression.
pub uninterp spec fn expr_model(expr: Expr) -> SqlExprView;

/// The message of a parser error.
pub uninterp spec fn parser_message(error: ParserError) -> Seq<char>;

/// Tells the variants of `sqlparser::ast::Statement` apart and copies the
/// fields that translation reads: of `CreateTable` the identifiers of the name
/// and the columns, of `Insert` the identifiers of the table name, the columns
/// and the source. The contract names the result.
#[verifier::external_body]
fn statement_parts(statement: &Statement) -> (r: StatementParts)
    ensures
        r == statement_shape(*statement),
{
    match statement {
        Statement::CreateTable { name, columns, .. } => StatementParts::CreateTable {
            name: name.0.clone(),
            columns: columns.clone(),
        },
        Statement::Insert { table_name, columns, source, .. } => StatementParts::Insert {
            table_name: table_name.0.clone(),
            columns: columns.clone(),
            source: source.clone(),
        },
        Statement::Query(_) => StatementParts::Query,
        _ => StatementParts::Other,
    }
}

/// Copies the `value` of each `sqlparser::ast::Ident`, in order. The contract
/// names the result.
#[verifier::external_body]
fn ident_texts(idents: &Vec<Ident>) -> (r: Vec<String>)
    ensures
        r.deep_view() == ident_values(idents@),
{
    idents.iter().map(|ident| ident.value.clone()).collect()
}

/// Copies the value of the name of a `sqlparser::ast::ColumnDef`, and tells
/// the variants `Text`, `Int` and `Float` of its data type from each other and
/// from the rest. The contract names the result.
#[verifier::external_body]
fn column_def_parts(definition: &ColumnDef) -> (r: ColumnDefinition)
    ensures
        r@ == column_model(*definition),
{
    let data_type = match definition.data_type {
        sqlparser::ast::DataType::Text => SqlType::Text,
        sqlparser::ast::DataType::Int(_) => SqlType::Int,
        sqlparser::ast::DataType::Float(_) => SqlType::Float,
        _ => SqlType::Other,
    };
    ColumnDefinition { name: definition.name.value.clone(), data_type }
}

/// Tells a missing source, a source whose body is the variant `Values` of
/// `sqlparser::ast::SetExpr` and any other source apart, and copies the rows
/// of `Values`. The contract names the result.
#[verifier::external_body]
fn source_parts(source: &Option<Box<Query>>) -> (r: SourceParts)
    ensures
        r == source_shape(*source),
{
    match source {
        None => SourceParts::Absent,
        Some(query) => match &*query.body {
            SetExpr::Values(values) => SourceParts::Values(values.rows.clone()),
            _ => SourceParts::Other,
        },
    }
}

/// Tells four shapes of `sqlparser::ast::Expr` apart and copies the literal's
/// text: a `Value::Number`, a `Value::SingleQuotedString`, a `UnaryOp` with
/// `UnaryOperator::Minus` on a `Value::Number`, and the rest. The contract
/// names the result.
#[verifier::external_body]
fn expr_parts(expr: &Expr) -> (r: SqlExpr)
    ensures
        r@ == expr_model(*expr),
{
    match expr {
        Expr::Value(Value::Number(text, _)) => SqlExpr::Number(text.clone()),
        Expr::Value(Value::SingleQuotedString(text)) => SqlExpr::SingleQuotedString(text.clone()),
        Expr::UnaryOp { op: UnaryOperator::Minus, expr } => match &**expr {
            Expr::Value(Value::Number(text, _)) => SqlExpr::NegatedNumber(text.clone()),
            _ => SqlExpr::Other,
        },
        _ => SqlExpr::Other,
    }
}

/// Formats a `sqlparser::parser::ParserError` through its `Display`. The
/// contract names the result.
#[verifier::external_body]
fn parser_error_text(error: &ParserError) -> (r: String)
    ensures
        r@ == parser_message(*error),
{
    error.to_string()
}

/// Column definitions, as translation reads them.
pub open spec fn columns_model(definitions: Seq<ColumnDef>) -> Seq<ColumnDefinitionView> {
    Seq::new(definitions.len(), |i: int| column_model(definitions[i]))
}

/// A row of value expressions, as translation reads it.
pub open spec fn row_model(row: Seq<Expr>) -> Seq<SqlExprView> {
    Seq::new(row.len(), |i: int| expr_model(row[i]))
}

/// Rows of value expressions, as translation reads them.
pub open spec fn rows_model(rows: Seq<Vec<Expr>>) -> Seq<Seq<SqlExprView>> {
    Seq::new(rows.len(), |i: int| row_model(rows[i]@))
}

/// An insert source, as translation reads it.
pub open spec fn source_model(source: Option<Box<Query>>) -> InsertSourceView {
    match source_shape(source) {
        SourceParts::Absent => InsertSourceView::Absent,
        SourceParts::Values(rows) => InsertSourceView::Values(rows_model(rows@)),
        SourceParts::Other => InsertSourceView::Other,
    }
}

/// A statement, as translation reads it.
pub open spec fn statement_model(statement: Statement) -> StatementView {
    match statement_shape(statement) {
        StatementParts::CreateTable { name, columns } => StatementView::CreateTable {
            name: ident_values(name@),
            columns: columns_model(columns@),
        },
        StatementParts::Insert { table_name, columns, source } => StatementView::Insert {
            table_name: ident_values(table_name@),
            columns: ident_values(columns@),
            source: source_model(source),
        },
        StatementParts::Query => StatementView::Query,
        StatementParts::Other => StatementView::Other,
    }
}

/// Statements, as translation reads them.
pub open spec fn statements_model(statements: Seq<Statement>) -> Seq<StatementView> {
    Seq::new(statements.len(), |i: int| statement_model(statements[i]))
}

/// Copies column definitions.
fn lower_columns(definitions: &Vec<ColumnDef>) -> (r: Vec<ColumnDefinition>)
    ensures
        r.deep_view() == columns_model(definitions@),
{
    let mut columns: Vec<ColumnDefinition> = Vec::new();
    proof {
        lemma_deep_view_empty(columns);
    }
    let mut i: usize = 0;
    while i < definitions.len()
        invariant
            i <= definitions.len(),
            columns.deep_view() == columns_model(definitions@).take(i as int),
        decreases definitions.len() - i,
    {
        let column = column_def_parts(&definitions[i]);
        proof {
            lemma_deep_view_push(columns, column);
            assert(columns_model(definitions@).take(i + 1) =~= columns_model(definitions@).take(
                i as int,
            ).push(column@));
        }
        columns.push(column);
        i += 1;
    }
    assert(columns_model(definitions@).take(i as int) =~= columns_model(definitions@));
    columns
}

/// Copies a row of value expressions.
fn lower_row(row: &Vec<Expr>) -> (r: Vec<SqlExpr>)
    ensures
        r.deep_view() == row_model(row@),
{
    let mut exprs: Vec<SqlExpr> = Vec::new();
    proof {
        lemma_deep_view_empty(exprs);
    }
    let mut i: usize = 0;
    while i < row.len()
        invariant
            i <= row.len(),
            exprs.deep_view() == row_model(row@).take(i as int),
        decreases row.len() - i,
    {
        let expr = expr_parts(&row[i]);
        proof {
            lemma_deep_view_push(exprs, expr);
            assert(row_model(row@).take(i + 1) =~= row_model(row@).take(i as int).push(expr@));
        }
        exprs.push(expr);
        i += 1;
    }
    assert(row_model(row@).take(i as int) =~= row_model(row@));
    exprs
}

/// Copies rows of value expressions.
fn lower_rows(rows: &Vec<Vec<Expr>>) -> (r: Vec<Vec<SqlExpr>>)
    ensures
        r.deep_view() == rows_model(rows@),
{
    let mut lowered: Vec<Vec<SqlExpr>> = Vec::new();
    proof {
        lemma_deep_view_empty(lowered);
    }
    let mut i: usize = 0;
    while i < rows.len()
        invariant
            i <= rows.len(),
            lowered.deep_view() == rows_model(rows@).take(i as int),
        decreases rows.len() - i,
    {
        let row = lower_row(&rows[i]);
        proof {
            lemma_deep_view_push(lowered, row);
            assert(rows_model(rows@).take(i + 1) =~= rows_model(rows@).take(i as int).push(
                row.deep_view(),
            ));
        }
        lowered.push(row);
        i += 1;
    }
    assert(rows_model(rows@).take(i as int) =~= rows_model(rows@));
    lowered
}

/// Copies an insert source.
fn lower_source(source: &Option<Box<Query>>) -> (r: InsertSource)
    ensures
        r@ == source_model(*source),
{
    match source_parts(source) {
        SourceParts::Absent => InsertSource::Absent,
        SourceParts::Values(rows) => InsertSource::Values(lower_rows(&rows)),
        SourceParts::Other => InsertSource::Other,
    }
}

/// The statement as translation reads it.
pub fn lower_statement(statement: &Statement) -> (r: SqlStatement)
    ensures
        r@ == statement_model(*statement),
{
    match statement_parts(statement) {
        StatementParts::CreateTable { name, columns } => SqlStatement::CreateTable {
            name: ident_texts(&name),
            columns: lower_columns(&columns),
        },
        StatementParts::Insert { table_name, columns, source } => SqlStatement::Insert {
            table_name: ident_texts(&table_name),
            columns: ident_texts(&columns),
            source: lower_source(&source),
        },
        StatementParts::Query => SqlStatement::Query,
        StatementParts::Other => SqlStatement::Other,
    }
}

/// The statements as translation reads them, one for each and in their order.
pub fn lower_statements(parsed: &Vec<Statement>) -> (r: Vec<SqlStatement>)
    ensures
        r.deep_view() == statements_model(parsed@),
{
    let mut statements: Vec<SqlStatement> = Vec::new();
    proof {
        lemma_deep_view_empty(statements);
    }
    let mut i: usize = 0;
    while i < parsed.len()
        invariant
            i <= parsed.len(),
            statements.deep_view() == statements_model(parsed@).take(i as int),
        decreases parsed.len() - i,
    {
        let statement = lower_statement(&parsed[i]);
        proof {
            lemma_deep_view_push(statements, statement);
            assert(statements_model(parsed@).take(i + 1) =~= statements_model(parsed@).take(
                i as int,
            ).push(statement@));
        }
        statements.push(statement);
        i += 1;
    }
    assert(statements_model(parsed@).take(i as int) =~= statements_model(parsed@));
    statements
}

/// What the parser handed back, as translation reads it: the statements, or
/// [`Error::BadSql`] with the parser's message.
pub fn lower_parsed(parsed: Result<Vec<Statement>, ParserError>) -> (r: Result<
    Vec<SqlStatement>,
    Error,
>)
    ensures
        match parsed {
            Ok(statements) => r matches Ok(lowered) && lowered.deep_view() == statements_model(
                statements@,
            ),
            Err(error) => r matches Err(e) && e@ == (ErrorView::BadSql {
                error: parser_message(error),
            }),
        },
{
    match parsed {
        Ok(statements) => Ok(lower_statements(&statements)),
        Err(error) => Err(Error::BadSql { error: parser_error_text(&error) }),
    }
}

} // verus!
