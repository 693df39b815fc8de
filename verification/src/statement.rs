//! Parsed statements: the part of a statement tree that translation reads.

use vstd::prelude::*;

verus! {

/// The declared type of a column definition, as far as translation tells
/// declared types apart.
#[derive(Clone, Copy, Debug, PartialEq, Eq, Hash, Structural)]
pub enum SqlType {
    Text,
    Int,
    Float,
    /// Any other declared type.
    Other,
}

impl DeepView for SqlType {
    type V = SqlType;

    #[verifier::inline]
    open spec fn deep_view(&self) -> SqlType {
        *self
    }
}

/// One column definition of a `CREATE TABLE` statement: its name and its
/// declared type. The option clauses of a definition, such as `NOT NULL`, are
/// not part of it.
#[derive(Clone, Debug, PartialEq, Eq)]
pub struct ColumnDefinition {
    pub name: String,
    pub data_type: SqlType,
}

/// The mathematical value of a column definition.
pub struct ColumnDefinitionView {
    pub name: Seq<char>,
    pub data_type: SqlType,
}

impl View for ColumnDefinition {
    type V = ColumnDefinitionView;

    open spec fn view(&self) -> ColumnDefinitionView {
        ColumnDefinitionView { name: self.name@, data_type: self.data_type }
    }
}

impl DeepView for ColumnDefinition {
    type V = ColumnDefinitionView;

    #[verifier::inline]
    open spec fn deep_view(&self) -> ColumnDefinitionView {
        self.view()
    }
}

/// One value expression of an `INSERT` statement.
#[derive(Clone, Debug, PartialEq, Eq)]
pub enum SqlExpr {
    /// A numeric literal, by its text.
    Number(String),
    /// A string literal in single quotes, by its content.
    SingleQuotedString(String),
    /// A unary minus applied to a numeric literal; the text is the literal's,
    /// without the sign.
    NegatedNumber(String),
    /// Any other expression.
    Other,
}

/// The mathematical value of a value expression.
pub enum SqlExprView {
    Number(Seq<char>),
    SingleQuotedString(Seq<char>),
    NegatedNumber(Seq<char>),
    Other,
}

impl View for SqlExpr {
    type V = SqlExprView;

    open spec fn view(&self) -> SqlExprView {
        match self {
            SqlExpr::Number(text) => SqlExprView::Number(text@),
            SqlExpr::SingleQuotedString(text) => SqlExprView::SingleQuotedString(text@),
            SqlExpr::NegatedNumber(text) => SqlExprView::NegatedNumber(text@),
            SqlExpr::Other => SqlExprView::Other,
        }
    }
}

impl DeepView for SqlExpr {
    type V = SqlExprView;

    #[verifier::inline]
    open spec fn deep_view(&self) -> SqlExprView {
        self.view()
    }
}

/// Where the rows of an `INSERT` statement come from.
#[derive(Clone, Debug, PartialEq, Eq)]
pub enum InsertSource {
    /// The statement names no source.
    Absent,
    /// A `VALUES` list, row by row.
    Values(Vec<Vec<SqlExpr>>),
    /// Any other source, such as a sub-query.
    Other,
}

/// The mathematical value of an insert source.
pub enum InsertSourceView {
    Absent,
    Values(Seq<Seq<SqlExprView>>),
    Other,
}

impl View for InsertSource {
    type V = InsertSourceView;

    open spec fn view(&self) -> InsertSourceView {
        match self {
            InsertSource::Absent => InsertSourceView::Absent,
            InsertSource::Values(rows) => InsertSourceView::Values(rows.deep_view()),
            InsertSource::Other => InsertSourceView::Other,
        }
    }
}

impl DeepView for InsertSource {
    type V = InsertSourceView;

    #[verifier::inline]
    open spec fn deep_view(&self) -> InsertSourceView {
        self.view()
    }
}

/// One parsed statement. Names are given segment by segment, as in
/// `schema.table`.
#[derive(Clone, Debug, PartialEq, Eq)]
#[allow(inconsistent_fields)]
pub enum SqlStatement {
    CreateTable { name: Vec<String>, columns: Vec<ColumnDefinition> },
    Insert { table_name: Vec<String>, columns: Vec<String>, source: InsertSource },
    /// A read or selection statement.
    Query,
    /// Any other statement.
    Other,
}

/// The mathematical value of a parsed statement.
#[allow(inconsistent_fields)]
pub enum StatementView {
    CreateTable { name: Seq<Seq<char>>, columns: Seq<ColumnDefinitionView> },
    Insert { table_name: Seq<Seq<char>>, columns: Seq<Seq<char>>, source: InsertSourceView },
    Query,
    Other,
}

impl View for SqlStatement {
    type V = StatementView;

    open spec fn view(&self) -> StatementView {
        match self {
            SqlStatement::CreateTable { name, columns } => StatementView::CreateTable {
                name: name.deep_view(),
                columns: columns.deep_view(),
            },
            SqlStatement::Insert { table_name, columns, source } => StatementView::Insert {
                table_name: table_name.deep_view(),
                columns: columns.deep_view(),
                source: source@,
            },
            SqlStatement::Query => StatementView::Query,
            SqlStatement::Other => StatementView::Other,
        }
    }
}

impl DeepView for SqlStatement {
    type V = StatementView;

    #[verifier::inline]
    open spec fn deep_view(&self) -> StatementView {
        self.view()
    }
}

} // verus!
