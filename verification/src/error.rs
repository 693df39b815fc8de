//! The ways in which an operation on the store can fail.

use vstd::prelude::*;
use vstd::string::StringExecFns;

verus! {

/// Why an operation failed.
#[derive(Debug, PartialEq, Eq)]
pub enum Error {
    /// The text is not a sequence of statements; `error` is what the grammar said.
    BadSql { error: String },
    BadTableKey { key: String },
    BadRecordKey { key: String, table_key: String },
    BadColumnKey { key: String, table_key: String },
    /// A value's type is not the declared type of its column. A column that must
    /// have a value and has none is reported here too, with `Null` as the type
    /// received.
    DataTypeMismatch { column_key: String, expected: String, received: String },
    TableAlreadyExists { key: String },
    /// A value repeats one already stored under a column that keeps its values
    /// distinct; `key` names the column.
    RecordAlreadyExists { key: String, table_key: String },
    ColumnAlreadyExists { key: String, table_key: String },
    PrimaryColumnAlreadyExists { key: String, table_key: String },
    NotImplemented,
    Placeholder { text: String },
}

/// The mathematical value of an error.
pub enum ErrorView {
    BadSql { error: Seq<char> },
    BadTableKey { key: Seq<char> },
    BadRecordKey { key: Seq<char>, table_key: Seq<char> },
    BadColumnKey { key: Seq<char>, table_key: Seq<char> },
    DataTypeMismatch { column_key: Seq<char>, expected: Seq<char>, received: Seq<char> },
    TableAlreadyExists { key: Seq<char> },
    RecordAlreadyExists { key: Seq<char>, table_key: Seq<char> },
    ColumnAlreadyExists { key: Seq<char>, table_key: Seq<char> },
    PrimaryColumnAlreadyExists { key: Seq<char>, table_key: Seq<char> },
    NotImplemented,
    Placeholder { text: Seq<char> },
}

impl View for Error {
    type V = ErrorView;

    open spec fn view(&self) -> ErrorView {
        match self {
            Error::BadSql { error } => ErrorView::BadSql { error: error@ },
            Error::BadTableKey { key } => ErrorView::BadTableKey { key: key@ },
            Error::BadRecordKey { key, table_key } => ErrorView::BadRecordKey {
                key: key@,
                table_key: table_key@,
            },
            Error::BadColumnKey { key, table_key } => ErrorView::BadColumnKey {
                key: key@,
                table_key: table_key@,
            },
            Error::DataTypeMismatch { column_key, expected, received } => {
                ErrorView::DataTypeMismatch {
                    column_key: column_key@,
                    expected: expected@,
                    received: received@,
                }
            },
            Error::TableAlreadyExists { key } => ErrorView::TableAlreadyExists { key: key@ },
            Error::RecordAlreadyExists { key, table_key } => ErrorView::RecordAlreadyExists {
                key: key@,
                table_key: table_key@,
            },
            Error::ColumnAlreadyExists { key, table_key } => ErrorView::ColumnAlreadyExists {
                key: key@,
                table_key: table_key@,
            },
            Error::PrimaryColumnAlreadyExists { key, table_key } => {
                ErrorView::PrimaryColumnAlreadyExists { key: key@, table_key: table_key@ }
            },
            Error::NotImplemented => ErrorView::NotImplemented,
            Error::Placeholder { text } => ErrorView::Placeholder { text: text@ },
        }
    }
}

impl DeepView for Error {
    type V = ErrorView;

    #[verifier::inline]
    open spec fn deep_view(&self) -> ErrorView {
        self.view()
    }
}

/// The type name reported as received where a required value is absent.
pub open spec fn null_name() -> Seq<char> {
    "Null"@
}

impl ErrorView {
    /// The text that describes the error.
    pub open spec fn message(self) -> Seq<char> {
        match self {
            ErrorView::BadSql { error } => error,
            ErrorView::BadTableKey { key } => "table with key `"@ + key + "` not found"@,
            ErrorView::BadRecordKey { key, table_key } => "record with key `"@ + key
                + "` not found in table `"@ + table_key + "`"@,
            ErrorView::BadColumnKey { key, table_key } => "column with key `"@ + key
                + "` not found in table `"@ + table_key + "`"@,
            ErrorView::DataTypeMismatch { column_key, expected, received } => "column `"@
                + column_key + "` with type `"@ + expected + "` cannot accept values of type `"@
                + received + "`"@,
            ErrorView::TableAlreadyExists { key } => "table with key `"@ + key
                + "` already exists"@,
            ErrorView::RecordAlreadyExists { key, table_key } => "record with key `"@ + key
                + "` already exists in table `"@ + table_key + "`"@,
            ErrorView::ColumnAlreadyExists { key, table_key } => "column with key `"@ + key
                + "` already exists on table `"@ + table_key + "`"@,
            ErrorView::PrimaryColumnAlreadyExists { key, table_key } => "cannot add primary column `"@
                + key + "` to table `"@ + table_key + "` as it already has a primary column"@,
            ErrorView::NotImplemented => "feature not implemented"@,
            ErrorView::Placeholder { text } => text,
        }
    }
}

/// `a`, then `b`, then `c`.
fn join3(a: &str, b: &str, c: &str) -> (r: String)
    ensures
        r@ == a@ + b@ + c@,
{
    String::from_str(a).concat(b).concat(c)
}

/// `a`, then `b`, then `c`, then `d`, then `e`.
fn join5(a: &str, b: &str, c: &str, d: &str, e: &str) -> (r: String)
    ensures
        r@ == a@ + b@ + c@ + d@ + e@,
{
    String::from_str(a).concat(b).concat(c).concat(d).concat(e)
}

impl Clone for Error {
    fn clone(&self) -> (r: Self)
        ensures
            r@ == self@,
    {
        match self {
            Error::BadSql { error } => Error::BadSql { error: error.clone() },
            Error::BadTableKey { key } => Error::BadTableKey { key: key.clone() },
            Error::BadRecordKey { key, table_key } => Error::BadRecordKey {
                key: key.clone(),
                table_key: table_key.clone(),
            },
            Error::BadColumnKey { key, table_key } => Error::BadColumnKey {
                key: key.clone(),
                table_key: table_key.clone(),
            },
            Error::DataTypeMismatch { column_key, expected, received } => Error::DataTypeMismatch {
                column_key: column_key.clone(),
                expected: expected.clone(),
                received: received.clone(),
            },
            Error::TableAlreadyExists { key } => Error::TableAlreadyExists { key: key.clone() },
            Error::RecordAlreadyExists { key, table_key } => Error::RecordAlreadyExists {
                key: key.clone(),
                table_key: table_key.clone(),
            },
            Error::ColumnAlreadyExists { key, table_key } => Error::ColumnAlreadyExists {
                key: key.clone(),
                table_key: table_key.clone(),
            },
            Error::PrimaryColumnAlreadyExists { key, table_key } => {
                Error::PrimaryColumnAlreadyExists { key: key.clone(), table_key: table_key.clone() }
            },
            Error::NotImplemented => Error::NotImplemented,
            Error::Placeholder { text } => Error::Placeholder { text: text.clone() },
        }
    }
}

impl Error {
    /// The text that describes the error.
    pub fn to_string(&self) -> (r: String)
        ensures
            r@ == self@.message(),
    {
        match self {
            Error::BadSql { error } => error.clone(),
            Error::BadTableKey { key } => join3("table with key `", key.as_str(), "` not found"),
            Error::BadRecordKey { key, table_key } => join5(
                "record with key `",
                key.as_str(),
                "` not found in table `",
                table_key.as_str(),
                "`",
            ),
            Error::BadColumnKey { key, table_key } => join5(
                "column with key `",
                key.as_str(),
                "` not found in table `",
                table_key.as_str(),
                "`",
            ),
            Error::DataTypeMismatch { column_key, expected, received } => {
                let head = join5(
                    "column `",
                    column_key.as_str(),
                    "` with type `",
                    expected.as_str(),
                    "` cannot accept values of type `",
                );
                join3(head.as_str(), received.as_str(), "`")
            },
            Error::TableAlreadyExists { key } => join3(
                "table with key `",
                key.as_str(),
                "` already exists",
            ),
            Error::RecordAlreadyExists { key, table_key } => join5(
                "record with key `",
                key.as_str(),
                "` already exists in table `",
                table_key.as_str(),
                "`",
            ),
            Error::ColumnAlreadyExists { key, table_key } => join5(
                "column with key `",
                key.as_str(),
                "` already exists on table `",
                table_key.as_str(),
                "`",
            ),
            Error::PrimaryColumnAlreadyExists { key, table_key } => join5(
                "cannot add primary column `",
                key.as_str(),
                "` to table `",
                table_key.as_str(),
                "` as it already has a primary column",
            ),
            Error::NotImplemented => String::from_str("feature not implemented"),
            Error::Placeholder { text } => text.clone(),
        }
    }
}

} // verus!
