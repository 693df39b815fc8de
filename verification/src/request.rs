//! Requests: the mutations that can be asked of a database.

use crate::column::{Column, ColumnView};
use crate::record::{Record, RecordView};
use vstd::prelude::*;

verus! {

/// One intended mutation of a database.
#[derive(Debug, PartialEq, Eq)]
pub enum DatabaseRequest {
    /// Make a table of this name, with these columns or without a schema.
    CreateTable { key: String, columns: Option<Vec<Column>> },
    /// Append this record to the table of this name.
    InsertInto { key: String, data: Record },
}

/// The mathematical value of a request.
pub enum RequestView {
    CreateTable { key: Seq<char>, columns: Option<Seq<ColumnView>> },
    InsertInto { key: Seq<char>, data: RecordView },
}

impl RequestView {
    /// The columns that a table made by this request starts with.
    pub open spec fn initial_columns(self) -> Seq<ColumnView> {
        match self {
            RequestView::CreateTable { columns: Some(columns), .. } => columns,
            _ => Seq::empty(),
        }
    }
}

impl View for DatabaseRequest {
    type V = RequestView;

    open spec fn view(&self) -> RequestView {
        match self {
            DatabaseRequest::CreateTable { key, columns } => RequestView::CreateTable {
                key: key@,
                columns: columns.deep_view(),
            },
            DatabaseRequest::InsertInto { key, data } => RequestView::InsertInto {
                key: key@,
                data: data@,
            },
        }
    }
}

impl DeepView for DatabaseRequest {
    type V = RequestView;

    #[verifier::inline]
    open spec fn deep_view(&self) -> RequestView {
        self.view()
    }
}

} // verus!
