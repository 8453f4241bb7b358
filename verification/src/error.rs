//! What can go wrong between the configuration and the decoded records.

use vstd::prelude::*;
use vstd::string::*;

verus! {

/// A failure outside the decoder: a setting that is absent, or a data store
/// that did not answer with success.
#[derive(Debug, Clone, PartialEq, Eq)]
pub enum UpwardError {
    /// The named setting has no value.
    MissingKey(String),
    /// The data store failed without a usable reason.
    Unknown,
}

/// The mathematical value of an [`UpwardError`].
pub enum UpwardErrorView {
    MissingKey(Seq<char>),
    Unknown,
}

impl View for UpwardError {
    type V = UpwardErrorView;

    open spec fn view(&self) -> UpwardErrorView {
        match self {
            UpwardError::MissingKey(key) => UpwardErrorView::MissingKey(key@),
            UpwardError::Unknown => UpwardErrorView::Unknown,
        }
    }
}

/// The sentence that describes `e`.
pub open spec fn message_of(e: UpwardErrorView) -> Seq<char> {
    match e {
        UpwardErrorView::MissingKey(key) => "the API for key `"@ + key + "` is not available"@,
        UpwardErrorView::Unknown => "unknown data store error"@,
    }
}

impl UpwardError {
    /// The sentence that describes this error.
    pub fn message(&self) -> (text: String)
        ensures
            text@ == message_of(self@),
    {
        match self {
            UpwardError::MissingKey(key) => {
                let mut text = "the API for key `".to_owned();
                text.append(key.as_str());
                text.append("` is not available");
                text
            },
            UpwardError::Unknown => "unknown data store error".to_owned(),
        }
    }
}

/// Why a row could not be decoded.
#[derive(Debug, Clone, Copy, PartialEq, Eq)]
pub enum FaultKind {
    /// The payload is not well-formed tabular text.
    Malformed,
    /// The row has more or fewer cells than the header has columns.
    ColumnCount,
    /// The column binds an attribute that an earlier column already bound.
    Duplicate,
    /// The cell of the `table` column is no 32-bit integer.
    Integer,
    /// The cell of the `value` column is no floating-point number.
    Number,
}

/// A row that could not be decoded: where it starts, which of its fields is
/// at fault, and why.
#[derive(Debug, Clone, Copy, PartialEq, Eq)]
pub struct DecodeError {
    /// The line, counted from 1, at which the reader began the row.
    pub line: u64,
    /// The column, counted from 0, of the offending field.
    pub field: usize,
    /// What is wrong with it.
    pub kind: FaultKind,
}

} // verus!
