//! Tabular text: a payload split into rows of cells.

use vstd::prelude::*;

verus! {

/// One row of a payload.
#[derive(Debug, Clone, PartialEq, Eq)]
pub struct Row {
    /// The line, counted from 1, at which the reader began the row.
    pub line: u64,
    /// The row's cells, unquoted, from left to right.
    pub cells: Vec<String>,
}

/// The mathematical value of a [`Row`].
pub struct RowView {
    pub line: u64,
    pub cells: Seq<Seq<char>>,
}

impl View for Row {
    type V = RowView;

    open spec fn view(&self) -> RowView {
        RowView { line: self.line, cells: self.cells.deep_view() }
    }
}

/// The values of the rows `rows`, in order.
pub open spec fn rows_view(rows: Seq<Row>) -> Seq<RowView> {
    rows.map_values(|r: Row| r@)
}

/// What `csv` makes of a payload when it reads it with no header row and with
/// rows of any length: the rows in order, the header row first, or the line
/// at which it gave up.
pub uninterp spec fn csv_records(payload: Seq<char>) -> Result<Seq<RowView>, u64>;

/// Splits `payload` into rows with `csv::Reader::records`.
///
/// The reader is built by `csv::ReaderBuilder` with `has_headers(false)` and
/// `flexible(true)`, so the header row comes out as the first row and no row
/// is refused for its length. Each row carries the line of the position that
/// the reader recorded for it. When the reader reports an error the result is
/// the line of that error's position (0 if it has none). The contract claims
/// only that the outcome is the one that [`csv_records`] names for this
/// payload: that reading the same text again gives the same rows.
#[verifier::external_body]
pub(crate) fn read_records(payload: &str) -> (r: Result<Vec<Row>, u64>)
    ensures
        match r {
            Ok(rows) => csv_records(payload@) == Ok::<Seq<RowView>, u64>(rows_view(rows@)),
            Err(line) => csv_records(payload@) == Err::<Seq<RowView>, u64>(line),
        },
{
    let mut reader = csv::ReaderBuilder::new().has_headers(false).flexible(true).from_reader(
        payload.as_bytes(),
    );
    let mut rows: Vec<Row> = Vec::new();
    for item in reader.records() {
        match item {
            Ok(record) => rows.push(Row {
                line: record.position().map_or(0, |p| p.line()),
                cells: record.iter().map(String::from).collect(),
            }),
            Err(e) => return Err(e.position().map_or(0, |p| p.line())),
        }
    }
    Ok(rows)
}

} // verus!
