//! The response decoder: from rows of cells to typed records.
//!
//! The first row is the header. Each of its cells may name an attribute, by
//! the attribute's own name or by its underscore spelling; a column whose
//! header names none is ignored. Every later row becomes one record. The first
//! row that cannot be decoded ends the decoding with its error.

use vstd::prelude::*;
use crate::error::{DecodeError, FaultKind};
use crate::numeric::{i32_value, is_float, is_float_text, parse_i32};
use crate::record::{
    attr_slot, records_view, text_view, Attr, LendableTable, LendableTableView, ResponseTables,
    ATTR_COUNT,
};
use crate::table::{csv_records, read_records, rows_view, Row, RowView};

verus! {

/// The attribute that a header cell names, if any.
pub open spec fn attr_of(name: Seq<char>) -> Option<Attr> {
    if name == "result"@ {
        Some(Attr::Result)
    } else if name == "table"@ {
        Some(Attr::Table)
    } else if name == "start"@ || name == "_start"@ {
        Some(Attr::Start)
    } else if name == "stop"@ || name == "_stop"@ {
        Some(Attr::Stop)
    } else if name == "time"@ || name == "_time"@ {
        Some(Attr::Time)
    } else if name == "value"@ || name == "_value"@ {
        Some(Attr::Value)
    } else if name == "field"@ || name == "_field"@ {
        Some(Attr::Field)
    } else if name == "measurement"@ || name == "_measurement"@ {
        Some(Attr::Measurement)
    } else if name == "country"@ {
        Some(Attr::Country)
    } else if name == "currency"@ {
        Some(Attr::Currency)
    } else if name == "isin"@ {
        Some(Attr::Isin)
    } else if name == "name"@ {
        Some(Attr::Name)
    } else if name == "source"@ {
        Some(Attr::Source)
    } else if name == "symbol"@ {
        Some(Attr::Symbol)
    } else {
        None
    }
}

/// The first of the columns before `end` whose header names `attr`.
pub open spec fn column_upto(header: Seq<Seq<char>>, attr: Attr, end: int) -> Option<int>
    decreases end,
{
    if end <= 0 {
        None
    } else {
        match column_upto(header, attr, end - 1) {
            Some(j) => Some(j),
            None => if attr_of(header[end - 1]) == Some(attr) {
                Some(end - 1)
            } else {
                None
            },
        }
    }
}

/// The column that binds `attr`: the first whose header names it.
pub open spec fn column_of(header: Seq<Seq<char>>, attr: Attr) -> Option<int> {
    column_upto(header, attr, header.len() as int)
}

/// Column `j` names an attribute that an earlier column already binds.
pub open spec fn is_duplicate(header: Seq<Seq<char>>, j: int) -> bool {
    match attr_of(header[j]) {
        Some(attr) => column_upto(header, attr, j) is Some,
        None => false,
    }
}

/// The cell in `column`, unless there is no such column or the cell is empty.
pub open spec fn present(cells: Seq<Seq<char>>, column: Option<int>) -> Option<Seq<char>> {
    match column {
        Some(j) => if 0 <= j < cells.len() && cells[j].len() > 0 {
            Some(cells[j])
        } else {
            None
        },
        None => None,
    }
}

/// What a row holds for `attr`.
pub open spec fn cell_of(header: Seq<Seq<char>>, cells: Seq<Seq<char>>, attr: Attr) -> Option<
    Seq<char>,
> {
    present(cells, column_of(header, attr))
}

/// The record that a row of the header's length decodes to.
pub open spec fn record_of(header: Seq<Seq<char>>, cells: Seq<Seq<char>>) -> LendableTableView {
    LendableTableView {
        result: cell_of(header, cells, Attr::Result),
        table: match cell_of(header, cells, Attr::Table) {
            Some(text) => i32_value(text),
            None => None,
        },
        start: cell_of(header, cells, Attr::Start),
        stop: cell_of(header, cells, Attr::Stop),
        time: cell_of(header, cells, Attr::Time),
        value: cell_of(header, cells, Attr::Value),
        field: cell_of(header, cells, Attr::Field),
        measurement: cell_of(header, cells, Attr::Measurement),
        country: cell_of(header, cells, Attr::Country),
        currency: cell_of(header, cells, Attr::Currency),
        isin: cell_of(header, cells, Attr::Isin),
        name: cell_of(header, cells, Attr::Name),
        source: cell_of(header, cells, Attr::Source),
        symbol: cell_of(header, cells, Attr::Symbol),
    }
}

/// What is wrong with the cell in column `j`, if anything: its column repeats
/// an attribute, or it is a non-empty cell of the `table` or `value` column
/// that is no number of the kind the column asks for.
pub open spec fn cell_fault(header: Seq<Seq<char>>, cells: Seq<Seq<char>>, j: int) -> Option<
    FaultKind,
> {
    if is_duplicate(header, j) {
        Some(FaultKind::Duplicate)
    } else if cells[j].len() == 0 {
        None
    } else if attr_of(header[j]) == Some(Attr::Table) && i32_value(cells[j]) is None {
        Some(FaultKind::Integer)
    } else if attr_of(header[j]) == Some(Attr::Value) && !is_float_text(cells[j]) {
        Some(FaultKind::Number)
    } else {
        None
    }
}

/// The leftmost faulty cell at or after column `from`, with its fault.
pub open spec fn first_fault(header: Seq<Seq<char>>, cells: Seq<Seq<char>>, from: int) -> Option<
    (int, FaultKind),
>
    decreases header.len() - from,
{
    if from < 0 || from >= header.len() {
        None
    } else {
        match cell_fault(header, cells, from) {
            Some(kind) => Some((from, kind)),
            None => first_fault(header, cells, from + 1),
        }
    }
}

/// Why a row cannot be decoded, and at which column: its length differs from
/// the header's (the column is the first that one of the two lacks), or else
/// its leftmost faulty cell.
pub open spec fn row_fault(header: Seq<Seq<char>>, cells: Seq<Seq<char>>) -> Option<
    (int, FaultKind),
> {
    if cells.len() < header.len() {
        Some((cells.len() as int, FaultKind::ColumnCount))
    } else if cells.len() > header.len() {
        Some((header.len() as int, FaultKind::ColumnCount))
    } else {
        first_fault(header, cells, 0)
    }
}

/// The error that reports `fault` in the row that begins at `line`.
pub open spec fn fault_error(line: u64, fault: (int, FaultKind)) -> DecodeError {
    DecodeError { line, field: fault.0 as usize, kind: fault.1 }
}

/// The record of one row, or the error that the row gives.
pub open spec fn decode_row(header: Seq<Seq<char>>, row: RowView) -> Result<
    LendableTableView,
    DecodeError,
> {
    match row_fault(header, row.cells) {
        Some(fault) => Err(fault_error(row.line, fault)),
        None => Ok(record_of(header, row.cells)),
    }
}

/// The first row at or after `from` that cannot be decoded.
pub open spec fn first_bad_row(header: Seq<Seq<char>>, rows: Seq<RowView>, from: int) -> Option<
    int,
>
    decreases rows.len() - from,
{
    if from < 0 || from >= rows.len() {
        None
    } else if row_fault(header, rows[from].cells) is Some {
        Some(from)
    } else {
        first_bad_row(header, rows, from + 1)
    }
}

/// The records of a table whose first row is the header: one record for each
/// later row, in order, or the error of the first row that cannot be decoded.
/// A table with no row at all has no records.
pub open spec fn decode_table(rows: Seq<RowView>) -> Result<Seq<LendableTableView>, DecodeError> {
    if rows.len() == 0 {
        Ok(Seq::empty())
    } else {
        match first_bad_row(rows[0].cells, rows, 1) {
            Some(k) => Err(fault_error(rows[k].line, row_fault(rows[0].cells, rows[k].cells).unwrap())),
            None => Ok(
                Seq::new(
                    (rows.len() - 1) as nat,
                    |i: int| record_of(rows[0].cells, rows[i + 1].cells),
                ),
            ),
        }
    }
}

/// The records of a payload, from what the reader made of it: the reader's
/// failure is a malformed row at the line it names.
pub open spec fn decode_read(read: Result<Seq<RowView>, u64>) -> Result<
    Seq<LendableTableView>,
    DecodeError,
> {
    match read {
        Ok(rows) => decode_table(rows),
        Err(line) => Err(DecodeError { line, field: 0, kind: FaultKind::Malformed }),
    }
}

/// The mathematical value of a decoder's result.
pub open spec fn decoded_view(r: Result<ResponseTables, DecodeError>) -> Result<
    Seq<LendableTableView>,
    DecodeError,
> {
    match r {
        Ok(tables) => Ok(tables@),
        Err(e) => Err(e),
    }
}

fn is_named(name: &String, word: &str) -> (b: bool)
    ensures
        b == (name@ == word@),
{
    let w = word.to_owned();
    *name == w
}

/// The attribute that the header cell `name` names, if any.
pub fn bind_name(name: &String) -> (attr: Option<Attr>)
    ensures
        attr == attr_of(name@),
{
    if is_named(name, "result") {
        Some(Attr::Result)
    } else if is_named(name, "table") {
        Some(Attr::Table)
    } else if is_named(name, "start") || is_named(name, "_start") {
        Some(Attr::Start)
    } else if is_named(name, "stop") || is_named(name, "_stop") {
        Some(Attr::Stop)
    } else if is_named(name, "time") || is_named(name, "_time") {
        Some(Attr::Time)
    } else if is_named(name, "value") || is_named(name, "_value") {
        Some(Attr::Value)
    } else if is_named(name, "field") || is_named(name, "_field") {
        Some(Attr::Field)
    } else if is_named(name, "measurement") || is_named(name, "_measurement") {
        Some(Attr::Measurement)
    } else if is_named(name, "country") {
        Some(Attr::Country)
    } else if is_named(name, "currency") {
        Some(Attr::Currency)
    } else if is_named(name, "isin") {
        Some(Attr::Isin)
    } else if is_named(name, "name") {
        Some(Attr::Name)
    } else if is_named(name, "source") {
        Some(Attr::Source)
    } else if is_named(name, "symbol") {
        Some(Attr::Symbol)
    } else {
        None
    }
}

/// What a header binds: for each column its attribute and whether it repeats
/// one, and for each attribute its column.
struct Binding {
    attrs: Vec<Option<Attr>>,
    repeats: Vec<bool>,
    columns: Vec<Option<usize>>,
}

spec fn same_column(column: Option<usize>, model: Option<int>) -> bool {
    match column {
        Some(j) => model == Some(j as int),
        None => model is None,
    }
}

impl Binding {
    /// This binding is the one of the first `end` columns of `header`.
    spec fn binds_upto(&self, header: Seq<Seq<char>>, end: int) -> bool {
        &&& self.attrs.len() == end
        &&& self.repeats.len() == end
        &&& self.columns.len() == ATTR_COUNT
        &&& forall|j: int| 0 <= j < end ==> #[trigger] self.attrs[j] == attr_of(header[j])
        &&& forall|j: int| 0 <= j < end ==> #[trigger] self.repeats[j] == is_duplicate(header, j)
        &&& forall|a: Attr|
            same_column(self.columns[#[trigger] attr_slot(a)], column_upto(header, a, end))
        &&& forall|s: int|
            0 <= s < ATTR_COUNT ==> match #[trigger] self.columns[s] {
                Some(j) => j < end,
                None => true,
            }
    }

    spec fn binds(&self, header: Seq<Seq<char>>) -> bool {
        self.binds_upto(header, header.len() as int)
    }
}

fn bind_header(header: &Vec<String>) -> (binding: Binding)
    ensures
        binding.binds(header.deep_view()),
{
    let ghost h = header.deep_view();
    let n = header.len();
    let mut binding = Binding { attrs: Vec::new(), repeats: Vec::new(), columns: Vec::new() };
    let mut s: usize = 0;
    while s < ATTR_COUNT
        invariant
            s <= ATTR_COUNT,
            binding.columns.len() == s,
            binding.attrs.len() == 0,
            binding.repeats.len() == 0,
            forall|i: int| 0 <= i < s ==> #[trigger] binding.columns[i] is None,
        decreases ATTR_COUNT - s,
    {
        binding.columns.push(None);
        s = s + 1;
    }
    let mut j: usize = 0;
    while j < n
        invariant
            j <= n,
            n == header.len(),
            h == header.deep_view(),
            binding.binds_upto(h, j as int),
        decreases n - j,
    {
        let ghost before = binding.columns@;
        let attr = bind_name(&header[j]);
        assert(h[j as int] == header[j as int]@);
        let mut repeat = false;
        match attr {
            Some(a) => {
                let slot = a.slot();
                match binding.columns[slot] {
                    Some(_) => {
                        repeat = true;
                    },
                    None => {
                        binding.columns.set(slot, Some(j));
                    },
                }
            },
            None => {},
        }
        binding.attrs.push(attr);
        binding.repeats.push(repeat);
        assert forall|b: Attr|
            same_column(
                binding.columns[#[trigger] attr_slot(b)],
                column_upto(h, b, j + 1),
            ) by {
            assert(same_column(before[attr_slot(b)], column_upto(h, b, j as int)));
            if attr == Some(b) {
            } else {
                if let Some(a) = attr {
                    assert(attr_slot(a) != attr_slot(b));
                }
            }
        }
        j = j + 1;
    }
    binding
}

fn cell_at(cells: &Vec<String>, column: Option<usize>) -> (text: Option<String>)
    requires
        match column {
            Some(j) => j < cells.len(),
            None => true,
        },
    ensures
        text_view(text) == present(
            cells.deep_view(),
            match column {
                Some(j) => Some(j as int),
                None => None,
            },
        ),
{
    match column {
        Some(j) => {
            assert(cells.deep_view()[j as int] == cells[j as int]@);
            if cells[j].as_str().is_empty() {
                None
            } else {
                Some(cells[j].clone())
            }
        },
        None => None,
    }
}

/// The mathematical value of one row's result.
spec fn row_view(r: Result<LendableTable, DecodeError>) -> Result<LendableTableView, DecodeError> {
    match r {
        Ok(record) => Ok(record@),
        Err(e) => Err(e),
    }
}

fn cell_for(binding: &Binding, row: &Row, attr: Attr, Ghost(header): Ghost<Seq<Seq<char>>>) -> (text:
    Option<String>)
    requires
        binding.binds(header),
        row.cells.len() == header.len(),
    ensures
        text_view(text) == cell_of(header, row.cells.deep_view(), attr),
{
    let slot = attr.slot();
    assert(same_column(binding.columns[attr_slot(attr)], column_of(header, attr)));
    cell_at(&row.cells, binding.columns[slot])
}

fn find_fault(binding: &Binding, row: &Row, Ghost(header): Ghost<Seq<Seq<char>>>) -> (fault: Option<
    (usize, FaultKind),
>)
    requires
        binding.binds(header),
        row.cells.len() == header.len(),
    ensures
        match fault {
            Some((j, kind)) => first_fault(header, row.cells.deep_view(), 0) == Some((j as int, kind)),
            None => first_fault(header, row.cells.deep_view(), 0) is None,
        },
{
    let n = binding.attrs.len();
    let ghost cells = row.cells.deep_view();
    let mut j: usize = 0;
    while j < n
        invariant
            j <= n,
            n == header.len(),
            n == row.cells.len(),
            cells == row.cells.deep_view(),
            binding.binds(header),
            first_fault(header, cells, 0) == first_fault(header, cells, j as int),
        decreases n - j,
    {
        assert(cells[j as int] == row.cells[j as int]@);
        let mut fault: Option<FaultKind> = None;
        if binding.repeats[j] {
            fault = Some(FaultKind::Duplicate);
        } else if !row.cells[j].as_str().is_empty() {
            match binding.attrs[j] {
                Some(Attr::Table) => {
                    if parse_i32(row.cells[j].as_str()).is_none() {
                        fault = Some(FaultKind::Integer);
                    }
                },
                Some(Attr::Value) => {
                    if !is_float(row.cells[j].as_str()) {
                        fault = Some(FaultKind::Number);
                    }
                },
                _ => {},
            }
        }
        assert(fault == cell_fault(header, cells, j as int));
        match fault {
            Some(kind) => {
                return Some((j, kind));
            },
            None => {},
        }
        j = j + 1;
    }
    None
}

fn build_record(binding: &Binding, row: &Row, Ghost(header): Ghost<Seq<Seq<char>>>) -> (record:
    LendableTable)
    requires
        binding.binds(header),
        row.cells.len() == header.len(),
    ensures
        record@ == record_of(header, row.cells.deep_view()),
{
    let table = match cell_for(binding, row, Attr::Table, Ghost(header)) {
        Some(text) => parse_i32(text.as_str()),
        None => None,
    };
    LendableTable {
        result: cell_for(binding, row, Attr::Result, Ghost(header)),
        table,
        start: cell_for(binding, row, Attr::Start, Ghost(header)),
        stop: cell_for(binding, row, Attr::Stop, Ghost(header)),
        time: cell_for(binding, row, Attr::Time, Ghost(header)),
        value: cell_for(binding, row, Attr::Value, Ghost(header)),
        field: cell_for(binding, row, Attr::Field, Ghost(header)),
        measurement: cell_for(binding, row, Attr::Measurement, Ghost(header)),
        country: cell_for(binding, row, Attr::Country, Ghost(header)),
        currency: cell_for(binding, row, Attr::Currency, Ghost(header)),
        isin: cell_for(binding, row, Attr::Isin, Ghost(header)),
        name: cell_for(binding, row, Attr::Name, Ghost(header)),
        source: cell_for(binding, row, Attr::Source, Ghost(header)),
        symbol: cell_for(binding, row, Attr::Symbol, Ghost(header)),
    }
}

fn decode_cells(binding: &Binding, row: &Row, Ghost(header): Ghost<Seq<Seq<char>>>) -> (r: Result<
    LendableTable,
    DecodeError,
>)
    requires
        binding.binds(header),
    ensures
        row_view(r) == decode_row(header, row@),
{
    let n = binding.attrs.len();
    if row.cells.len() < n {
        return Err(
            DecodeError { line: row.line, field: row.cells.len(), kind: FaultKind::ColumnCount },
        );
    }
    if row.cells.len() > n {
        return Err(DecodeError { line: row.line, field: n, kind: FaultKind::ColumnCount });
    }
    match find_fault(binding, row, Ghost(header)) {
        Some((j, kind)) => Err(DecodeError { line: row.line, field: j, kind }),
        None => Ok(build_record(binding, row, Ghost(header))),
    }
}

/// Decodes a table whose first row is the header: one record for each later
/// row, in order. The first row that cannot be decoded ends the decoding with
/// its error. A table with no row, or with the header alone, has no records.
pub fn decode_rows(rows: &Vec<Row>) -> (r: Result<ResponseTables, DecodeError>)
    ensures
        decoded_view(r) == decode_table(rows_view(rows@)),
{
    let ghost table = rows_view(rows@);
    let mut list: Vec<LendableTable> = Vec::new();
    if rows.len() == 0 {
        assert(records_view(list@) =~= Seq::empty());
        return Ok(ResponseTables { list });
    }
    let ghost header = table[0].cells;
    let binding = bind_header(&rows[0].cells);
    let mut k: usize = 1;
    while k < rows.len()
        invariant
            1 <= k <= rows.len(),
            table == rows_view(rows@),
            header == table[0].cells,
            binding.binds(header),
            first_bad_row(header, table, 1) == first_bad_row(header, table, k as int),
            list.len() == k - 1,
            forall|i: int|
                0 <= i < k - 1 ==> (#[trigger] list[i])@ == record_of(header, table[i + 1].cells),
        decreases rows.len() - k,
    {
        assert(table[k as int] == rows[k as int]@);
        match decode_cells(&binding, &rows[k], Ghost(header)) {
            Ok(record) => {
                list.push(record);
            },
            Err(e) => {
                return Err(e);
            },
        }
        k = k + 1;
    }
    assert(records_view(list@) =~= Seq::new(
        (table.len() - 1) as nat,
        |i: int| record_of(header, table[i + 1].cells),
    ));
    Ok(ResponseTables { list })
}

/// Decodes a payload: tabular text whose first line is the header.
///
/// The payload is split into rows by the reader that [`csv_records`] names;
/// the rows are then decoded as [`decode_rows`] decodes them. A payload that
/// the reader refuses is a malformed row at the line the reader names.
pub fn decode(payload: &str) -> (r: Result<ResponseTables, DecodeError>)
    ensures
        decoded_view(r) == decode_read(csv_records(payload@)),
{
    match read_records(payload) {
        Ok(rows) => decode_rows(&rows),
        Err(line) => Err(DecodeError { line, field: 0, kind: FaultKind::Malformed }),
    }
}

} // verus!
