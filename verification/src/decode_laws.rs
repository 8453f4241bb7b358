//! What holds of every table that the decoder is given.

use vstd::prelude::*;
use crate::decode::{
    attr_of, cell_fault, cell_of, column_of, column_upto, decode_row, decode_table, first_bad_row,
    first_fault, is_duplicate, record_of, row_fault,
};
use crate::error::{DecodeError, FaultKind};
use crate::record::{Attr, LendableTableView};
use crate::table::RowView;

verus! {

proof fn lemma_first_bad_row(header: Seq<Seq<char>>, rows: Seq<RowView>, from: int)
    requires
        0 <= from,
    ensures
        match first_bad_row(header, rows, from) {
            Some(k) => {
                &&& from <= k < rows.len()
                &&& row_fault(header, rows[k].cells) is Some
                &&& forall|i: int| from <= i < k ==> row_fault(header, (#[trigger] rows[i]).cells) is None
            },
            None => forall|i: int|
                from <= i < rows.len() ==> row_fault(header, (#[trigger] rows[i]).cells) is None,
        },
    decreases rows.len() - from,
{
    if from < rows.len() && row_fault(header, rows[from].cells) is None {
        lemma_first_bad_row(header, rows, from + 1);
    }
}

/// A table decodes exactly when none of its rows after the header is at
/// fault. It then gives one record for each of those rows, in their order:
/// the record that the row decodes to by itself.
pub proof fn lemma_one_record_per_row(rows: Seq<RowView>)
    requires
        rows.len() > 0,
    ensures
        decode_table(rows) is Ok <==> forall|k: int|
            1 <= k < rows.len() ==> row_fault(rows[0].cells, (#[trigger] rows[k]).cells) is None,
        match decode_table(rows) {
            Ok(list) => {
                &&& list.len() == rows.len() - 1
                &&& forall|i: int|
                    0 <= i < list.len() ==> decode_row(rows[0].cells, rows[i + 1]) == Ok::<
                        LendableTableView,
                        DecodeError,
                    >(#[trigger] list[i])
            },
            Err(_) => true,
        },
{
    lemma_first_bad_row(rows[0].cells, rows, 1);
    match decode_table(rows) {
        Ok(list) => {
            assert forall|i: int| 0 <= i < list.len() implies decode_row(rows[0].cells, rows[i + 1])
                == Ok::<LendableTableView, DecodeError>(#[trigger] list[i]) by {
                assert(row_fault(rows[0].cells, rows[i + 1].cells) is None);
            }
        },
        Err(_) => {},
    }
}

/// A table that does not decode gives the error of its first faulty row: the
/// rows before that one are sound, and no record is given for any row.
pub proof fn lemma_first_faulty_row_decides(rows: Seq<RowView>)
    requires
        rows.len() > 0,
        decode_table(rows) is Err,
    ensures
        exists|k: int|
            {
                &&& 1 <= k < rows.len()
                &&& #[trigger] decode_row(rows[0].cells, rows[k]) == Err::<
                    LendableTableView,
                    DecodeError,
                >(decode_table(rows)->Err_0)
                &&& forall|i: int|
                    1 <= i < k ==> row_fault(rows[0].cells, (#[trigger] rows[i]).cells) is None
            },
{
    lemma_first_bad_row(rows[0].cells, rows, 1);
    let k = first_bad_row(rows[0].cells, rows, 1).unwrap();
    assert(decode_row(rows[0].cells, rows[k]) == Err::<LendableTableView, DecodeError>(
        decode_table(rows)->Err_0,
    ));
}

/// A table of the header alone, or of no row at all, decodes to no records.
pub proof fn lemma_header_alone_is_empty(rows: Seq<RowView>)
    requires
        rows.len() <= 1,
    ensures
        decode_table(rows) == Ok::<Seq<LendableTableView>, DecodeError>(Seq::empty()),
{
    if rows.len() == 1 {
        assert(Seq::new(0nat, |i: int| record_of(rows[0].cells, rows[i + 1].cells)) =~= Seq::<
            LendableTableView,
        >::empty());
    }
}

/// The underscore spelling of an attribute names the attribute that the plain
/// spelling names.
pub proof fn lemma_underscore_spellings()
    ensures
        attr_of("_start"@) == Some(Attr::Start) && attr_of("start"@) == Some(Attr::Start),
        attr_of("_stop"@) == Some(Attr::Stop) && attr_of("stop"@) == Some(Attr::Stop),
        attr_of("_time"@) == Some(Attr::Time) && attr_of("time"@) == Some(Attr::Time),
        attr_of("_value"@) == Some(Attr::Value) && attr_of("value"@) == Some(Attr::Value),
        attr_of("_field"@) == Some(Attr::Field) && attr_of("field"@) == Some(Attr::Field),
        attr_of("_measurement"@) == Some(Attr::Measurement) && attr_of("measurement"@) == Some(
            Attr::Measurement,
        ),
{
    reveal_strlit("result");
    reveal_strlit("table");
    reveal_strlit("start");
    reveal_strlit("_start");
    reveal_strlit("stop");
    reveal_strlit("_stop");
    reveal_strlit("time");
    reveal_strlit("_time");
    reveal_strlit("value");
    reveal_strlit("_value");
    reveal_strlit("field");
    reveal_strlit("_field");
    reveal_strlit("measurement");
    reveal_strlit("_measurement");
    assert("result"@.len() == 6 && "result"@[0] == 'r' && "result"@[1] == 'e');
    assert("table"@.len() == 5 && "table"@[0] == 't' && "table"@[1] == 'a');
    assert("start"@.len() == 5 && "start"@[0] == 's' && "start"@[1] == 't');
    assert("_start"@.len() == 6 && "_start"@[0] == '_' && "_start"@[1] == 's');
    assert("stop"@.len() == 4 && "stop"@[0] == 's' && "stop"@[1] == 't');
    assert("_stop"@.len() == 5 && "_stop"@[0] == '_' && "_stop"@[1] == 's');
    assert("time"@.len() == 4 && "time"@[0] == 't' && "time"@[1] == 'i');
    assert("_time"@.len() == 5 && "_time"@[0] == '_' && "_time"@[1] == 't');
    assert("value"@.len() == 5 && "value"@[0] == 'v' && "value"@[1] == 'a');
    assert("_value"@.len() == 6 && "_value"@[0] == '_' && "_value"@[1] == 'v');
    assert("field"@.len() == 5 && "field"@[0] == 'f' && "field"@[1] == 'i');
    assert("_field"@.len() == 6 && "_field"@[0] == '_' && "_field"@[1] == 'f');
    assert("measurement"@.len() == 11 && "measurement"@[0] == 'm' && "measurement"@[1] == 'e');
    assert("_measurement"@.len() == 12 && "_measurement"@[0] == '_' && "_measurement"@[1] == 'm');
}

/// Two headers of one length name the same attribute in every column.
pub open spec fn same_names(g: Seq<Seq<char>>, h: Seq<Seq<char>>) -> bool {
    &&& g.len() == h.len()
    &&& forall|j: int| 0 <= j < g.len() ==> attr_of(#[trigger] g[j]) == attr_of(h[j])
}

proof fn lemma_same_columns(g: Seq<Seq<char>>, h: Seq<Seq<char>>, attr: Attr, end: int)
    requires
        same_names(g, h),
        0 <= end <= g.len(),
    ensures
        column_upto(g, attr, end) == column_upto(h, attr, end),
    decreases end,
{
    if end > 0 {
        lemma_same_columns(g, h, attr, end - 1);
        assert(attr_of(g[end - 1]) == attr_of(h[end - 1]));
    }
}

proof fn lemma_same_cell_fault(g: Seq<Seq<char>>, h: Seq<Seq<char>>, cells: Seq<Seq<char>>, j: int)
    requires
        same_names(g, h),
        0 <= j < g.len(),
    ensures
        cell_fault(g, cells, j) == cell_fault(h, cells, j),
{
    assert(attr_of(g[j]) == attr_of(h[j]));
    match attr_of(g[j]) {
        Some(attr) => {
            lemma_same_columns(g, h, attr, j);
        },
        None => {},
    }
}

proof fn lemma_same_first_fault(
    g: Seq<Seq<char>>,
    h: Seq<Seq<char>>,
    cells: Seq<Seq<char>>,
    from: int,
)
    requires
        same_names(g, h),
        0 <= from,
    ensures
        first_fault(g, cells, from) == first_fault(h, cells, from),
    decreases g.len() - from,
{
    if from < g.len() {
        lemma_same_cell_fault(g, h, cells, from);
        lemma_same_first_fault(g, h, cells, from + 1);
    }
}

/// A row decodes alike under two headers that name the same attributes
/// column by column.
pub proof fn lemma_row_under_same_names(g: Seq<Seq<char>>, h: Seq<Seq<char>>, row: RowView)
    requires
        same_names(g, h),
    ensures
        row_fault(g, row.cells) == row_fault(h, row.cells),
        record_of(g, row.cells) == record_of(h, row.cells),
        decode_row(g, row) == decode_row(h, row),
{
    lemma_same_first_fault(g, h, row.cells, 0);
    assert forall|attr: Attr| cell_of(g, row.cells, attr) == cell_of(h, row.cells, attr) by {
        lemma_same_columns(g, h, attr, g.len() as int);
    }
}

proof fn lemma_same_bad_row(
    g: Seq<Seq<char>>,
    h: Seq<Seq<char>>,
    a: Seq<RowView>,
    b: Seq<RowView>,
    from: int,
)
    requires
        same_names(g, h),
        a.len() == b.len(),
        1 <= from,
        forall|k: int| 1 <= k < a.len() ==> a[k] == b[k],
    ensures
        first_bad_row(g, a, from) == first_bad_row(h, b, from),
    decreases a.len() - from,
{
    if from < a.len() {
        lemma_row_under_same_names(g, h, a[from]);
        lemma_same_bad_row(g, h, a, b, from + 1);
    }
}

/// How a header spells its attributes does not matter: two tables with the
/// same rows after the header, whose headers name the same attribute in every
/// column, decode to the same result.
pub proof fn lemma_spelling_is_immaterial(a: Seq<RowView>, b: Seq<RowView>)
    requires
        a.len() == b.len(),
        a.len() > 0,
        same_names(a[0].cells, b[0].cells),
        forall|k: int| 1 <= k < a.len() ==> a[k] == b[k],
    ensures
        decode_table(a) == decode_table(b),
{
    let g = a[0].cells;
    let h = b[0].cells;
    lemma_same_bad_row(g, h, a, b, 1);
    match first_bad_row(g, a, 1) {
        Some(k) => {
            lemma_first_bad_row(g, a, 1);
            lemma_row_under_same_names(g, h, a[k]);
        },
        None => {
            let x = Seq::new((a.len() - 1) as nat, |i: int| record_of(g, a[i + 1].cells));
            let y = Seq::new((b.len() - 1) as nat, |i: int| record_of(h, b[i + 1].cells));
            assert forall|i: int| 0 <= i < x.len() implies x[i] == y[i] by {
                lemma_row_under_same_names(g, h, a[i + 1]);
            }
            assert(x =~= y);
        },
    }
}

/// Where column `j` stands after a column is put in at `k`.
pub open spec fn moved(j: int, k: int) -> int {
    if j < k {
        j
    } else {
        j + 1
    }
}

/// A fault, after a column is put in at `k`.
pub open spec fn moved_fault(fault: Option<(int, FaultKind)>, k: int) -> Option<(int, FaultKind)> {
    match fault {
        Some((j, kind)) => Some((moved(j, k), kind)),
        None => None,
    }
}

spec fn moved_column(column: Option<int>, k: int) -> Option<int> {
    match column {
        Some(j) => Some(moved(j, k)),
        None => None,
    }
}

proof fn lemma_column_in_range(header: Seq<Seq<char>>, attr: Attr, end: int)
    ensures
        match column_upto(header, attr, end) {
            Some(j) => 0 <= j < end,
            None => true,
        },
    decreases end,
{
    if end > 0 {
        lemma_column_in_range(header, attr, end - 1);
    }
}

proof fn lemma_wider_column(h: Seq<Seq<char>>, k: int, name: Seq<char>, attr: Attr, end: int)
    requires
        0 <= k <= h.len(),
        attr_of(name) is None,
        0 <= end <= h.len(),
    ensures
        column_upto(h.insert(k, name), attr, moved(end, k)) == moved_column(
            column_upto(h, attr, end),
            k,
        ),
        end <= k ==> column_upto(h.insert(k, name), attr, end) == column_upto(h, attr, end),
    decreases end,
{
    let w = h.insert(k, name);
    h.insert_ensures(k, name);
    lemma_column_in_range(h, attr, end);
    if end > 0 {
        lemma_wider_column(h, k, name, attr, end - 1);
        lemma_column_in_range(h, attr, end - 1);
        if end - 1 < k {
            assert(w[end - 1] == h[end - 1]);
            assert(column_upto(w, attr, end) == column_upto(h, attr, end));
        } else {
            assert(w[end] == h[end - 1]);
        }
    }
    if end == k {
        assert(w[k] == name);
        assert(column_upto(w, attr, k + 1) == column_upto(w, attr, k));
    }
}

proof fn lemma_wider_cell_fault(
    h: Seq<Seq<char>>,
    c: Seq<Seq<char>>,
    k: int,
    name: Seq<char>,
    cell: Seq<char>,
    j: int,
)
    requires
        0 <= k <= h.len(),
        c.len() == h.len(),
        attr_of(name) is None,
        0 <= j < h.len(),
    ensures
        cell_fault(h.insert(k, name), c.insert(k, cell), moved(j, k)) == cell_fault(h, c, j),
        cell_fault(h.insert(k, name), c.insert(k, cell), k) is None,
{
    let w = h.insert(k, name);
    h.insert_ensures(k, name);
    c.insert_ensures(k, cell);
    assert(w[moved(j, k)] == h[j]);
    assert(c.insert(k, cell)[moved(j, k)] == c[j]);
    match attr_of(h[j]) {
        Some(attr) => {
            lemma_wider_column(h, k, name, attr, j);
            if j < k {
                assert(is_duplicate(w, j) == is_duplicate(h, j));
            } else {
                assert(is_duplicate(w, j + 1) == is_duplicate(h, j));
            }
        },
        None => {},
    }
}

spec fn scan_start(from: int, k: int) -> int {
    if from <= k {
        from
    } else {
        from + 1
    }
}

proof fn lemma_wider_first_fault(
    h: Seq<Seq<char>>,
    c: Seq<Seq<char>>,
    k: int,
    name: Seq<char>,
    cell: Seq<char>,
    from: int,
)
    requires
        0 <= k <= h.len(),
        c.len() == h.len(),
        attr_of(name) is None,
        0 <= from <= h.len(),
    ensures
        first_fault(h.insert(k, name), c.insert(k, cell), scan_start(from, k)) == moved_fault(
            first_fault(h, c, from),
            k,
        ),
    decreases h.len() - from,
{
    let w = h.insert(k, name);
    let d = c.insert(k, cell);
    h.insert_ensures(k, name);
    if from < h.len() {
        lemma_wider_cell_fault(h, c, k, name, cell, from);
        lemma_wider_first_fault(h, c, k, name, cell, from + 1);
        if from == k {
            assert(first_fault(w, d, k) == first_fault(w, d, k + 1));
        }
    } else {
        if from == k {
            assert(cell_fault(w, d, k) is None) by {
                if h.len() > 0 {
                    lemma_wider_cell_fault(h, c, k, name, cell, 0);
                } else {
                    c.insert_ensures(k, cell);
                }
            }
            assert(first_fault(w, d, k + 1) is None);
        }
    }
}

/// A column that names no attribute is ignored: with such a column put in at
/// `k`, a row decodes to the same record, and its fault, if it has one, is
/// the same fault in the same cell, which now stands one column further
/// right if it stood at or after `k`.
pub proof fn lemma_unknown_column_in_row(
    header: Seq<Seq<char>>,
    cells: Seq<Seq<char>>,
    k: int,
    name: Seq<char>,
    cell: Seq<char>,
)
    requires
        0 <= k <= header.len(),
        k <= cells.len(),
        attr_of(name) is None,
    ensures
        record_of(header.insert(k, name), cells.insert(k, cell)) == record_of(header, cells),
        row_fault(header.insert(k, name), cells.insert(k, cell)) == moved_fault(
            row_fault(header, cells),
            k,
        ),
{
    let w = header.insert(k, name);
    let d = cells.insert(k, cell);
    header.insert_ensures(k, name);
    cells.insert_ensures(k, cell);
    if cells.len() == header.len() {
        lemma_wider_first_fault(header, cells, k, name, cell, 0);
        if k == 0 {
            if header.len() > 0 {
                lemma_wider_cell_fault(header, cells, k, name, cell, 0);
            }
            assert(cell_fault(w, d, 0) is None);
            assert(first_fault(w, d, 0) == first_fault(w, d, 1));
        }
    }
    assert forall|attr: Attr| cell_of(w, d, attr) == cell_of(header, cells, attr) by {
        lemma_wider_column(header, k, name, attr, header.len() as int);
        lemma_column_in_range(header, attr, header.len() as int);
        match column_of(header, attr) {
            Some(j) => {
                if j < cells.len() {
                    assert(d[moved(j, k)] == cells[j]);
                }
            },
            None => {},
        }
    }
}

/// The table `rows` with one more column put in at `k`: `column[r]` is the
/// new cell of row `r`, so `column[0]` is the new column's header.
pub open spec fn with_column(rows: Seq<RowView>, k: int, column: Seq<Seq<char>>) -> Seq<RowView> {
    Seq::new(
        rows.len(),
        |r: int| RowView { line: rows[r].line, cells: rows[r].cells.insert(k, column[r]) },
    )
}

proof fn lemma_wider_bad_row(rows: Seq<RowView>, k: int, column: Seq<Seq<char>>, from: int)
    requires
        rows.len() > 0,
        column.len() == rows.len(),
        attr_of(column[0]) is None,
        forall|r: int| 0 <= r < rows.len() ==> 0 <= k <= (#[trigger] rows[r]).cells.len(),
        1 <= from,
    ensures
        first_bad_row(with_column(rows, k, column)[0].cells, with_column(rows, k, column), from)
            == first_bad_row(rows[0].cells, rows, from),
    decreases rows.len() - from,
{
    if from < rows.len() {
        lemma_unknown_column_in_row(rows[0].cells, rows[from].cells, k, column[0], column[from]);
        lemma_wider_bad_row(rows, k, column, from + 1);
    }
}

/// A column that names no attribute is ignored: with such a column put into
/// the header and every row, a table that decodes still decodes, to the same
/// records, and one that does not still fails, on the same line and for the
/// same reason.
pub proof fn lemma_unknown_column_is_ignored(rows: Seq<RowView>, k: int, column: Seq<Seq<char>>)
    requires
        rows.len() > 0,
        column.len() == rows.len(),
        attr_of(column[0]) is None,
        forall|r: int| 0 <= r < rows.len() ==> 0 <= k <= (#[trigger] rows[r]).cells.len(),
    ensures
        match decode_table(rows) {
            Ok(list) => decode_table(with_column(rows, k, column)) == Ok::<
                Seq<LendableTableView>,
                DecodeError,
            >(list),
            Err(e) => match decode_table(with_column(rows, k, column)) {
                Ok(_) => false,
                Err(f) => f.line == e.line && f.kind == e.kind,
            },
        },
{
    let wide = with_column(rows, k, column);
    let g = rows[0].cells;
    let w = wide[0].cells;
    lemma_wider_bad_row(rows, k, column, 1);
    match first_bad_row(g, rows, 1) {
        Some(b) => {
            lemma_first_bad_row(g, rows, 1);
            lemma_unknown_column_in_row(g, rows[b].cells, k, column[0], column[b]);
        },
        None => {
            let x = Seq::new((rows.len() - 1) as nat, |i: int| record_of(g, rows[i + 1].cells));
            let y = Seq::new((wide.len() - 1) as nat, |i: int| record_of(w, wide[i + 1].cells));
            assert forall|i: int| 0 <= i < x.len() implies x[i] == y[i] by {
                lemma_unknown_column_in_row(g, rows[i + 1].cells, k, column[0], column[i + 1]);
            }
            assert(x =~= y);
        },
    }
}

} // verus!
