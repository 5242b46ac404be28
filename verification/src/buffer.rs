//! The lines of a text buffer, as the import logic reads them, and the
//! searches it makes over the first hundred of them.
use crate::paths::strs_view;
use crate::text::{
    contains, contains_exec, starts_with, to_chars, trim_end, trim_end_index,
    trim_start, trim_start_index, starts_with_exec,
};
use vstd::prelude::*;

verus! {

/// A position in a buffer: a zero-based row and a column within it.
#[derive(Clone, Copy, Debug, PartialEq, Eq, Structural)]
pub struct Point {
    pub row: u32,
    pub column: u32,
}

/// A snapshot of a buffer's text, one string per row, without line breaks.
/// A buffer always has a row; no strings at all reads as one empty row.
pub struct BufferSnapshot {
    pub lines: Vec<String>,
}

impl BufferSnapshot {
    /// The rows' text.
    pub open spec fn rows(&self) -> Seq<Seq<char>> {
        strs_view(self.lines@)
    }
}

/// The text of row `row`; empty past the last row.
pub open spec fn row_text(rows: Seq<Seq<char>>, row: int) -> Seq<char> {
    if 0 <= row < rows.len() {
        rows[row]
    } else {
        Seq::empty()
    }
}

/// The index of the last row.
pub open spec fn max_row(rows: Seq<Seq<char>>) -> int {
    if rows.len() == 0 {
        0
    } else {
        rows.len() - 1
    }
}

/// The last row that the import searches look at: at most row 99.
pub open spec fn scan_limit(rows: Seq<Seq<char>>) -> int {
    if max_row(rows) < 99 {
        max_row(rows)
    } else {
        99
    }
}

/// The line, once leading whitespace is dropped, begins an `import` statement.
pub open spec fn starts_import(line: Seq<char>) -> bool {
    let t = trim_start(line);
    ||| starts_with(t, "import "@)
    ||| starts_with(t, "import\""@)
    ||| starts_with(t, "import'"@)
    ||| starts_with(t, "import{"@)
}

/// The line, once trailing whitespace is dropped, ends with `;`, `"` or `'`.
pub open spec fn ends_statement(line: Seq<char>) -> bool {
    let t = trim_end(line);
    t.len() > 0 && (t.last() == ';' || t.last() == '"' || t.last() == '\'')
}

/// The row of the last import statement's end, found by scanning from `row`.
/// Outside a statement (`open` is `None`) each row up to `limit` that begins an
/// import opens one; inside a statement opened at `start`, rows are read until
/// one ends it. A statement that no row up to `limit + 10` ends counts as
/// ending on its first row, and the scan stops there.
pub open spec fn import_scan(
    rows: Seq<Seq<char>>,
    limit: int,
    row: int,
    open: Option<int>,
    last: Option<int>,
) -> Option<int>
    decreases limit + 12 - row, if open is None {
        1int
    } else {
        0int
    },
{
    if row < 0 || row > limit + 11 {
        last
    } else {
        match open {
            None => if row > limit {
                last
            } else if starts_import(row_text(rows, row)) {
                import_scan(rows, limit, row, Some(row), last)
            } else {
                import_scan(rows, limit, row + 1, None, last)
            },
            Some(start) => if ends_statement(row_text(rows, row)) {
                import_scan(rows, limit, row + 1, None, Some(row))
            } else if row + 1 > limit + 10 {
                Some(start)
            } else {
                import_scan(rows, limit, row + 1, Some(start), last)
            },
        }
    }
}

/// The row where the last import statement among the first hundred rows ends.
pub open spec fn last_import_row(rows: Seq<Seq<char>>) -> Option<int> {
    import_scan(rows, scan_limit(rows), 0, None, None)
}

/// Where a new import goes: the start of the row after the last import
/// statement, with `true`; or the buffer's start, with `false`, when there is none.
pub open spec fn insert_position(rows: Seq<Seq<char>>) -> (Point, bool) {
    match last_import_row(rows) {
        Some(r) => (Point { row: (r + 1) as u32, column: 0 }, true),
        None => (Point { row: 0, column: 0 }, false),
    }
}

/// Some row up to the scan limit contains both `name` and `import_path`.
pub open spec fn already_imported(rows: Seq<Seq<char>>, name: Seq<char>, import_path: Seq<char>) -> bool {
    exists|row: int|
        0 <= row <= scan_limit(rows) && contains(#[trigger] row_text(rows, row), import_path)
            && contains(row_text(rows, row), name)
}

/// The characters of row `row`.
fn row_chars(snapshot: &BufferSnapshot, row: usize) -> (r: Vec<char>)
    ensures
        r@ == row_text(snapshot.rows(), row as int),
{
    if row < snapshot.lines.len() {
        to_chars(snapshot.lines[row].as_str())
    } else {
        Vec::new()
    }
}

/// The last row the searches read.
fn limit_of(snapshot: &BufferSnapshot) -> (r: usize)
    ensures
        r == scan_limit(snapshot.rows()),
        r <= 99,
{
    let n = snapshot.lines.len();
    let max = if n == 0 {
        0
    } else {
        n - 1
    };
    if max < 99 {
        max
    } else {
        99
    }
}

/// Whether the line begins an `import` statement.
fn is_import_start(line: &Vec<char>) -> (r: bool)
    ensures
        r == starts_import(line@),
{
    let i = trim_start_index(line);
    let mut rest: Vec<char> = Vec::new();
    let mut k: usize = i;
    while k < line.len()
        invariant
            i <= k <= line@.len(),
            rest@ == line@.subrange(i as int, k as int),
        decreases line@.len() - k,
    {
        rest.push(line[k]);
        k = k + 1;
    }
    assert(rest@ =~= line@.skip(i as int));
    starts_with_exec(&rest, &to_chars("import ")) || starts_with_exec(&rest, &to_chars("import\""))
        || starts_with_exec(&rest, &to_chars("import'")) || starts_with_exec(
        &rest,
        &to_chars("import{"),
    )
}

/// Whether the line ends a statement.
fn is_statement_end(line: &Vec<char>) -> (r: bool)
    ensures
        r == ends_statement(line@),
{
    let j = trim_end_index(line);
    if j == 0 {
        return false;
    }
    let c = line[j - 1];
    assert(trim_end(line@).last() == c);
    c == ';' || c == '"' || c == '\''
}

/// Finds where a new import statement goes: after the last import statement
/// that begins in the first hundred rows.
pub fn find_import_insert_position(snapshot: &BufferSnapshot) -> (r: (Point, bool))
    ensures
        r == insert_position(snapshot.rows()),
{
    let ghost rows = snapshot.rows();
    let limit = limit_of(snapshot);
    let mut last: Option<usize> = None;
    let mut row: usize = 0;
    while row <= limit
        invariant
            rows == snapshot.rows(),
            limit == scan_limit(rows),
            limit <= 99,
            row <= limit + 11,
            last matches Some(l) ==> l <= limit + 10,
            last_import_row(rows) == import_scan(
                rows,
                limit as int,
                row as int,
                None,
                match last {
                    Some(l) => Some(l as int),
                    None => None,
                },
            ),
        decreases limit + 11 - row,
    {
        let line = row_chars(snapshot, row);
        if is_import_start(&line) {
            let start = row;
            let mut scan_row = row;
            loop
                invariant_except_break
                    rows == snapshot.rows(),
                    limit == scan_limit(rows),
                    limit <= 99,
                    start <= limit,
                    row == start,
                    start <= scan_row <= limit + 10,
                    last matches Some(l) ==> l <= limit + 10,
                    last_import_row(rows) == import_scan(
                        rows,
                        limit as int,
                        scan_row as int,
                        Some(start as int),
                        match last {
                            Some(l) => Some(l as int),
                            None => None,
                        },
                    ),
                ensures
                    start < row <= limit + 11,
                    last matches Some(l) ==> l <= limit + 10,
                    last_import_row(rows) == import_scan(
                        rows,
                        limit as int,
                        row as int,
                        None,
                        match last {
                            Some(l) => Some(l as int),
                            None => None,
                        },
                    ),
                decreases limit + 10 - scan_row,
            {
                let scan_line = row_chars(snapshot, scan_row);
                if is_statement_end(&scan_line) {
                    last = Some(scan_row);
                    row = scan_row + 1;
                    break;
                }
                scan_row = scan_row + 1;
                if scan_row > limit + 10 {
                    last = Some(start);
                    row = scan_row;
                    break;
                }
            }
        } else {
            row = row + 1;
        }
    }
    match last {
        Some(r) => (Point { row: (r + 1) as u32, column: 0 }, true),
        None => (Point { row: 0, column: 0 }, false),
    }
}

/// Whether one of the first hundred rows mentions both `name` and `import_path`.
pub fn is_already_imported(snapshot: &BufferSnapshot, name: &str, import_path: &str) -> (r: bool)
    ensures
        r == already_imported(snapshot.rows(), name@, import_path@),
{
    let ghost rows = snapshot.rows();
    let limit = limit_of(snapshot);
    let n = to_chars(name);
    let p = to_chars(import_path);
    let mut row: usize = 0;
    while row <= limit
        invariant
            rows == snapshot.rows(),
            limit == scan_limit(rows),
            limit <= 99,
            row <= limit + 1,
            n@ == name@,
            p@ == import_path@,
            forall|k: int|
                0 <= k < row ==> !(contains(#[trigger] row_text(rows, k), import_path@) && contains(
                    row_text(rows, k),
                    name@,
                )),
        decreases limit + 1 - row,
    {
        let line = row_chars(snapshot, row);
        if contains_exec(&line, &p) && contains_exec(&line, &n) {
            return true;
        }
        row = row + 1;
    }
    false
}

} // verus!
