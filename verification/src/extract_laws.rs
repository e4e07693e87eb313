//! What copied text looks like for a selection of three rows whose last row
//! is blank.

use vstd::prelude::*;

use crate::emulator::Cell;
use crate::extract::extract_rows;
use crate::extract::first_column;
use crate::extract::is_spacer;
use crate::extract::last_column;
use crate::extract::lemma_text_bytes_concat;
use crate::extract::lemma_text_bytes_prefix;
use crate::extract::lemma_text_bytes_push;
use crate::extract::lemma_trim_end;
use crate::extract::row_chars;
use crate::extract::shown_char;
use crate::extract::spec_selected_text;
use crate::extract::text_bytes;
use crate::extract::trim_end;
use crate::selection::GridPoint;

verus! {

/// Every cell of the row shows as a blank or is the spacer of a wide glyph.
pub open spec fn row_is_blank(row: Seq<Cell>) -> bool {
    forall|j: int| 0 <= j < row.len() ==> is_spacer(#[trigger] row[j]) || shown_char(row[j]) == ' '
}

/// A text takes at most four bytes for each of its characters.
pub proof fn lemma_text_bytes_bound(s: Seq<char>)
    ensures
        text_bytes(s) <= 4 * s.len(),
    decreases s.len(),
{
    if s.len() > 0 {
        lemma_text_bytes_bound(s.drop_last());
    }
}

/// A row gives at most one character for each of its columns.
pub proof fn lemma_row_chars_len(row: Seq<Cell>, from: int, to: int)
    requires
        0 <= from <= to,
    ensures
        row_chars(row, from, to).len() <= to - from,
    decreases to - from,
{
    if from < to {
        lemma_row_chars_len(row, from, to - 1);
    }
}

/// The text of a blank row is nothing once it is trimmed.
pub proof fn lemma_blank_row_trims_to_nothing(row: Seq<Cell>, from: int, to: int)
    requires
        row_is_blank(row),
        0 <= from <= to <= row.len(),
    ensures
        trim_end(row_chars(row, from, to)) == Seq::<char>::empty(),
    decreases to - from,
{
    if from < to {
        lemma_blank_row_trims_to_nothing(row, from, to - 1);
        let cell = row[to - 1];
        if !is_spacer(cell) {
            let before = row_chars(row, from, to - 1);
            assert(before.push(' ').drop_last() =~= before);
        }
    }
}

/// The trimmed text of a row takes at most four bytes for each column.
proof fn lemma_trimmed_row_bound(row: Seq<Cell>, from: int, to: int)
    requires
        0 <= from <= to,
    ensures
        text_bytes(row_chars(row, from, to)) <= 4 * (to - from),
        text_bytes(trim_end(row_chars(row, from, to))) <= 4 * (to - from),
{
    let raw = row_chars(row, from, to);
    lemma_row_chars_len(row, from, to);
    lemma_text_bytes_bound(raw);
    lemma_trim_end(raw);
    let t = trim_end(raw);
    lemma_text_bytes_prefix(raw, t.len() as int, raw.len() as int);
    assert(raw.take(raw.len() as int) =~= raw);
}

/// A selection of three rows that starts inside the grid and whose last row
/// is blank copies the trimmed text of its first row from the start column
/// on, a line feed, the trimmed text of its second row and one more line
/// feed: the last line of the copied text is empty and no line feed follows
/// it. Neither of the two texts ends in a blank.
pub proof fn lemma_three_rows_with_blank_last(
    lines: Seq<Seq<Cell>>,
    cols: int,
    start: GridPoint,
    end: GridPoint,
)
    requires
        1 <= cols <= u16::MAX,
        start.1 < cols,
        start.0 + 2 == end.0,
        end.0 < lines.len(),
        forall|i: int| 0 <= i < lines.len() ==> (#[trigger] lines[i]).len() == cols,
        row_is_blank(lines[end.0 as int]),
    ensures
        ({
            let first = trim_end(row_chars(lines[start.0 as int], start.1 as int, cols));
            let second = trim_end(row_chars(lines[start.0 + 1], 0, cols));
            &&& spec_selected_text(lines, cols, Some((start, end))) == Some(
                first.push('\n') + second.push('\n'),
            )
            &&& first.len() > 0 ==> first.last() != ' '
            &&& second.len() > 0 ==> second.last() != ' '
        }),
{
    let r = start.0 as int;
    let last_row = end.0 as int;
    let end_col = end.1 as int;
    let e = Seq::<char>::empty();
    let raw1 = row_chars(lines[r], start.1 as int, cols);
    let raw2 = row_chars(lines[r + 1], 0, cols);
    let first = trim_end(raw1);
    let second = trim_end(raw2);
    lemma_trim_end(raw1);
    lemma_trim_end(raw2);
    lemma_trimmed_row_bound(lines[r], start.1 as int, cols);
    lemma_trimmed_row_bound(lines[r + 1], 0, cols);
    // First row.
    assert(first_column(start, r) == start.1);
    assert(last_column(cols, last_row, end_col, r) == cols - 1);
    let out1 = (e + first).push('\n');
    assert(e + first =~= first);
    lemma_text_bytes_push(first, '\n');
    assert(extract_rows(lines, cols, start, last_row, end_col, r, e) == extract_rows(
        lines,
        cols,
        start,
        last_row,
        end_col,
        r + 1,
        out1,
    ));
    // Second row.
    assert(first_column(start, r + 1) == 0);
    assert(last_column(cols, last_row, end_col, r + 1) == cols - 1);
    let out2 = (out1 + second).push('\n');
    lemma_text_bytes_concat(out1, second);
    lemma_text_bytes_push(out1 + second, '\n');
    assert(extract_rows(lines, cols, start, last_row, end_col, r + 1, out1) == extract_rows(
        lines,
        cols,
        start,
        last_row,
        end_col,
        r + 2,
        out2,
    ));
    // Last row.
    let to = last_column(cols, last_row, end_col, last_row);
    assert(0 <= to <= cols - 1) by {
        assert(end_col >= 0);
    }
    let raw3 = row_chars(lines[last_row], 0, to + 1);
    lemma_blank_row_trims_to_nothing(lines[last_row], 0, to + 1);
    lemma_trimmed_row_bound(lines[last_row], 0, to + 1);
    assert(out2 + trim_end(raw3) =~= out2);
    assert(extract_rows(lines, cols, start, last_row, end_col, r + 2, out2) == out2);
    assert(out2 =~= first.push('\n') + second.push('\n'));
    assert(out2.len() > 0);
}

} // verus!
