//! Text extraction for copying a selection: which characters a row of cells
//! yields, how trailing blanks are trimmed, and how the size cap cuts.

use vstd::prelude::*;
use vstd::utf8::char_is_scalar;
use vstd::utf8::encode_scalar;
use vstd::utf8::encode_utf8;

use crate::emulator::Cell;
use crate::emulator::FLAG_WIDE_CHAR_SPACER;
use crate::selection::GridPoint;

verus! {

/// Copied text never takes more than this many bytes of UTF-8.
pub const MAX_SELECTION_COPY_BYTES: usize = 2097152;

/// Number of bytes that `c` takes in UTF-8.
pub open spec fn spec_utf8_len(c: char) -> nat {
    if (c as u32) < 0x80 {
        1
    } else if (c as u32) < 0x800 {
        2
    } else if (c as u32) < 0x10000 {
        3
    } else {
        4
    }
}

/// Number of bytes that `s` takes in UTF-8.
pub open spec fn text_bytes(s: Seq<char>) -> nat
    decreases s.len(),
{
    if s.len() == 0 {
        0
    } else {
        text_bytes(s.drop_last()) + spec_utf8_len(s.last())
    }
}

/// The second column of a double-width glyph, which holds no text of its own.
pub open spec fn is_spacer(cell: Cell) -> bool {
    cell.flags & FLAG_WIDE_CHAR_SPACER != 0
}

/// The character that a cell contributes: an unset cell reads as a blank.
pub open spec fn shown_char(cell: Cell) -> char {
    if cell.c == '\0' {
        ' '
    } else {
        cell.c
    }
}

/// The text of the columns `from` up to but not including `to` of a row:
/// the characters of its cells in order, spacer cells left out.
pub open spec fn row_chars(row: Seq<Cell>, from: int, to: int) -> Seq<char>
    decreases to - from,
{
    if to <= from {
        Seq::empty()
    } else if is_spacer(row[to - 1]) {
        row_chars(row, from, to - 1)
    } else {
        row_chars(row, from, to - 1).push(shown_char(row[to - 1]))
    }
}

/// `s` without the blanks at its end. Blanks elsewhere stay.
pub open spec fn trim_end(s: Seq<char>) -> Seq<char>
    decreases s.len(),
{
    if s.len() > 0 && s.last() == ' ' {
        trim_end(s.drop_last())
    } else {
        s
    }
}

/// Length of the longest prefix of `s`, at least `k` long, that takes no more
/// than `budget` bytes, given that the first `k` characters do.
pub open spec fn fit_len(s: Seq<char>, budget: int, k: int) -> int
    decreases s.len() - k,
{
    if k < 0 || k >= s.len() || text_bytes(s.take(k + 1)) > budget {
        k
    } else {
        fit_len(s, budget, k + 1)
    }
}

/// The longest prefix of `s` that takes no more than `budget` bytes.
pub open spec fn fitting_prefix(s: Seq<char>, budget: int) -> Seq<char> {
    s.take(fit_len(s, budget, 0))
}

/// The first column of `row` that a selection from `start` covers.
pub open spec fn first_column(start: GridPoint, row: int) -> int {
    if row == start.0 {
        start.1 as int
    } else {
        0
    }
}

/// The last column of `row` that a selection covers, in a grid `cols` wide,
/// where `last_row` is the last row taken and `end_col` the column at which
/// the selection ends.
pub open spec fn last_column(cols: int, last_row: int, end_col: int, row: int) -> int {
    if row == last_row && end_col < cols - 1 {
        end_col
    } else {
        cols - 1
    }
}

/// The text of the rows `row` to `last_row`, added to `out`.
///
/// Each row gives the text of its selected columns without the blanks at its
/// end, and a line feed follows every row but the last. A row of which no
/// column is selected gives nothing, not even a line feed. Nothing is added
/// once `out` has reached the cap; a row whose text would pass the cap is
/// cut to the longest prefix that fits, trimmed like a whole row, and ends
/// the text; so does a row after which the line feed would pass the cap.
pub open spec fn extract_rows(
    lines: Seq<Seq<Cell>>,
    cols: int,
    start: GridPoint,
    last_row: int,
    end_col: int,
    row: int,
    out: Seq<char>,
) -> Seq<char>
    decreases last_row - row + 1,
{
    if row > last_row || text_bytes(out) >= MAX_SELECTION_COPY_BYTES {
        out
    } else {
        let from = first_column(start, row);
        let to = last_column(cols, last_row, end_col, row);
        if from > to {
            extract_rows(lines, cols, start, last_row, end_col, row + 1, out)
        } else {
            let raw = row_chars(lines[row], from, to + 1);
            let budget = MAX_SELECTION_COPY_BYTES - text_bytes(out);
            if text_bytes(raw) > budget {
                out + trim_end(fitting_prefix(raw, budget))
            } else {
                let done = out + trim_end(raw);
                if row == last_row || text_bytes(done) + 1 > MAX_SELECTION_COPY_BYTES {
                    done
                } else {
                    extract_rows(lines, cols, start, last_row, end_col, row + 1, done.push('\n'))
                }
            }
        }
    }
}

/// The text that a selection copies from a grid of `cols` columns.
///
/// There is none without a range, for a range of a single point, for a grid
/// without rows or columns, for a range that starts below the last row, and
/// where the extracted text is empty. A range that ends below the last row
/// is taken up to the last row.
pub open spec fn spec_selected_text(
    lines: Seq<Seq<Cell>>,
    cols: int,
    range: Option<(GridPoint, GridPoint)>,
) -> Option<Seq<char>> {
    match range {
        None => None,
        Some((start, end)) => {
            if start == end || lines.len() == 0 || cols <= 0 || start.0 >= lines.len() {
                None
            } else {
                let last_row = if end.0 < lines.len() - 1 {
                    end.0 as int
                } else {
                    lines.len() - 1
                };
                let text = extract_rows(lines, cols, start, last_row, end.1 as int, start.0 as int, Seq::empty());
                if text.len() == 0 {
                    None
                } else {
                    Some(text)
                }
            }
        },
    }
}

/// Appending a character adds its length.
pub proof fn lemma_text_bytes_push(s: Seq<char>, c: char)
    ensures
        text_bytes(s.push(c)) == text_bytes(s) + spec_utf8_len(c),
{
    assert(s.push(c).drop_last() =~= s);
}

/// The bytes of a concatenation are the bytes of its parts.
pub proof fn lemma_text_bytes_concat(a: Seq<char>, b: Seq<char>)
    ensures
        text_bytes(a + b) == text_bytes(a) + text_bytes(b),
    decreases b.len(),
{
    if b.len() == 0 {
        assert(a + b =~= a);
    } else {
        lemma_text_bytes_concat(a, b.drop_last());
        assert((a + b).drop_last() =~= a + b.drop_last());
    }
}

/// `text_bytes` counts what the UTF-8 encoding of the text takes.
pub proof fn lemma_text_bytes_is_encoded_len(s: Seq<char>)
    ensures
        text_bytes(s) == encode_utf8(s).len(),
    decreases s.len(),
{
    if s.len() > 0 {
        let head = seq![s[0]];
        let tail = s.drop_first();
        lemma_text_bytes_is_encoded_len(tail);
        lemma_text_bytes_concat(head, tail);
        assert(head + tail =~= s);
        lemma_text_bytes_push(Seq::<char>::empty(), s[0]);
        assert(Seq::<char>::empty().push(s[0]) =~= head);
        assert(text_bytes(head) == spec_utf8_len(s[0]));
        char_is_scalar(s[0]);
        assert(encode_scalar(s[0] as u32).len() == spec_utf8_len(s[0]));
    }
}

/// A prefix takes no more bytes than the whole, and fewer if it is shorter.
pub proof fn lemma_text_bytes_prefix(s: Seq<char>, i: int, j: int)
    requires
        0 <= i <= j <= s.len(),
    ensures
        text_bytes(s.take(i)) <= text_bytes(s.take(j)),
        i < j ==> text_bytes(s.take(i)) < text_bytes(s.take(j)),
    decreases j - i,
{
    if i < j {
        lemma_text_bytes_prefix(s, i, j - 1);
        assert(s.take(j).drop_last() =~= s.take(j - 1));
    }
}

/// What `fit_len` returns is the length of the longest prefix within the
/// budget.
pub proof fn lemma_fit_len(s: Seq<char>, budget: int, k: int)
    requires
        0 <= k <= s.len(),
        text_bytes(s.take(k)) <= budget,
    ensures
        ({
            let n = fit_len(s, budget, k);
            &&& k <= n <= s.len()
            &&& text_bytes(s.take(n)) <= budget
            &&& n < s.len() ==> text_bytes(s.take(n + 1)) > budget
            &&& n == s.len() <==> text_bytes(s) <= budget
        }),
    decreases s.len() - k,
{
    if k >= s.len() {
        assert(s.take(k) =~= s);
    } else if text_bytes(s.take(k + 1)) > budget {
        lemma_text_bytes_prefix(s, k + 1, s.len() as int);
        assert(s.take(s.len() as int) =~= s);
    } else {
        lemma_fit_len(s, budget, k + 1);
    }
}

/// Trimming takes blanks from the end only: the result is a prefix, it does
/// not end in a blank, and all that was removed is blanks.
pub proof fn lemma_trim_end(s: Seq<char>)
    ensures
        ({
            let t = trim_end(s);
            &&& t.len() <= s.len()
            &&& t == s.take(t.len() as int)
            &&& t.len() > 0 ==> t.last() != ' '
            &&& forall|i: int| t.len() <= i < s.len() ==> s[i] == ' '
        }),
    decreases s.len(),
{
    if s.len() > 0 && s.last() == ' ' {
        let init = s.drop_last();
        lemma_trim_end(init);
        let t = trim_end(s);
        assert(t == trim_end(init));
        assert(t =~= s.take(t.len() as int));
        assert forall|i: int| t.len() <= i < s.len() implies s[i] == ' ' by {
            if i < init.len() {
                assert(init[i] == s[i]);
            }
        }
    } else {
        assert(s =~= s.take(s.len() as int));
    }
}

/// Number of bytes that `c` takes in UTF-8.
pub fn utf8_len(c: char) -> (n: usize)
    ensures
        n == spec_utf8_len(c),
        1 <= n <= 4,
{
    let code: u32 = c as u32;
    if code < 0x80 {
        1
    } else if code < 0x800 {
        2
    } else if code < 0x10000 {
        3
    } else {
        4
    }
}

/// Length of the longest prefix of `raw` that takes no more than `budget`
/// bytes.
pub fn fit_count(raw: &Vec<char>, budget: usize) -> (k: usize)
    ensures
        k == fit_len(raw@, budget as int, 0),
        k <= raw@.len(),
        text_bytes(raw@.take(k as int)) <= budget,
        k == raw@.len() <==> text_bytes(raw@) <= budget,
{
    let mut k: usize = 0;
    let mut bytes: usize = 0;
    assert(raw@.take(0) =~= Seq::<char>::empty());
    while k < raw.len()
        invariant
            k <= raw@.len(),
            bytes == text_bytes(raw@.take(k as int)),
            bytes <= budget,
            fit_len(raw@, budget as int, k as int) == fit_len(raw@, budget as int, 0),
        decreases raw@.len() - k,
    {
        let n: usize = utf8_len(raw[k]);
        proof {
            assert(raw@.take(k + 1).drop_last() =~= raw@.take(k as int));
        }
        if n > budget - bytes {
            proof {
                lemma_fit_len(raw@, budget as int, k as int);
            }
            return k;
        }
        bytes += n;
        k += 1;
    }
    proof {
        lemma_fit_len(raw@, budget as int, k as int);
    }
    k
}

/// Length of the first `n` characters of `raw` without the blanks at their
/// end.
pub fn trimmed_len(raw: &Vec<char>, n: usize) -> (k: usize)
    requires
        n <= raw@.len(),
    ensures
        k <= n,
        raw@.take(k as int) == trim_end(raw@.take(n as int)),
{
    let mut k: usize = n;
    while k > 0 && raw[k - 1] == ' '
        invariant
            k <= n <= raw@.len(),
            trim_end(raw@.take(k as int)) == trim_end(raw@.take(n as int)),
        decreases k,
    {
        assert(raw@.take(k as int).drop_last() =~= raw@.take(k - 1));
        k -= 1;
    }
    k
}

} // verus!
