//! The terminal session core: the screen model fed by the byte stream of a
//! pseudo-terminal, with the working directory and the session log kept
//! beside it.
//!
//! Reading from and writing to the pseudo-terminal is the caller's part. The
//! caller hands every chunk it has read to [`TerminalInstance::process_input`]
//! and every chunk it has written to [`TerminalInstance::record_input`].

use alacritty_terminal::event::VoidListener;
use alacritty_terminal::term::Term;
use vstd::prelude::*;

use crate::cwd::feed_all;
use crate::cwd::is_notification;
use crate::cwd::lemma_notification_survives_splitting;
use crate::cwd::stream;
use crate::cwd_laws::lemma_fresh_trackers_agree;
use crate::cwd::spec_feed;
use crate::cwd::CwdTracker;
use crate::cwd::Scan;
use crate::emulator::cursor_style_shape;
use crate::emulator::decoder_new;
use crate::emulator::decoder_steps;
use crate::emulator::grid_cursor_point;
use crate::emulator::screen_resized;
use crate::emulator::blank_cell;
use crate::emulator::grid_columns;
use crate::emulator::grid_history;
use crate::emulator::grid_lines;
use crate::emulator::grid_ok;
use crate::emulator::grid_screen_lines;
use crate::emulator::screen_after;
use crate::emulator::term_advance;
use crate::emulator::term_cell;
use crate::emulator::term_columns;
use crate::emulator::term_cursor_point;
use crate::emulator::term_cursor_shape;
use crate::emulator::term_mode_bits;
use crate::emulator::term_modes;
use crate::emulator::term_new;
use crate::emulator::term_resize;
use crate::emulator::term_screen_lines;
use crate::emulator::term_total_lines;
use crate::emulator::Cell;
use crate::emulator::Cursor;
use crate::emulator::CursorShape;
use crate::emulator::Decoder;
use crate::emulator::FLAG_WIDE_CHAR_SPACER;
use crate::emulator::INITIAL_MODES;
use crate::emulator::MAX_SCROLLBACK;
use crate::emulator::MIN_COLUMNS;
use crate::emulator::MIN_SCREEN_LINES;
use crate::emulator::MODE_BRACKETED_PASTE;
use crate::emulator::MODE_FOCUS_IN_OUT;
use crate::emulator::MODE_SHOW_CURSOR;
use crate::extract::is_spacer;
use crate::extract::extract_rows;
use crate::extract::fit_count;
use vstd::utf8::decode_utf8;
use vstd::utf8::encode_utf8;
use vstd::utf8::valid_utf8;

use crate::extract::lemma_text_bytes_concat;
use crate::extract::lemma_text_bytes_is_encoded_len;
use crate::extract::lemma_text_bytes_prefix;
use crate::extract::lemma_text_bytes_push;
use crate::extract::row_chars;
use crate::extract::spec_selected_text;
use crate::extract::text_bytes;
use crate::extract::trimmed_len;
use crate::extract::utf8_len;
use crate::extract::MAX_SELECTION_COPY_BYTES;
use crate::selection::TerminalSelectionState;
use crate::vtlog::log_input;
use crate::vtlog::log_output;
use crate::vtlog::shown_len;
use crate::vtlog::shown_line;
use crate::vtlog::LogState;
use crate::vtlog::SessionLog;
use crate::vtlog::VtLogEntry;
use crate::vtlog::VT_LOG_MAX_LINES;

verus! {

/// What `String::from_utf8_lossy` makes of `bytes`: their text, with every
/// invalid sequence replaced by U+FFFD. Valid UTF-8 is decoded as it is.
pub uninterp spec fn utf8_lossy(bytes: Seq<u8>) -> Seq<char>;

/// `String::from_utf8_lossy`, as an owned string: the text named
/// `utf8_lossy`, which for valid UTF-8 is the text that the bytes encode.
#[verifier::external_body]
fn decode_lossy(bytes: &[u8]) -> (text: String)
    ensures
        text@ == utf8_lossy(bytes@),
        valid_utf8(bytes@) ==> text@ == decode_utf8(bytes@),
{
    String::from_utf8_lossy(bytes).into_owned()
}

/// What one call of [`TerminalInstance::process_input`] met.
#[derive(Clone, Copy, Debug, PartialEq, Eq, Structural)]
pub struct ProcessInputResult {
    /// At least one chunk of output had arrived.
    pub had_input: bool,
    /// The reader has reached the end of the stream.
    pub pty_closed: bool,
}

/// The views of a list of chunks.
pub open spec fn chunk_views(chunks: Seq<Vec<u8>>) -> Seq<Seq<u8>> {
    chunks.map_values(|c: Vec<u8>| c@)
}

/// The log after the chunks `chunks` of output, in order.
pub open spec fn log_outputs(st: LogState, chunks: Seq<Seq<u8>>) -> LogState
    decreases chunks.len(),
{
    if chunks.len() == 0 {
        st
    } else {
        log_output(log_outputs(st, chunks.drop_last()), chunks.last())
    }
}

/// The terminal after the chunks `chunks` were decoded one by one, where
/// `decoders[i]` is the state in which the decoder took chunk `i`.
pub open spec fn screen_through(
    term: Term<VoidListener>,
    decoders: Seq<Decoder>,
    chunks: Seq<Seq<u8>>,
) -> Term<VoidListener>
    decreases chunks.len(),
{
    if chunks.len() == 0 {
        term
    } else {
        screen_after(
            screen_through(term, decoders.drop_last(), chunks.drop_last()),
            decoders[chunks.len() - 1],
            chunks.last(),
        )
    }
}

/// Whether `decoders` are the states of one decoder that took the chunks
/// `chunks` one by one, starting at `term`: one state before each chunk and
/// one after the last, each chunk taken in the state that the chunk before
/// it left.
pub open spec fn decoder_carried(
    term: Term<VoidListener>,
    decoders: Seq<Decoder>,
    chunks: Seq<Seq<u8>>,
) -> bool
    decreases chunks.len(),
{
    if decoders.len() != chunks.len() + 1 {
        false
    } else if chunks.len() == 0 {
        true
    } else {
        &&& decoder_carried(term, decoders.drop_last(), chunks.drop_last())
        &&& decoder_steps(
            decoders[chunks.len() - 1],
            screen_through(term, decoders.drop_last(), chunks.drop_last()),
            chunks.last(),
            decoders[chunks.len() as int],
        )
    }
}

/// Whether the grid of `term` has a cell at `line`, counted from the top of
/// the visible screen, and `column`.
pub open spec fn on_grid(term: Term<VoidListener>, line: int, column: int) -> bool {
    -grid_history(term) <= line < grid_screen_lines(term) && 0 <= column < grid_columns(term)
}

/// The cursor as it is to be drawn. It stands where the next character goes,
/// but never on the second half of a double-width glyph: from there it moves
/// to the first half, one column to the left, where there is one. It has the
/// shape of the cursor style in force, and is hidden while the mode that
/// shows the cursor is off.
pub open spec fn drawn_cursor(term: Term<VoidListener>) -> Cursor {
    let line = grid_cursor_point(term).0;
    let column = grid_cursor_point(term).1;
    let on_spacer = on_grid(term, line as int, column as int) && is_spacer(
        grid_lines(term)[line + grid_history(term)][column as int],
    );
    Cursor {
        line,
        column: if on_spacer && column > 0 {
            (column - 1) as usize
        } else {
            column
        },
        shape: if term_mode_bits(term) & MODE_SHOW_CURSOR == 0 {
            CursorShape::Hidden
        } else {
            cursor_style_shape(term)
        },
    }
}

/// The text of a payload: what it encodes where it is valid UTF-8, and
/// otherwise what lossy decoding makes of it.
pub open spec fn payload_text(payload: Seq<u8>) -> Seq<char> {
    if valid_utf8(payload) {
        decode_utf8(payload)
    } else {
        utf8_lossy(payload)
    }
}

/// The working directory after a scan: the text of the payload it reported,
/// or the directory as it was.
pub open spec fn dir_after(dir: Seq<char>, latest: Option<Seq<u8>>) -> Seq<char> {
    match latest {
        Some(payload) => payload_text(payload),
        None => dir,
    }
}

/// The row of the grid on which the cursor stands, counted from the oldest
/// line and kept within the grid.
pub open spec fn cursor_row(cursor: Cursor, history: int, total: int) -> int {
    if total == 0 || cursor.line + history < 0 {
        0
    } else if cursor.line + history > total - 1 {
        total - 1
    } else {
        cursor.line + history
    }
}

/// The column on which the cursor stands, kept within the grid.
pub open spec fn cursor_column(cursor: Cursor, cols: int) -> int {
    if cols == 0 {
        0
    } else if cursor.column > cols - 1 {
        cols - 1
    } else {
        cursor.column as int
    }
}

/// A terminal session without its transport: screen, modes, cursor, working
/// directory and log.
pub struct TerminalInstance {
    term: Term<VoidListener>,
    decoder: Decoder,
    log: SessionLog,
    tracker: CwdTracker,
    current_dir: String,
}

impl TerminalInstance {
    /// The grid has the shape that the emulator keeps, and a size that came
    /// from 16-bit dimensions.
    pub closed spec fn wf(&self) -> bool {
        &&& grid_ok(self.term)
        &&& grid_screen_lines(self.term) <= u16::MAX
        &&& grid_columns(self.term) <= u16::MAX
    }

    /// The terminal: grid, cursor and modes.
    pub closed spec fn spec_term(&self) -> Term<VoidListener> {
        self.term
    }

    /// The decoder, with what it carries over from the chunks it has seen.
    pub closed spec fn spec_decoder(&self) -> Decoder {
        self.decoder
    }

    /// The rows of the grid, oldest scrollback line first.
    pub open spec fn lines(&self) -> Seq<Seq<Cell>> {
        grid_lines(self.spec_term())
    }

    /// Width of the grid in columns.
    pub open spec fn spec_cols(&self) -> nat {
        grid_columns(self.spec_term())
    }

    /// Height of the visible screen in lines.
    pub open spec fn spec_rows(&self) -> nat {
        grid_screen_lines(self.spec_term())
    }

    /// The terminal modes, one bit each.
    pub open spec fn spec_modes(&self) -> u32 {
        term_mode_bits(self.spec_term())
    }

    /// The cursor as it is to be drawn.
    pub open spec fn spec_cursor(&self) -> Cursor {
        drawn_cursor(self.spec_term())
    }

    /// The session log.
    pub closed spec fn spec_log(&self) -> LogState {
        self.log@
    }

    /// The bytes that the working-directory tracker keeps.
    pub closed spec fn spec_tracker(&self) -> Seq<u8> {
        self.tracker@
    }

    /// The working directory.
    pub closed spec fn spec_current_dir(&self) -> Seq<char> {
        self.current_dir@
    }

    /// What a well-formed session's grid looks like: at least one visible
    /// line and two columns, no more than 65535 of either, the screen within
    /// the rows, the scrollback within its bound, and every row as wide as
    /// the grid.
    pub proof fn lemma_grid_shape(&self)
        requires
            self.wf(),
        ensures
            MIN_SCREEN_LINES <= self.spec_rows() <= u16::MAX,
            MIN_COLUMNS <= self.spec_cols() <= u16::MAX,
            self.spec_rows() <= self.lines().len() <= self.spec_rows() + MAX_SCROLLBACK,
            forall|i: int|
                0 <= i < self.lines().len() ==> (#[trigger] self.lines()[i]).len()
                    == self.spec_cols(),
    {
    }

    /// A session with a blank screen of `rows` by `cols`, an empty log and
    /// `startup_dir` as its working directory. A screen has at least one
    /// line and two columns: smaller dimensions are raised to that.
    pub fn new(rows: u16, cols: u16, startup_dir: String) -> (t: Self)
        ensures
            t.wf(),
            t.spec_rows() == if rows < MIN_SCREEN_LINES {
                MIN_SCREEN_LINES as nat
            } else {
                rows as nat
            },
            t.spec_cols() == if cols < MIN_COLUMNS {
                MIN_COLUMNS as nat
            } else {
                cols as nat
            },
            t.lines().len() == t.spec_rows(),
            forall|i: int, j: int|
                0 <= i < t.spec_rows() && 0 <= j < t.spec_cols() ==> (#[trigger] t.lines()[i][j])
                    == blank_cell(),
            t.spec_modes() == INITIAL_MODES,
            t.spec_cursor() == (Cursor { line: 0, column: 0, shape: CursorShape::Block }),
            t.spec_log().lines.len() == 0,
            t.spec_log().pending.len() == 0,
            t.spec_tracker().len() == 0,
            t.spec_current_dir() == startup_dir@,
    {
        let screen_lines: usize = if (rows as usize) < MIN_SCREEN_LINES {
            MIN_SCREEN_LINES
        } else {
            rows as usize
        };
        let columns: usize = if (cols as usize) < MIN_COLUMNS {
            MIN_COLUMNS
        } else {
            cols as usize
        };
        let term = term_new(screen_lines, columns);
        proof {
            assert(grid_lines(term)[0][0] == blank_cell());
            assert(0u16 & FLAG_WIDE_CHAR_SPACER == 0) by (bit_vector);
            assert(0x28081u32 & 0x0001u32 != 0) by (bit_vector);
        }
        TerminalInstance {
            term,
            decoder: decoder_new(),
            log: SessionLog::new(),
            tracker: CwdTracker::new(),
            current_dir: startup_dir,
        }
    }

    /// Takes one chunk of the terminal's output: the working-directory
    /// tracker scans it, the log records it, and the decoder applies it to
    /// the screen. The screen keeps its size, and the decoder is left in the
    /// state in which the chunk ends, ready for the next.
    pub fn advance(&mut self, data: &[u8])
        requires
            old(self).wf(),
        ensures
            final(self).wf(),
            final(self).spec_term() == screen_after(
                old(self).spec_term(),
                old(self).spec_decoder(),
                data@,
            ),
            decoder_steps(
                old(self).spec_decoder(),
                old(self).spec_term(),
                data@,
                final(self).spec_decoder(),
            ),
            final(self).spec_rows() == old(self).spec_rows(),
            final(self).spec_cols() == old(self).spec_cols(),
            final(self).spec_log() == log_output(old(self).spec_log(), data@),
            final(self).spec_tracker() == spec_feed(old(self).spec_tracker(), data@).buffer,
            final(self).spec_current_dir() == dir_after(
                old(self).spec_current_dir(),
                spec_feed(old(self).spec_tracker(), data@).latest,
            ),
    {
        match self.tracker.feed(data) {
            Some(payload) => {
                self.current_dir = decode_lossy(payload.as_slice());
            },
            None => {},
        }
        self.log.append_output(data);
        term_advance(&mut self.term, &mut self.decoder, data);
    }

    /// Takes the chunks that have arrived from the reader since the last
    /// call, in order, and whether the reader has reached the end of the
    /// stream. Reports whether there was any chunk, and the end of the stream.
    /// One decoder takes all the chunks: each is decoded in the state that
    /// the one before it left, the first in the state that the last call
    /// left, so a sequence cut across two chunks is carried over.
    pub fn process_input(&mut self, chunks: &Vec<Vec<u8>>, disconnected: bool) -> (r:
        ProcessInputResult)
        requires
            old(self).wf(),
        ensures
            final(self).wf(),
            r.had_input == (chunks@.len() > 0),
            r.pty_closed == disconnected,
            final(self).spec_rows() == old(self).spec_rows(),
            final(self).spec_cols() == old(self).spec_cols(),
            final(self).spec_log() == log_outputs(old(self).spec_log(), chunk_views(chunks@)),
            final(self).spec_tracker() == feed_all(
                Scan { buffer: old(self).spec_tracker(), latest: None },
                chunk_views(chunks@),
            ).buffer,
            final(self).spec_current_dir() == dir_after(
                old(self).spec_current_dir(),
                feed_all(
                    Scan { buffer: old(self).spec_tracker(), latest: None },
                    chunk_views(chunks@),
                ).latest,
            ),
            exists|decoders: Seq<Decoder>|
                {
                    &&& #[trigger] decoder_carried(
                        old(self).spec_term(),
                        decoders,
                        chunk_views(chunks@),
                    )
                    &&& decoders[0] == old(self).spec_decoder()
                    &&& decoders.last() == final(self).spec_decoder()
                    &&& final(self).spec_term() == screen_through(
                        old(self).spec_term(),
                        decoders,
                        chunk_views(chunks@),
                    )
                },
            chunks@.len() == 0 ==> {
                &&& final(self).spec_term() == old(self).spec_term()
                &&& final(self).spec_decoder() == old(self).spec_decoder()
                &&& final(self).lines() == old(self).lines()
                &&& final(self).spec_modes() == old(self).spec_modes()
                &&& final(self).spec_cursor() == old(self).spec_cursor()
            },
    {
        let ghost views = chunk_views(chunks@);
        let ghost start = Scan { buffer: self.spec_tracker(), latest: None };
        let ghost mut decoders: Seq<Decoder> = seq![self.spec_decoder()];
        let mut i: usize = 0;
        assert(views.take(0) =~= Seq::<Seq<u8>>::empty());
        while i < chunks.len()
            invariant
                i <= chunks@.len(),
                views == chunk_views(chunks@),
                start == (Scan { buffer: old(self).spec_tracker(), latest: None }),
                self.wf(),
                self.spec_rows() == old(self).spec_rows(),
                self.spec_cols() == old(self).spec_cols(),
                self.spec_log() == log_outputs(old(self).spec_log(), views.take(i as int)),
                self.spec_tracker() == feed_all(start, views.take(i as int)).buffer,
                self.spec_current_dir() == dir_after(
                    old(self).spec_current_dir(),
                    feed_all(start, views.take(i as int)).latest,
                ),
                decoders.len() == i + 1,
                decoders[0] == old(self).spec_decoder(),
                decoders.last() == self.spec_decoder(),
                decoder_carried(old(self).spec_term(), decoders, views.take(i as int)),
                self.spec_term() == screen_through(
                    old(self).spec_term(),
                    decoders,
                    views.take(i as int),
                ),
                i == 0 ==> self.spec_term() == old(self).spec_term() && self.spec_decoder()
                    == old(self).spec_decoder(),
            decreases chunks@.len() - i,
        {
            let ghost before = decoders;
            self.advance(chunks[i].as_slice());
            proof {
                decoders = before.push(self.spec_decoder());
                assert(views.take(i + 1).drop_last() =~= views.take(i as int));
                assert(views.take(i + 1).last() == chunks@[i as int]@);
                assert(decoders.drop_last() =~= before);
            }
            i += 1;
        }
        assert(views.take(i as int) =~= views);
        ProcessInputResult { had_input: chunks.len() > 0, pty_closed: disconnected }
    }

    /// Records `data` as written to the terminal: one input line in the log.
    pub fn record_input(&mut self, data: &[u8])
        requires
            old(self).wf(),
        ensures
            final(self).wf(),
            final(self).spec_log() == log_input(old(self).spec_log(), data@),
            final(self).spec_term() == old(self).spec_term(),
            final(self).spec_decoder() == old(self).spec_decoder(),
            final(self).lines() == old(self).lines(),
            final(self).spec_rows() == old(self).spec_rows(),
            final(self).spec_cols() == old(self).spec_cols(),
            final(self).spec_modes() == old(self).spec_modes(),
            final(self).spec_cursor() == old(self).spec_cursor(),
            final(self).spec_tracker() == old(self).spec_tracker(),
            final(self).spec_current_dir() == old(self).spec_current_dir(),
    {
        self.log.log_input(data);
    }

    /// Gives the screen `rows` lines and `cols` columns and says whether it
    /// did. A request for less than one line or less than two columns is
    /// not carried out: it leaves the screen as it is. A resize that is
    /// carried out leaves the modes and the decoder as they were.
    pub fn resize(&mut self, rows: u16, cols: u16) -> (applied: bool)
        requires
            old(self).wf(),
        ensures
            final(self).wf(),
            applied == (rows >= MIN_SCREEN_LINES && cols >= MIN_COLUMNS),
            applied ==> {
                &&& final(self).spec_term() == screen_resized(
                    old(self).spec_term(),
                    rows as nat,
                    cols as nat,
                )
                &&& final(self).spec_rows() == rows
                &&& final(self).spec_cols() == cols
                &&& final(self).spec_modes() == old(self).spec_modes()
            },
            final(self).spec_decoder() == old(self).spec_decoder(),
            !applied ==> {
                &&& final(self).spec_term() == old(self).spec_term()
                &&& final(self).lines() == old(self).lines()
                &&& final(self).spec_rows() == old(self).spec_rows()
                &&& final(self).spec_cols() == old(self).spec_cols()
                &&& final(self).spec_modes() == old(self).spec_modes()
                &&& final(self).spec_cursor() == old(self).spec_cursor()
            },
            final(self).spec_log() == old(self).spec_log(),
            final(self).spec_tracker() == old(self).spec_tracker(),
            final(self).spec_current_dir() == old(self).spec_current_dir(),
    {
        if (rows as usize) < MIN_SCREEN_LINES || (cols as usize) < MIN_COLUMNS {
            false
        } else {
            term_resize(&mut self.term, rows as usize, cols as usize);
            true
        }
    }

    /// Height of the visible screen in lines.
    pub fn rows(&self) -> (n: usize)
        ensures
            n == self.spec_rows(),
    {
        term_screen_lines(&self.term)
    }

    /// Width of the grid in columns.
    pub fn cols(&self) -> (n: usize)
        ensures
            n == self.spec_cols(),
    {
        term_columns(&self.term)
    }

    /// Number of rows of the grid, scrollback and screen together.
    pub fn total_lines(&self) -> (n: usize)
        ensures
            n == self.lines().len(),
    {
        term_total_lines(&self.term)
    }

    /// Number of scrollback rows above the visible screen.
    pub fn scrollback_lines(&self) -> (n: usize)
        requires
            self.wf(),
        ensures
            n == self.lines().len() - self.spec_rows(),
    {
        term_total_lines(&self.term) - term_screen_lines(&self.term)
    }

    /// The cell in row `row`, counted from the oldest line, and column `col`;
    /// `None` outside the grid.
    pub fn cell_at(&self, row: usize, col: usize) -> (cell: Option<Cell>)
        requires
            self.wf(),
        ensures
            cell == if row < self.lines().len() && col < self.spec_cols() {
                Some(self.lines()[row as int][col as int])
            } else {
                None::<Cell>
            },
    {
        let total: usize = term_total_lines(&self.term);
        let cols: usize = term_columns(&self.term);
        if row < total && col < cols {
            let history: usize = total - term_screen_lines(&self.term);
            let line: i32 = (row as i32) - (history as i32);
            Some(term_cell(&self.term, line, col))
        } else {
            None
        }
    }

    /// The cursor: its line counted from the top of the visible screen, its
    /// column and its shape.
    pub fn cursor(&self) -> (cursor: Cursor)
        requires
            self.wf(),
        ensures
            cursor == self.spec_cursor(),
    {
        let point = term_cursor_point(&self.term);
        let line: i32 = point.0;
        let column: usize = point.1;
        let screen: usize = term_screen_lines(&self.term);
        let history: usize = term_total_lines(&self.term) - screen;
        let on_grid = -(history as i64) <= line as i64 && (line as i64) < screen as i64 && column
            < term_columns(&self.term);
        let on_spacer = on_grid && term_cell(&self.term, line, column).flags
            & FLAG_WIDE_CHAR_SPACER != 0;
        let shape = if term_modes(&self.term) & MODE_SHOW_CURSOR == 0 {
            CursorShape::Hidden
        } else {
            term_cursor_shape(&self.term)
        };
        Cursor {
            line,
            column: if on_spacer && column > 0 {
                column - 1
            } else {
                column
            },
            shape,
        }
    }

    /// The cell on which the cursor is drawn: its row, counted from the
    /// oldest line, and its column, both kept within the grid.
    pub fn cursor_cell(&self) -> (at: (usize, usize))
        requires
            self.wf(),
        ensures
            at.0 == cursor_row(
                self.spec_cursor(),
                self.lines().len() - self.spec_rows(),
                self.lines().len() as int,
            ),
            at.1 == cursor_column(self.spec_cursor(), self.spec_cols() as int),
            at.0 < self.lines().len(),
            at.1 < self.spec_cols(),
    {
        let cursor = self.cursor();
        let total: usize = term_total_lines(&self.term);
        let cols: usize = term_columns(&self.term);
        let history: usize = total - term_screen_lines(&self.term);
        let line: i64 = (cursor.line as i64) + (history as i64);
        let row: usize = if line < 0 {
            0
        } else if line > (total as i64) - 1 {
            total - 1
        } else {
            line as usize
        };
        let col: usize = if cursor.column > cols - 1 {
            cols - 1
        } else {
            cursor.column
        };
        (row, col)
    }

    /// The terminal modes, one bit each (`MODE_BRACKETED_PASTE` and the
    /// others).
    pub fn modes(&self) -> (bits: u32)
        ensures
            bits == self.spec_modes(),
    {
        term_modes(&self.term)
    }

    /// Whether pasted text is to be wrapped in paste brackets.
    pub fn is_bracketed_paste_enabled(&self) -> (b: bool)
        ensures
            b == (self.spec_modes() & MODE_BRACKETED_PASTE != 0),
    {
        term_modes(&self.term) & MODE_BRACKETED_PASTE != 0
    }

    /// Whether focus changes are to be reported to the terminal.
    pub fn is_focus_in_out_enabled(&self) -> (b: bool)
        ensures
            b == (self.spec_modes() & MODE_FOCUS_IN_OUT != 0),
    {
        term_modes(&self.term) & MODE_FOCUS_IN_OUT != 0
    }

    /// The working directory: the one the session started in, or the one
    /// that the last notification with a non-empty payload announced.
    pub fn current_dir(&self) -> (dir: &str)
        ensures
            dir@ == self.spec_current_dir(),
    {
        self.current_dir.as_str()
    }

    /// Number of lines that the log shows, the pending output included.
    pub fn vt_log_lines_len(&self) -> (n: usize)
        ensures
            n == shown_len(self.spec_log()),
            n <= VT_LOG_MAX_LINES + 1,
    {
        self.log.len()
    }

    /// The line that the log shows at `index`.
    pub fn vt_log_line(&self, index: usize) -> (entry: Option<VtLogEntry>)
        ensures
            match entry {
                Some(e) => shown_line(self.spec_log(), index as int) == Some(e@),
                None => shown_line(self.spec_log(), index as int) is None,
            },
    {
        self.log.line(index)
    }

    /// The text of the columns `from` to `to` of row `row`.
    fn row_text(&self, row: usize, from: usize, to: usize) -> (raw: Vec<char>)
        requires
            self.wf(),
            row < self.lines().len(),
            from <= to < self.spec_cols(),
        ensures
            raw@ == row_chars(self.lines()[row as int], from as int, to + 1),
    {
        let total: usize = term_total_lines(&self.term);
        let history: usize = total - term_screen_lines(&self.term);
        let line: i32 = (row as i32) - (history as i32);
        let mut raw: Vec<char> = Vec::new();
        let mut col: usize = from;
        while col <= to
            invariant
                self.wf(),
                row < grid_lines(self.term).len(),
                line + grid_history(self.term) == row,
                from <= col <= to + 1,
                to < grid_columns(self.term),
                raw@ == row_chars(grid_lines(self.term)[row as int], from as int, col as int),
            decreases to + 1 - col,
        {
            let cell = term_cell(&self.term, line, col);
            if cell.flags & FLAG_WIDE_CHAR_SPACER == 0 {
                if cell.c == '\0' {
                    raw.push(' ');
                } else {
                    raw.push(cell.c);
                }
            }
            col += 1;
        }
        raw
    }

    /// The text that `selection` covers, for copying: row by row, each row
    /// without the blanks at its end, rows joined by line feeds, within the
    /// size cap. `None` where nothing is selected or the text is empty.
    pub fn selected_text(&self, selection: &TerminalSelectionState) -> (text: Option<String>)
        requires
            self.wf(),
        ensures
            match text {
                Some(s) => spec_selected_text(
                    self.lines(),
                    self.spec_cols() as int,
                    selection.spec_normalized(),
                ) == Some(s@),
                None => spec_selected_text(
                    self.lines(),
                    self.spec_cols() as int,
                    selection.spec_normalized(),
                ) is None,
            },
            text matches Some(s) ==> 0 < encode_utf8(s@).len() <= MAX_SELECTION_COPY_BYTES,
    {
        let (start, end) = match selection.normalized() {
            None => {
                return None;
            },
            Some(range) => range,
        };
        if start.0 == end.0 && start.1 == end.1 {
            return None;
        }
        let total: usize = term_total_lines(&self.term);
        let cols: usize = term_columns(&self.term);
        if total == 0 || cols == 0 || start.0 >= total {
            return None;
        }
        let last_row: usize = if end.0 < total - 1 {
            end.0
        } else {
            total - 1
        };
        let ghost lines = grid_lines(self.term);
        let ghost whole = extract_rows(
            lines,
            cols as int,
            start,
            last_row as int,
            end.1 as int,
            start.0 as int,
            Seq::empty(),
        );
        let mut out = String::new();
        let mut out_bytes: usize = 0;
        let mut count: usize = 0;
        let mut row: usize = start.0;
        let mut done = false;
        while row <= last_row && !done
            invariant
                self.wf(),
                lines == grid_lines(self.term),
                cols == grid_columns(self.term),
                total == lines.len(),
                last_row < total,
                start.0 <= row <= last_row + 1,
                out_bytes == text_bytes(out@),
                out_bytes <= MAX_SELECTION_COPY_BYTES,
                count <= out_bytes,
                count == out@.len(),
                whole == if done {
                    out@
                } else {
                    extract_rows(
                        lines,
                        cols as int,
                        start,
                        last_row as int,
                        end.1 as int,
                        row as int,
                        out@,
                    )
                },
            decreases
                    if done {
                        0
                    } else {
                        last_row + 2 - row
                    },
        {
            if out_bytes >= MAX_SELECTION_COPY_BYTES {
                done = true;
            } else {
                let from: usize = if row == start.0 {
                    start.1
                } else {
                    0
                };
                let to: usize = if row == last_row && end.1 < cols - 1 {
                    end.1
                } else {
                    cols - 1
                };
                if from <= to {
                    let raw = self.row_text(row, from, to);
                    let budget: usize = MAX_SELECTION_COPY_BYTES - out_bytes;
                    let fit: usize = fit_count(&raw, budget);
                    let keep: usize = trimmed_len(&raw, fit);
                    let ghost before = out@;
                    let ghost kept = raw@.take(keep as int);
                    proof {
                        lemma_text_bytes_prefix(raw@.take(fit as int), keep as int, fit as int);
                        assert(raw@.take(fit as int).take(keep as int) =~= kept);
                        assert(raw@.take(fit as int).take(fit as int) =~= raw@.take(fit as int));
                        assert(kept.take(0) =~= Seq::<char>::empty());
                        assert(before + Seq::<char>::empty() =~= before);
                    }
                    let mut k: usize = 0;
                    while k < keep
                        invariant
                            k <= keep <= raw@.len(),
                            kept == raw@.take(keep as int),
                            out@ == before + kept.take(k as int),
                            out_bytes == text_bytes(out@),
                            text_bytes(before) + text_bytes(kept) <= MAX_SELECTION_COPY_BYTES,
                            count == out@.len(),
                            count <= out_bytes,
                        decreases keep - k,
                    {
                        let c: char = raw[k];
                        let n: usize = utf8_len(c);
                        proof {
                            lemma_text_bytes_push(out@, c);
                            lemma_text_bytes_concat(before, kept.take(k + 1));
                            lemma_text_bytes_prefix(kept, k + 1, keep as int);
                            assert(kept.take(keep as int) =~= kept);
                            assert(before + kept.take(k + 1) =~= (before + kept.take(k as int)).push(
                                c,
                            ));
                        }
                        out.push(c);
                        out_bytes += n;
                        count += 1;
                        k += 1;
                    }
                    proof {
                        assert(kept.take(keep as int) =~= kept);
                        lemma_text_bytes_concat(before, kept);
                        if fit == raw@.len() {
                            assert(raw@.take(fit as int) =~= raw@);
                        }
                    }
                    if fit < raw.len() {
                        done = true;
                    } else if row < last_row {
                        if out_bytes + 1 > MAX_SELECTION_COPY_BYTES {
                            done = true;
                        } else {
                            proof {
                                lemma_text_bytes_push(out@, '\n');
                            }
                            out.push('\n');
                            out_bytes += 1;
                            count += 1;
                        }
                    }
                }
                if !done {
                    row += 1;
                }
            }
        }
        proof {
            lemma_text_bytes_is_encoded_len(out@);
        }
        if count == 0 {
            None
        } else {
            Some(out)
        }
    }
}

/// The text to put on the clipboard for `selection`: the selected text, if
/// the selection spans more than a single point. Like the selected text it
/// is never empty and never longer than `MAX_SELECTION_COPY_BYTES`.
pub fn selected_text_for_copy(
    terminal: &TerminalInstance,
    selection: &TerminalSelectionState,
) -> (text: Option<String>)
    requires
        terminal.wf(),
    ensures
        match text {
            Some(s) => spec_selected_text(
                terminal.lines(),
                terminal.spec_cols() as int,
                selection.spec_normalized(),
            ) == Some(s@),
            None => spec_selected_text(
                terminal.lines(),
                terminal.spec_cols() as int,
                selection.spec_normalized(),
            ) is None,
        },
        text matches Some(s) ==> 0 < encode_utf8(s@).len() <= MAX_SELECTION_COPY_BYTES,
{
    if !selection.has_selection() {
        return None;
    }
    terminal.selected_text(selection)
}

/// Chunks handed over in two batches are decoded as if they had come in
/// one: where one decoder took `first` from `term` on, and went on from the
/// state it was left in to take `second`, the states it went through are
/// those of one decoder taking `first + second`, and the screen is the same.
pub proof fn lemma_two_batches_are_one(
    term: Term<VoidListener>,
    first_decoders: Seq<Decoder>,
    first: Seq<Seq<u8>>,
    second_decoders: Seq<Decoder>,
    second: Seq<Seq<u8>>,
)
    requires
        decoder_carried(term, first_decoders, first),
        decoder_carried(screen_through(term, first_decoders, first), second_decoders, second),
        second_decoders[0] == first_decoders.last(),
    ensures
        decoder_carried(term, first_decoders.drop_last() + second_decoders, first + second),
        screen_through(term, first_decoders.drop_last() + second_decoders, first + second)
            == screen_through(
            screen_through(term, first_decoders, first),
            second_decoders,
            second,
        ),
    decreases second.len(),
{
    let all_decoders = first_decoders.drop_last() + second_decoders;
    let all = first + second;
    if second.len() == 0 {
        assert(all_decoders =~= first_decoders);
        assert(all =~= first);
    } else {
        lemma_two_batches_are_one(
            term,
            first_decoders,
            first,
            second_decoders.drop_last(),
            second.drop_last(),
        );
        assert(all_decoders.drop_last() =~= first_decoders.drop_last()
            + second_decoders.drop_last());
        assert(all.drop_last() =~= first + second.drop_last());
        assert(all.last() == second.last());
        assert(all_decoders[all.len() - 1] == second_decoders[second.len() - 1]);
        assert(all_decoders[all.len() as int] == second_decoders[second.len() as int]);
    }
}

/// However a notification with a non-empty payload is cut into chunks, a
/// session whose tracker holds nothing ends with the text of the payload as
/// its working directory, and with nothing kept by the tracker.
pub proof fn lemma_current_dir_survives_splitting(
    dir: Seq<char>,
    chunks: Seq<Seq<u8>>,
    payload: Seq<u8>,
)
    requires
        is_notification(stream(chunks), payload),
        payload.len() > 0,
    ensures
        dir_after(dir, feed_all(Scan { buffer: Seq::empty(), latest: None }, chunks).latest)
            == payload_text(payload),
        feed_all(Scan { buffer: Seq::empty(), latest: None }, chunks).buffer == Seq::<u8>::empty(),
{
    let s = stream(chunks);
    assert(s.take(s.len() as int) =~= s);
    lemma_notification_survives_splitting(chunks, s, payload, s.len() as int);
}

/// Two sessions with the same working directory and nothing kept by their
/// trackers, fed the same stream, end with the same working directory and
/// the same bytes kept, wherever the cuts fall.
pub proof fn lemma_current_dir_does_not_depend_on_cuts(
    dir: Seq<char>,
    first: Seq<Seq<u8>>,
    second: Seq<Seq<u8>>,
)
    requires
        stream(first) == stream(second),
    ensures
        dir_after(dir, feed_all(Scan { buffer: Seq::empty(), latest: None }, first).latest)
            == dir_after(
            dir,
            feed_all(Scan { buffer: Seq::empty(), latest: None }, second).latest,
        ),
        feed_all(Scan { buffer: Seq::empty(), latest: None }, first).buffer == feed_all(
            Scan { buffer: Seq::empty(), latest: None },
            second,
        ).buffer,
{
    lemma_fresh_trackers_agree(first, second);
}

} // verus!
