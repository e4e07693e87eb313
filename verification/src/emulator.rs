//! The terminal emulator behind the screen model.
//!
//! The grid, the cursor and the modes live in `alacritty_terminal`'s `Term`,
//! and the escape-sequence decoder is its `Processor`. What this module
//! states of them is taken on trust from that crate; everything else in the
//! library is proved from these statements.

use alacritty_terminal::event::VoidListener;
use alacritty_terminal::grid::Dimensions;
use alacritty_terminal::index::Column;
use alacritty_terminal::index::Line;
use alacritty_terminal::term::test::TermSize;
use alacritty_terminal::term::Config;
use alacritty_terminal::term::Term;
use alacritty_terminal::vte::ansi;
use alacritty_terminal::vte::ansi::Processor;
use alacritty_terminal::vte::ansi::StdSyncHandler;
use vstd::prelude::*;

use crate::color::Color;

verus! {

/// The emulator keeps at most this many lines of scrollback.
pub const MAX_SCROLLBACK: usize = 10000;

/// Smallest number of columns of a grid: a double-width glyph needs two.
pub const MIN_COLUMNS: usize = 2;

/// Smallest number of visible lines of a grid.
pub const MIN_SCREEN_LINES: usize = 1;

/// Flag of a cell drawn with foreground and background exchanged.
pub const FLAG_INVERSE: u16 = 0x0001;

/// Flag of a cell in italics.
pub const FLAG_ITALIC: u16 = 0x0004;

/// Flag of the second column of a double-width glyph.
pub const FLAG_WIDE_CHAR_SPACER: u16 = 0x0040;

/// Flag of a dimmed cell.
pub const FLAG_DIM: u16 = 0x0080;

/// Mode bit set while the cursor is shown.
pub const MODE_SHOW_CURSOR: u32 = 0x0001;

/// Mode bit set while pasted text is to be bracketed.
pub const MODE_BRACKETED_PASTE: u32 = 0x0010;

/// Mode bit set while focus changes are to be reported.
pub const MODE_FOCUS_IN_OUT: u32 = 0x0800;

/// One position of the grid.
#[derive(Clone, Copy, Debug, PartialEq, Eq, Structural)]
pub struct Cell {
    /// The character shown; `'\0'` and `' '` both show as blank.
    pub c: char,
    /// Foreground colour.
    pub fg: Color,
    /// Background colour.
    pub bg: Color,
    /// Style flags, one bit each (`FLAG_INVERSE` and the others).
    pub flags: u16,
}

/// Shape of the cursor.
#[derive(Clone, Copy, Debug, PartialEq, Eq, Structural)]
pub enum CursorShape {
    Block,
    Underline,
    Beam,
    HollowBlock,
    Hidden,
}

/// Where the cursor is and how it is drawn. `line` counts from the top of
/// the visible screen, so scrollback lines are negative.
#[derive(Clone, Copy, Debug, PartialEq, Eq, Structural)]
pub struct Cursor {
    pub line: i32,
    pub column: usize,
    pub shape: CursorShape,
}

/// `alacritty_terminal::term::Term`, the terminal state, taken as opaque:
/// what it holds is spoken of through `grid_lines` and the other names below.
#[verifier::external_type_specification]
#[verifier::external_body]
#[verifier::reject_recursive_types(T)]
pub struct ExTerm<T>(Term<T>);

/// `alacritty_terminal::event::VoidListener`, the listener that drops every
/// event of the terminal.
#[verifier::external_type_specification]
#[verifier::external_body]
pub struct ExVoidListener(VoidListener);

/// The escape-sequence decoder, `vte`'s `Processor`, with the state that
/// carries a sequence over from one chunk of bytes to the next. It is kept
/// in a struct of its own because its type is bounded by a trait of `vte`.
#[verifier::external_body]
pub struct Decoder {
    inner: Processor<StdSyncHandler>,
}

/// The rows of the grid, oldest scrollback line first; the visible screen is
/// the last `grid_screen_lines` of them.
pub uninterp spec fn grid_lines(term: Term<VoidListener>) -> Seq<Seq<Cell>>;

/// Width of the grid in columns.
pub uninterp spec fn grid_columns(term: Term<VoidListener>) -> nat;

/// Height of the visible screen in lines.
pub uninterp spec fn grid_screen_lines(term: Term<VoidListener>) -> nat;

/// The terminal modes, one bit each (`MODE_BRACKETED_PASTE` and the others).
pub uninterp spec fn term_mode_bits(term: Term<VoidListener>) -> u32;

/// Line and column of the grid's cursor: where the next character goes.
/// The line counts from the top of the visible screen.
pub uninterp spec fn grid_cursor_point(term: Term<VoidListener>) -> (i32, usize);

/// The shape of the cursor style in force.
pub uninterp spec fn cursor_style_shape(term: Term<VoidListener>) -> CursorShape;

/// The terminal after `Processor::advance` has decoded `bytes` and applied
/// them to `term`, the decoder being in the state `decoder` before.
pub uninterp spec fn screen_after(
    term: Term<VoidListener>,
    decoder: Decoder,
    bytes: Seq<u8>,
) -> Term<VoidListener>;

/// Whether `after` is a state in which `Processor::advance` leaves the
/// decoder that took `bytes` in the state `before`, with `term` as the
/// terminal they were applied to. A relation and not a function: the decoder
/// keeps a reading of the clock while a synchronized update is open.
pub uninterp spec fn decoder_steps(
    before: Decoder,
    term: Term<VoidListener>,
    bytes: Seq<u8>,
    after: Decoder,
) -> bool;

/// The terminal after `Term::resize` has given `term` a screen of `rows`
/// lines and `cols` columns.
pub uninterp spec fn screen_resized(term: Term<VoidListener>, rows: nat, cols: nat) -> Term<
    VoidListener,
>;

/// Number of scrollback lines above the visible screen.
pub open spec fn grid_history(term: Term<VoidListener>) -> int {
    grid_lines(term).len() - grid_screen_lines(term)
}

/// The shape that every grid of the emulator has: at least the smallest
/// size, every row as wide as the grid, the screen within the rows, and the
/// scrollback within its bound.
pub open spec fn grid_ok(term: Term<VoidListener>) -> bool {
    &&& grid_columns(term) >= MIN_COLUMNS
    &&& grid_screen_lines(term) >= MIN_SCREEN_LINES
    &&& grid_screen_lines(term) <= grid_lines(term).len()
    &&& grid_lines(term).len() <= grid_screen_lines(term) + MAX_SCROLLBACK
    &&& forall|i: int|
        0 <= i < grid_lines(term).len() ==> (#[trigger] grid_lines(term)[i]).len() == grid_columns(
            term,
        )
}

/// The modes of a new terminal: the cursor shown, lines wrapped, and the two
/// hints that the emulator switches on by default.
pub const INITIAL_MODES: u32 = 0x28081;

/// The cell of a cleared grid: a blank in the default colours, no flags.
pub open spec fn blank_cell() -> Cell {
    Cell { c: ' ', fg: Color::Named(256), bg: Color::Named(257), flags: 0 }
}

/// `Term::new` with the default configuration, a size of `rows` by `cols`
/// and no event listener. The new grid has that size, no scrollback yet and
/// default cells throughout; the modes are the emulator's defaults, the
/// cursor stands in the top left corner and its style is a block.
/// The default configuration bounds the scrollback by `MAX_SCROLLBACK`.
#[verifier::external_body]
pub(crate) fn term_new(rows: usize, cols: usize) -> (term: Term<VoidListener>)
    requires
        rows >= MIN_SCREEN_LINES,
        cols >= MIN_COLUMNS,
    ensures
        grid_ok(term),
        grid_columns(term) == cols,
        grid_screen_lines(term) == rows,
        grid_lines(term).len() == rows,
        forall|i: int, j: int|
            0 <= i < rows && 0 <= j < cols ==> (#[trigger] grid_lines(term)[i][j]) == blank_cell(),
        term_mode_bits(term) == INITIAL_MODES,
        grid_cursor_point(term) == (0i32, 0usize),
        cursor_style_shape(term) == CursorShape::Block,
{
    Term::new(Config::default(), &TermSize::new(cols, rows), VoidListener)
}

/// `Processor::new`: a decoder in its ground state.
#[verifier::external_body]
pub(crate) fn decoder_new() -> Decoder {
    Decoder { inner: Processor::new() }
}

/// `Processor::advance`: decodes `bytes` and applies what they say to the
/// terminal. What the terminal then holds is named `screen_after`: it
/// follows from the terminal and the decoder before the call and from the
/// bytes. Whatever the bytes are, the grid keeps its size and its shape. The
/// decoder after the call is the one that these bytes left: `decoder_steps`
/// relates it to the decoder before.
#[verifier::external_body]
pub(crate) fn term_advance(
    term: &mut Term<VoidListener>,
    decoder: &mut Decoder,
    bytes: &[u8],
)
    requires
        grid_ok(*old(term)),
    ensures
        *final(term) == screen_after(*old(term), *old(decoder), bytes@),
        decoder_steps(*old(decoder), *old(term), bytes@, *final(decoder)),
        grid_ok(*final(term)),
        grid_columns(*final(term)) == grid_columns(*old(term)),
        grid_screen_lines(*final(term)) == grid_screen_lines(*old(term)),
{
    decoder.inner.advance(term, bytes);
}

/// `Term::resize`: gives the grid `rows` visible lines and `cols` columns,
/// reflowing or cutting the content. What the terminal then holds is named
/// `screen_resized`. The modes are not touched.
#[verifier::external_body]
pub(crate) fn term_resize(term: &mut Term<VoidListener>, rows: usize, cols: usize)
    requires
        grid_ok(*old(term)),
        rows >= MIN_SCREEN_LINES,
        cols >= MIN_COLUMNS,
    ensures
        *final(term) == screen_resized(*old(term), rows as nat, cols as nat),
        term_mode_bits(*final(term)) == term_mode_bits(*old(term)),
        grid_ok(*final(term)),
        grid_columns(*final(term)) == cols,
        grid_screen_lines(*final(term)) == rows,
{
    term.resize(TermSize::new(cols, rows));
}

/// `Dimensions::columns` of the terminal.
#[verifier::external_body]
pub(crate) fn term_columns(term: &Term<VoidListener>) -> (n: usize)
    ensures
        n == grid_columns(*term),
{
    term.columns()
}

/// `Dimensions::screen_lines` of the terminal.
#[verifier::external_body]
pub(crate) fn term_screen_lines(term: &Term<VoidListener>) -> (n: usize)
    ensures
        n == grid_screen_lines(*term),
{
    term.screen_lines()
}

/// `Dimensions::total_lines` of the terminal: scrollback and screen together.
#[verifier::external_body]
pub(crate) fn term_total_lines(term: &Term<VoidListener>) -> (n: usize)
    ensures
        n == grid_lines(*term).len(),
{
    term.total_lines()
}

/// The cell at `line` and `column` of the terminal's grid, read by the
/// grid's index operators; `line` counts from the top of the visible screen.
/// The colours are carried over variant by variant, a named colour as its
/// code.
#[verifier::external_body]
pub(crate) fn term_cell(term: &Term<VoidListener>, line: i32, column: usize) -> (cell: Cell)
    requires
        grid_ok(*term),
        -grid_history(*term) <= line < grid_screen_lines(*term),
        column < grid_columns(*term),
    ensures
        cell == grid_lines(*term)[line + grid_history(*term)][column as int],
{
    let cell = &term.grid()[Line(line)][Column(column)];
    let fg = match cell.fg {
        ansi::Color::Named(n) => Color::Named(n as u16),
        ansi::Color::Spec(c) => Color::TrueColor(c.r, c.g, c.b),
        ansi::Color::Indexed(i) => Color::Indexed(i),
    };
    let bg = match cell.bg {
        ansi::Color::Named(n) => Color::Named(n as u16),
        ansi::Color::Spec(c) => Color::TrueColor(c.r, c.g, c.b),
        ansi::Color::Indexed(i) => Color::Indexed(i),
    };
    Cell { c: cell.c, fg, bg, flags: cell.flags.bits() }
}

/// `Term::mode`, as the bits of its flags.
#[verifier::external_body]
pub(crate) fn term_modes(term: &Term<VoidListener>) -> (bits: u32)
    ensures
        bits == term_mode_bits(*term),
{
    term.mode().bits()
}

/// The point of the grid's cursor, the public field `cursor` of
/// `Term::grid`, as its line and its column.
#[verifier::external_body]
pub(crate) fn term_cursor_point(term: &Term<VoidListener>) -> (point: (i32, usize))
    ensures
        point == grid_cursor_point(*term),
{
    let point = term.grid().cursor.point;
    (point.line.0, point.column.0)
}

/// The shape of `Term::cursor_style`, variant by variant.
#[verifier::external_body]
pub(crate) fn term_cursor_shape(term: &Term<VoidListener>) -> (shape: CursorShape)
    ensures
        shape == cursor_style_shape(*term),
{
    match term.cursor_style().shape {
        ansi::CursorShape::Block => CursorShape::Block,
        ansi::CursorShape::Underline => CursorShape::Underline,
        ansi::CursorShape::Beam => CursorShape::Beam,
        ansi::CursorShape::HollowBlock => CursorShape::HollowBlock,
        ansi::CursorShape::Hidden => CursorShape::Hidden,
    }
}

} // verus!
