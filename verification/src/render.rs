//! How the grid is painted: the colours of a cell under selection and
//! cursor, and when the cursor blinks.

use vstd::prelude::*;

use crate::color::resolve_color;
use crate::color::rgb;
use crate::color::spec_resolve_color;
use crate::color::spec_rgb;
use crate::color::spec_transparent;
use crate::color::transparent;
use crate::color::Rgba;
use crate::emulator::Cell;
use crate::emulator::CursorShape;
use crate::emulator::FLAG_DIM;
use crate::emulator::FLAG_INVERSE;
use crate::emulator::FLAG_ITALIC;

verus! {

/// Half the blink period of the cursor, in milliseconds.
pub const CURSOR_BLINK_MS: u64 = 500;

/// What is drawn in one cell.
#[derive(Clone, Copy, Debug, PartialEq, Eq, Structural)]
pub struct CellStyle {
    /// The character drawn; an unset cell draws a blank.
    pub ch: char,
    pub fg: Rgba,
    pub bg: Rgba,
}

/// A dimmed or italic cell, drawn as ghost text.
pub open spec fn is_ghost(cell: Cell) -> bool {
    cell.flags & (FLAG_DIM | FLAG_ITALIC) != 0
}

/// A cell drawn with foreground and background exchanged.
pub open spec fn is_inverse(cell: Cell) -> bool {
    cell.flags & FLAG_INVERSE != 0
}

/// Foreground and background of a cell before selection and cursor: ghost
/// text is grey on nothing, any other cell has its own colours; an inverse
/// cell exchanges the two, a transparent background counting as the
/// default one.
pub open spec fn spec_base_colors(cell: Cell) -> (Rgba, Rgba) {
    let fg = if is_ghost(cell) {
        spec_rgb(140, 140, 140)
    } else {
        spec_resolve_color(cell.fg, true)
    };
    let bg = if is_ghost(cell) {
        spec_transparent()
    } else {
        spec_resolve_color(cell.bg, false)
    };
    if is_inverse(cell) {
        (
            if bg == spec_transparent() {
                spec_rgb(18, 18, 18)
            } else {
                bg
            },
            fg,
        )
    } else {
        (fg, bg)
    }
}

/// What is drawn in a cell. Cursor and selection both darken the text; the
/// selection's background wins over the cursor's.
pub open spec fn spec_cell_style(cell: Cell, selected: bool, show_cursor: bool) -> CellStyle {
    let base = spec_base_colors(cell);
    CellStyle {
        ch: if cell.c == '\0' {
            ' '
        } else {
            cell.c
        },
        fg: if show_cursor || selected {
            spec_rgb(18, 18, 18)
        } else {
            base.0
        },
        bg: if selected {
            spec_rgb(180, 180, 180)
        } else if show_cursor {
            spec_rgb(204, 204, 204)
        } else {
            base.1
        },
    }
}

/// What is drawn in a cell that is selected or not and holds the visible
/// cursor or not.
pub fn cell_style(cell: &Cell, selected: bool, show_cursor: bool) -> (style: CellStyle)
    ensures
        style == spec_cell_style(*cell, selected, show_cursor),
{
    let ghost_text = cell.flags & (FLAG_DIM | FLAG_ITALIC) != 0;
    let inverse = cell.flags & FLAG_INVERSE != 0;
    let mut base_fg = if ghost_text {
        rgb(140, 140, 140)
    } else {
        resolve_color(cell.fg, true)
    };
    let mut base_bg = if ghost_text {
        transparent()
    } else {
        resolve_color(cell.bg, false)
    };
    if inverse {
        if base_bg.r == 0 && base_bg.g == 0 && base_bg.b == 0 && base_bg.a == 0 {
            base_bg = rgb(18, 18, 18);
        }
        let swapped = base_fg;
        base_fg = base_bg;
        base_bg = swapped;
    }
    CellStyle {
        ch: if cell.c == '\0' {
            ' '
        } else {
            cell.c
        },
        fg: if show_cursor || selected {
            rgb(18, 18, 18)
        } else {
            base_fg
        },
        bg: if selected {
            rgb(180, 180, 180)
        } else if show_cursor {
            rgb(204, 204, 204)
        } else {
            base_bg
        },
    }
}

/// Whether the cursor is drawn at `millis` milliseconds of wall-clock time:
/// never while hidden, and otherwise during every other half period.
pub fn cursor_visible(shape: CursorShape, millis: u64) -> (visible: bool)
    ensures
        visible == (shape != CursorShape::Hidden && (millis / CURSOR_BLINK_MS) % 2 == 0),
{
    let hidden = match shape {
        CursorShape::Hidden => true,
        _ => false,
    };
    !hidden && (millis / CURSOR_BLINK_MS) % 2 == 0
}

} // verus!
