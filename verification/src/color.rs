//! Terminal colours and how a cell is painted.

use vstd::prelude::*;

verus! {

/// A display colour with alpha; `a == 0` with black is fully transparent.
#[derive(Clone, Copy, Debug, PartialEq, Eq, Structural)]
pub struct Rgba {
    pub r: u8,
    pub g: u8,
    pub b: u8,
    pub a: u8,
}

/// An opaque colour.
pub open spec fn spec_rgb(r: u8, g: u8, b: u8) -> Rgba {
    Rgba { r, g, b, a: 255 }
}

/// The fully transparent colour.
pub open spec fn spec_transparent() -> Rgba {
    Rgba { r: 0, g: 0, b: 0, a: 0 }
}

/// An opaque colour.
pub fn rgb(r: u8, g: u8, b: u8) -> (c: Rgba)
    ensures
        c == spec_rgb(r, g, b),
{
    Rgba { r, g, b, a: 255 }
}

/// The fully transparent colour.
pub fn transparent() -> (c: Rgba)
    ensures
        c == spec_transparent(),
{
    Rgba { r: 0, g: 0, b: 0, a: 0 }
}

/// The colours that a terminal names rather than numbers.
#[derive(Clone, Copy, Debug, PartialEq, Eq, Structural)]
pub enum NamedColor {
    Black,
    Red,
    Green,
    Yellow,
    Blue,
    Magenta,
    Cyan,
    White,
    BrightBlack,
    BrightRed,
    BrightGreen,
    BrightYellow,
    BrightBlue,
    BrightMagenta,
    BrightCyan,
    BrightWhite,
    /// The default foreground.
    Foreground,
    /// The default background.
    Background,
    /// The colour of the cursor itself.
    Cursor,
    DimBlack,
    DimRed,
    DimGreen,
    DimYellow,
    DimBlue,
    DimMagenta,
    DimCyan,
    DimWhite,
    /// The bright default foreground.
    BrightForeground,
    /// The dim default foreground.
    DimForeground,
}

impl NamedColor {
    /// The number by which the terminal emulator knows this colour: 0 to 15
    /// for the sixteen ANSI colours, 256 and up for the others.
    pub open spec fn spec_code(self) -> u16 {
        match self {
            NamedColor::Black => 0,
            NamedColor::Red => 1,
            NamedColor::Green => 2,
            NamedColor::Yellow => 3,
            NamedColor::Blue => 4,
            NamedColor::Magenta => 5,
            NamedColor::Cyan => 6,
            NamedColor::White => 7,
            NamedColor::BrightBlack => 8,
            NamedColor::BrightRed => 9,
            NamedColor::BrightGreen => 10,
            NamedColor::BrightYellow => 11,
            NamedColor::BrightBlue => 12,
            NamedColor::BrightMagenta => 13,
            NamedColor::BrightCyan => 14,
            NamedColor::BrightWhite => 15,
            NamedColor::Foreground => 256,
            NamedColor::Background => 257,
            NamedColor::Cursor => 258,
            NamedColor::DimBlack => 259,
            NamedColor::DimRed => 260,
            NamedColor::DimGreen => 261,
            NamedColor::DimYellow => 262,
            NamedColor::DimBlue => 263,
            NamedColor::DimMagenta => 264,
            NamedColor::DimCyan => 265,
            NamedColor::DimWhite => 266,
            NamedColor::BrightForeground => 267,
            NamedColor::DimForeground => 268,
        }
    }

    /// The number by which the terminal emulator knows this colour.
    pub fn code(self) -> (code: u16)
        ensures
            code == self.spec_code(),
    {
        match self {
            NamedColor::Black => 0,
            NamedColor::Red => 1,
            NamedColor::Green => 2,
            NamedColor::Yellow => 3,
            NamedColor::Blue => 4,
            NamedColor::Magenta => 5,
            NamedColor::Cyan => 6,
            NamedColor::White => 7,
            NamedColor::BrightBlack => 8,
            NamedColor::BrightRed => 9,
            NamedColor::BrightGreen => 10,
            NamedColor::BrightYellow => 11,
            NamedColor::BrightBlue => 12,
            NamedColor::BrightMagenta => 13,
            NamedColor::BrightCyan => 14,
            NamedColor::BrightWhite => 15,
            NamedColor::Foreground => 256,
            NamedColor::Background => 257,
            NamedColor::Cursor => 258,
            NamedColor::DimBlack => 259,
            NamedColor::DimRed => 260,
            NamedColor::DimGreen => 261,
            NamedColor::DimYellow => 262,
            NamedColor::DimBlue => 263,
            NamedColor::DimMagenta => 264,
            NamedColor::DimCyan => 265,
            NamedColor::DimWhite => 266,
            NamedColor::BrightForeground => 267,
            NamedColor::DimForeground => 268,
        }
    }

    /// The colour that the terminal emulator knows by `code`, if any.
    pub fn from_code(code: u16) -> (named: Option<NamedColor>)
        ensures
            match named {
                Some(n) => n.spec_code() == code,
                None => forall|n: NamedColor| n.spec_code() != code,
            },
    {
        if code == 0 {
            Some(NamedColor::Black)
        }         else if code == 1 {
            Some(NamedColor::Red)
        }         else if code == 2 {
            Some(NamedColor::Green)
        }         else if code == 3 {
            Some(NamedColor::Yellow)
        }         else if code == 4 {
            Some(NamedColor::Blue)
        }         else if code == 5 {
            Some(NamedColor::Magenta)
        }         else if code == 6 {
            Some(NamedColor::Cyan)
        }         else if code == 7 {
            Some(NamedColor::White)
        }         else if code == 8 {
            Some(NamedColor::BrightBlack)
        }         else if code == 9 {
            Some(NamedColor::BrightRed)
        }         else if code == 10 {
            Some(NamedColor::BrightGreen)
        }         else if code == 11 {
            Some(NamedColor::BrightYellow)
        }         else if code == 12 {
            Some(NamedColor::BrightBlue)
        }         else if code == 13 {
            Some(NamedColor::BrightMagenta)
        }         else if code == 14 {
            Some(NamedColor::BrightCyan)
        }         else if code == 15 {
            Some(NamedColor::BrightWhite)
        }         else if code == 256 {
            Some(NamedColor::Foreground)
        }         else if code == 257 {
            Some(NamedColor::Background)
        }         else if code == 258 {
            Some(NamedColor::Cursor)
        }         else if code == 259 {
            Some(NamedColor::DimBlack)
        }         else if code == 260 {
            Some(NamedColor::DimRed)
        }         else if code == 261 {
            Some(NamedColor::DimGreen)
        }         else if code == 262 {
            Some(NamedColor::DimYellow)
        }         else if code == 263 {
            Some(NamedColor::DimBlue)
        }         else if code == 264 {
            Some(NamedColor::DimMagenta)
        }         else if code == 265 {
            Some(NamedColor::DimCyan)
        }         else if code == 266 {
            Some(NamedColor::DimWhite)
        }         else if code == 267 {
            Some(NamedColor::BrightForeground)
        }         else if code == 268 {
            Some(NamedColor::DimForeground)
        } else {
            None
        }
    }
}

/// The colour of a cell as the terminal emulator records it.
#[derive(Clone, Copy, Debug, PartialEq, Eq, Structural)]
pub enum Color {
    /// A named colour, by its code (see `NamedColor::spec_code`).
    Named(u16),
    /// One of the 256 indexed colours.
    Indexed(u8),
    /// A colour given by its red, green and blue parts.
    TrueColor(u8, u8, u8),
}

/// The sixteen ANSI colours.
pub open spec fn spec_ansi_color(index: u8) -> Rgba {
    if index == 0 {
        spec_rgb(0, 0, 0)
    }     else if index == 1 {
        spec_rgb(204, 0, 0)
    }     else if index == 2 {
        spec_rgb(78, 154, 6)
    }     else if index == 3 {
        spec_rgb(196, 160, 0)
    }     else if index == 4 {
        spec_rgb(52, 101, 164)
    }     else if index == 5 {
        spec_rgb(117, 80, 123)
    }     else if index == 6 {
        spec_rgb(6, 152, 154)
    }     else if index == 7 {
        spec_rgb(211, 215, 207)
    }     else if index == 8 {
        spec_rgb(85, 87, 83)
    }     else if index == 9 {
        spec_rgb(239, 41, 41)
    }     else if index == 10 {
        spec_rgb(138, 226, 52)
    }     else if index == 11 {
        spec_rgb(252, 233, 79)
    }     else if index == 12 {
        spec_rgb(114, 159, 207)
    }     else if index == 13 {
        spec_rgb(173, 127, 168)
    }     else if index == 14 {
        spec_rgb(52, 226, 226)
    } else {
        spec_rgb(238, 238, 236)
    }
}

/// The sixteen ANSI colours.
pub fn ansi_color(index: u8) -> (c: Rgba)
    requires
        index < 16,
    ensures
        c == spec_ansi_color(index),
{
    if index == 0 {
        rgb(0, 0, 0)
    }     else if index == 1 {
        rgb(204, 0, 0)
    }     else if index == 2 {
        rgb(78, 154, 6)
    }     else if index == 3 {
        rgb(196, 160, 0)
    }     else if index == 4 {
        rgb(52, 101, 164)
    }     else if index == 5 {
        rgb(117, 80, 123)
    }     else if index == 6 {
        rgb(6, 152, 154)
    }     else if index == 7 {
        rgb(211, 215, 207)
    }     else if index == 8 {
        rgb(85, 87, 83)
    }     else if index == 9 {
        rgb(239, 41, 41)
    }     else if index == 10 {
        rgb(138, 226, 52)
    }     else if index == 11 {
        rgb(252, 233, 79)
    }     else if index == 12 {
        rgb(114, 159, 207)
    }     else if index == 13 {
        rgb(173, 127, 168)
    }     else if index == 14 {
        rgb(52, 226, 226)
    } else {
        rgb(238, 238, 236)
    }
}

/// One step of the 6x6x6 colour cube: 0 stays 0, the steps 1 to 5 are 95 to 255.
pub open spec fn spec_cube_level(v: u8) -> u8 {
    if v == 0 {
        0
    } else {
        (55 + 40 * v) as u8
    }
}

/// The display colour of an indexed colour: 0 to 15 are the ANSI colours,
/// 16 to 231 the colour cube, 232 to 255 a ramp of greys.
pub open spec fn spec_indexed_color(index: u8) -> Rgba {
    if index < 16 {
        spec_ansi_color(index)
    } else if index < 232 {
        let i = (index - 16) as u8;
        spec_rgb(
            spec_cube_level(((i / 36) % 6) as u8),
            spec_cube_level(((i / 6) % 6) as u8),
            spec_cube_level((i % 6) as u8),
        )
    } else {
        let v = (8 + 10 * (index - 232)) as u8;
        spec_rgb(v, v, v)
    }
}

/// The display colour of a named colour. The dim colours have none of their
/// own: as a foreground they are the default grey, as a background
/// transparent.
pub open spec fn spec_named_color(named: NamedColor, is_fg: bool) -> Rgba {
    let code = named.spec_code();
    if code < 16 {
        spec_ansi_color(code as u8)
    } else if named == NamedColor::Foreground || named == NamedColor::BrightForeground || named
        == NamedColor::Cursor {
        spec_rgb(204, 204, 204)
    } else if named == NamedColor::Background {
        spec_rgb(18, 18, 18)
    } else if is_fg {
        spec_rgb(204, 204, 204)
    } else {
        spec_transparent()
    }
}

/// The display colour of a cell colour, as a foreground or as a background.
/// A named colour whose code is unknown is treated as a dim colour.
pub open spec fn spec_resolve_color(color: Color, is_fg: bool) -> Rgba {
    match color {
        Color::Named(code) => {
            if exists|n: NamedColor| n.spec_code() == code {
                spec_named_color(choose|n: NamedColor| n.spec_code() == code, is_fg)
            } else if is_fg {
                spec_rgb(204, 204, 204)
            } else {
                spec_transparent()
            }
        },
        Color::Indexed(index) => spec_indexed_color(index),
        Color::TrueColor(r, g, b) => spec_rgb(r, g, b),
    }
}

/// Two named colours with the same code are the same colour.
pub proof fn lemma_code_is_injective(a: NamedColor, b: NamedColor)
    requires
        a.spec_code() == b.spec_code(),
    ensures
        a == b,
{
}

fn cube_level(v: u8) -> (level: u8)
    requires
        v < 6,
    ensures
        level == spec_cube_level(v),
{
    if v == 0 {
        0
    } else {
        55 + 40 * v
    }
}

/// The display colour of an indexed colour.
pub fn indexed_color(index: u8) -> (c: Rgba)
    ensures
        c == spec_indexed_color(index),
{
    if index < 16 {
        ansi_color(index)
    } else if index < 232 {
        let i: u8 = index - 16;
        rgb(cube_level((i / 36) % 6), cube_level((i / 6) % 6), cube_level(i % 6))
    } else {
        let v: u8 = 8 + 10 * (index - 232);
        rgb(v, v, v)
    }
}

/// The display colour of a named colour.
pub fn named_color(named: NamedColor, is_fg: bool) -> (c: Rgba)
    ensures
        c == spec_named_color(named, is_fg),
{
    let code: u16 = named.code();
    if code < 16 {
        ansi_color(code as u8)
    } else if code == 256 || code == 267 || code == 258 {
        rgb(204, 204, 204)
    } else if code == 257 {
        rgb(18, 18, 18)
    } else if is_fg {
        rgb(204, 204, 204)
    } else {
        transparent()
    }
}

/// The display colour of a cell colour, as a foreground or as a background.
pub fn resolve_color(color: Color, is_fg: bool) -> (c: Rgba)
    ensures
        c == spec_resolve_color(color, is_fg),
{
    match color {
        Color::Named(code) => {
            match NamedColor::from_code(code) {
                Some(named) => {
                    proof {
                        let chosen = choose|n: NamedColor| n.spec_code() == code;
                        lemma_code_is_injective(named, chosen);
                    }
                    named_color(named, is_fg)
                },
                None => {
                    if is_fg {
                        rgb(204, 204, 204)
                    } else {
                        transparent()
                    }
                },
            }
        },
        Color::Indexed(index) => indexed_color(index),
        Color::TrueColor(r, g, b) => rgb(r, g, b),
    }
}

} // verus!
