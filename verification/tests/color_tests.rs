use terminrt::color::indexed_color;
use terminrt::color::named_color;
use terminrt::color::resolve_color;
use terminrt::color::rgb;
use terminrt::color::transparent;
use terminrt::color::Color;
use terminrt::color::NamedColor;
use terminrt::color::Rgba;
use terminrt::emulator::Cell;
use terminrt::emulator::CursorShape;
use terminrt::emulator::FLAG_DIM;
use terminrt::emulator::FLAG_INVERSE;
use terminrt::emulator::FLAG_ITALIC;
use terminrt::render::cell_style;
use terminrt::render::cursor_visible;

fn cell(c: char, fg: Color, bg: Color, flags: u16) -> Cell {
    Cell { c, fg, bg, flags }
}

#[test]
fn opaque_and_transparent() {
    assert_eq!(rgb(1, 2, 3), Rgba { r: 1, g: 2, b: 3, a: 255 });
    assert_eq!(transparent(), Rgba { r: 0, g: 0, b: 0, a: 0 });
}

#[test]
fn named_color_codes_round_trip() {
    assert_eq!(NamedColor::Black.code(), 0);
    assert_eq!(NamedColor::BrightWhite.code(), 15);
    assert_eq!(NamedColor::Foreground.code(), 256);
    assert_eq!(NamedColor::DimForeground.code(), 268);
    for code in 0u16..300 {
        match NamedColor::from_code(code) {
            Some(n) => assert_eq!(n.code(), code),
            None => assert!((16..256).contains(&code) || code > 268),
        }
    }
}

#[test]
fn named_colors() {
    assert_eq!(named_color(NamedColor::Black, true), rgb(0, 0, 0));
    assert_eq!(named_color(NamedColor::Red, true), rgb(204, 0, 0));
    assert_eq!(named_color(NamedColor::Green, false), rgb(78, 154, 6));
    assert_eq!(named_color(NamedColor::BrightWhite, true), rgb(238, 238, 236));
    assert_eq!(named_color(NamedColor::Foreground, false), rgb(204, 204, 204));
    assert_eq!(named_color(NamedColor::BrightForeground, false), rgb(204, 204, 204));
    assert_eq!(named_color(NamedColor::Background, true), rgb(18, 18, 18));
    assert_eq!(named_color(NamedColor::Cursor, false), rgb(204, 204, 204));
    assert_eq!(named_color(NamedColor::DimRed, true), rgb(204, 204, 204));
    assert_eq!(named_color(NamedColor::DimRed, false), transparent());
    assert_eq!(named_color(NamedColor::DimForeground, false), transparent());
}

#[test]
fn indexed_colors() {
    assert_eq!(indexed_color(0), rgb(0, 0, 0));
    assert_eq!(indexed_color(4), rgb(52, 101, 164));
    assert_eq!(indexed_color(15), rgb(238, 238, 236));
    assert_eq!(indexed_color(16), rgb(0, 0, 0));
    assert_eq!(indexed_color(17), rgb(0, 0, 95));
    assert_eq!(indexed_color(21), rgb(0, 0, 255));
    assert_eq!(indexed_color(196), rgb(255, 0, 0));
    assert_eq!(indexed_color(231), rgb(255, 255, 255));
    assert_eq!(indexed_color(110), rgb(135, 175, 215));
    assert_eq!(indexed_color(232), rgb(8, 8, 8));
    assert_eq!(indexed_color(255), rgb(238, 238, 238));
}

#[test]
fn resolved_colors() {
    assert_eq!(resolve_color(Color::TrueColor(1, 2, 3), true), rgb(1, 2, 3));
    assert_eq!(resolve_color(Color::Indexed(1), false), rgb(204, 0, 0));
    assert_eq!(resolve_color(Color::Named(1), false), rgb(204, 0, 0));
    assert_eq!(resolve_color(Color::Named(257), false), rgb(18, 18, 18));
    assert_eq!(resolve_color(Color::Named(260), true), rgb(204, 204, 204));
    assert_eq!(resolve_color(Color::Named(260), false), transparent());
    assert_eq!(resolve_color(Color::Named(999), true), rgb(204, 204, 204));
    assert_eq!(resolve_color(Color::Named(999), false), transparent());
}

#[test]
fn plain_cell_has_its_own_colors() {
    let c = cell('a', Color::Named(1), Color::Indexed(4), 0);
    let s = cell_style(&c, false, false);
    assert_eq!((s.ch, s.fg, s.bg), ('a', rgb(204, 0, 0), rgb(52, 101, 164)));
}

#[test]
fn unset_cell_draws_a_blank() {
    let c = cell('\0', Color::Named(256), Color::Named(257), 0);
    assert_eq!(cell_style(&c, false, false).ch, ' ');
}

#[test]
fn ghost_text_is_grey_on_nothing() {
    for flags in [FLAG_DIM, FLAG_ITALIC, FLAG_DIM | FLAG_ITALIC] {
        let c = cell('a', Color::Named(1), Color::Indexed(4), flags);
        let s = cell_style(&c, false, false);
        assert_eq!((s.fg, s.bg), (rgb(140, 140, 140), transparent()));
    }
}

#[test]
fn inverse_exchanges_colors() {
    let c = cell('a', Color::Named(1), Color::Indexed(4), FLAG_INVERSE);
    let s = cell_style(&c, false, false);
    assert_eq!((s.fg, s.bg), (rgb(52, 101, 164), rgb(204, 0, 0)));
    let c = cell('a', Color::Named(1), Color::Named(260), FLAG_INVERSE);
    let s = cell_style(&c, false, false);
    assert_eq!((s.fg, s.bg), (rgb(18, 18, 18), rgb(204, 0, 0)));
    let c = cell('a', Color::Named(1), Color::Indexed(4), FLAG_INVERSE | FLAG_DIM);
    let s = cell_style(&c, false, false);
    assert_eq!((s.fg, s.bg), (rgb(18, 18, 18), rgb(140, 140, 140)));
}

#[test]
fn selection_and_cursor_override_colors() {
    let c = cell('a', Color::Named(1), Color::Indexed(4), 0);
    let s = cell_style(&c, true, false);
    assert_eq!((s.fg, s.bg), (rgb(18, 18, 18), rgb(180, 180, 180)));
    let s = cell_style(&c, false, true);
    assert_eq!((s.fg, s.bg), (rgb(18, 18, 18), rgb(204, 204, 204)));
    let s = cell_style(&c, true, true);
    assert_eq!((s.fg, s.bg), (rgb(18, 18, 18), rgb(180, 180, 180)));
}

#[test]
fn cursor_blinks_every_half_second() {
    assert!(cursor_visible(CursorShape::Block, 0));
    assert!(cursor_visible(CursorShape::Beam, 499));
    assert!(!cursor_visible(CursorShape::Block, 500));
    assert!(!cursor_visible(CursorShape::Block, 999));
    assert!(cursor_visible(CursorShape::Underline, 1000));
    assert!(!cursor_visible(CursorShape::Hidden, 0));
    assert!(!cursor_visible(CursorShape::Hidden, 500));
}
