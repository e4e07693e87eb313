use terminrt::color::Color;
use terminrt::emulator::Cell;
use terminrt::emulator::Cursor;
use terminrt::emulator::CursorShape;
use terminrt::emulator::FLAG_INVERSE;
use terminrt::emulator::FLAG_WIDE_CHAR_SPACER;
use terminrt::emulator::INITIAL_MODES;
use terminrt::selection::TerminalSelectionState;
use terminrt::terminal::selected_text_for_copy;
use terminrt::terminal::ProcessInputResult;
use terminrt::terminal::TerminalInstance;
use terminrt::vtlog::VtLogEntry;

fn terminal(rows: u16, cols: u16) -> TerminalInstance {
    TerminalInstance::new(rows, cols, "C:\\start".to_string())
}

fn select(from: (usize, usize), to: (usize, usize)) -> TerminalSelectionState {
    let mut s = TerminalSelectionState::new();
    s.start(from.0, from.1);
    s.update(to.0, to.1);
    s
}

fn row_text(t: &TerminalInstance, row: usize) -> String {
    let mut s = String::new();
    for col in 0..t.cols() {
        s.push(t.cell_at(row, col).unwrap().c);
    }
    s
}

#[test]
fn new_terminal_has_the_requested_size() {
    let t = terminal(24, 80);
    assert_eq!(t.rows(), 24);
    assert_eq!(t.cols(), 80);
    assert_eq!(t.total_lines(), 24);
    assert_eq!(t.scrollback_lines(), 0);
    assert_eq!(t.current_dir(), "C:\\start");
    assert_eq!(t.vt_log_lines_len(), 0);
    assert!(t.vt_log_line(0).is_none());
}

#[test]
fn new_terminal_is_blank() {
    let t = terminal(3, 5);
    let blank = Cell { c: ' ', fg: Color::Named(256), bg: Color::Named(257), flags: 0 };
    for row in 0..3 {
        for col in 0..5 {
            assert_eq!(t.cell_at(row, col), Some(blank));
        }
    }
    assert_eq!(t.modes(), INITIAL_MODES);
    assert_eq!(t.modes(), 0x28081);
    assert_eq!(t.cursor(), Cursor { line: 0, column: 0, shape: CursorShape::Block });
    assert_eq!(t.cursor_cell(), (0, 0));
}

#[test]
fn colors_of_cells_are_carried_over() {
    let mut t = terminal(3, 10);
    t.advance(b"\x1b[31ma\x1b[48;5;200mb\x1b[38;2;1;2;3mc\x1b[0;7md");
    let a = t.cell_at(0, 0).unwrap();
    assert_eq!((a.c, a.fg, a.bg), ('a', Color::Named(1), Color::Named(257)));
    let b = t.cell_at(0, 1).unwrap();
    assert_eq!((b.fg, b.bg), (Color::Named(1), Color::Indexed(200)));
    let c = t.cell_at(0, 2).unwrap();
    assert_eq!((c.fg, c.bg), (Color::TrueColor(1, 2, 3), Color::Indexed(200)));
    let d = t.cell_at(0, 3).unwrap();
    assert_eq!((d.fg, d.flags & FLAG_INVERSE), (Color::Named(256), FLAG_INVERSE));
}

#[test]
fn new_terminal_raises_too_small_a_size() {
    let t = terminal(0, 0);
    assert_eq!(t.rows(), 1);
    assert_eq!(t.cols(), 2);
    let t = terminal(3, 1);
    assert_eq!(t.rows(), 3);
    assert_eq!(t.cols(), 2);
}

#[test]
fn output_lands_in_the_grid() {
    let mut t = terminal(4, 20);
    t.advance(b"hello world");
    assert_eq!(row_text(&t, 0), "hello world         ");
    assert_eq!(t.cell_at(0, 4).unwrap().c, 'o');
    assert!(t.cell_at(4, 0).is_none());
    assert!(t.cell_at(0, 20).is_none());
    let cursor = t.cursor();
    assert_eq!((cursor.line, cursor.column), (0, 11));
    assert_eq!(t.cursor_cell(), (0, 11));
}

#[test]
fn selection_within_one_row_is_trimmed_at_the_end_only() {
    let mut t = terminal(24, 80);
    t.advance(b"hello world");
    let text = t.selected_text(&select((0, 2), (0, 5)));
    assert_eq!(text, Some("llo".to_string()));
    let text = t.selected_text(&select((0, 4), (0, 7)));
    assert_eq!(text, Some("o wo".to_string()));
    let text = t.selected_text(&select((0, 5), (0, 8)));
    assert_eq!(text, Some(" wor".to_string()));
}

#[test]
fn selection_reversed_gives_the_same_text() {
    let mut t = terminal(24, 80);
    t.advance(b"hello world");
    assert_eq!(t.selected_text(&select((0, 5), (0, 2))), Some("llo".to_string()));
}

#[test]
fn selection_over_rows_ends_in_an_empty_last_line() {
    let mut t = terminal(24, 80);
    t.advance(b"abc\r\ndef\r\n");
    let text = t.selected_text(&select((0, 0), (2, 5))).unwrap();
    assert_eq!(text, "abc\ndef\n");
    let lines: Vec<&str> = text.split('\n').collect();
    assert_eq!(lines, vec!["abc", "def", ""]);
}

#[test]
fn selection_takes_interior_rows_in_full() {
    let mut t = terminal(5, 10);
    t.advance(b"0123456789abcdefghijklmno");
    let text = t.selected_text(&select((0, 7), (2, 1)));
    assert_eq!(text, Some("789\nabcdefghij\nkl".to_string()));
}

#[test]
fn selection_keeps_inner_blanks_and_blank_rows() {
    let mut t = terminal(5, 10);
    t.advance(b"a  b\r\n\r\n  c");
    assert_eq!(t.selected_text(&select((0, 0), (2, 9))), Some("a  b\n\n  c".to_string()));
}

#[test]
fn selection_skips_the_spacer_of_a_wide_glyph() {
    let mut t = terminal(3, 10);
    t.advance("a中b".as_bytes());
    assert_eq!(t.cell_at(0, 1).unwrap().c, '中');
    assert!(t.cell_at(0, 2).unwrap().flags & FLAG_WIDE_CHAR_SPACER != 0);
    assert_eq!(t.selected_text(&select((0, 0), (0, 3))), Some("a中b".to_string()));
}

#[test]
fn selection_of_a_single_point_or_of_blanks_is_nothing() {
    let mut t = terminal(3, 10);
    t.advance(b"abc");
    assert_eq!(t.selected_text(&select((0, 1), (0, 1))), None);
    assert_eq!(t.selected_text(&select((1, 0), (1, 5))), None);
    assert_eq!(t.selected_text(&select((0, 3), (0, 9))), None);
    assert_eq!(t.selected_text(&select((1, 0), (2, 5))), Some("\n".to_string()));
    assert_eq!(t.selected_text(&TerminalSelectionState::new()), None);
    assert_eq!(selected_text_for_copy(&t, &select((0, 1), (0, 1))), None);
    assert_eq!(selected_text_for_copy(&t, &select((0, 0), (0, 1))), Some("ab".to_string()));
}

#[test]
fn selection_beyond_the_grid_is_cut_to_it() {
    let mut t = terminal(3, 10);
    t.advance(b"abc\r\ndef");
    assert_eq!(t.selected_text(&select((1, 1), (100, 500))), Some("ef\n".to_string()));
    assert_eq!(t.selected_text(&select((3, 0), (100, 500))), None);
    assert_eq!(t.selected_text(&select((0, 50), (0, 60))), None);
    assert_eq!(t.selected_text(&select((0, 50), (1, 1))), Some("de".to_string()));
}

#[test]
fn selection_reaches_into_scrollback() {
    let mut t = terminal(2, 10);
    t.advance(b"one\r\ntwo\r\nthree\r\nfour");
    assert_eq!(t.scrollback_lines(), 2);
    assert_eq!(t.total_lines(), 4);
    assert_eq!(row_text(&t, 0), "one       ");
    assert_eq!(
        t.selected_text(&select((0, 0), (3, 9))),
        Some("one\ntwo\nthree\nfour".to_string())
    );
    let cursor = t.cursor();
    assert_eq!((cursor.line, cursor.column), (1, 4));
    assert_eq!(t.cursor_cell(), (3, 4));
}

#[test]
fn copied_text_stops_at_the_cap() {
    let rows: u16 = 36;
    let cols: u16 = 60000;
    let mut t = terminal(rows, cols);
    let row = vec![b'x'; cols as usize];
    for _ in 0..rows {
        t.advance(&row);
    }
    let text = t.selected_text(&select((0, 0), (35, 59999))).unwrap();
    assert_eq!(text.len(), 2 * 1024 * 1024);
    assert_eq!(text.matches('\n').count(), 34);
    assert!(text.ends_with('x'));
    assert_eq!(text.split('\n').last().unwrap().len(), 2097152 - 34 * 60001);
}

#[test]
fn decoding_does_not_depend_on_the_chunking() {
    let bytes = "ab\x1b[31mred\x1b[0m \x1b[2;5Hx中\r\n\x1b[?2004hdone\ttab".as_bytes();
    let mut whole = terminal(4, 12);
    whole.advance(bytes);
    for cut in 0..=bytes.len() {
        let mut parts = terminal(4, 12);
        parts.advance(&bytes[..cut]);
        parts.advance(&bytes[cut..]);
        for row in 0..whole.total_lines() {
            for col in 0..whole.cols() {
                assert_eq!(parts.cell_at(row, col), whole.cell_at(row, col));
            }
        }
        assert_eq!(parts.cursor(), whole.cursor());
        assert_eq!(parts.is_bracketed_paste_enabled(), whole.is_bracketed_paste_enabled());
    }
    let mut single = terminal(4, 12);
    for b in bytes {
        single.advance(&[*b]);
    }
    for row in 0..whole.total_lines() {
        for col in 0..whole.cols() {
            assert_eq!(single.cell_at(row, col), whole.cell_at(row, col));
        }
    }
}

#[test]
fn modes_follow_the_escape_sequences() {
    let mut t = terminal(4, 20);
    assert!(!t.is_bracketed_paste_enabled());
    assert!(!t.is_focus_in_out_enabled());
    t.advance(b"\x1b[?2004h");
    assert!(t.is_bracketed_paste_enabled());
    assert!(!t.is_focus_in_out_enabled());
    t.advance(b"\x1b[?1004h\x1b[?2004l");
    assert!(!t.is_bracketed_paste_enabled());
    assert!(t.is_focus_in_out_enabled());
}

#[test]
fn cursor_can_be_hidden() {
    let mut t = terminal(4, 20);
    assert_eq!(t.cursor().shape, CursorShape::Block);
    t.advance(b"\x1b[?25l");
    assert_eq!(t.cursor().shape, CursorShape::Hidden);
}

#[test]
fn resize_to_nothing_is_not_carried_out() {
    let mut t = terminal(24, 80);
    t.advance(b"hello");
    assert!(!t.resize(0, 80));
    assert_eq!((t.rows(), t.cols()), (24, 80));
    assert!(!t.resize(24, 0));
    assert_eq!((t.rows(), t.cols()), (24, 80));
    assert!(!t.resize(0, 0));
    assert!(!t.resize(10, 1));
    assert_eq!((t.rows(), t.cols()), (24, 80));
    assert_eq!(row_text(&t, 0).trim_end(), "hello");
}

#[test]
fn resize_changes_the_grid() {
    let mut t = terminal(24, 80);
    t.advance(b"0123456789");
    assert!(t.resize(10, 4));
    assert_eq!((t.rows(), t.cols()), (10, 4));
    assert!(t.total_lines() >= 10);
    assert!(t.resize(1, 2));
    assert_eq!((t.rows(), t.cols()), (1, 2));
    assert!(t.resize(50, 200));
    assert_eq!((t.rows(), t.cols()), (50, 200));
    t.advance(b"\r\nstill works");
    assert!(t.cell_at(t.total_lines() - 1, 199).is_some());
}

#[test]
fn poll_without_data_reports_nothing() {
    let mut t = terminal(4, 20);
    let r = t.process_input(&Vec::new(), false);
    assert_eq!(r, ProcessInputResult { had_input: false, pty_closed: false });
}

#[test]
fn poll_reports_input_and_the_end_of_the_stream() {
    let mut t = terminal(4, 20);
    let r = t.process_input(&vec![b"ab".to_vec(), b"cd".to_vec()], false);
    assert_eq!(r, ProcessInputResult { had_input: true, pty_closed: false });
    assert_eq!(row_text(&t, 0).trim_end(), "abcd");
    let r = t.process_input(&Vec::new(), true);
    assert_eq!(r, ProcessInputResult { had_input: false, pty_closed: true });
    let r = t.process_input(&Vec::new(), true);
    assert_eq!(r, ProcessInputResult { had_input: false, pty_closed: true });
    let r = t.process_input(&vec![b"ef".to_vec()], true);
    assert_eq!(r, ProcessInputResult { had_input: true, pty_closed: true });
    assert_eq!(row_text(&t, 0).trim_end(), "abcdef");
}

#[test]
fn working_directory_follows_notifications() {
    let mut t = terminal(4, 40);
    t.advance(b"PS> \x1b]633;CWD=C:\\Users\\me\x07");
    assert_eq!(t.current_dir(), "C:\\Users\\me");
    t.advance(b"\x1b]633;CWD=\x07");
    assert_eq!(t.current_dir(), "C:\\Users\\me");
    t.advance("\x1b]633;CWD=D:\\données\x1b\\".as_bytes());
    assert_eq!(t.current_dir(), "D:\\données");
    t.advance(b"plain output");
    assert_eq!(t.current_dir(), "D:\\données");
}

#[test]
fn working_directory_ends_at_the_first_terminator() {
    let mut t = TerminalInstance::new(4, 40, "/start".to_string());
    t.advance(b"\x1b]633;CWD=/a\x1b\\hello\x07");
    assert_eq!(t.current_dir(), "/a");
    let bytes = b"\x1b]633;CWD=/a\x1b\\hello\x07\x1b]633;CWD=/home/u\x07";
    for cut in 0..=bytes.len() {
        let mut t = TerminalInstance::new(4, 40, "/start".to_string());
        t.process_input(&vec![bytes[..cut].to_vec(), bytes[cut..].to_vec()], false);
        assert_eq!(t.current_dir(), "/home/u");
    }
}

#[test]
fn poll_without_data_leaves_the_session_as_it_is() {
    let mut t = terminal(4, 20);
    t.advance(b"ab\x1b[?2004h\x1b[2;3Hcd\npen");
    let before: Vec<Option<Cell>> =
        (0..4).flat_map(|r| (0..20).map(move |c| (r, c))).map(|(r, c)| t.cell_at(r, c)).collect();
    let (cursor, modes, log_len) = (t.cursor(), t.modes(), t.vt_log_lines_len());
    for closed in [false, true, true] {
        let r = t.process_input(&Vec::new(), closed);
        assert_eq!(r, ProcessInputResult { had_input: false, pty_closed: closed });
        let after: Vec<Option<Cell>> = (0..4)
            .flat_map(|r| (0..20).map(move |c| (r, c)))
            .map(|(r, c)| t.cell_at(r, c))
            .collect();
        assert_eq!(after, before);
        assert_eq!((t.cursor(), t.modes(), t.vt_log_lines_len()), (cursor, modes, log_len));
        assert_eq!(t.current_dir(), "C:\\start");
    }
}

#[test]
fn working_directory_survives_any_split() {
    let bytes = b"\x1b]633;CWD=/srv/www\x1b\\";
    for cut in 0..=bytes.len() {
        let mut t = terminal(4, 40);
        let chunks = vec![bytes[..cut].to_vec(), bytes[cut..].to_vec()];
        t.process_input(&chunks, false);
        assert_eq!(t.current_dir(), "/srv/www");
    }
}

#[test]
fn working_directory_with_invalid_utf8_is_decoded_with_replacements() {
    let mut t = terminal(4, 40);
    t.advance(b"\x1b]633;CWD=/a\xff/b\x07");
    assert_eq!(t.current_dir(), "/a\u{fffd}/b");
}

#[test]
fn session_logs_output_and_input() {
    let mut t = terminal(4, 40);
    t.advance(b"one\nt");
    t.record_input(b"dir\r");
    assert_eq!(t.vt_log_lines_len(), 3);
    match t.vt_log_line(0) {
        Some(VtLogEntry::Output(s)) => assert_eq!(s, "one\\n"),
        _ => panic!("expected an output line"),
    }
    match t.vt_log_line(1) {
        Some(VtLogEntry::Input(s)) => assert_eq!(s, "dir\\r"),
        _ => panic!("expected an input line"),
    }
    match t.vt_log_line(2) {
        Some(VtLogEntry::Output(s)) => assert_eq!(s, "t"),
        _ => panic!("expected the pending output"),
    }
    assert!(t.vt_log_line(3).is_none());
}

#[test]
fn session_log_is_bounded() {
    let mut t = terminal(4, 40);
    for i in 0..2001 {
        t.advance(format!("{}\n", i).as_bytes());
    }
    assert_eq!(t.vt_log_lines_len(), 2000);
    match t.vt_log_line(0) {
        Some(VtLogEntry::Output(s)) => assert_eq!(s, "1\\n"),
        _ => panic!("expected an output line"),
    }
    match t.vt_log_line(1999) {
        Some(VtLogEntry::Output(s)) => assert_eq!(s, "2000\\n"),
        _ => panic!("expected an output line"),
    }
}

#[test]
fn cursor_on_the_second_half_of_a_wide_glyph_is_drawn_on_the_first() {
    let mut t = terminal(4, 20);
    t.advance("a中".as_bytes());
    assert_eq!(t.cursor().column, 3);
    t.advance(b"\x1b[3G");
    assert_ne!(t.cell_at(0, 2).unwrap().flags & FLAG_WIDE_CHAR_SPACER, 0);
    assert_eq!(t.cursor(), Cursor { line: 0, column: 1, shape: CursorShape::Block });
    assert_eq!(t.cursor_cell(), (0, 1));
    t.advance(b"\x1b[2G");
    assert_eq!(t.cursor(), Cursor { line: 0, column: 1, shape: CursorShape::Block });
    t.advance(b"\x1b[4G");
    assert_eq!(t.cursor(), Cursor { line: 0, column: 3, shape: CursorShape::Block });
}

#[test]
fn cursor_on_a_spacer_in_the_first_column_stays_there() {
    let mut t = terminal(4, 20);
    t.advance(&[0xe4, 0xb8, 0xad, 0x0d, 0x1b, 0x5b, 0x50]);
    assert_ne!(t.cell_at(0, 0).unwrap().flags & FLAG_WIDE_CHAR_SPACER, 0);
    assert_eq!(t.cursor(), Cursor { line: 0, column: 0, shape: CursorShape::Block });
    assert_eq!(t.cursor_cell(), (0, 0));
    t.advance(b"\x1b[?25l");
    assert_eq!(t.cursor(), Cursor { line: 0, column: 0, shape: CursorShape::Hidden });
    assert_eq!(t.cursor_cell(), (0, 0));
}

#[test]
fn cursor_takes_the_shape_that_was_asked_for() {
    let mut t = terminal(4, 20);
    t.advance(b"\x1b[4 q");
    assert_eq!(t.cursor().shape, CursorShape::Underline);
    t.advance(b"\x1b[6 q");
    assert_eq!(t.cursor().shape, CursorShape::Beam);
    t.advance(b"\x1b[?25l");
    assert_eq!(t.cursor().shape, CursorShape::Hidden);
    t.advance(b"\x1b[?25h");
    assert_eq!(t.cursor().shape, CursorShape::Beam);
    t.advance(b"\x1b[2 q");
    assert_eq!(t.cursor().shape, CursorShape::Block);
}

#[test]
fn sequence_cut_across_two_chunks_is_carried_over() {
    let mut t = terminal(4, 20);
    let r = t.process_input(&vec![b"\x1b[?20".to_vec(), b"04h".to_vec()], false);
    assert_eq!(r, ProcessInputResult { had_input: true, pty_closed: false });
    assert!(t.is_bracketed_paste_enabled());
    assert_eq!(row_text(&t, 0).trim_end(), "");
}

#[test]
fn sequence_cut_across_two_polls_is_carried_over() {
    let mut t = terminal(4, 20);
    t.process_input(&vec![b"ab\x1b[?10".to_vec()], false);
    assert!(!t.is_focus_in_out_enabled());
    t.process_input(&vec![], false);
    t.process_input(&vec![b"04".to_vec(), b"hcd".to_vec()], false);
    assert!(t.is_focus_in_out_enabled());
    assert_eq!(row_text(&t, 0).trim_end(), "abcd");
}

#[test]
fn polls_agree_however_the_stream_is_cut() {
    let bytes = "ab\x1b[31mred\x1b[0m \x1b[2;5Hx中\r\n\x1b[?2004hdone\ttab\x1b[5 q".as_bytes();
    let mut whole = terminal(4, 12);
    whole.process_input(&vec![bytes.to_vec()], false);
    for first in 0..=bytes.len() {
        for second in first..=bytes.len() {
            let mut batch = terminal(4, 12);
            batch.process_input(
                &vec![
                    bytes[..first].to_vec(),
                    bytes[first..second].to_vec(),
                    bytes[second..].to_vec(),
                ],
                false,
            );
            let mut polls = terminal(4, 12);
            polls.process_input(&vec![bytes[..first].to_vec()], false);
            polls.process_input(&vec![bytes[first..second].to_vec()], false);
            polls.process_input(&vec![bytes[second..].to_vec()], false);
            for t in [&batch, &polls] {
                for row in 0..whole.total_lines() {
                    for col in 0..whole.cols() {
                        assert_eq!(t.cell_at(row, col), whole.cell_at(row, col));
                    }
                }
                assert_eq!(t.cursor(), whole.cursor());
                assert_eq!(t.modes(), whole.modes());
                assert_eq!(t.current_dir(), whole.current_dir());
            }
        }
    }
}

#[test]
fn resize_keeps_the_modes_and_the_text() {
    let mut t = terminal(4, 20);
    t.advance(b"hello\x1b[?2004h\x1b[?1004h\x1b[?25l");
    let modes = t.modes();
    assert!(t.resize(6, 30));
    assert_eq!(t.modes(), modes);
    assert!(t.is_bracketed_paste_enabled());
    assert!(t.is_focus_in_out_enabled());
    assert_eq!(t.cursor().shape, CursorShape::Hidden);
    assert_eq!(row_text(&t, 0).trim_end(), "hello");
    assert!(t.resize(6, 30));
    assert_eq!(t.modes(), modes);
    assert_eq!(row_text(&t, 0).trim_end(), "hello");
}

#[test]
fn resize_carries_a_cut_sequence_over() {
    let mut t = terminal(4, 20);
    t.advance(b"\x1b[?20");
    assert!(t.resize(5, 10));
    t.advance(b"04h");
    assert!(t.is_bracketed_paste_enabled());
}

#[test]
fn copied_text_is_never_empty() {
    let mut t = terminal(4, 20);
    t.advance(b"abc");
    assert_eq!(selected_text_for_copy(&t, &select((0, 0), (0, 2))), Some("abc".to_string()));
    assert_eq!(selected_text_for_copy(&t, &select((1, 0), (1, 5))), None);
    assert_eq!(selected_text_for_copy(&t, &select((0, 1), (0, 1))), None);
}
