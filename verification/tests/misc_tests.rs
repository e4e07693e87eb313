use terminrt::extract::fit_count;
use terminrt::extract::trimmed_len;
use terminrt::extract::utf8_len;
use terminrt::glyph::pad_glyph;
use terminrt::input::parse_show_command;
use terminrt::input::parse_show_trimmed;
use terminrt::input::CommandInput;
use terminrt::keys::focus_report;
use terminrt::keys::key_to_terminal_input;
use terminrt::keys::named_key_bytes;
use terminrt::keys::paste_bytes;
use terminrt::keys::Key;
use terminrt::keys::KeyEvent;
use terminrt::keys::NamedKey;
use terminrt::panels::DevToolsState;
use terminrt::panels::DevToolsTab;
use terminrt::panels::PtySize;
use terminrt::panels::ScrollRequest;
use terminrt::panels::SettingsState;
use terminrt::panels::SettingsTab;
use terminrt::panels::TopBarAction;
use terminrt::panels::TopBarInput;
use terminrt::paths::format_dropped_path_for_powershell;
use terminrt::paths::system_font_candidates;
use terminrt::session::SessionPhase;
use terminrt::terminal::ProcessInputResult;
use terminrt::text::bytes_eq;
use terminrt::text::bytes_order;
use terminrt::text::str_eq;
use terminrt::text::truncate_str;
use terminrt::text::Order;

fn press(key: Key, text: Option<&str>) -> KeyEvent {
    KeyEvent { pressed: true, logical_key: key, text: text.map(|t| t.to_string()) }
}

#[test]
fn utf8_lengths() {
    for c in ['\0', 'a', '\x7f', '\u{80}', 'é', '\u{7ff}', '\u{800}', '中', '\u{ffff}', '\u{10000}', '😀'] {
        assert_eq!(utf8_len(c), c.len_utf8());
    }
}

#[test]
fn longest_fitting_prefix() {
    let text: Vec<char> = "aé中😀b".chars().collect();
    assert_eq!(fit_count(&text, 0), 0);
    assert_eq!(fit_count(&text, 1), 1);
    assert_eq!(fit_count(&text, 2), 1);
    assert_eq!(fit_count(&text, 3), 2);
    assert_eq!(fit_count(&text, 6), 3);
    assert_eq!(fit_count(&text, 9), 3);
    assert_eq!(fit_count(&text, 10), 4);
    assert_eq!(fit_count(&text, 11), 5);
    assert_eq!(fit_count(&text, 1000), 5);
    assert_eq!(fit_count(&Vec::new(), 5), 0);
}

#[test]
fn trimming_takes_trailing_blanks_only() {
    let text: Vec<char> = " a b   ".chars().collect();
    assert_eq!(trimmed_len(&text, 7), 4);
    assert_eq!(trimmed_len(&text, 4), 4);
    assert_eq!(trimmed_len(&text, 3), 2);
    assert_eq!(trimmed_len(&text, 1), 0);
    assert_eq!(trimmed_len(&text, 0), 0);
    let tabs: Vec<char> = "a\t ".chars().collect();
    assert_eq!(trimmed_len(&tabs, 3), 2);
}

#[test]
fn show_command() {
    assert_eq!(parse_show_command("show x"), Some('x'));
    assert_eq!(parse_show_command("  show Z \n"), Some('Z'));
    assert_eq!(parse_show_command("\u{3000}\u{a0}show q\u{85}\u{2028}\u{1680}\u{200a}"), Some('q'));
    assert_eq!(parse_show_command("\u{200b}show q"), None);
    assert_eq!(parse_show_command("show q\u{feff}"), None);
    assert_eq!(parse_show_command("\x1cshow q\x1f"), None);
    assert_eq!(parse_show_command("show  x"), None);
    assert_eq!(parse_show_command("show xy"), None);
    assert_eq!(parse_show_command("show é"), None);
    assert_eq!(parse_show_command("show"), None);
    assert_eq!(parse_show_command("show "), None);
    assert_eq!(parse_show_command("Show x"), None);
    assert_eq!(parse_show_command(""), None);
    assert_eq!(parse_show_trimmed("show x"), Some('x'));
    assert_eq!(parse_show_trimmed(" show x"), None);
    assert_eq!(parse_show_trimmed("shoé x"), None);
}

#[test]
fn command_input() {
    let mut input = CommandInput::new();
    input.on_backspace();
    for c in " show qx".chars() {
        input.push_char(c);
    }
    assert_eq!(input.on_enter(), None);
    for c in " show qx".chars() {
        input.push_char(c);
    }
    input.on_backspace();
    input.push_char(' ');
    assert_eq!(input.on_enter(), Some('q'));
    assert_eq!(input.on_enter(), None);
}

#[test]
fn named_keys() {
    assert_eq!(named_key_bytes(NamedKey::Enter), Some(b"\r".to_vec()));
    assert_eq!(named_key_bytes(NamedKey::Backspace), Some(b"\x7f".to_vec()));
    assert_eq!(named_key_bytes(NamedKey::Tab), Some(b"\t".to_vec()));
    assert_eq!(named_key_bytes(NamedKey::Escape), Some(b"\x1b".to_vec()));
    assert_eq!(named_key_bytes(NamedKey::Space), Some(b" ".to_vec()));
    assert_eq!(named_key_bytes(NamedKey::ArrowUp), Some(b"\x1b[A".to_vec()));
    assert_eq!(named_key_bytes(NamedKey::ArrowDown), Some(b"\x1b[B".to_vec()));
    assert_eq!(named_key_bytes(NamedKey::ArrowRight), Some(b"\x1b[C".to_vec()));
    assert_eq!(named_key_bytes(NamedKey::ArrowLeft), Some(b"\x1b[D".to_vec()));
    assert_eq!(named_key_bytes(NamedKey::Home), Some(b"\x1b[H".to_vec()));
    assert_eq!(named_key_bytes(NamedKey::End), Some(b"\x1b[F".to_vec()));
    assert_eq!(named_key_bytes(NamedKey::PageUp), Some(b"\x1b[5~".to_vec()));
    assert_eq!(named_key_bytes(NamedKey::PageDown), Some(b"\x1b[6~".to_vec()));
    assert_eq!(named_key_bytes(NamedKey::Insert), Some(b"\x1b[2~".to_vec()));
    assert_eq!(named_key_bytes(NamedKey::Delete), Some(b"\x1b[3~".to_vec()));
    assert_eq!(named_key_bytes(NamedKey::F1), Some(b"\x1bOP".to_vec()));
    assert_eq!(named_key_bytes(NamedKey::F2), Some(b"\x1bOQ".to_vec()));
    assert_eq!(named_key_bytes(NamedKey::F3), Some(b"\x1bOR".to_vec()));
    assert_eq!(named_key_bytes(NamedKey::F4), Some(b"\x1bOS".to_vec()));
    assert_eq!(named_key_bytes(NamedKey::F5), Some(b"\x1b[15~".to_vec()));
    assert_eq!(named_key_bytes(NamedKey::F6), Some(b"\x1b[17~".to_vec()));
    assert_eq!(named_key_bytes(NamedKey::F7), Some(b"\x1b[18~".to_vec()));
    assert_eq!(named_key_bytes(NamedKey::F8), Some(b"\x1b[19~".to_vec()));
    assert_eq!(named_key_bytes(NamedKey::F9), Some(b"\x1b[20~".to_vec()));
    assert_eq!(named_key_bytes(NamedKey::F10), Some(b"\x1b[21~".to_vec()));
    assert_eq!(named_key_bytes(NamedKey::F11), Some(b"\x1b[23~".to_vec()));
    assert_eq!(named_key_bytes(NamedKey::F12), Some(b"\x1b[24~".to_vec()));
    assert_eq!(named_key_bytes(NamedKey::Other), None);
}

#[test]
fn key_events() {
    let released = KeyEvent { pressed: false, logical_key: Key::Named(NamedKey::Enter), text: None };
    assert_eq!(key_to_terminal_input(&released, false), None);
    let enter = press(Key::Named(NamedKey::Enter), Some("\r"));
    assert_eq!(key_to_terminal_input(&enter, false), Some(b"\r".to_vec()));
    assert_eq!(key_to_terminal_input(&enter, true), Some(b"\r".to_vec()));
    let a = press(Key::Character("a".to_string()), Some("a"));
    assert_eq!(key_to_terminal_input(&a, false), Some(b"a".to_vec()));
    assert_eq!(key_to_terminal_input(&a, true), Some(vec![1]));
    let z = press(Key::Character("Z".to_string()), None);
    assert_eq!(key_to_terminal_input(&z, false), Some(b"Z".to_vec()));
    assert_eq!(key_to_terminal_input(&z, true), Some(vec![26]));
    let c = press(Key::Character("c".to_string()), Some("\x03"));
    assert_eq!(key_to_terminal_input(&c, true), Some(vec![3]));
    let one = press(Key::Character("1".to_string()), Some("!"));
    assert_eq!(key_to_terminal_input(&one, true), Some(b"!".to_vec()));
    assert_eq!(key_to_terminal_input(&one, false), Some(b"!".to_vec()));
    let e = press(Key::Character("é".to_string()), None);
    assert_eq!(key_to_terminal_input(&e, false), Some("é".as_bytes().to_vec()));
    assert_eq!(key_to_terminal_input(&e, true), Some("é".as_bytes().to_vec()));
    let empty = press(Key::Character(String::new()), Some("x"));
    assert_eq!(key_to_terminal_input(&empty, true), None);
    assert_eq!(key_to_terminal_input(&empty, false), Some(b"x".to_vec()));
    let dead = press(Key::Unidentified, Some("x"));
    assert_eq!(key_to_terminal_input(&dead, false), None);
    let other = press(Key::Named(NamedKey::Other), None);
    assert_eq!(key_to_terminal_input(&other, false), None);
}

#[test]
fn pasted_text() {
    assert_eq!(paste_bytes(b"ls\n", false), b"ls\n".to_vec());
    assert_eq!(paste_bytes(b"ls\n", true), b"\x1b[200~ls\n\x1b[201~".to_vec());
    assert_eq!(paste_bytes(b"", true), b"\x1b[200~\x1b[201~".to_vec());
}

#[test]
fn focus_reports() {
    assert_eq!(focus_report(true), b"\x1b[I".to_vec());
    assert_eq!(focus_report(false), b"\x1b[O".to_vec());
}

#[test]
fn dropped_paths() {
    assert_eq!(format_dropped_path_for_powershell(""), "");
    assert_eq!(format_dropped_path_for_powershell("C:\\a b\\c.txt"), "'C:\\a b\\c.txt' ");
    assert_eq!(format_dropped_path_for_powershell("it's"), "'it''s' ");
    assert_eq!(format_dropped_path_for_powershell("''"), "'''''' ");
}

#[test]
fn font_candidates() {
    let paths = system_font_candidates();
    assert_eq!(paths.len(), 10);
    assert_eq!(paths[0], "C:\\Windows\\Fonts\\arial.ttf");
    assert_eq!(paths[3], "C:\\Windows\\Fonts\\segoeui.ttf");
    assert_eq!(paths[6], "/System/Library/Fonts/Supplemental/Courier New.ttf");
    assert_eq!(paths[9], "/usr/share/fonts/truetype/ubuntu/Ubuntu-R.ttf");
}

#[test]
fn padded_glyph() {
    let (padded, pitch) = pad_glyph(&[1, 2, 3, 4, 5, 6], 3, 2);
    assert_eq!(pitch, 256);
    assert_eq!(padded.len(), 512);
    assert_eq!(&padded[..4], &[1, 2, 3, 0]);
    assert_eq!(&padded[256..260], &[4, 5, 6, 0]);
    assert!(padded[3..256].iter().all(|b| *b == 0));
    let (padded, pitch) = pad_glyph(&[], 0, 0);
    assert_eq!((padded.len(), pitch), (0, 0));
    let (padded, pitch) = pad_glyph(&[7; 257], 257, 1);
    assert_eq!(pitch, 512);
    assert_eq!(padded.len(), 512);
    assert_eq!(padded[256], 7);
    assert_eq!(padded[257], 0);
    let (padded, pitch) = pad_glyph(&[9; 256], 256, 1);
    assert_eq!((padded.len(), pitch), (256, 256));
}

#[test]
fn byte_strings_compare() {
    assert!(bytes_eq(b"abc", b"abc"));
    assert!(!bytes_eq(b"abc", b"abd"));
    assert!(!bytes_eq(b"abc", b"ab"));
    assert!(str_eq("é", "é"));
    assert!(!str_eq("é", "e"));
    assert_eq!(bytes_order(b"abc", b"abd"), Order::Before);
    assert_eq!(bytes_order(b"ab", b"abc"), Order::Before);
    assert_eq!(bytes_order(b"", b"a"), Order::Before);
    assert_eq!(bytes_order(b"abc", b"abc"), Order::Same);
    assert_eq!(bytes_order(b"", b""), Order::Same);
    assert_eq!(bytes_order(b"b", b"abc"), Order::After);
    assert_eq!(bytes_order(b"abc", b"ab"), Order::After);
}

#[test]
fn truncated_text() {
    assert_eq!(truncate_str("hello", 5), "hello");
    assert_eq!(truncate_str("hello", 10), "hello");
    assert_eq!(truncate_str("hello", 3), "hel…");
    assert_eq!(truncate_str("hello", 0), "…");
    assert_eq!(truncate_str("héllo", 3), "hé…");
    assert_eq!(truncate_str("", 0), "");
}

#[test]
fn session_phases() {
    let closed = ProcessInputResult { had_input: false, pty_closed: true };
    let open = ProcessInputResult { had_input: true, pty_closed: false };
    let phase = SessionPhase::new();
    assert_eq!(phase, SessionPhase::Connecting);
    assert!(!phase.is_open());
    assert_eq!(phase.on_poll(closed, false), SessionPhase::Connecting);
    assert_eq!(phase.on_spawn(false), SessionPhase::Failed);
    let phase = phase.on_spawn(true);
    assert_eq!(phase, SessionPhase::Open);
    assert!(phase.is_open());
    assert_eq!(phase.on_spawn(false), SessionPhase::Open);
    assert_eq!(phase.on_poll(open, true), SessionPhase::Open);
    assert_eq!(phase.on_poll(open, false), SessionPhase::Closed);
    assert_eq!(phase.on_poll(closed, true), SessionPhase::Closed);
    for over in [SessionPhase::Closed, SessionPhase::Failed] {
        assert_eq!(over.on_spawn(true), over);
        assert_eq!(over.on_spawn(false), over);
        assert_eq!(over.on_poll(open, true), over);
        assert_eq!(over.on_poll(closed, false), over);
        assert!(!over.is_open());
    }
}

#[test]
fn panel_state() {
    let d = DevToolsState::default();
    assert_eq!(d.active_tab, DevToolsTab::QuickCommands);
    assert_eq!(d.qcmd_filter_tag, "");
    let s = SettingsState::default();
    assert!(!s.open && !s.creating_new && !s.recording_keybinding);
    assert_eq!(s.active_tab, SettingsTab::QuickCommands);
    assert_eq!(s.filter_tag, "");
    assert!(s.editing.is_none());
    let a = TopBarAction::default();
    assert!(!a.request_minimize && !a.request_toggle_maximize);
    assert!(!a.request_close && !a.request_drag_window);
    let mut asked = false;
    let input = TopBarInput {
        terminal_exited: true,
        terminal_connecting: false,
        reconnect_requested: &mut asked,
    };
    *input.reconnect_requested = true;
    assert!(asked);
    assert_eq!(PtySize { rows: 24, cols: 80 }, PtySize { rows: 24, cols: 80 });
    assert_ne!(ScrollRequest::ScreenTop, ScrollRequest::CursorLine);
    assert_ne!(ScrollRequest::CursorTop, ScrollRequest::CursorLine);
}
