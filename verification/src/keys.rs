//! Keyboard input: which bytes a key press sends to the terminal.

use vstd::prelude::*;
use vstd::slice::slice_to_vec;
use vstd::string::StrSliceExecFns;
use vstd::string::StringSliceAdditionalSpecFns;
use vstd::utf8::encode_utf8;

verus! {

/// The keys that have a name rather than a character.
#[derive(Clone, Copy, Debug, PartialEq, Eq, Structural)]
pub enum NamedKey {
    Enter,
    Backspace,
    Tab,
    Escape,
    Space,
    ArrowUp,
    ArrowDown,
    ArrowRight,
    ArrowLeft,
    Home,
    End,
    PageUp,
    PageDown,
    Insert,
    Delete,
    F1,
    F2,
    F3,
    F4,
    F5,
    F6,
    F7,
    F8,
    F9,
    F10,
    F11,
    F12,
    /// Any other named key; it sends nothing.
    Other,
}

/// What a key press means, apart from where the key is on the keyboard.
#[derive(Clone, Debug)]
pub enum Key {
    /// A key with a name.
    Named(NamedKey),
    /// A key that stands for the given text.
    Character(String),
    /// A key that stands for nothing: a dead key or one not identified.
    Unidentified,
}

/// A key that went down or up.
#[derive(Clone, Debug)]
pub struct KeyEvent {
    /// Whether the key went down.
    pub pressed: bool,
    /// What the key means under the current modifiers.
    pub logical_key: Key,
    /// The text that the press produces, if any.
    pub text: Option<String>,
}

/// The bytes that a named key sends.
pub open spec fn spec_named_key_bytes(key: NamedKey) -> Option<Seq<u8>> {
    match key {
        NamedKey::Enter => Some(seq![0x0du8]),
        NamedKey::Backspace => Some(seq![0x7fu8]),
        NamedKey::Tab => Some(seq![0x09u8]),
        NamedKey::Escape => Some(seq![0x1bu8]),
        NamedKey::Space => Some(seq![0x20u8]),
        NamedKey::ArrowUp => Some(seq![0x1bu8, 0x5bu8, 0x41u8]),
        NamedKey::ArrowDown => Some(seq![0x1bu8, 0x5bu8, 0x42u8]),
        NamedKey::ArrowRight => Some(seq![0x1bu8, 0x5bu8, 0x43u8]),
        NamedKey::ArrowLeft => Some(seq![0x1bu8, 0x5bu8, 0x44u8]),
        NamedKey::Home => Some(seq![0x1bu8, 0x5bu8, 0x48u8]),
        NamedKey::End => Some(seq![0x1bu8, 0x5bu8, 0x46u8]),
        NamedKey::PageUp => Some(seq![0x1bu8, 0x5bu8, 0x35u8, 0x7eu8]),
        NamedKey::PageDown => Some(seq![0x1bu8, 0x5bu8, 0x36u8, 0x7eu8]),
        NamedKey::Insert => Some(seq![0x1bu8, 0x5bu8, 0x32u8, 0x7eu8]),
        NamedKey::Delete => Some(seq![0x1bu8, 0x5bu8, 0x33u8, 0x7eu8]),
        NamedKey::F1 => Some(seq![0x1bu8, 0x4fu8, 0x50u8]),
        NamedKey::F2 => Some(seq![0x1bu8, 0x4fu8, 0x51u8]),
        NamedKey::F3 => Some(seq![0x1bu8, 0x4fu8, 0x52u8]),
        NamedKey::F4 => Some(seq![0x1bu8, 0x4fu8, 0x53u8]),
        NamedKey::F5 => Some(seq![0x1bu8, 0x5bu8, 0x31u8, 0x35u8, 0x7eu8]),
        NamedKey::F6 => Some(seq![0x1bu8, 0x5bu8, 0x31u8, 0x37u8, 0x7eu8]),
        NamedKey::F7 => Some(seq![0x1bu8, 0x5bu8, 0x31u8, 0x38u8, 0x7eu8]),
        NamedKey::F8 => Some(seq![0x1bu8, 0x5bu8, 0x31u8, 0x39u8, 0x7eu8]),
        NamedKey::F9 => Some(seq![0x1bu8, 0x5bu8, 0x32u8, 0x30u8, 0x7eu8]),
        NamedKey::F10 => Some(seq![0x1bu8, 0x5bu8, 0x32u8, 0x31u8, 0x7eu8]),
        NamedKey::F11 => Some(seq![0x1bu8, 0x5bu8, 0x32u8, 0x33u8, 0x7eu8]),
        NamedKey::F12 => Some(seq![0x1bu8, 0x5bu8, 0x32u8, 0x34u8, 0x7eu8]),
        NamedKey::Other => None,
    }
}

/// An ASCII letter.
pub open spec fn is_ascii_letter(c: char) -> bool {
    ('a' <= c <= 'z') || ('A' <= c <= 'Z')
}

/// The control byte of an ASCII letter: 1 for `a` or `A` up to 26 for `z`
/// or `Z`.
pub open spec fn control_byte(c: char) -> u8 {
    if 'a' <= c <= 'z' {
        (c as u32 - 'a' as u32 + 1) as u8
    } else {
        (c as u32 - 'A' as u32 + 1) as u8
    }
}

/// The bytes that a key event sends to the terminal, with Ctrl held or not.
///
/// A release sends nothing. With Ctrl, a character key whose text starts
/// with an ASCII letter sends that letter's control byte, and one without
/// text sends nothing. Otherwise a named key sends its sequence and a
/// character key the text that the press produced, or its own text where
/// the press produced none, in UTF-8.
pub open spec fn spec_key_input(event: KeyEvent, ctrl: bool) -> Option<Seq<u8>> {
    if !event.pressed {
        None
    } else if ctrl && event.logical_key is Character && event.logical_key->Character_0@.len()
        == 0 {
        None
    } else if ctrl && event.logical_key is Character && is_ascii_letter(
        event.logical_key->Character_0@[0],
    ) {
        Some(seq![control_byte(event.logical_key->Character_0@[0])])
    } else {
        match event.logical_key {
            Key::Named(named) => spec_named_key_bytes(named),
            Key::Character(text) => match event.text {
                Some(produced) => Some(encode_utf8(produced@)),
                None => Some(encode_utf8(text@)),
            },
            Key::Unidentified => None,
        }
    }
}

/// View of an optional byte vector.
pub open spec fn opt_view(o: Option<Vec<u8>>) -> Option<Seq<u8>> {
    match o {
        Some(v) => Some(v@),
        None => None,
    }
}

/// The bytes that a named key sends.
pub fn named_key_bytes(key: NamedKey) -> (bytes: Option<Vec<u8>>)
    ensures
        opt_view(bytes) == spec_named_key_bytes(key),
{
    match key {
        NamedKey::Enter => {
            let v: Vec<u8> = vec![0x0du8];
            assert(v@ =~= seq![0x0du8]);
            Some(v)
        },
        NamedKey::Backspace => {
            let v: Vec<u8> = vec![0x7fu8];
            assert(v@ =~= seq![0x7fu8]);
            Some(v)
        },
        NamedKey::Tab => {
            let v: Vec<u8> = vec![0x09u8];
            assert(v@ =~= seq![0x09u8]);
            Some(v)
        },
        NamedKey::Escape => {
            let v: Vec<u8> = vec![0x1bu8];
            assert(v@ =~= seq![0x1bu8]);
            Some(v)
        },
        NamedKey::Space => {
            let v: Vec<u8> = vec![0x20u8];
            assert(v@ =~= seq![0x20u8]);
            Some(v)
        },
        NamedKey::ArrowUp => {
            let v: Vec<u8> = vec![0x1bu8, 0x5bu8, 0x41u8];
            assert(v@ =~= seq![0x1bu8, 0x5bu8, 0x41u8]);
            Some(v)
        },
        NamedKey::ArrowDown => {
            let v: Vec<u8> = vec![0x1bu8, 0x5bu8, 0x42u8];
            assert(v@ =~= seq![0x1bu8, 0x5bu8, 0x42u8]);
            Some(v)
        },
        NamedKey::ArrowRight => {
            let v: Vec<u8> = vec![0x1bu8, 0x5bu8, 0x43u8];
            assert(v@ =~= seq![0x1bu8, 0x5bu8, 0x43u8]);
            Some(v)
        },
        NamedKey::ArrowLeft => {
            let v: Vec<u8> = vec![0x1bu8, 0x5bu8, 0x44u8];
            assert(v@ =~= seq![0x1bu8, 0x5bu8, 0x44u8]);
            Some(v)
        },
        NamedKey::Home => {
            let v: Vec<u8> = vec![0x1bu8, 0x5bu8, 0x48u8];
            assert(v@ =~= seq![0x1bu8, 0x5bu8, 0x48u8]);
            Some(v)
        },
        NamedKey::End => {
            let v: Vec<u8> = vec![0x1bu8, 0x5bu8, 0x46u8];
            assert(v@ =~= seq![0x1bu8, 0x5bu8, 0x46u8]);
            Some(v)
        },
        NamedKey::PageUp => {
            let v: Vec<u8> = vec![0x1bu8, 0x5bu8, 0x35u8, 0x7eu8];
            assert(v@ =~= seq![0x1bu8, 0x5bu8, 0x35u8, 0x7eu8]);
            Some(v)
        },
        NamedKey::PageDown => {
            let v: Vec<u8> = vec![0x1bu8, 0x5bu8, 0x36u8, 0x7eu8];
            assert(v@ =~= seq![0x1bu8, 0x5bu8, 0x36u8, 0x7eu8]);
            Some(v)
        },
        NamedKey::Insert => {
            let v: Vec<u8> = vec![0x1bu8, 0x5bu8, 0x32u8, 0x7eu8];
            assert(v@ =~= seq![0x1bu8, 0x5bu8, 0x32u8, 0x7eu8]);
            Some(v)
        },
        NamedKey::Delete => {
            let v: Vec<u8> = vec![0x1bu8, 0x5bu8, 0x33u8, 0x7eu8];
            assert(v@ =~= seq![0x1bu8, 0x5bu8, 0x33u8, 0x7eu8]);
            Some(v)
        },
        NamedKey::F1 => {
            let v: Vec<u8> = vec![0x1bu8, 0x4fu8, 0x50u8];
            assert(v@ =~= seq![0x1bu8, 0x4fu8, 0x50u8]);
            Some(v)
        },
        NamedKey::F2 => {
            let v: Vec<u8> = vec![0x1bu8, 0x4fu8, 0x51u8];
            assert(v@ =~= seq![0x1bu8, 0x4fu8, 0x51u8]);
            Some(v)
        },
        NamedKey::F3 => {
            let v: Vec<u8> = vec![0x1bu8, 0x4fu8, 0x52u8];
            assert(v@ =~= seq![0x1bu8, 0x4fu8, 0x52u8]);
            Some(v)
        },
        NamedKey::F4 => {
            let v: Vec<u8> = vec![0x1bu8, 0x4fu8, 0x53u8];
            assert(v@ =~= seq![0x1bu8, 0x4fu8, 0x53u8]);
            Some(v)
        },
        NamedKey::F5 => {
            let v: Vec<u8> = vec![0x1bu8, 0x5bu8, 0x31u8, 0x35u8, 0x7eu8];
            assert(v@ =~= seq![0x1bu8, 0x5bu8, 0x31u8, 0x35u8, 0x7eu8]);
            Some(v)
        },
        NamedKey::F6 => {
            let v: Vec<u8> = vec![0x1bu8, 0x5bu8, 0x31u8, 0x37u8, 0x7eu8];
            assert(v@ =~= seq![0x1bu8, 0x5bu8, 0x31u8, 0x37u8, 0x7eu8]);
            Some(v)
        },
        NamedKey::F7 => {
            let v: Vec<u8> = vec![0x1bu8, 0x5bu8, 0x31u8, 0x38u8, 0x7eu8];
            assert(v@ =~= seq![0x1bu8, 0x5bu8, 0x31u8, 0x38u8, 0x7eu8]);
            Some(v)
        },
        NamedKey::F8 => {
            let v: Vec<u8> = vec![0x1bu8, 0x5bu8, 0x31u8, 0x39u8, 0x7eu8];
            assert(v@ =~= seq![0x1bu8, 0x5bu8, 0x31u8, 0x39u8, 0x7eu8]);
            Some(v)
        },
        NamedKey::F9 => {
            let v: Vec<u8> = vec![0x1bu8, 0x5bu8, 0x32u8, 0x30u8, 0x7eu8];
            assert(v@ =~= seq![0x1bu8, 0x5bu8, 0x32u8, 0x30u8, 0x7eu8]);
            Some(v)
        },
        NamedKey::F10 => {
            let v: Vec<u8> = vec![0x1bu8, 0x5bu8, 0x32u8, 0x31u8, 0x7eu8];
            assert(v@ =~= seq![0x1bu8, 0x5bu8, 0x32u8, 0x31u8, 0x7eu8]);
            Some(v)
        },
        NamedKey::F11 => {
            let v: Vec<u8> = vec![0x1bu8, 0x5bu8, 0x32u8, 0x33u8, 0x7eu8];
            assert(v@ =~= seq![0x1bu8, 0x5bu8, 0x32u8, 0x33u8, 0x7eu8]);
            Some(v)
        },
        NamedKey::F12 => {
            let v: Vec<u8> = vec![0x1bu8, 0x5bu8, 0x32u8, 0x34u8, 0x7eu8];
            assert(v@ =~= seq![0x1bu8, 0x5bu8, 0x32u8, 0x34u8, 0x7eu8]);
            Some(v)
        },
        NamedKey::Other => None,
    }
}

/// The bytes that a key event sends to the terminal, with Ctrl held or not.
pub fn key_to_terminal_input(event: &KeyEvent, ctrl: bool) -> (bytes: Option<Vec<u8>>)
    ensures
        opt_view(bytes) == spec_key_input(*event, ctrl),
{
    if !event.pressed {
        return None;
    }
    if ctrl {
        match &event.logical_key {
            Key::Character(text) => {
                if text.as_str().is_empty() {
                    return None;
                }
                let c: char = text.as_str().get_char(0);
                if 'a' <= c && c <= 'z' {
                    let b: u8 = (c as u32 - 'a' as u32 + 1) as u8;
                    let v: Vec<u8> = vec![b];
                    assert(v@ =~= seq![control_byte(c)]);
                    return Some(v);
                }
                if 'A' <= c && c <= 'Z' {
                    let b: u8 = (c as u32 - 'A' as u32 + 1) as u8;
                    let v: Vec<u8> = vec![b];
                    assert(v@ =~= seq![control_byte(c)]);
                    return Some(v);
                }
            },
            _ => {},
        }
    }
    match &event.logical_key {
        Key::Named(named) => named_key_bytes(*named),
        Key::Character(text) => match &event.text {
            Some(produced) => Some(slice_to_vec(produced.as_str().as_bytes())),
            None => Some(slice_to_vec(text.as_str().as_bytes())),
        },
        Key::Unidentified => None,
    }
}

/// Opening bracket of a bracketed paste: `ESC [ 200 ~`.
pub open spec fn paste_start() -> Seq<u8> {
    seq![0x1bu8, 0x5bu8, 0x32u8, 0x30u8, 0x30u8, 0x7eu8]
}

/// Closing bracket of a bracketed paste: `ESC [ 201 ~`.
pub open spec fn paste_end() -> Seq<u8> {
    seq![0x1bu8, 0x5bu8, 0x32u8, 0x30u8, 0x31u8, 0x7eu8]
}

/// The bytes that pasting `text` sends: the text itself, between paste
/// brackets where the terminal asked for them.
pub fn paste_bytes(text: &[u8], bracketed: bool) -> (bytes: Vec<u8>)
    ensures
        bytes@ == if bracketed {
            paste_start() + text@ + paste_end()
        } else {
            text@
        },
{
    let mut bytes: Vec<u8> = Vec::new();
    if bracketed {
        bytes.push(0x1b);
        bytes.push(0x5b);
        bytes.push(0x32);
        bytes.push(0x30);
        bytes.push(0x30);
        bytes.push(0x7e);
    }
    let ghost head = bytes@;
    let mut i: usize = 0;
    while i < text.len()
        invariant
            i <= text@.len(),
            bytes@ == head + text@.take(i as int),
        decreases text@.len() - i,
    {
        bytes.push(text[i]);
        i += 1;
        assert(bytes@ =~= head + text@.take(i as int));
    }
    assert(text@.take(i as int) =~= text@);
    if bracketed {
        bytes.push(0x1b);
        bytes.push(0x5b);
        bytes.push(0x32);
        bytes.push(0x30);
        bytes.push(0x31);
        bytes.push(0x7e);
        assert(bytes@ =~= paste_start() + text@ + paste_end());
    } else {
        assert(bytes@ =~= text@);
    }
    bytes
}

/// The bytes that report a change of focus: `ESC [ I` for focus gained,
/// `ESC [ O` for focus lost.
pub fn focus_report(focused: bool) -> (bytes: Vec<u8>)
    ensures
        bytes@ == if focused {
            seq![0x1bu8, 0x5bu8, 0x49u8]
        } else {
            seq![0x1bu8, 0x5bu8, 0x4fu8]
        },
{
    if focused {
        let v: Vec<u8> = vec![0x1bu8, 0x5bu8, 0x49u8];
        assert(v@ =~= seq![0x1bu8, 0x5bu8, 0x49u8]);
        v
    } else {
        let v: Vec<u8> = vec![0x1bu8, 0x5bu8, 0x4fu8];
        assert(v@ =~= seq![0x1bu8, 0x5bu8, 0x4fu8]);
        v
    }
}

} // verus!
