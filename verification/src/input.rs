//! The command line of the built-in prompt.

use vstd::prelude::*;
use vstd::string::StrSliceExecFns;

verus! {

/// White space: a character with the Unicode property White_Space.
pub open spec fn spec_is_whitespace(c: char) -> bool {
    let u = c as u32;
    ||| 0x09 <= u <= 0x0d
    ||| u == 0x20
    ||| u == 0x85
    ||| u == 0xa0
    ||| u == 0x1680
    ||| 0x2000 <= u <= 0x200a
    ||| u == 0x2028
    ||| u == 0x2029
    ||| u == 0x202f
    ||| u == 0x205f
    ||| u == 0x3000
}

/// `s` without the white space at its end.
pub open spec fn trimmed_at_end(s: Seq<char>) -> Seq<char>
    decreases s.len(),
{
    if s.len() > 0 && spec_is_whitespace(s.last()) {
        trimmed_at_end(s.drop_last())
    } else {
        s
    }
}

/// `s` without the white space at its start.
pub open spec fn trimmed_at_start(s: Seq<char>) -> Seq<char>
    decreases s.len(),
{
    if s.len() > 0 && spec_is_whitespace(s[0]) {
        trimmed_at_start(s.drop_first())
    } else {
        s
    }
}

/// `s` without the white space at its start and at its end.
pub open spec fn trimmed(s: Seq<char>) -> Seq<char> {
    trimmed_at_start(trimmed_at_end(s))
}

/// A text that neither starts nor ends with white space is left as it is.
pub proof fn lemma_trimmed_leaves_tight_text(s: Seq<char>)
    requires
        s.len() > 0 ==> !spec_is_whitespace(s[0]) && !spec_is_whitespace(s.last()),
    ensures
        trimmed(s) == s,
{
}

/// `str::trim`: the slice without the white space, by the Unicode property
/// White_Space, at its start and at its end.
#[verifier::external_body]
fn trim_str(s: &str) -> (t: &str)
    ensures
        t@ == trimmed(s@),
{
    s.trim()
}

/// The character that a command of the form `show X` names, where `X` is a
/// single ASCII character; `None` for any other text.
pub open spec fn spec_parse_show(line: Seq<char>) -> Option<char> {
    if line.len() == 6 && line[0] == 's' && line[1] == 'h' && line[2] == 'o' && line[3] == 'w'
        && line[4] == ' ' && (line[5] as u32) < 128 {
        Some(line[5])
    } else {
        None
    }
}

/// Reads a command that has no white space around it: `show X` gives `X`.
pub fn parse_show_trimmed(line: &str) -> (shown: Option<char>)
    ensures
        shown == spec_parse_show(line@),
{
    if line.unicode_len() != 6 {
        return None;
    }
    if line.get_char(0) != 's' || line.get_char(1) != 'h' || line.get_char(2) != 'o'
        || line.get_char(3) != 'w' || line.get_char(4) != ' ' {
        return None;
    }
    let c: char = line.get_char(5);
    if (c as u32) < 128 {
        Some(c)
    } else {
        None
    }
}

/// Reads a command: the white space around it is dropped, and `show X`
/// gives `X`.
pub fn parse_show_command(line: &str) -> (shown: Option<char>)
    ensures
        shown == spec_parse_show(trimmed(line@)),
{
    parse_show_trimmed(trim_str(line))
}

/// The text typed so far at the prompt.
pub struct CommandInput {
    buffer: String,
}

impl View for CommandInput {
    type V = Seq<char>;

    closed spec fn view(&self) -> Seq<char> {
        self.buffer@
    }
}

impl CommandInput {
    /// An empty command line.
    pub fn new() -> (input: Self)
        ensures
            input@ == Seq::<char>::empty(),
    {
        CommandInput { buffer: String::new() }
    }

    /// Types a character.
    pub fn push_char(&mut self, ch: char)
        ensures
            final(self)@ == old(self)@.push(ch),
    {
        self.buffer.push(ch);
    }

    /// Deletes the last character, if there is one.
    pub fn on_backspace(&mut self)
        ensures
            final(self)@ == if old(self)@.len() > 0 {
                old(self)@.drop_last()
            } else {
                old(self)@
            },
    {
        let _ = self.buffer.pop();
    }

    /// Submits the line: the command line is emptied, and a command of the
    /// form `show X` gives `X`.
    pub fn on_enter(&mut self) -> (shown: Option<char>)
        ensures
            final(self)@ == Seq::<char>::empty(),
            shown == spec_parse_show(trimmed(old(self)@)),
    {
        let shown = parse_show_trimmed(trim_str(self.buffer.as_str()));
        self.buffer = String::new();
        shown
    }
}

} // verus!
