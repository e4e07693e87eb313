//! Session log: a bounded record of what was written to the terminal and of
//! what it answered, with control bytes spelled out.

use std::collections::VecDeque;
use vstd::prelude::*;
use vstd::string::StringSliceAdditionalSpecFns;
use vstd::utf8::decode_utf8;
use vstd::utf8::encode_utf8_decode_utf8;
use vstd::utf8::valid_utf8;

verus! {

/// The log holds at most this many completed lines.
pub const VT_LOG_MAX_LINES: usize = 2000;

/// `String::push` appends one character to the string.
pub assume_specification[ String::push ](s: &mut String, ch: char)
    ensures
        final(s)@ == old(s)@.push(ch),
;

/// `core::str::from_utf8` accepts exactly the byte strings that are valid
/// UTF-8, and the string slice it returns consists of the bytes it was given.
#[verifier::external_body]
fn str_from_utf8(data: &[u8]) -> (text: Option<&str>)
    ensures
        text is Some <==> valid_utf8(data@),
        text matches Some(s) ==> s.spec_bytes() == data@,
{
    core::str::from_utf8(data).ok()
}

/// One line of the log.
#[derive(Debug)]
pub enum VtLogEntry {
    /// Bytes written to the terminal by the user.
    Input(String),
    /// A line received from the terminal.
    Output(String),
}

/// A log line as a value: its direction and its text.
pub enum LogLine {
    Input(Seq<char>),
    Output(Seq<char>),
}

impl View for VtLogEntry {
    type V = LogLine;

    open spec fn view(&self) -> LogLine {
        match self {
            VtLogEntry::Input(s) => LogLine::Input(s@),
            VtLogEntry::Output(s) => LogLine::Output(s@),
        }
    }
}

impl Clone for VtLogEntry {
    fn clone(&self) -> (e: Self)
        ensures
            e@ == self@,
    {
        match self {
            VtLogEntry::Input(s) => VtLogEntry::Input(s.clone()),
            VtLogEntry::Output(s) => VtLogEntry::Output(s.clone()),
        }
    }
}

/// The upper-case hexadecimal digit for a value below 16: the digits `0`
/// to `9` have the codes from 48 on, the letters `A` to `F` those from 65 on.
pub open spec fn spec_hex_digit(n: u8) -> char {
    if n < 10 {
        (48 + n) as u8 as char
    } else {
        (55 + n) as u8 as char
    }
}

/// The upper-case hexadecimal digit for a value below 16.
pub fn hex_digit(n: u8) -> (c: char)
    requires
        n < 16,
    ensures
        c == spec_hex_digit(n),
{
    if n < 10 {
        (48 + n) as char
    } else {
        (55 + n) as char
    }
}

/// A control code: one of U+0000 to U+001F or U+007F to U+009F.
pub open spec fn spec_is_control(c: char) -> bool {
    c as u32 <= 0x1f || 0x7f <= c as u32 <= 0x9f
}

/// Whether `c` is a control code.
pub fn is_control(c: char) -> (b: bool)
    ensures
        b == spec_is_control(c),
{
    let code: u32 = c as u32;
    code <= 0x1f || (0x7f <= code && code <= 0x9f)
}

/// How one byte is shown in the log: line feed, carriage return, tab and
/// escape by their usual escapes, printable ASCII as it is, and every other
/// byte as `\xHH` with upper-case digits.
pub open spec fn escape_byte(b: u8) -> Seq<char> {
    if b == 0x0a {
        seq!['\\', 'n']
    } else if b == 0x0d {
        seq!['\\', 'r']
    } else if b == 0x09 {
        seq!['\\', 't']
    } else if b == 0x1b {
        seq!['\\', 'x', '1', 'b']
    } else if 0x20 <= b <= 0x7e {
        seq![b as char]
    } else {
        seq!['\\', 'x', spec_hex_digit(b / 16), spec_hex_digit(b % 16)]
    }
}

/// How one character is shown in the log: line feed, carriage return, tab
/// and escape by their usual escapes, any other control code as `\u{00HH}`
/// with upper-case digits, and every other character as it is.
pub open spec fn escape_char(c: char) -> Seq<char> {
    if c == '\n' {
        seq!['\\', 'n']
    } else if c == '\r' {
        seq!['\\', 'r']
    } else if c == '\t' {
        seq!['\\', 't']
    } else if c == '\x1b' {
        seq!['\\', 'x', '1', 'b']
    } else if spec_is_control(c) {
        seq![
            '\\',
            'u',
            '{',
            '0',
            '0',
            spec_hex_digit((c as u32 / 16) as u8),
            spec_hex_digit((c as u32 % 16) as u8),
            '}',
        ]
    } else {
        seq![c]
    }
}

/// The escapes of all of `data`, in order.
pub open spec fn escape_bytes(data: Seq<u8>) -> Seq<char>
    decreases data.len(),
{
    if data.len() == 0 {
        Seq::empty()
    } else {
        escape_bytes(data.drop_last()) + escape_byte(data.last())
    }
}

/// Appends the escape of `b` to `out`.
pub fn push_escaped_byte(out: &mut String, b: u8)
    ensures
        final(out)@ == old(out)@ + escape_byte(b),
{
    if b == 0x0a {
        out.push('\\');
        out.push('n');
    } else if b == 0x0d {
        out.push('\\');
        out.push('r');
    } else if b == 0x09 {
        out.push('\\');
        out.push('t');
    } else if b == 0x1b {
        out.push('\\');
        out.push('x');
        out.push('1');
        out.push('b');
    } else if 0x20 <= b && b <= 0x7e {
        out.push(b as char);
    } else {
        out.push('\\');
        out.push('x');
        out.push(hex_digit(b / 16));
        out.push(hex_digit(b % 16));
    }
    assert(out@ =~= old(out)@ + escape_byte(b));
}

/// Appends the escape of `c` to `out`.
pub fn push_escaped_char(out: &mut String, c: char)
    ensures
        final(out)@ == old(out)@ + escape_char(c),
{
    if c == '\n' {
        out.push('\\');
        out.push('n');
    } else if c == '\r' {
        out.push('\\');
        out.push('r');
    } else if c == '\t' {
        out.push('\\');
        out.push('t');
    } else if c == '\x1b' {
        out.push('\\');
        out.push('x');
        out.push('1');
        out.push('b');
    } else if is_control(c) {
        let code: u32 = c as u32;
        out.push('\\');
        out.push('u');
        out.push('{');
        out.push('0');
        out.push('0');
        out.push(hex_digit((code / 16) as u8));
        out.push(hex_digit((code % 16) as u8));
        out.push('}');
    } else {
        out.push(c);
    }
    assert(out@ =~= old(out)@ + escape_char(c));
}

/// The log as a value.
pub struct LogState {
    /// The completed lines, oldest first.
    pub lines: Seq<LogLine>,
    /// The output received since the last line feed.
    pub pending: Seq<char>,
}

/// The most recent `VT_LOG_MAX_LINES` of `lines`.
pub open spec fn keep_recent(lines: Seq<LogLine>) -> Seq<LogLine> {
    if lines.len() > VT_LOG_MAX_LINES {
        lines.skip(lines.len() - VT_LOG_MAX_LINES)
    } else {
        lines
    }
}

/// The log after `line` was completed: the line is added at the end and the
/// oldest lines beyond the bound are dropped.
pub open spec fn with_line(lines: Seq<LogLine>, line: LogLine) -> Seq<LogLine> {
    keep_recent(lines.push(line))
}

/// The log after the escape `shown` of one unit of output arrived; a line
/// feed completes the pending line.
pub open spec fn log_unit(st: LogState, shown: Seq<char>, line_feed: bool) -> LogState {
    if line_feed {
        LogState {
            lines: with_line(st.lines, LogLine::Output(st.pending + shown)),
            pending: Seq::empty(),
        }
    } else {
        LogState { lines: st.lines, pending: st.pending + shown }
    }
}

/// The log after one character of output.
pub open spec fn log_char(st: LogState, c: char) -> LogState {
    log_unit(st, escape_char(c), c == '\n')
}

/// The log after one byte of output.
pub open spec fn log_byte(st: LogState, b: u8) -> LogState {
    log_unit(st, escape_byte(b), b == 0x0a)
}

/// The log after the characters `cs` of output, in order.
pub open spec fn log_chars(st: LogState, cs: Seq<char>) -> LogState
    decreases cs.len(),
{
    if cs.len() == 0 {
        st
    } else {
        log_char(log_chars(st, cs.drop_last()), cs.last())
    }
}

/// The log after the bytes `bs` of output, in order.
pub open spec fn log_bytes(st: LogState, bs: Seq<u8>) -> LogState
    decreases bs.len(),
{
    if bs.len() == 0 {
        st
    } else {
        log_byte(log_bytes(st, bs.drop_last()), bs.last())
    }
}

/// The log after a chunk of output: a chunk that is valid UTF-8 is logged
/// character by character, any other chunk byte by byte.
pub open spec fn log_output(st: LogState, data: Seq<u8>) -> LogState {
    if valid_utf8(data) {
        log_chars(st, decode_utf8(data))
    } else {
        log_bytes(st, data)
    }
}

/// The log after `data` was written to the terminal: one input line with the
/// escapes of all of `data`; the pending output is untouched.
pub open spec fn log_input(st: LogState, data: Seq<u8>) -> LogState {
    LogState { lines: with_line(st.lines, LogLine::Input(escape_bytes(data))), pending: st.pending }
}

/// Number of lines that the log shows: the completed lines, and the pending
/// output as one more line unless it is empty.
pub open spec fn shown_len(st: LogState) -> nat {
    if st.pending.len() == 0 {
        st.lines.len()
    } else {
        st.lines.len() + 1
    }
}

/// The line that the log shows at `index`, if there is one.
pub open spec fn shown_line(st: LogState, index: int) -> Option<LogLine> {
    if 0 <= index < st.lines.len() {
        Some(st.lines[index])
    } else if index == st.lines.len() && st.pending.len() > 0 {
        Some(LogLine::Output(st.pending))
    } else {
        None
    }
}

/// The completed lines of the log, never more than `VT_LOG_MAX_LINES`.
struct LineRing {
    lines: VecDeque<VtLogEntry>,
}

impl LineRing {
    #[verifier::type_invariant]
    spec fn bounded(self) -> bool {
        self.lines@.len() <= VT_LOG_MAX_LINES
    }

    spec fn view(&self) -> Seq<LogLine> {
        self.lines@.map_values(|e: VtLogEntry| e@)
    }

    fn new() -> (ring: Self)
        ensures
            ring.view().len() == 0,
    {
        LineRing { lines: VecDeque::new() }
    }

    fn len(&self) -> (n: usize)
        ensures
            n == self.view().len(),
            n <= VT_LOG_MAX_LINES,
    {
        proof {
            use_type_invariant(self);
        }
        self.lines.len()
    }

    fn get(&self, index: usize) -> (entry: VtLogEntry)
        requires
            index < self.view().len(),
        ensures
            entry@ == self.view()[index as int],
    {
        self.lines[index].clone()
    }

    /// Adds a line at the end and drops the oldest line if the ring was full.
    /// The deque is taken out while it changes and put back within its bound.
    fn push(&mut self, entry: VtLogEntry)
        ensures
            final(self).view() == with_line(old(self).view(), entry@),
    {
        proof {
            use_type_invariant(&*self);
        }
        let ghost before = self.view();
        let mut lines: VecDeque<VtLogEntry> = VecDeque::new();
        core::mem::swap(&mut lines, &mut self.lines);
        if lines.len() >= VT_LOG_MAX_LINES {
            let _ = lines.pop_front();
        }
        lines.push_back(entry);
        core::mem::swap(&mut lines, &mut self.lines);
        assert(self.view() =~= with_line(before, entry@));
    }
}

/// Bounded log of input and output lines.
pub struct SessionLog {
    lines: LineRing,
    pending: String,
}

impl View for SessionLog {
    type V = LogState;

    closed spec fn view(&self) -> LogState {
        LogState { lines: self.lines.view(), pending: self.pending@ }
    }
}

impl SessionLog {
    /// An empty log.
    pub fn new() -> (log: Self)
        ensures
            log@.lines.len() == 0,
            log@.pending.len() == 0,
    {
        SessionLog { lines: LineRing::new(), pending: String::new() }
    }

    /// Adds a completed line and drops the oldest line if the log was full.
    fn push_line(&mut self, entry: VtLogEntry)
        ensures
            final(self)@.lines == with_line(old(self)@.lines, entry@),
            final(self)@.pending == old(self)@.pending,
    {
        self.lines.push(entry);
    }

    /// Records `data` as written to the terminal: one input line.
    pub fn log_input(&mut self, data: &[u8])
        ensures
            final(self)@ == log_input(old(self)@, data@),
    {
        let mut shown = String::new();
        let mut i: usize = 0;
        while i < data.len()
            invariant
                i <= data@.len(),
                shown@ == escape_bytes(data@.take(i as int)),
            decreases data@.len() - i,
        {
            push_escaped_byte(&mut shown, data[i]);
            assert(data@.take(i + 1).drop_last() =~= data@.take(i as int));
            i += 1;
        }
        assert(data@.take(i as int) =~= data@);
        self.push_line(VtLogEntry::Input(shown));
    }

    /// Records one character of output.
    fn push_char(&mut self, c: char)
        ensures
            final(self)@ == log_char(old(self)@, c),
    {
        push_escaped_char(&mut self.pending, c);
        if c == '\n' {
            self.flush_pending();
        }
    }

    /// Records one byte of output.
    fn push_byte(&mut self, b: u8)
        ensures
            final(self)@ == log_byte(old(self)@, b),
    {
        push_escaped_byte(&mut self.pending, b);
        if b == 0x0a {
            self.flush_pending();
        }
    }

    /// Completes the pending line.
    fn flush_pending(&mut self)
        ensures
            final(self)@.lines == with_line(old(self)@.lines, LogLine::Output(old(self)@.pending)),
            final(self)@.pending == Seq::<char>::empty(),
    {
        let mut line = String::new();
        core::mem::swap(&mut line, &mut self.pending);
        self.push_line(VtLogEntry::Output(line));
    }

    /// Records a chunk of output. A chunk that is valid UTF-8 is logged
    /// character by character, any other chunk byte by byte; every line feed
    /// completes a line.
    pub fn append_output(&mut self, data: &[u8])
        ensures
            final(self)@ == log_output(old(self)@, data@),
    {
        match str_from_utf8(data) {
            Some(text) => {
                proof {
                    encode_utf8_decode_utf8(text@);
                }
                let ghost cs = text@;
                for c in it: text.chars()
                    invariant
                        it.seq() == cs,
                        self@ == log_chars(old(self)@, cs.take(it.index() as int)),
                {
                    assert(cs.take(it.index() + 1).drop_last() =~= cs.take(it.index() as int));
                    self.push_char(c);
                }
                assert(cs.take(cs.len() as int) =~= cs);
            },
            None => {
                let mut i: usize = 0;
                while i < data.len()
                    invariant
                        i <= data@.len(),
                        self@ == log_bytes(old(self)@, data@.take(i as int)),
                    decreases data@.len() - i,
                {
                    assert(data@.take(i + 1).drop_last() =~= data@.take(i as int));
                    self.push_byte(data[i]);
                    i += 1;
                }
                assert(data@.take(i as int) =~= data@);
            },
        }
    }

    /// Number of lines that the log shows, the pending output included.
    pub fn len(&self) -> (n: usize)
        ensures
            n == shown_len(self@),
            n <= VT_LOG_MAX_LINES + 1,
    {
        let completed: usize = self.lines.len();
        if self.pending.as_str().is_empty() {
            completed
        } else {
            completed + 1
        }
    }

    /// The line that the log shows at `index`: a completed line, or the
    /// pending output as an output line behind the last of them.
    pub fn line(&self, index: usize) -> (entry: Option<VtLogEntry>)
        ensures
            match entry {
                Some(e) => shown_line(self@, index as int) == Some(e@),
                None => shown_line(self@, index as int) is None,
            },
    {
        if index < self.lines.len() {
            Some(self.lines.get(index))
        } else if index == self.lines.len() && !self.pending.as_str().is_empty() {
            Some(VtLogEntry::Output(self.pending.clone()))
        } else {
            None
        }
    }
}

/// The completed lines of a log after the lines `added` were completed one
/// by one.
pub open spec fn with_lines(lines: Seq<LogLine>, added: Seq<LogLine>) -> Seq<LogLine>
    decreases added.len(),
{
    if added.len() == 0 {
        lines
    } else {
        with_line(with_lines(lines, added.drop_last()), added.last())
    }
}

/// The log keeps the most recent lines: after any number of lines were
/// completed in a log within its bound, it holds exactly the last
/// `VT_LOG_MAX_LINES` of the old lines followed by the new ones, in order.
pub proof fn lemma_log_keeps_most_recent(lines: Seq<LogLine>, added: Seq<LogLine>)
    requires
        lines.len() <= VT_LOG_MAX_LINES,
    ensures
        with_lines(lines, added) == keep_recent(lines + added),
        with_lines(lines, added).len() <= VT_LOG_MAX_LINES,
    decreases added.len(),
{
    if added.len() == 0 {
        assert(lines + added =~= lines);
    } else {
        let init = added.drop_last();
        lemma_log_keeps_most_recent(lines, init);
        assert(lines + added =~= (lines + init).push(added.last()));
        assert(with_lines(lines, added) =~= keep_recent(lines + added));
    }
}

} // verus!
