//! What the log holds after a stream of plain lines, however the stream was
//! cut into chunks.

use vstd::prelude::*;
use vstd::utf8::decode_utf8;
use vstd::utf8::encode_utf8;
use vstd::utf8::encode_utf8_decode_utf8;
use vstd::utf8::encode_utf8_valid_utf8;
use vstd::utf8::is_ascii_chars;
use vstd::utf8::is_ascii_chars_encode_utf8;
use vstd::utf8::valid_utf8;

use crate::cwd::stream;
use crate::terminal::log_outputs;
use crate::vtlog::keep_recent;
use crate::vtlog::lemma_log_keeps_most_recent;
use crate::vtlog::log_chars;
use crate::vtlog::with_line;
use crate::vtlog::with_lines;
use crate::vtlog::LogLine;
use crate::vtlog::LogState;
use crate::vtlog::VT_LOG_MAX_LINES;

verus! {

/// Every byte is printable ASCII.
pub open spec fn is_printable(line: Seq<u8>) -> bool {
    forall|i: int| 0 <= i < line.len() ==> 0x20 <= #[trigger] line[i] <= 0x7e
}

/// Every byte is ASCII.
pub open spec fn is_ascii(bytes: Seq<u8>) -> bool {
    forall|i: int| 0 <= i < bytes.len() ==> #[trigger] bytes[i] < 0x80
}

/// ASCII bytes as characters.
pub open spec fn as_text(bytes: Seq<u8>) -> Seq<char> {
    Seq::new(bytes.len(), |i: int| bytes[i] as char)
}

/// The bytes of the lines, each followed by a line feed.
pub open spec fn joined(lines: Seq<Seq<u8>>) -> Seq<u8>
    decreases lines.len(),
{
    if lines.len() == 0 {
        Seq::empty()
    } else {
        joined(lines.drop_last()) + lines.last() + seq![0x0au8]
    }
}

/// The log line that a plain line of output makes: its text and the escape
/// of the line feed that completed it.
pub open spec fn logged_line(line: Seq<u8>) -> LogLine {
    LogLine::Output(as_text(line) + seq!['\\', 'n'])
}

/// The log lines that plain lines of output make, in order.
pub open spec fn logged(lines: Seq<Seq<u8>>) -> Seq<LogLine> {
    Seq::new(lines.len(), |i: int| logged_line(lines[i]))
}

/// ASCII bytes are valid UTF-8 and encode themselves.
pub proof fn lemma_ascii_is_utf8(bytes: Seq<u8>)
    requires
        is_ascii(bytes),
    ensures
        valid_utf8(bytes),
        decode_utf8(bytes) == as_text(bytes),
{
    let chars = as_text(bytes);
    assert(is_ascii_chars(chars));
    is_ascii_chars_encode_utf8(chars);
    assert(encode_utf8(chars) =~= bytes) by {
        assert forall|i: int| 0 <= i < bytes.len() implies encode_utf8(chars)[i] == bytes[i] by {
            assert(chars[i] as u8 == encode_utf8(chars)[i]);
        }
    }
    encode_utf8_valid_utf8(chars);
    encode_utf8_decode_utf8(chars);
}

/// Logging characters one after another does not depend on where the text
/// is cut.
pub proof fn lemma_log_chars_concat(st: LogState, a: Seq<char>, b: Seq<char>)
    ensures
        log_chars(st, a + b) == log_chars(log_chars(st, a), b),
    decreases b.len(),
{
    if b.len() == 0 {
        assert(a + b =~= a);
    } else {
        lemma_log_chars_concat(st, a, b.drop_last());
        assert((a + b).drop_last() =~= a + b.drop_last());
    }
}

/// Chunks of ASCII are logged as their text, wherever the cuts fall.
pub proof fn lemma_log_ascii_chunks(st: LogState, chunks: Seq<Seq<u8>>)
    requires
        is_ascii(stream(chunks)),
    ensures
        log_outputs(st, chunks) == log_chars(st, as_text(stream(chunks))),
    decreases chunks.len(),
{
    if chunks.len() == 0 {
        assert(as_text(stream(chunks)) =~= Seq::<char>::empty());
    } else {
        let init = chunks.drop_last();
        let c = chunks.last();
        let whole = stream(chunks);
        assert(whole == stream(init) + c);
        assert(is_ascii(stream(init))) by {
            assert forall|i: int| 0 <= i < stream(init).len() implies #[trigger] stream(init)[i]
                < 0x80 by {
                assert(whole[i] == stream(init)[i]);
            }
        }
        assert(is_ascii(c)) by {
            assert forall|i: int| 0 <= i < c.len() implies #[trigger] c[i] < 0x80 by {
                assert(whole[stream(init).len() + i] == c[i]);
            }
        }
        lemma_log_ascii_chunks(st, init);
        lemma_ascii_is_utf8(c);
        assert(as_text(whole) =~= as_text(stream(init)) + as_text(c));
        lemma_log_chars_concat(st, as_text(stream(init)), as_text(c));
    }
}

/// Printable text goes to the pending line as it is.
pub proof fn lemma_log_printable(st: LogState, line: Seq<u8>)
    requires
        is_printable(line),
    ensures
        log_chars(st, as_text(line)) == (LogState {
            lines: st.lines,
            pending: st.pending + as_text(line),
        }),
    decreases line.len(),
{
    let text = as_text(line);
    if line.len() == 0 {
        assert(st.pending + text =~= st.pending);
    } else {
        let init = line.drop_last();
        assert(is_printable(init)) by {
            assert forall|i: int| 0 <= i < init.len() implies 0x20 <= #[trigger] init[i]
                <= 0x7e by {
                assert(line[i] == init[i]);
            }
        }
        lemma_log_printable(st, init);
        assert(text.drop_last() =~= as_text(init));
        let c = text.last();
        assert(c == line.last() as char);
        assert(0x20 <= line[line.len() - 1] <= 0x7e);
        assert(st.pending + as_text(init) + seq![c] =~= st.pending + text);
    }
}

/// A printable line and its line feed complete the pending line.
pub proof fn lemma_log_line(st: LogState, line: Seq<u8>)
    requires
        is_printable(line),
    ensures
        log_chars(st, as_text(line + seq![0x0au8])) == (LogState {
            lines: with_line(
                st.lines,
                LogLine::Output(st.pending + as_text(line) + seq!['\\', 'n']),
            ),
            pending: Seq::empty(),
        }),
{
    let text = as_text(line + seq![0x0au8]);
    assert(text.drop_last() =~= as_text(line));
    assert(text.last() == '\n');
    lemma_log_printable(st, line);
}

/// Plain lines of output are logged as one log line each.
pub proof fn lemma_log_lines(st: LogState, lines: Seq<Seq<u8>>)
    requires
        st.pending.len() == 0,
        forall|i: int| 0 <= i < lines.len() ==> is_printable(#[trigger] lines[i]),
    ensures
        is_ascii(joined(lines)),
        log_chars(st, as_text(joined(lines))) == (LogState {
            lines: with_lines(st.lines, logged(lines)),
            pending: Seq::empty(),
        }),
    decreases lines.len(),
{
    if lines.len() == 0 {
        assert(as_text(joined(lines)) =~= Seq::<char>::empty());
        assert(st.pending =~= Seq::<char>::empty());
    } else {
        let init = lines.drop_last();
        let line = lines.last();
        assert forall|i: int| 0 <= i < init.len() implies is_printable(#[trigger] init[i]) by {
            assert(init[i] == lines[i]);
        }
        lemma_log_lines(st, init);
        let before = log_chars(st, as_text(joined(init)));
        let tail = line + seq![0x0au8];
        assert(joined(lines) =~= joined(init) + tail);
        assert(is_printable(line));
        assert(is_ascii(joined(lines))) by {
            assert forall|i: int| 0 <= i < joined(lines).len() implies #[trigger] joined(
                lines,
            )[i] < 0x80 by {
                let n = joined(init).len();
                if i < n {
                    assert(joined(init)[i] < 0x80);
                } else if i < n + line.len() {
                    assert(0x20 <= line[i - n] <= 0x7e);
                }
            }
        }
        assert(as_text(joined(lines)) =~= as_text(joined(init)) + as_text(tail));
        lemma_log_chars_concat(st, as_text(joined(init)), as_text(tail));
        lemma_log_line(before, line);
        assert(before.pending + as_text(line) + seq!['\\', 'n'] =~= as_text(line) + seq![
            '\\',
            'n',
        ]);
        assert(logged(lines).drop_last() =~= logged(init));
        assert(logged(lines).last() == logged_line(line));
    }
}

/// The log is bounded over a stream of lines: after plain lines of output
/// arrived in a log without pending output, in one chunk or cut anywhere
/// into several, the log holds one line for each of them, in the order of
/// arrival, but only the most recent `VT_LOG_MAX_LINES` of all its lines;
/// nothing is pending.
pub proof fn lemma_log_of_line_stream(st: LogState, lines: Seq<Seq<u8>>, chunks: Seq<Seq<u8>>)
    requires
        st.pending.len() == 0,
        st.lines.len() <= VT_LOG_MAX_LINES,
        forall|i: int| 0 <= i < lines.len() ==> is_printable(#[trigger] lines[i]),
        stream(chunks) == joined(lines),
    ensures
        log_outputs(st, chunks) == (LogState {
            lines: keep_recent(st.lines + logged(lines)),
            pending: Seq::empty(),
        }),
        log_outputs(st, chunks).lines.len() <= VT_LOG_MAX_LINES,
{
    lemma_log_lines(st, lines);
    lemma_log_ascii_chunks(st, chunks);
    lemma_log_keeps_most_recent(st.lines, logged(lines));
}

} // verus!
