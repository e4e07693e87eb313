//! Why the working-directory tracker does not care how its input is cut.
//!
//! Every decision of a scan rests on bytes that have arrived: a marker is
//! found where it first stands, a payload ends at the first terminator of
//! either kind, and what may still become a marker or a terminator is kept.
//! So feeding a stream in chunks, however it is cut, ends as feeding it in
//! one piece.

use vstd::prelude::*;

use crate::cwd::bel;
use crate::cwd::feed_all;
use crate::cwd::is_partial_marker;
use crate::cwd::lemma_find_from;
use crate::cwd::lemma_find_is_first;
use crate::cwd::lemma_find_none;
use crate::cwd::lemma_partial_from;
use crate::cwd::lemma_terminator_bounds;
use crate::cwd::marker;
use crate::cwd::occurs_at;
use crate::cwd::scan;
use crate::cwd::spec_feed;
use crate::cwd::spec_find_subslice;
use crate::cwd::spec_partial_len;
use crate::cwd::spec_terminator;
use crate::cwd::stream;
use crate::cwd::string_terminator;
use crate::cwd::Scan;
use crate::cwd::MARKER_LEN;

verus! {

/// An occurrence in the rest of a byte string is an occurrence in the whole.
proof fn lemma_occurs_in_skip(x: Seq<u8>, needle: Seq<u8>, p: int, i: int)
    requires
        0 <= p <= x.len(),
        0 <= i,
    ensures
        occurs_at(x.skip(p), needle, i) == occurs_at(x, needle, i + p),
{
    if i + needle.len() <= x.len() - p {
        assert(x.skip(p).subrange(i, i + needle.len()) =~= x.subrange(
            i + p,
            i + p + needle.len(),
        ));
    }
}

/// An occurrence in a byte string is an occurrence in any extension of it,
/// and an occurrence that ends within the first part of a concatenation is
/// an occurrence in that part.
proof fn lemma_occurs_in_concat(b: Seq<u8>, d: Seq<u8>, needle: Seq<u8>, i: int)
    requires
        0 <= i,
        i + needle.len() <= b.len(),
    ensures
        occurs_at(b + d, needle, i) == occurs_at(b, needle, i),
{
    assert((b + d).subrange(i, i + needle.len()) =~= b.subrange(i, i + needle.len()));
}

/// What is found first in a byte string is found first in any extension of
/// it.
proof fn lemma_find_in_concat(b: Seq<u8>, d: Seq<u8>, needle: Seq<u8>)
    requires
        spec_find_subslice(b, needle) is Some,
    ensures
        spec_find_subslice(b + d, needle) == spec_find_subslice(b, needle),
{
    if needle.len() > 0 {
        lemma_find_from(b, needle, 0);
        let s = spec_find_subslice(b, needle)->0;
        lemma_occurs_in_concat(b, d, needle, s);
        assert forall|j: int| 0 <= j < s implies !occurs_at(b + d, needle, j) by {
            lemma_occurs_in_concat(b, d, needle, j);
        }
        lemma_find_is_first(b + d, needle, s);
    }
}

/// Where nothing occurs before index `p`, a search of the whole finds what a
/// search of the rest from `p` finds, `p` further on.
proof fn lemma_find_after_skip(x: Seq<u8>, needle: Seq<u8>, p: int)
    requires
        0 <= p <= x.len(),
        needle.len() > 0,
        forall|j: int| 0 <= j < p ==> !occurs_at(x, needle, j),
    ensures
        match spec_find_subslice(x.skip(p), needle) {
            Some(i) => spec_find_subslice(x, needle) == Some(i + p),
            None => spec_find_subslice(x, needle) is None,
        },
{
    lemma_find_from(x.skip(p), needle, 0);
    match spec_find_subslice(x.skip(p), needle) {
        Some(i) => {
            lemma_occurs_in_skip(x, needle, p, i);
            assert forall|j: int| 0 <= j < i + p implies !occurs_at(x, needle, j) by {
                if j >= p {
                    lemma_occurs_in_skip(x, needle, p, j - p);
                }
            }
            lemma_find_is_first(x, needle, i + p);
        },
        None => {
            assert forall|j: int| 0 <= j implies !occurs_at(x, needle, j) by {
                if j >= p {
                    lemma_occurs_in_skip(x, needle, p, j - p);
                }
            }
            lemma_find_none(x, needle);
        },
    }
}

/// A scan takes no notice of what stands before the first marker.
proof fn lemma_scan_from_marker(x: Seq<u8>, latest: Option<Seq<u8>>)
    requires
        spec_find_subslice(x, marker()) is Some,
    ensures
        scan(x, latest) == scan(x.skip(spec_find_subslice(x, marker())->0), latest),
{
    let m = marker();
    lemma_find_from(x, m, 0);
    let s = spec_find_subslice(x, m)->0;
    let y = x.skip(s);
    lemma_occurs_in_skip(x, m, s, 0);
    lemma_find_is_first(y, m, 0);
    assert(y.skip(0 + MARKER_LEN) =~= x.skip(s + MARKER_LEN));
    assert(y.skip(0) =~= y);
    lemma_terminator_bounds(x.skip(s + MARKER_LEN));
}

/// What a scan reports is the last payload it met, or what was reported
/// before; what it keeps does not depend on that.
pub proof fn lemma_scan_threads_latest(x: Seq<u8>, latest: Option<Seq<u8>>)
    ensures
        scan(x, latest).buffer == scan(x, None).buffer,
        scan(x, latest).latest == if scan(x, None).latest is Some {
            scan(x, None).latest
        } else {
            latest
        },
    decreases x.len(),
{
    let m = marker();
    match spec_find_subslice(x, m) {
        None => {},
        Some(start) => {
            lemma_find_from(x, m, 0);
            let content = x.skip(start + MARKER_LEN);
            lemma_terminator_bounds(content);
            match spec_terminator(content) {
                None => {},
                Some((end, tlen)) => {
                    let payload = content.take(end);
                    let rest = content.skip(end + tlen);
                    let here = if payload.len() > 0 {
                        Some(payload)
                    } else {
                        latest
                    };
                    let fresh = if payload.len() > 0 {
                        Some(payload)
                    } else {
                        None
                    };
                    lemma_scan_threads_latest(rest, here);
                    lemma_scan_threads_latest(rest, fresh);
                    assert(scan(x, latest) == scan(rest, here));
                    assert(scan(x, None) == scan(rest, fresh));
                },
            }
        },
    }
}

/// A first occurrence in an extension of a byte string that is none in the
/// byte string itself ends behind it.
proof fn lemma_found_later(c: Seq<u8>, d: Seq<u8>, needle: Seq<u8>)
    requires
        needle.len() > 0,
        spec_find_subslice(c, needle) is None,
    ensures
        spec_find_subslice(c + d, needle) matches Some(i) ==> i + needle.len() > c.len()
            && occurs_at(c + d, needle, i),
{
    lemma_find_from(c, needle, 0);
    lemma_find_from(c + d, needle, 0);
    if spec_find_subslice(c + d, needle) is Some {
        let i = spec_find_subslice(c + d, needle)->0;
        if i + needle.len() <= c.len() {
            lemma_occurs_in_concat(c, d, needle, i);
        }
    }
}

/// The terminator of a payload stays where it is when more of the stream
/// arrives.
proof fn lemma_terminator_in_concat(c: Seq<u8>, d: Seq<u8>)
    requires
        spec_terminator(c) is Some,
    ensures
        spec_terminator(c + d) == spec_terminator(c),
{
    let x = c + d;
    let at_bell = spec_find_subslice(c, bel());
    let at_st = spec_find_subslice(c, string_terminator());
    lemma_find_from(c, bel(), 0);
    lemma_find_from(c, string_terminator(), 0);
    if at_bell is Some {
        lemma_find_in_concat(c, d, bel());
    }
    if at_st is Some {
        lemma_find_in_concat(c, d, string_terminator());
    }
    if at_bell is None {
        lemma_found_later(c, d, bel());
    }
    if at_st is None {
        lemma_found_later(c, d, string_terminator());
        if spec_find_subslice(x, string_terminator()) is Some {
            let b = at_bell->0;
            let i = spec_find_subslice(x, string_terminator())->0;
            assert(c.subrange(b, b + 1)[0] == c[b]);
            assert(x.subrange(i, i + 2)[0] == x[i]);
            if i == b {
                assert(x[i] == c[b]);
            }
        }
    }
}

/// A marker that begins in the kept end of a byte string begins no earlier
/// than the longest partial marker at that end: before it no marker begins,
/// whatever follows.
proof fn lemma_no_marker_before_partial(b: Seq<u8>, d: Seq<u8>, j: int)
    requires
        spec_find_subslice(b, marker()) is None,
        0 <= j < b.len() - spec_partial_len(b, marker()),
    ensures
        !occurs_at(b + d, marker(), j),
{
    let m = marker();
    lemma_find_from(b, m, 0);
    lemma_partial_from(b, m, b.len() as int);
    if occurs_at(b + d, m, j) {
        if j + m.len() <= b.len() {
            lemma_occurs_in_concat(b, d, m, j);
        } else {
            let len = b.len() - j;
            let w = (b + d).subrange(j, j + m.len());
            assert(b.skip(b.len() - len) =~= w.take(len));
            assert(is_partial_marker(b, m, len));
        }
    }
}

/// Of two byte strings with the same end, where no partial marker of the
/// longer reaches beyond the shorter, the longest partial markers are equal.
proof fn lemma_partial_len_of_end(x: Seq<u8>, p: int)
    requires
        0 <= p <= x.len(),
        forall|len: int| x.len() - p < len ==> !is_partial_marker(x, marker(), len),
    ensures
        spec_partial_len(x, marker()) == spec_partial_len(x.skip(p), marker()),
{
    let m = marker();
    let y = x.skip(p);
    lemma_partial_from(x, m, x.len() as int);
    lemma_partial_from(y, m, y.len() as int);
    let rx = spec_partial_len(x, m);
    let ry = spec_partial_len(y, m);
    assert forall|len: int| 1 <= len <= y.len() implies is_partial_marker(x, m, len)
        == is_partial_marker(y, m, len) by {
        assert(x.skip(x.len() - len) =~= y.skip(y.len() - len));
    }
    if rx > 0 {
        assert(is_partial_marker(x, m, rx));
        assert(rx <= y.len());
        assert(is_partial_marker(y, m, rx));
    }
    if ry > 0 {
        assert(is_partial_marker(y, m, ry));
        assert(is_partial_marker(x, m, ry));
    }
}

/// What a scan keeps of a stream and what it reports is all that the rest
/// of the stream needs: scanning the first part of a stream and then what
/// was kept together with the second part gives what one scan of both parts
/// gives.
pub proof fn lemma_scan_in_two_parts(b: Seq<u8>, d: Seq<u8>, latest: Option<Seq<u8>>)
    ensures
        scan(scan(b, latest).buffer + d, scan(b, latest).latest) == scan(b + d, latest),
    decreases b.len(),
{
    let m = marker();
    let x = b + d;
    match spec_find_subslice(b, m) {
        None => {
            let k = spec_partial_len(b, m);
            lemma_partial_from(b, m, b.len() as int);
            let p = b.len() - k;
            let kept = b.skip(p);
            assert(scan(b, latest) == (Scan { buffer: kept, latest }));
            assert(kept + d =~= x.skip(p));
            assert forall|j: int| 0 <= j < p implies !occurs_at(x, m, j) by {
                lemma_no_marker_before_partial(b, d, j);
            }
            lemma_find_after_skip(x, m, p);
            match spec_find_subslice(x.skip(p), m) {
                Some(i) => {
                    lemma_find_from(x.skip(p), m, 0);
                    lemma_scan_from_marker(x, latest);
                    lemma_scan_from_marker(x.skip(p), latest);
                    assert(x.skip(p).skip(i) =~= x.skip(i + p));
                },
                None => {
                    assert forall|len: int| x.len() - p < len implies !is_partial_marker(
                        x,
                        m,
                        len,
                    ) by {
                        if is_partial_marker(x, m, len) {
                            let from = x.len() - len;
                            let part = b.len() - from;
                            assert(b.skip(b.len() - part) =~= x.skip(from).take(part));
                            assert(m.take(len).take(part) =~= m.take(part));
                            assert(is_partial_marker(b, m, part));
                        }
                    }
                    lemma_partial_len_of_end(x, p);
                    let r = spec_partial_len(x, m);
                    lemma_partial_from(x, m, x.len() as int);
                    lemma_partial_from(x.skip(p), m, x.skip(p).len() as int);
                    assert(x.skip(p).skip(x.skip(p).len() - r) =~= x.skip(x.len() - r));
                },
            }
        },
        Some(s) => {
            lemma_find_from(b, m, 0);
            lemma_find_in_concat(b, d, m);
            let content = b.skip(s + MARKER_LEN);
            assert(x.skip(s + MARKER_LEN) =~= content + d);
            lemma_terminator_bounds(content);
            lemma_terminator_bounds(content + d);
            match spec_terminator(content) {
                None => {
                    assert(scan(b, latest) == (Scan { buffer: b.skip(s), latest }));
                    assert(b.skip(s) + d =~= x.skip(s));
                    lemma_scan_from_marker(x, latest);
                },
                Some((end, tlen)) => {
                    lemma_terminator_in_concat(content, d);
                    let payload = content.take(end);
                    assert((content + d).take(end) =~= payload);
                    let here = if payload.len() > 0 {
                        Some(payload)
                    } else {
                        latest
                    };
                    let rest = content.skip(end + tlen);
                    assert((content + d).skip(end + tlen) =~= rest + d);
                    assert(scan(b, latest) == scan(rest, here));
                    assert(scan(x, latest) == scan(rest + d, here));
                    lemma_scan_in_two_parts(rest, d, here);
                },
            }
        },
    }
}

/// However a stream is cut into chunks, the tracker ends up keeping and
/// reporting what it would have kept and reported had the stream arrived in
/// one piece.
pub proof fn lemma_chunking_does_not_matter(buffer: Seq<u8>, chunks: Seq<Seq<u8>>)
    requires
        chunks.len() > 0,
    ensures
        feed_all(Scan { buffer, latest: None }, chunks) == spec_feed(buffer, stream(chunks)),
    decreases chunks.len(),
{
    let start = Scan { buffer, latest: None };
    let init = chunks.drop_last();
    let c = chunks.last();
    if init.len() == 0 {
        assert(stream(init) =~= Seq::<u8>::empty());
        assert(stream(chunks) =~= c);
        lemma_scan_threads_latest(buffer + c, None);
    } else {
        let before = buffer + stream(init);
        assert(buffer + stream(chunks) =~= before + c);
        lemma_chunking_does_not_matter(buffer, init);
        let prev = scan(before, None);
        assert(feed_all(start, init) == prev);
        lemma_scan_in_two_parts(before, c, None);
        lemma_scan_threads_latest(prev.buffer + c, prev.latest);
    }
}

/// Two ways of cutting one stream leave the tracker in one state.
pub proof fn lemma_same_stream_same_state(
    buffer: Seq<u8>,
    first: Seq<Seq<u8>>,
    second: Seq<Seq<u8>>,
)
    requires
        first.len() > 0,
        second.len() > 0,
        stream(first) == stream(second),
    ensures
        feed_all(Scan { buffer, latest: None }, first) == feed_all(
            Scan { buffer, latest: None },
            second,
        ),
{
    lemma_chunking_does_not_matter(buffer, first);
    lemma_chunking_does_not_matter(buffer, second);
}

/// Two trackers that hold nothing and are fed the same stream end in the
/// same state, wherever the cuts fall and however many chunks there are.
pub proof fn lemma_fresh_trackers_agree(first: Seq<Seq<u8>>, second: Seq<Seq<u8>>)
    requires
        stream(first) == stream(second),
    ensures
        feed_all(Scan { buffer: Seq::empty(), latest: None }, first) == feed_all(
            Scan { buffer: Seq::empty(), latest: None },
            second,
        ),
{
    let e = Seq::<u8>::empty();
    let fresh = Scan { buffer: e, latest: None };
    let whole = scan(e + stream(first), None);
    assert(first.len() == 0 ==> stream(first) =~= e);
    assert(second.len() == 0 ==> stream(second) =~= e);
    if stream(first).len() == 0 {
        assert(e + stream(first) =~= e);
        assert forall|j: int| 0 <= j implies !occurs_at(e, marker(), j) by {}
        lemma_find_none(e, marker());
        assert(spec_partial_len(e, marker()) == 0);
        assert(e.skip(0) =~= e);
        assert(whole == fresh);
    }
    if first.len() > 0 {
        lemma_chunking_does_not_matter(e, first);
    }
    if second.len() > 0 {
        lemma_chunking_does_not_matter(e, second);
    }
}

} // verus!
