//! Working-directory tracking.
//!
//! A shell announces its working directory out of band with the private
//! escape sequence `ESC ] 633 ; CWD = <path>` closed by `BEL` or by `ESC \`.
//! The tracker finds these notifications in a byte stream that arrives in
//! chunks of arbitrary size, so a notification may be cut anywhere.

use vstd::prelude::*;
use vstd::slice::slice_subrange;
use vstd::slice::slice_to_vec;

verus! {

/// The bell byte, the one-byte terminator.
pub const OSC_BEL: u8 = 0x07;

/// The escape byte, which opens the marker and the two-byte terminator.
pub const OSC_ESC: u8 = 0x1b;

/// The backslash byte, which closes the two-byte terminator.
pub const OSC_BACKSLASH: u8 = 0x5c;

/// Length of the marker in bytes.
pub const MARKER_LEN: usize = 10;

/// The marker `ESC ] 6 3 3 ; C W D =` that opens a notification.
pub open spec fn marker() -> Seq<u8> {
    seq![0x1bu8, 0x5du8, 0x36u8, 0x33u8, 0x33u8, 0x3bu8, 0x43u8, 0x57u8, 0x44u8, 0x3du8]
}

/// The one-byte terminator.
pub open spec fn bel() -> Seq<u8> {
    seq![OSC_BEL]
}

/// The two-byte string terminator `ESC \`.
pub open spec fn string_terminator() -> Seq<u8> {
    seq![OSC_ESC, OSC_BACKSLASH]
}

/// `needle` occurs in `hay` at index `i`.
pub open spec fn occurs_at(hay: Seq<u8>, needle: Seq<u8>, i: int) -> bool {
    &&& 0 <= i
    &&& i + needle.len() <= hay.len()
    &&& hay.subrange(i, i + needle.len()) == needle
}

/// The first index at or after `from` at which a non-empty `needle` occurs.
pub open spec fn find_from(hay: Seq<u8>, needle: Seq<u8>, from: int) -> Option<int>
    decreases hay.len() - from,
{
    if needle.len() == 0 || from < 0 || from + needle.len() > hay.len() {
        None
    } else if occurs_at(hay, needle, from) {
        Some(from)
    } else {
        find_from(hay, needle, from + 1)
    }
}

/// The first index at which a non-empty `needle` occurs in `hay`.
pub open spec fn spec_find_subslice(hay: Seq<u8>, needle: Seq<u8>) -> Option<int> {
    find_from(hay, needle, 0)
}

/// `find_from` returns the first occurrence at or after `from`, and `None`
/// exactly when there is none.
pub proof fn lemma_find_from(hay: Seq<u8>, needle: Seq<u8>, from: int)
    requires
        0 <= from,
        needle.len() > 0,
    ensures
        match find_from(hay, needle, from) {
            Some(i) => {
                &&& from <= i
                &&& occurs_at(hay, needle, i)
                &&& forall|j: int| from <= j < i ==> !occurs_at(hay, needle, j)
            },
            None => forall|j: int| from <= j ==> !occurs_at(hay, needle, j),
        },
    decreases hay.len() - from,
{
    if from + needle.len() > hay.len() {
    } else if occurs_at(hay, needle, from) {
    } else {
        lemma_find_from(hay, needle, from + 1);
    }
}

/// An occurrence with none before it is the one that the search returns.
pub proof fn lemma_find_is_first(hay: Seq<u8>, needle: Seq<u8>, i: int)
    requires
        needle.len() > 0,
        occurs_at(hay, needle, i),
        forall|j: int| 0 <= j < i ==> !occurs_at(hay, needle, j),
    ensures
        spec_find_subslice(hay, needle) == Some(i),
{
    lemma_find_from(hay, needle, 0);
}

/// Without any occurrence the search returns `None`.
pub proof fn lemma_find_none(hay: Seq<u8>, needle: Seq<u8>)
    requires
        forall|j: int| 0 <= j ==> !occurs_at(hay, needle, j),
    ensures
        spec_find_subslice(hay, needle) is None,
{
    if needle.len() > 0 {
        lemma_find_from(hay, needle, 0);
    }
}

/// The last `len` bytes of `data` are the first `len` bytes of `marker`, with
/// `len` at least one and shorter than the marker.
pub open spec fn is_partial_marker(data: Seq<u8>, marker: Seq<u8>, len: int) -> bool {
    &&& 1 <= len <= data.len()
    &&& len < marker.len()
    &&& data.skip(data.len() - len) == marker.take(len)
}

/// The largest length up to `len` at which `data` ends in a partial marker, or 0.
pub open spec fn partial_from(data: Seq<u8>, marker: Seq<u8>, len: int) -> int
    decreases len,
{
    if len <= 0 {
        0
    } else if is_partial_marker(data, marker, len) {
        len
    } else {
        partial_from(data, marker, len - 1)
    }
}

/// Length of the longest suffix of `data` that is a proper prefix of `marker`.
pub open spec fn spec_partial_len(data: Seq<u8>, marker: Seq<u8>) -> int {
    partial_from(data, marker, data.len() as int)
}

/// `partial_from` returns the largest partial-marker length up to `len`.
pub proof fn lemma_partial_from(data: Seq<u8>, marker: Seq<u8>, len: int)
    ensures
        ({
            let r = partial_from(data, marker, len);
            &&& 0 <= r
            &&& r <= len || r == 0
            &&& r <= data.len()
            &&& r > 0 ==> is_partial_marker(data, marker, r)
            &&& forall|l: int| r < l <= len ==> !is_partial_marker(data, marker, l)
        }),
    decreases len,
{
    if len <= 0 {
    } else if is_partial_marker(data, marker, len) {
    } else {
        lemma_partial_from(data, marker, len - 1);
    }
}

/// Finds the first occurrence of `needle` in `haystack`. An empty needle is
/// never found.
pub fn find_subslice(haystack: &[u8], needle: &[u8]) -> (r: Option<usize>)
    ensures
        match r {
            Some(i) => {
                &&& needle@.len() > 0
                &&& occurs_at(haystack@, needle@, i as int)
                &&& forall|j: int| 0 <= j < i ==> !occurs_at(haystack@, needle@, j)
                &&& spec_find_subslice(haystack@, needle@) == Some(i as int)
            },
            None => {
                &&& needle@.len() == 0 || forall|j: int| !occurs_at(haystack@, needle@, j)
                &&& spec_find_subslice(haystack@, needle@) is None
            },
        },
{
    let n = needle.len();
    let h = haystack.len();
    if n == 0 || h < n {
        proof {
            if n > 0 {
                lemma_find_from(haystack@, needle@, 0);
            }
        }
        return None;
    }
    let last: usize = h - n;
    let mut i: usize = 0;
    while i <= last
        invariant
            n == needle@.len(),
            h == haystack@.len(),
            0 < n <= h,
            last == h - n,
            i <= last + 1,
            forall|j: int| 0 <= j < i ==> !occurs_at(haystack@, needle@, j),
        decreases last + 1 - i,
    {
        let mut k: usize = 0;
        while k < n && haystack[i + k] == needle[k]
            invariant
                n == needle@.len(),
                h == haystack@.len(),
                i + n <= h,
                k <= n,
                forall|m: int| 0 <= m < k ==> haystack@[i + m] == needle@[m],
            decreases n - k,
        {
            k += 1;
        }
        if k == n {
            proof {
                assert(haystack@.subrange(i as int, i + n) =~= needle@);
                lemma_find_is_first(haystack@, needle@, i as int);
            }
            return Some(i);
        }
        proof {
            let w = haystack@.subrange(i as int, i + n);
            assert(w[k as int] == haystack@[i + k]);
            assert(w != needle@);
        }
        i += 1;
    }
    proof {
        assert forall|j: int| !occurs_at(haystack@, needle@, j) by {
            if 0 <= j && j + n <= h {
                assert(j < i);
            }
        }
        lemma_find_none(haystack@, needle@);
    }
    None
}

/// Length of the longest suffix of `data` that is a proper prefix of `marker`:
/// what must be kept of `data` in case the marker was cut by the end of it.
pub fn trailing_partial_marker_len(data: &[u8], marker: &[u8]) -> (r: usize)
    ensures
        r <= data@.len(),
        r == 0 || is_partial_marker(data@, marker@, r as int),
        forall|l: int| r < l ==> !is_partial_marker(data@, marker@, l),
        r == spec_partial_len(data@, marker@),
{
    let d = data.len();
    let m = marker.len();
    if d == 0 || m == 0 {
        proof {
            lemma_partial_from(data@, marker@, d as int);
        }
        return 0;
    }
    let max: usize = if d < m - 1 { d } else { m - 1 };
    let mut len: usize = max;
    while len > 0
        invariant
            d == data@.len(),
            m == marker@.len(),
            len <= max,
            max <= d,
            max < m,
            forall|l: int| len < l ==> !is_partial_marker(data@, marker@, l),
        decreases len,
    {
        let mut k: usize = 0;
        while k < len && data[d - len + k] == marker[k]
            invariant
                d == data@.len(),
                m == marker@.len(),
                0 < len <= d,
                len < m,
                k <= len,
                forall|j: int| 0 <= j < k ==> data@[d - len + j] == marker@[j],
            decreases len - k,
        {
            k += 1;
        }
        if k == len {
            proof {
                assert(data@.skip(d - len) =~= marker@.take(len as int));
                assert(is_partial_marker(data@, marker@, len as int));
                lemma_partial_from(data@, marker@, d as int);
                let r = partial_from(data@, marker@, d as int);
                if r < len {
                    assert(!is_partial_marker(data@, marker@, len as int));
                }
            }
            return len;
        }
        proof {
            let s = data@.skip(d - len);
            assert(s[k as int] == data@[d - len + k]);
            assert(marker@.take(len as int)[k as int] == marker@[k as int]);
            assert(!is_partial_marker(data@, marker@, len as int));
        }
        len -= 1;
    }
    proof {
        lemma_partial_from(data@, marker@, d as int);
    }
    0
}

/// Where the payload that starts `content` ends: the first index at which a
/// bell stands or `ESC \` begins, and the length of that terminator.
pub open spec fn spec_terminator(content: Seq<u8>) -> Option<(int, int)> {
    match (
        spec_find_subslice(content, bel()),
        spec_find_subslice(content, string_terminator()),
    ) {
        (Some(b), Some(s)) => if b < s {
            Some((b, 1))
        } else {
            Some((s, 2))
        },
        (Some(b), None) => Some((b, 1)),
        (None, Some(s)) => Some((s, 2)),
        (None, None) => None,
    }
}

/// What one scan of the accumulated bytes leaves behind.
pub struct Scan {
    /// The bytes kept for the next scan.
    pub buffer: Seq<u8>,
    /// The payload of the last complete notification with a non-empty payload.
    pub latest: Option<Seq<u8>>,
}

/// Scans `buf` for notifications, front to back.
///
/// - Without a marker, only a marker cut by the end of `buf` is kept.
/// - With a marker but no terminator after it, everything from the marker on
///   is kept until more bytes arrive.
/// - A complete notification replaces `latest` unless its payload is empty,
///   and the scan goes on behind its terminator.
pub open spec fn scan(buf: Seq<u8>, latest: Option<Seq<u8>>) -> Scan
    decreases buf.len(),
{
    match spec_find_subslice(buf, marker()) {
        None => Scan { buffer: buf.skip(buf.len() - spec_partial_len(buf, marker())), latest },
        Some(start) => {
            let content = buf.skip(start + MARKER_LEN);
            match spec_terminator(content) {
                None => Scan { buffer: buf.skip(start), latest },
                Some((end, tlen)) => {
                    proof {
                        lemma_find_from(buf, marker(), 0);
                        lemma_terminator_bounds(content);
                    }
                    let payload = content.take(end);
                    scan(
                        content.skip(end + tlen),
                        if payload.len() > 0 {
                            Some(payload)
                        } else {
                            latest
                        },
                    )
                },
            }
        },
    }
}

/// The terminator that `spec_terminator` reports lies inside `content`.
pub proof fn lemma_terminator_bounds(content: Seq<u8>)
    ensures
        spec_terminator(content) matches Some((end, tlen)) ==> 0 <= end && (tlen == 1 || tlen == 2)
            && end + tlen <= content.len(),
{
    lemma_find_from(content, bel(), 0);
    lemma_find_from(content, string_terminator(), 0);
}

/// What the tracker does with one chunk: the chunk is appended to the kept
/// bytes and the whole is scanned.
pub open spec fn spec_feed(buffer: Seq<u8>, data: Seq<u8>) -> Scan {
    scan(buffer + data, None)
}

/// View of an optional byte vector.
pub open spec fn opt_bytes(o: Option<Vec<u8>>) -> Option<Seq<u8>> {
    match o {
        Some(v) => Some(v@),
        None => None,
    }
}

/// Scanner for working-directory notifications in a chunked byte stream.
pub struct CwdTracker {
    buffer: Vec<u8>,
}

impl View for CwdTracker {
    type V = Seq<u8>;

    /// The bytes kept from earlier chunks.
    closed spec fn view(&self) -> Seq<u8> {
        self.buffer@
    }
}

impl CwdTracker {
    /// A tracker that has seen nothing.
    pub fn new() -> (t: Self)
        ensures
            t@ == Seq::<u8>::empty(),
    {
        CwdTracker { buffer: Vec::new() }
    }

    /// Number of bytes kept from earlier chunks.
    pub fn pending_len(&self) -> (n: usize)
        ensures
            n == self@.len(),
    {
        self.buffer.len()
    }

    /// Takes the next chunk of the stream and returns the payload of the last
    /// complete notification with a non-empty payload that the scan met, if any.
    pub fn feed(&mut self, data: &[u8]) -> (found: Option<Vec<u8>>)
        ensures
            final(self)@ == spec_feed(old(self)@, data@).buffer,
            opt_bytes(found) == spec_feed(old(self)@, data@).latest,
    {
        let mut n: usize = 0;
        while n < data.len()
            invariant
                n <= data@.len(),
                self.buffer@ == old(self).buffer@ + data@.take(n as int),
            decreases data@.len() - n,
        {
            self.buffer.push(data[n]);
            n += 1;
            assert(self.buffer@ =~= old(self).buffer@ + data@.take(n as int));
        }
        assert(data@.take(n as int) =~= data@);
        let marker: [u8; 10] = [0x1b, 0x5d, 0x36, 0x33, 0x33, 0x3b, 0x43, 0x57, 0x44, 0x3d];
        let bell: [u8; 1] = [OSC_BEL];
        let st: [u8; 2] = [OSC_ESC, OSC_BACKSLASH];
        assert(marker@ =~= self::marker());
        assert(bell@ =~= bel());
        assert(st@ =~= string_terminator());
        let ghost all = self.buffer@;
        let total = self.buffer.len();
        let mut cursor: usize = 0;
        let mut latest: Option<Vec<u8>> = None;
        assert(all.skip(0) =~= all);
        loop
            invariant
                self.buffer@ == all,
                all == old(self)@ + data@,
                total == all.len(),
                cursor <= total,
                marker@ == self::marker(),
                bell@ == bel(),
                st@ == string_terminator(),
                scan(all.skip(cursor as int), opt_bytes(latest)) == scan(all, None),
            decreases total - cursor,
        {
            let remaining = slice_subrange(self.buffer.as_slice(), cursor, total);
            assert(remaining@ =~= all.skip(cursor as int));
            match find_subslice(remaining, marker.as_slice()) {
                None => {
                    let keep: usize = trailing_partial_marker_len(remaining, marker.as_slice());
                    let rest: usize = remaining.len();
                    let kept = slice_to_vec(slice_subrange(remaining, rest - keep, rest));
                    assert(kept@ =~= remaining@.skip(rest - keep));
                    assert(scan(remaining@, opt_bytes(latest)) == (Scan {
                        buffer: remaining@.skip(rest - keep),
                        latest: opt_bytes(latest),
                    }));
                    self.buffer = kept;
                    return latest;
                },
                Some(rel_start) => {
                    let start_idx: usize = cursor + rel_start;
                    let content_start: usize = start_idx + MARKER_LEN;
                    let content = slice_subrange(self.buffer.as_slice(), content_start, total);
                    assert(content@ =~= remaining@.skip(rel_start + MARKER_LEN));
                    proof {
                        lemma_terminator_bounds(content@);
                    }
                    let terminator: Option<(usize, usize)> = match (
                        find_subslice(content, bell.as_slice()),
                        find_subslice(content, st.as_slice()),
                    ) {
                        (Some(at_bell), Some(at_st)) => if at_bell < at_st {
                            Some((at_bell, 1))
                        } else {
                            Some((at_st, 2))
                        },
                        (Some(at_bell), None) => Some((at_bell, 1)),
                        (None, Some(at_st)) => Some((at_st, 2)),
                        (None, None) => None,
                    };
                    match terminator {
                        None => {
                            let kept = slice_to_vec(
                                slice_subrange(self.buffer.as_slice(), start_idx, total),
                            );
                            assert(kept@ =~= remaining@.skip(rel_start as int));
                            assert(spec_terminator(content@) is None);
                            assert(scan(remaining@, opt_bytes(latest)) == (Scan {
                                buffer: remaining@.skip(rel_start as int),
                                latest: opt_bytes(latest),
                            }));
                            self.buffer = kept;
                            return latest;
                        },
                        Some((rel_end, tlen)) => {
                            assert(spec_terminator(content@) == Some((rel_end as int, tlen as int)));
                            let ghost before = opt_bytes(latest);
                            if rel_end > 0 {
                                let payload = slice_to_vec(slice_subrange(content, 0, rel_end));
                                assert(payload@ =~= content@.take(rel_end as int));
                                latest = Some(payload);
                            }
                            assert(scan(remaining@, before) == scan(
                                content@.skip(rel_end + tlen),
                                opt_bytes(latest),
                            ));
                            cursor = content_start + rel_end + tlen;
                            assert(all.skip(cursor as int) =~= content@.skip(rel_end + tlen));
                        },
                    }
                },
            }
        }
    }
}

/// `payload` can stand between the marker and a terminator: it holds no bell
/// and no `ESC \`.
pub open spec fn is_payload(payload: Seq<u8>) -> bool {
    &&& forall|i: int| 0 <= i < payload.len() ==> payload[i] != OSC_BEL
    &&& forall|i: int|
        0 <= i && i + 1 < payload.len() ==> !(#[trigger] payload[i] == OSC_ESC && payload[i + 1]
            == OSC_BACKSLASH)
}

/// `s` is exactly one notification that carries `payload`, closed by either
/// terminator.
pub open spec fn is_notification(s: Seq<u8>, payload: Seq<u8>) -> bool {
    &&& is_payload(payload)
    &&& (s == marker() + payload + bel() || s == marker() + payload + string_terminator())
}

/// The bytes of a chunked stream, in order.
pub open spec fn stream(chunks: Seq<Seq<u8>>) -> Seq<u8>
    decreases chunks.len(),
{
    if chunks.len() == 0 {
        Seq::empty()
    } else {
        stream(chunks.drop_last()) + chunks.last()
    }
}

/// The tracker's state after it was fed `chunks` one by one from `start`:
/// the bytes kept, and the last non-empty payload seen so far.
pub open spec fn feed_all(start: Scan, chunks: Seq<Seq<u8>>) -> Scan
    decreases chunks.len(),
{
    if chunks.len() == 0 {
        start
    } else {
        let prev = feed_all(start, chunks.drop_last());
        let step = spec_feed(prev.buffer, chunks.last());
        Scan {
            buffer: step.buffer,
            latest: if step.latest is Some {
                step.latest
            } else {
                prev.latest
            },
        }
    }
}

/// A proper prefix of the payload and its terminator holds no terminator.
proof fn lemma_no_terminator_in_prefix(payload: Seq<u8>, term: Seq<u8>, c: Seq<u8>)
    requires
        is_payload(payload),
        term == bel() || term == string_terminator(),
        c.len() < payload.len() + term.len(),
        c == (payload + term).take(c.len() as int),
    ensures
        spec_terminator(c) is None,
{
    let full = payload + term;
    assert forall|j: int| 0 <= j implies !occurs_at(c, bel(), j) by {
        if occurs_at(c, bel(), j) {
            assert(c.subrange(j, j + 1)[0] == c[j]);
            assert(c[j] == full[j]);
            if j < payload.len() {
                assert(full[j] == payload[j]);
            } else {
                assert(term == string_terminator());
                assert(full[j] == term[j - payload.len()]);
            }
        }
    }
    lemma_find_none(c, bel());
    assert forall|j: int| 0 <= j implies !occurs_at(c, string_terminator(), j) by {
        if occurs_at(c, string_terminator(), j) {
            let w = c.subrange(j, j + 2);
            assert(w[0] == c[j] && w[1] == c[j + 1]);
            assert(c[j] == full[j] && c[j + 1] == full[j + 1]);
            if j + 1 < payload.len() {
                assert(full[j] == payload[j] && full[j + 1] == payload[j + 1]);
            } else {
                assert(j + 1 == payload.len());
                assert(term == string_terminator());
                assert(full[j + 1] == term[0]);
            }
        }
    }
    lemma_find_none(c, string_terminator());
}

/// As long as a notification is incomplete, a scan keeps all of it and
/// reports nothing.
pub proof fn lemma_scan_incomplete(s: Seq<u8>, payload: Seq<u8>, k: int, latest: Option<Seq<u8>>)
    requires
        is_notification(s, payload),
        0 <= k < s.len(),
    ensures
        scan(s.take(k), latest) == (Scan { buffer: s.take(k), latest }),
{
    let p = s.take(k);
    let m = marker();
    let term = if s == m + payload + bel() { bel() } else { string_terminator() };
    assert(s == m + payload + term);
    assert(s.len() == 10 + payload.len() + term.len());
    if k < 10 {
        assert forall|j: int| 0 <= j implies !occurs_at(p, m, j) by {}
        lemma_find_none(p, m);
        if k > 0 {
            assert(p.skip(0) =~= m.take(k));
            assert(is_partial_marker(p, m, k));
        }
        assert(spec_partial_len(p, m) == k);
        assert(p.skip(0) =~= p);
    } else {
        assert(p.subrange(0, 10) =~= m);
        lemma_find_is_first(p, m, 0);
        let c = p.skip(10);
        assert(c =~= (payload + term).take(k - 10));
        lemma_no_terminator_in_prefix(payload, term, c);
        assert(p.skip(0) =~= p);
    }
}

/// A scan of one whole notification reports its payload, unless that is
/// empty, and keeps nothing.
pub proof fn lemma_scan_complete(s: Seq<u8>, payload: Seq<u8>, latest: Option<Seq<u8>>)
    requires
        is_notification(s, payload),
    ensures
        scan(s, latest) == (Scan {
            buffer: Seq::empty(),
            latest: if payload.len() > 0 {
                Some(payload)
            } else {
                latest
            },
        }),
{
    let m = marker();
    let term = if s == m + payload + bel() { bel() } else { string_terminator() };
    assert(s == m + payload + term);
    assert(s.subrange(0, 10) =~= m);
    lemma_find_is_first(s, m, 0);
    let c = s.skip(10);
    let n = payload.len() as int;
    assert(c =~= payload + term);
    lemma_no_terminator_in_prefix(payload, term, c.take(n));
    lemma_find_from(c.take(n), bel(), 0);
    lemma_find_from(c.take(n), string_terminator(), 0);
    assert forall|j: int| 0 <= j < n implies !occurs_at(c, bel(), j) by {
        if occurs_at(c, bel(), j) {
            assert(c.take(n).subrange(j, j + 1) =~= c.subrange(j, j + 1));
            assert(occurs_at(c.take(n), bel(), j));
        }
    }
    if term == bel() {
        assert(c.subrange(n, n + 1) =~= bel());
        lemma_find_is_first(c, bel(), n);
        assert forall|j: int| 0 <= j implies !occurs_at(c, string_terminator(), j) by {
            if occurs_at(c, string_terminator(), j) {
                let w = c.subrange(j, j + 2);
                assert(w[0] == c[j] && w[1] == c[j + 1]);
                if j + 1 < n {
                    assert(c[j] == payload[j] && c[j + 1] == payload[j + 1]);
                } else {
                    assert(c[j + 1] == term[0]);
                }
            }
        }
        lemma_find_none(c, string_terminator());
    } else {
        assert forall|j: int| 0 <= j implies !occurs_at(c, bel(), j) by {
            if occurs_at(c, bel(), j) && j >= n {
                assert(c.subrange(j, j + 1)[0] == c[j]);
                assert(c[j] == term[j - n]);
            }
        }
        lemma_find_none(c, bel());
        assert forall|j: int| 0 <= j < n implies !occurs_at(c, string_terminator(), j) by {
            if occurs_at(c, string_terminator(), j) {
                let w = c.subrange(j, j + 2);
                assert(w[0] == c[j] && w[1] == c[j + 1]);
                if j + 1 < n {
                    assert(c[j] == payload[j] && c[j + 1] == payload[j + 1]);
                } else {
                    assert(c[j + 1] == term[0]);
                }
            }
        }
        assert(c.subrange(n, n + 2) =~= string_terminator());
        lemma_find_is_first(c, string_terminator(), n);
    }
    assert(c.take(n) =~= payload);
    let rest = c.skip(n + term.len());
    assert(rest =~= Seq::<u8>::empty());
    assert forall|j: int| 0 <= j implies !occurs_at(rest, m, j) by {}
    lemma_find_none(rest, m);
    assert(spec_partial_len(rest, m) == 0);
    assert(rest.skip(0) =~= Seq::<u8>::empty());
    let reported = if payload.len() > 0 { Some(payload) } else { latest };
    assert(scan(rest, reported) == (Scan { buffer: Seq::empty(), latest: reported }));
    assert(spec_terminator(c) == Some((n, term.len() as int)));
    assert(scan(s, latest) == scan(rest, reported));
}

/// However a notification is cut into chunks, feeding the chunks one by one
/// to a tracker that holds nothing ends with the payload reported, unless it
/// is empty, and with nothing kept; until the last byte has arrived the
/// tracker keeps every byte and reports nothing.
pub proof fn lemma_notification_survives_splitting(
    chunks: Seq<Seq<u8>>,
    s: Seq<u8>,
    payload: Seq<u8>,
    k: int,
)
    requires
        is_notification(s, payload),
        0 <= k <= s.len(),
        stream(chunks) == s.take(k),
    ensures
        feed_all(Scan { buffer: Seq::empty(), latest: None }, chunks) == if k < s.len() {
            Scan { buffer: s.take(k), latest: None }
        } else {
            Scan {
                buffer: Seq::empty(),
                latest: if payload.len() > 0 {
                    Some(payload)
                } else {
                    None
                },
            }
        },
    decreases chunks.len(),
{
    let start = Scan { buffer: Seq::empty(), latest: None };
    if chunks.len() == 0 {
        assert(s.take(k).len() == 0);
        assert(s.len() >= 11);
        assert(s.take(0) =~= Seq::<u8>::empty());
    } else {
        let init = chunks.drop_last();
        let c = chunks.last();
        let before = k - c.len();
        assert(stream(init) + c == s.take(k));
        assert((stream(init) + c).len() == k);
        assert(stream(init) =~= s.take(before)) by {
            assert(stream(init) =~= (stream(init) + c).take(before));
        }
        lemma_notification_survives_splitting(init, s, payload, before);
        let prev = feed_all(start, init);
        if before < s.len() {
            assert(prev.buffer + c =~= s.take(k));
            if k < s.len() {
                lemma_scan_incomplete(s, payload, k, None);
            } else {
                assert(s.take(k) =~= s);
                lemma_scan_complete(s, payload, None);
            }
        } else {
            assert(c.len() == 0);
            assert(prev.buffer + c =~= Seq::<u8>::empty());
            let e = Seq::<u8>::empty();
            assert forall|j: int| 0 <= j implies !occurs_at(e, marker(), j) by {}
            lemma_find_none(e, marker());
            assert(spec_partial_len(e, marker()) == 0);
            assert(e.skip(0) =~= e);
        }
    }
}

} // verus!
