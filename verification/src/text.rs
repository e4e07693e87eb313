//! Small helpers for strings and bytes that the other modules share.

use vstd::prelude::*;
use vstd::string::StringSliceAdditionalSpecFns;
use vstd::utf8::decode_utf8;
use vstd::utf8::encode_utf8_decode_utf8;
use vstd::utf8::is_char_boundary;

verus! {

/// `String::pop` takes the last character off the string and returns it;
/// an empty string stays as it is and gives `None`.
pub assume_specification[ String::pop ](s: &mut String) -> (c: Option<char>)
    ensures
        match c {
            Some(last) => old(s)@.len() > 0 && last == old(s)@.last() && final(s)@ == old(
                s,
            )@.drop_last(),
            None => old(s)@.len() == 0 && final(s)@ == old(s)@,
        },
;

/// Whether two byte strings are equal.
pub fn bytes_eq(a: &[u8], b: &[u8]) -> (same: bool)
    ensures
        same == (a@ == b@),
{
    if a.len() != b.len() {
        return false;
    }
    let mut i: usize = 0;
    while i < a.len()
        invariant
            a@.len() == b@.len(),
            i <= a@.len(),
            forall|j: int| 0 <= j < i ==> a@[j] == b@[j],
        decreases a@.len() - i,
    {
        if a[i] != b[i] {
            return false;
        }
        i += 1;
    }
    assert(a@ =~= b@);
    true
}

/// Whether two strings are equal.
pub fn str_eq(a: &str, b: &str) -> (same: bool)
    ensures
        same == (a@ == b@),
{
    proof {
        encode_utf8_decode_utf8(a@);
        encode_utf8_decode_utf8(b@);
    }
    bytes_eq(a.as_bytes(), b.as_bytes())
}

/// How one byte string stands to another in lexicographic order.
#[derive(Clone, Copy, Debug, PartialEq, Eq, Structural)]
pub enum Order {
    Before,
    Same,
    After,
}

/// `a` comes before `b` in lexicographic order: at the first index at which
/// they differ `a` has the smaller byte, or `a` is a proper prefix of `b`.
pub open spec fn lex_less(a: Seq<u8>, b: Seq<u8>) -> bool {
    exists|k: int| #[trigger] differ_at(a, b, k)
}

/// `a` and `b` agree before index `k`, and at `k` either `a` has ended and
/// `b` has not, or `a` has the smaller byte.
pub open spec fn differ_at(a: Seq<u8>, b: Seq<u8>, k: int) -> bool {
    &&& 0 <= k <= a.len()
    &&& k < b.len()
    &&& a.take(k) == b.take(k)
    &&& (k == a.len() || a[k] < b[k])
}

/// Nothing comes before itself.
pub proof fn lemma_lex_irreflexive(a: Seq<u8>)
    ensures
        !lex_less(a, a),
{
}

/// No two byte strings come before each other.
pub proof fn lemma_lex_asymmetric(a: Seq<u8>, b: Seq<u8>)
    requires
        lex_less(a, b),
    ensures
        !lex_less(b, a),
        a != b,
{
    let k = choose|k: int| differ_at(a, b, k);
    if lex_less(b, a) {
        let j = choose|j: int| differ_at(b, a, j);
        if j < k {
            assert(a.take(k)[j] == b.take(k)[j]);
        } else if k < j {
            assert(b.take(j)[k] == a.take(j)[k]);
        }
    }
}

/// The order is transitive.
pub proof fn lemma_lex_transitive(a: Seq<u8>, b: Seq<u8>, c: Seq<u8>)
    requires
        lex_less(a, b),
        lex_less(b, c),
    ensures
        lex_less(a, c),
{
    let k = choose|k: int| differ_at(a, b, k);
    let j = choose|j: int| differ_at(b, c, j);
    let m = if k <= j { k } else { j };
    assert(a.take(m) =~= c.take(m)) by {
        assert forall|i: int| 0 <= i < m implies a[i] == c[i] by {
            assert(a.take(k)[i] == b.take(k)[i]);
            assert(b.take(j)[i] == c.take(j)[i]);
        }
    }
    if k < j {
        assert(b.take(j)[k] == c.take(j)[k]);
    } else if j < k {
        assert(a.take(k)[j] == b.take(k)[j]);
    }
    assert(differ_at(a, c, m));
}

/// Compares two byte strings in lexicographic order.
pub fn bytes_order(a: &[u8], b: &[u8]) -> (o: Order)
    ensures
        o == Order::Before <==> lex_less(a@, b@),
        o == Order::Same <==> a@ == b@,
        o == Order::After <==> lex_less(b@, a@),
{
    let mut i: usize = 0;
    while i < a.len() && i < b.len()
        invariant
            i <= a@.len(),
            i <= b@.len(),
            a@.take(i as int) == b@.take(i as int),
        decreases a@.len() - i,
    {
        if a[i] < b[i] {
            proof {
                assert(differ_at(a@, b@, i as int));
                lemma_lex_asymmetric(a@, b@);
            }
            return Order::Before;
        }
        if a[i] > b[i] {
            proof {
                assert(differ_at(b@, a@, i as int));
                lemma_lex_asymmetric(b@, a@);
            }
            return Order::After;
        }
        assert(a@.take(i + 1) =~= a@.take(i as int).push(a@[i as int]));
        assert(b@.take(i + 1) =~= b@.take(i as int).push(b@[i as int]));
        i += 1;
    }
    if i < b.len() {
        proof {
            assert(differ_at(a@, b@, i as int));
            lemma_lex_asymmetric(a@, b@);
        }
        Order::Before
    } else if i < a.len() {
        proof {
            assert(differ_at(b@, a@, i as int));
            lemma_lex_asymmetric(b@, a@);
        }
        Order::After
    } else {
        proof {
            assert(a@.take(i as int) =~= a@);
            assert(b@.take(i as int) =~= b@);
            lemma_lex_irreflexive(a@);
        }
        Order::Same
    }
}

/// The mark that stands for the part cut off: a horizontal ellipsis.
pub const ELLIPSIS: char = '\u{2026}';

/// `s` cut to its first `max_len` bytes of UTF-8 with an ellipsis in place
/// of the rest, or `s` itself where it is no longer than that.
pub open spec fn spec_truncate_str(s: Seq<char>, bytes: Seq<u8>, max_len: int) -> Seq<char> {
    if bytes.len() <= max_len {
        s
    } else {
        decode_utf8(bytes.take(max_len)).push(ELLIPSIS)
    }
}

/// Shortens `s` for display to at most `max_len` bytes and an ellipsis. A
/// text longer than `max_len` bytes must have a character boundary there.
pub fn truncate_str(s: &str, max_len: usize) -> (shown: String)
    requires
        s.spec_bytes().len() > max_len ==> is_char_boundary(s.spec_bytes(), max_len as int),
    ensures
        shown@ == spec_truncate_str(s@, s.spec_bytes(), max_len as int),
{
    if s.as_bytes().len() <= max_len {
        s.to_owned()
    } else {
        let (head, _) = s.split_at(max_len);
        proof {
            encode_utf8_decode_utf8(head@);
            assert(s.spec_bytes().take(max_len as int) =~= s.spec_bytes().subrange(
                0,
                max_len as int,
            ));
        }
        let mut shown = head.to_owned();
        shown.push(ELLIPSIS);
        shown
    }
}

} // verus!
