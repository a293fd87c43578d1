//! The order in which keys are kept: byte-lexicographic over the UTF-8
//! encoding of a string.

use vstd::prelude::*;
use vstd::utf8::*;

verus! {

/// `a` and `b` hold the same bytes at every index below `k`.
pub open spec fn agree_before(a: Seq<u8>, b: Seq<u8>, k: int) -> bool {
    &&& 0 <= k <= a.len()
    &&& k <= b.len()
    &&& forall|i: int| 0 <= i < k ==> a[i] == b[i]
}

/// `k` is the place at which `a` is seen to come before `b`: up to `k` they
/// agree, and there `a` ends while `b` goes on, or holds the smaller byte.
pub open spec fn decides_before(a: Seq<u8>, b: Seq<u8>, k: int) -> bool {
    &&& agree_before(a, b, k)
    &&& (k == a.len() && k < b.len()) || (k < a.len() && k < b.len() && a[k] < b[k])
}

/// Strict byte-lexicographic order.
pub open spec fn bytes_lt(a: Seq<u8>, b: Seq<u8>) -> bool {
    exists|k: int| decides_before(a, b, k)
}

/// Strict order on keys: the order of their UTF-8 encodings.
pub open spec fn key_lt(a: Seq<char>, b: Seq<char>) -> bool {
    bytes_lt(encode_utf8(a), encode_utf8(b))
}

/// No byte string comes before itself.
pub proof fn lemma_bytes_lt_irreflexive(a: Seq<u8>)
    ensures
        !bytes_lt(a, a),
{
}

/// Of two byte strings at most one comes before the other.
pub proof fn lemma_bytes_lt_asymmetric(a: Seq<u8>, b: Seq<u8>)
    requires
        bytes_lt(a, b),
    ensures
        !bytes_lt(b, a),
{
    let k = choose|k: int| decides_before(a, b, k);
    if bytes_lt(b, a) {
        let j = choose|j: int| decides_before(b, a, j);
        if k < j {
            assert(b[k] == a[k]);
        } else if j < k {
            assert(a[j] == b[j]);
        }
    }
}

/// What comes before a byte string comes before all that it comes before.
pub proof fn lemma_bytes_lt_transitive(a: Seq<u8>, b: Seq<u8>, c: Seq<u8>)
    requires
        bytes_lt(a, b),
        bytes_lt(b, c),
    ensures
        bytes_lt(a, c),
{
    let k = choose|k: int| decides_before(a, b, k);
    let j = choose|j: int| decides_before(b, c, j);
    let m = if k <= j { k } else { j };
    assert forall|i: int| 0 <= i < m implies a[i] == c[i] by {
        assert(a[i] == b[i]);
        assert(b[i] == c[i]);
    }
    assert(decides_before(a, c, m));
}

/// Two byte strings that agree up to `k` are equal, or one comes before the other.
proof fn lemma_bytes_connected_from(a: Seq<u8>, b: Seq<u8>, k: int)
    requires
        agree_before(a, b, k),
    ensures
        a == b || bytes_lt(a, b) || bytes_lt(b, a),
    decreases a.len() - k,
{
    if k == a.len() {
        if k == b.len() {
            assert(a =~= b);
        } else {
            assert(decides_before(a, b, k));
        }
    } else if k == b.len() {
        assert(agree_before(b, a, k));
        assert(decides_before(b, a, k));
    } else if a[k] < b[k] {
        assert(decides_before(a, b, k));
    } else if b[k] < a[k] {
        assert(agree_before(b, a, k));
        assert(decides_before(b, a, k));
    } else {
        lemma_bytes_connected_from(a, b, k + 1);
    }
}

/// Two byte strings are equal, or one comes before the other.
pub proof fn lemma_bytes_lt_connected(a: Seq<u8>, b: Seq<u8>)
    ensures
        a == b || bytes_lt(a, b) || bytes_lt(b, a),
{
    lemma_bytes_connected_from(a, b, 0);
}

/// Of two keys exactly one holds: they are equal, the first comes before the
/// second, or the second before the first.
pub proof fn lemma_key_lt_trichotomy(a: Seq<char>, b: Seq<char>)
    ensures
        a == b || key_lt(a, b) || key_lt(b, a),
        !(a == b && key_lt(a, b)),
        !(a == b && key_lt(b, a)),
        !(key_lt(a, b) && key_lt(b, a)),
{
    lemma_bytes_lt_connected(encode_utf8(a), encode_utf8(b));
    lemma_bytes_lt_irreflexive(encode_utf8(a));
    if key_lt(a, b) {
        lemma_bytes_lt_asymmetric(encode_utf8(a), encode_utf8(b));
    }
    if encode_utf8(a) == encode_utf8(b) {
        encode_utf8_decode_utf8(a);
        encode_utf8_decode_utf8(b);
    }
}

/// A key that comes before another comes before all that the other comes
/// before.
pub proof fn lemma_key_lt_transitive(a: Seq<char>, b: Seq<char>, c: Seq<char>)
    requires
        key_lt(a, b),
        key_lt(b, c),
    ensures
        key_lt(a, c),
{
    lemma_bytes_lt_transitive(encode_utf8(a), encode_utf8(b), encode_utf8(c));
}

/// Whether `a` comes strictly before `b` in key order.
pub fn str_lt(a: &str, b: &str) -> (r: bool)
    ensures
        r == key_lt(a@, b@),
{
    let x = a.as_bytes();
    let y = b.as_bytes();
    let mut i: usize = 0;
    while i < x.len() && i < y.len()
        invariant
            agree_before(x@, y@, i as int),
            x@ == encode_utf8(a@),
            y@ == encode_utf8(b@),
        decreases x.len() - i,
    {
        if x[i] != y[i] {
            let before = x[i] < y[i];
            proof {
                if before {
                    assert(decides_before(x@, y@, i as int));
                } else {
                    assert(agree_before(y@, x@, i as int));
                    assert(decides_before(y@, x@, i as int));
                    lemma_bytes_lt_asymmetric(y@, x@);
                }
            }
            return before;
        }
        i += 1;
    }
    let before = x.len() < y.len();
    proof {
        if before {
            assert(decides_before(x@, y@, i as int));
        } else if y.len() < x.len() {
            assert(agree_before(y@, x@, i as int));
            assert(decides_before(y@, x@, i as int));
            lemma_bytes_lt_asymmetric(y@, x@);
        } else {
            assert(x@ =~= y@);
            lemma_bytes_lt_irreflexive(x@);
        }
    }
    before
}

} // verus!
