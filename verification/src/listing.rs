//! Lists of keys in ascending order, and the one such list that a finite set
//! of keys has.

use crate::order::{key_lt, lemma_key_lt_transitive, lemma_key_lt_trichotomy};
use vstd::prelude::*;

verus! {

/// Every key of `l` comes strictly before the keys that follow it.
pub open spec fn strictly_ascending(l: Seq<Seq<char>>) -> bool {
    forall|i: int, j: int| 0 <= i < j < l.len() ==> key_lt(#[trigger] l[i], #[trigger] l[j])
}

/// `l` lists exactly the keys of `s`, each once, in ascending order.
pub open spec fn lists_ascending(l: Seq<Seq<char>>, s: Set<Seq<char>>) -> bool {
    &&& strictly_ascending(l)
    &&& forall|k: Seq<char>| s.contains(k) <==> l.contains(k)
}

/// The keys of a finite set in ascending order: the one list that lists the
/// set in ascending order. That there is one is `lemma_ascending_lists`, that
/// there is no other `lemma_listing_unique`.
pub open spec fn ascending(s: Set<Seq<char>>) -> Seq<Seq<char>> {
    choose|l: Seq<Seq<char>>| lists_ascending(l, s)
}

/// A key stands at one place only in an ascending list.
pub proof fn lemma_ascending_place_unique(l: Seq<Seq<char>>, i: int, j: int)
    requires
        strictly_ascending(l),
        0 <= i < l.len(),
        0 <= j < l.len(),
        l[i] == l[j],
    ensures
        i == j,
{
    lemma_key_lt_trichotomy(l[i], l[j]);
}

/// An ascending list holds no key twice.
pub proof fn lemma_ascending_no_duplicates(l: Seq<Seq<char>>)
    requires
        strictly_ascending(l),
    ensures
        l.no_duplicates(),
{
    assert forall|i: int, j: int| 0 <= i < l.len() && 0 <= j < l.len() && i != j implies l[i]
        != l[j] by {
        if l[i] == l[j] {
            lemma_ascending_place_unique(l, i, j);
        }
    }
}

/// A set has at most one ascending listing.
pub proof fn lemma_listing_unique(a: Seq<Seq<char>>, b: Seq<Seq<char>>, s: Set<Seq<char>>)
    requires
        lists_ascending(a, s),
        lists_ascending(b, s),
    ensures
        a == b,
    decreases a.len(),
{
    if a.len() == 0 {
        if b.len() > 0 {
            assert(b.contains(b[0]));
            assert(s.contains(b[0]));
            assert(a.contains(b[0]));
        }
        assert(a =~= b);
    } else {
        assert(a.contains(a[0]));
        assert(s.contains(a[0]));
        assert(b.contains(a[0]));
        let j = choose|j: int| 0 <= j < b.len() && b[j] == a[0];
        assert(b.contains(b[0]));
        assert(s.contains(b[0]));
        assert(a.contains(b[0]));
        let i = choose|i: int| 0 <= i < a.len() && a[i] == b[0];
        if i > 0 {
            // a[0] < a[i] == b[0] <= b[j] == a[0]
            if j > 0 {
                lemma_key_lt_transitive(a[0], a[i], b[j]);
            }
            lemma_key_lt_trichotomy(a[0], a[0]);
            lemma_key_lt_trichotomy(a[0], a[i]);
        }
        assert(a[0] == b[0]);
        let x = a[0];
        let ta = a.drop_first();
        let tb = b.drop_first();
        let t = s.remove(x);
        assert forall|p: int, q: int| 0 <= p < q < ta.len() implies key_lt(
            #[trigger] ta[p],
            #[trigger] ta[q],
        ) by {
            assert(ta[p] == a[p + 1] && ta[q] == a[q + 1]);
        }
        assert forall|p: int, q: int| 0 <= p < q < tb.len() implies key_lt(
            #[trigger] tb[p],
            #[trigger] tb[q],
        ) by {
            assert(tb[p] == b[p + 1] && tb[q] == b[q + 1]);
        }
        assert forall|k: Seq<char>| t.contains(k) <==> ta.contains(k) by {
            if t.contains(k) {
                assert(a.contains(k));
                let p = choose|p: int| 0 <= p < a.len() && a[p] == k;
                assert(p != 0);
                assert(ta[p - 1] == k);
            }
            if ta.contains(k) {
                let p = choose|p: int| 0 <= p < ta.len() && ta[p] == k;
                assert(a[p + 1] == k);
                assert(a.contains(k));
                lemma_key_lt_trichotomy(a[0], a[p + 1]);
            }
        }
        assert forall|k: Seq<char>| t.contains(k) <==> tb.contains(k) by {
            if t.contains(k) {
                assert(b.contains(k));
                let p = choose|p: int| 0 <= p < b.len() && b[p] == k;
                assert(p != 0);
                assert(tb[p - 1] == k);
            }
            if tb.contains(k) {
                let p = choose|p: int| 0 <= p < tb.len() && tb[p] == k;
                assert(b[p + 1] == k);
                assert(b.contains(k));
                lemma_key_lt_trichotomy(b[0], b[p + 1]);
            }
        }
        lemma_listing_unique(ta, tb, t);
        assert(a =~= seq![x] + ta);
        assert(b =~= seq![x] + tb);
    }
}

/// A list that lists a set in ascending order is the set's ascending listing.
pub proof fn lemma_listing_is_ascending(l: Seq<Seq<char>>, s: Set<Seq<char>>)
    requires
        lists_ascending(l, s),
    ensures
        ascending(s) == l,
{
    lemma_listing_unique(ascending(s), l, s);
}

/// The set listed by an ascending list has as many keys as the list.
pub proof fn lemma_listing_len(l: Seq<Seq<char>>, s: Set<Seq<char>>)
    requires
        lists_ascending(l, s),
    ensures
        s.finite(),
        s.len() == l.len(),
{
    lemma_ascending_no_duplicates(l);
    assert(l.to_set() =~= s);
    l.unique_seq_to_set();
    vstd::seq_lib::seq_to_set_is_finite(l);
}

/// `l` with `x` put before the first key that comes after it.
pub open spec fn with_key(l: Seq<Seq<char>>, x: Seq<char>) -> Seq<Seq<char>>
    decreases l.len(),
{
    if l.len() == 0 {
        seq![x]
    } else if key_lt(x, l[0]) {
        seq![x] + l
    } else {
        seq![l[0]] + with_key(l.drop_first(), x)
    }
}

/// Putting a new key into an ascending list at its place gives the ascending
/// list of the old keys and the new one.
pub proof fn lemma_with_key(l: Seq<Seq<char>>, x: Seq<char>)
    requires
        strictly_ascending(l),
        !l.contains(x),
    ensures
        strictly_ascending(with_key(l, x)),
        with_key(l, x).len() == l.len() + 1,
        forall|k: Seq<char>|
            #![trigger with_key(l, x).contains(k)]
            #![trigger l.contains(k)]
            with_key(l, x).contains(k) <==> (k == x || l.contains(k)),
    decreases l.len(),
{
    let r = with_key(l, x);
    if l.len() == 0 {
        assert forall|k: Seq<char>| r.contains(k) <==> (k == x || l.contains(k)) by {
            if k == x {
                assert(r[0] == k);
            }
        }
    } else if key_lt(x, l[0]) {
        assert forall|i: int, j: int| 0 <= i < j < r.len() implies key_lt(
            #[trigger] r[i],
            #[trigger] r[j],
        ) by {
            if i == 0 {
                assert(r[j] == l[j - 1]);
                if j - 1 > 0 {
                    lemma_key_lt_transitive(x, l[0], l[j - 1]);
                }
            } else {
                assert(r[i] == l[i - 1] && r[j] == l[j - 1]);
            }
        }
        assert forall|k: Seq<char>| r.contains(k) <==> (k == x || l.contains(k)) by {
            if r.contains(k) {
                let i = choose|i: int| 0 <= i < r.len() && r[i] == k;
                if i > 0 {
                    assert(l[i - 1] == k);
                }
            }
            if k == x {
                assert(r[0] == k);
            }
            if l.contains(k) {
                let i = choose|i: int| 0 <= i < l.len() && l[i] == k;
                assert(r[i + 1] == k);
            }
        }
    } else {
        let t = l.drop_first();
        let rt = with_key(t, x);
        assert forall|i: int, j: int| 0 <= i < j < t.len() implies key_lt(
            #[trigger] t[i],
            #[trigger] t[j],
        ) by {
            assert(t[i] == l[i + 1] && t[j] == l[j + 1]);
        }
        if t.contains(x) {
            let i = choose|i: int| 0 <= i < t.len() && t[i] == x;
            assert(l[i + 1] == x);
        }
        lemma_with_key(t, x);
        assert(l.contains(l[0]));
        lemma_key_lt_trichotomy(x, l[0]);
        assert(key_lt(l[0], x));
        assert forall|i: int, j: int| 0 <= i < j < r.len() implies key_lt(
            #[trigger] r[i],
            #[trigger] r[j],
        ) by {
            if i == 0 {
                assert(r[j] == rt[j - 1]);
                assert(rt.contains(rt[j - 1]));
                if rt[j - 1] != x {
                    assert(t.contains(rt[j - 1]));
                    let q = choose|q: int| 0 <= q < t.len() && t[q] == rt[j - 1];
                    assert(l[q + 1] == rt[j - 1]);
                }
            } else {
                assert(r[i] == rt[i - 1] && r[j] == rt[j - 1]);
            }
        }
        assert forall|k: Seq<char>| r.contains(k) <==> (k == x || l.contains(k)) by {
            if r.contains(k) {
                let i = choose|i: int| 0 <= i < r.len() && r[i] == k;
                if i > 0 {
                    assert(rt[i - 1] == k);
                    assert(rt.contains(k));
                    if k != x {
                        let q = choose|q: int| 0 <= q < t.len() && t[q] == k;
                        assert(l[q + 1] == k);
                    }
                }
            }
            if k == x {
                assert(rt.contains(k));
                let q = choose|q: int| 0 <= q < rt.len() && rt[q] == k;
                assert(r[q + 1] == k);
            }
            if l.contains(k) {
                let i = choose|i: int| 0 <= i < l.len() && l[i] == k;
                if i == 0 {
                    assert(r[0] == k);
                } else {
                    assert(t[i - 1] == k);
                    assert(rt.contains(k));
                    let q = choose|q: int| 0 <= q < rt.len() && rt[q] == k;
                    assert(r[q + 1] == k);
                }
            }
        }
    }
}

/// Every finite set of keys has an ascending listing: `ascending` gives it.
pub proof fn lemma_ascending_lists(s: Set<Seq<char>>)
    requires
        s.finite(),
    ensures
        lists_ascending(ascending(s), s),
        ascending(s).len() == s.len(),
    decreases s.len(),
{
    if s.len() == 0 {
        let l = Seq::<Seq<char>>::empty();
        assert(lists_ascending(l, s));
    } else {
        let x = s.choose();
        let t = s.remove(x);
        lemma_ascending_lists(t);
        let lt = ascending(t);
        lemma_with_key(lt, x);
        let l = with_key(lt, x);
        assert forall|k: Seq<char>| s.contains(k) <==> l.contains(k) by {}
        assert(lists_ascending(l, s));
    }
    lemma_listing_len(ascending(s), s);
}

/// The keys among the first `i + 1` of a list are those among the first `i`,
/// and the key at `i`.
pub proof fn lemma_prefix_keys(l: Seq<Seq<char>>, i: int)
    requires
        0 <= i < l.len(),
    ensures
        l.subrange(0, i + 1).to_set() == l.subrange(0, i).to_set().insert(l[i]),
{
    let upto = l.subrange(0, i);
    let next = l.subrange(0, i + 1);
    assert forall|k: Seq<char>| next.to_set().contains(k) <==> upto.to_set().insert(
        l[i],
    ).contains(k) by {
        if next.contains(k) {
            let j = choose|j: int| 0 <= j < next.len() && next[j] == k;
            if j < i {
                assert(upto[j] == k);
            }
        }
        if upto.contains(k) {
            let j = choose|j: int| 0 <= j < upto.len() && upto[j] == k;
            assert(next[j] == k);
        }
        if k == l[i] {
            assert(next[i] == k);
        }
    }
    assert(next.to_set() =~= upto.to_set().insert(l[i]));
}

} // verus!
