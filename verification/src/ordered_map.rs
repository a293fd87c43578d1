//! A map from string keys to values that keeps its entries in ascending key
//! order, and lists them in that order.

use crate::listing::{
    ascending, lemma_ascending_no_duplicates, lemma_ascending_place_unique,
    lemma_listing_is_ascending, lemma_listing_len, strictly_ascending,
};
use crate::order::{key_lt, lemma_key_lt_transitive, lemma_key_lt_trichotomy, str_lt};
use vstd::prelude::*;

verus! {

/// The views of a sequence of strings.
pub open spec fn views_of(v: Seq<String>) -> Seq<Seq<char>> {
    v.map_values(|s: String| s@)
}

#[derive(Debug)]
struct Entry<T> {
    key: String,
    value: T,
}

spec fn keys_of<T>(es: Seq<Entry<T>>) -> Seq<Seq<char>> {
    es.map_values(|e: Entry<T>| e.key@)
}

spec fn map_of<T>(es: Seq<Entry<T>>) -> Map<Seq<char>, T> {
    Map::new(
        |k: Seq<char>| keys_of(es).contains(k),
        |k: Seq<char>| es[keys_of(es).index_of(k)].value,
    )
}

/// In an ascending sequence of entries a key is found at its own place.
proof fn lemma_place_of<T>(es: Seq<Entry<T>>, i: int)
    requires
        strictly_ascending(keys_of(es)),
        0 <= i < es.len(),
    ensures
        keys_of(es).contains(es[i].key@),
        keys_of(es).index_of(es[i].key@) == i,
        map_of(es).contains_key(es[i].key@),
        map_of(es)[es[i].key@] == es[i].value,
{
    let ks = keys_of(es);
    assert(ks[i] == es[i].key@);
    let j = ks.index_of(es[i].key@);
    lemma_ascending_place_unique(ks, i, j);
}

/// A key that differs from every key of the sequence is not in its map.
proof fn lemma_absent<T>(es: Seq<Entry<T>>, k: Seq<char>)
    requires
        forall|i: int| 0 <= i < es.len() ==> (#[trigger] es[i]).key@ != k,
    ensures
        !map_of(es).contains_key(k),
{
    let ks = keys_of(es);
    if ks.contains(k) {
        let i = choose|i: int| 0 <= i < ks.len() && ks[i] == k;
        assert(es[i].key@ == k);
    }
}

/// Putting an entry between the keys below and the keys above its own keeps
/// the order, and adds the entry to the map.
proof fn lemma_insert<T>(es: Seq<Entry<T>>, p: int, e: Entry<T>)
    requires
        strictly_ascending(keys_of(es)),
        0 <= p <= es.len(),
        forall|i: int| 0 <= i < p ==> key_lt(#[trigger] keys_of(es)[i], e.key@),
        forall|i: int| p <= i < es.len() ==> key_lt(e.key@, #[trigger] keys_of(es)[i]),
    ensures
        strictly_ascending(keys_of(es.insert(p, e))),
        map_of(es.insert(p, e)) == map_of(es).insert(e.key@, e.value),
{
    let ks = keys_of(es);
    let ns = es.insert(p, e);
    let nk = keys_of(ns);
    assert(nk =~= ks.insert(p, e.key@));
    assert forall|i: int, j: int| 0 <= i < j < nk.len() implies key_lt(
        #[trigger] nk[i],
        #[trigger] nk[j],
    ) by {
        if j < p {
            assert(nk[i] == ks[i] && nk[j] == ks[j]);
        } else if j == p {
            assert(nk[i] == ks[i]);
        } else if i < p {
            assert(nk[i] == ks[i] && nk[j] == ks[j - 1]);
            if j - 1 == i {
                lemma_key_lt_transitive(ks[i], e.key@, ks[j - 1]);
            }
        } else if i == p {
            assert(nk[j] == ks[j - 1]);
        } else {
            assert(nk[i] == ks[i - 1] && nk[j] == ks[j - 1]);
        }
    }
    let want = map_of(es).insert(e.key@, e.value);
    assert forall|k: Seq<char>| map_of(ns).contains_key(k) <==> want.contains_key(k) by {
        if nk.contains(k) {
            let i = choose|i: int| 0 <= i < nk.len() && nk[i] == k;
            if i < p {
                assert(ks[i] == k);
            } else if i > p {
                assert(ks[i - 1] == k);
            }
        }
        if ks.contains(k) {
            let i = choose|i: int| 0 <= i < ks.len() && ks[i] == k;
            if i < p {
                assert(nk[i] == k);
            } else {
                assert(nk[i + 1] == k);
            }
        }
        if k == e.key@ {
            assert(nk[p] == k);
        }
    }
    assert forall|k: Seq<char>| map_of(ns).contains_key(k) implies map_of(ns)[k] == want[k] by {
        let i = nk.index_of(k);
        lemma_place_of(ns, i);
        if i < p {
            assert(ns[i] == es[i]);
            lemma_place_of(es, i);
            lemma_key_lt_trichotomy(ks[i], e.key@);
        } else if i > p {
            assert(ns[i] == es[i - 1]);
            lemma_place_of(es, i - 1);
            lemma_key_lt_trichotomy(e.key@, ks[i - 1]);
        }
    }
    assert(map_of(ns) =~= want);
}

/// Taking an entry out keeps the order, and takes its key out of the map.
proof fn lemma_remove<T>(es: Seq<Entry<T>>, p: int)
    requires
        strictly_ascending(keys_of(es)),
        0 <= p < es.len(),
    ensures
        strictly_ascending(keys_of(es.remove(p))),
        map_of(es.remove(p)) == map_of(es).remove(es[p].key@),
{
    let ks = keys_of(es);
    let ns = es.remove(p);
    let nk = keys_of(ns);
    assert(nk =~= ks.remove(p));
    assert forall|i: int, j: int| 0 <= i < j < nk.len() implies key_lt(
        #[trigger] nk[i],
        #[trigger] nk[j],
    ) by {
        let oi = if i < p { i } else { i + 1 };
        let oj = if j < p { j } else { j + 1 };
        assert(nk[i] == ks[oi] && nk[j] == ks[oj]);
    }
    let want = map_of(es).remove(es[p].key@);
    assert(ks[p] == es[p].key@);
    assert forall|k: Seq<char>| map_of(ns).contains_key(k) <==> want.contains_key(k) by {
        if nk.contains(k) {
            let i = choose|i: int| 0 <= i < nk.len() && nk[i] == k;
            let oi = if i < p { i } else { i + 1 };
            assert(ks[oi] == k);
            if k == ks[p] {
                lemma_ascending_place_unique(ks, oi, p);
            }
        }
        if ks.contains(k) && k != ks[p] {
            let i = choose|i: int| 0 <= i < ks.len() && ks[i] == k;
            if i < p {
                assert(nk[i] == k);
            } else {
                assert(nk[i - 1] == k);
            }
        }
    }
    assert forall|k: Seq<char>| map_of(ns).contains_key(k) implies map_of(ns)[k] == want[k] by {
        let i = nk.index_of(k);
        lemma_place_of(ns, i);
        let oi = if i < p { i } else { i + 1 };
        assert(ns[i] == es[oi]);
        lemma_place_of(es, oi);
    }
    assert(map_of(ns) =~= want);
}

/// A map from strings to values of `T`, held as a vector of entries in strictly
/// ascending key order.
#[derive(Debug)]
pub struct OrderedMap<T> {
    entries: Vec<Entry<T>>,
}

impl<T> View for OrderedMap<T> {
    type V = Map<Seq<char>, T>;

    closed spec fn view(&self) -> Map<Seq<char>, T> {
        map_of(self.entries@)
    }
}

impl<T> OrderedMap<T> {
    #[verifier::type_invariant]
    spec fn ordered(&self) -> bool {
        strictly_ascending(keys_of(self.entries@))
    }

    /// The keys and values are those of a map with finitely many keys.
    pub proof fn lemma_finite(&self)
        ensures
            self@.dom().finite(),
    {
        assert(self@.dom() =~= keys_of(self.entries@).to_set());
        vstd::seq_lib::seq_to_set_is_finite(keys_of(self.entries@));
    }

    /// The empty map.
    pub fn new() -> (m: Self)
        ensures
            m@ == Map::<Seq<char>, T>::empty(),
    {
        let m = OrderedMap { entries: Vec::new() };
        assert(m@ =~= Map::<Seq<char>, T>::empty());
        m
    }

    /// The place of `key` among the entries: the index of the first entry whose
    /// key does not come before `key`, and whether that entry holds `key`.
    fn place(&self, key: &str) -> (r: (usize, bool))
        ensures
            r.0 <= self.entries.len(),
            forall|i: int| 0 <= i < r.0 ==> key_lt(#[trigger] keys_of(self.entries@)[i], key@),
            r.1 ==> r.0 < self.entries.len() && self.entries[r.0 as int].key@ == key@,
            !r.1 ==> forall|i: int|
                r.0 <= i < self.entries.len() ==> key_lt(
                    key@,
                    #[trigger] keys_of(self.entries@)[i],
                ),
            r.1 == self@.contains_key(key@),
    {
        proof {
            use_type_invariant(self);
        }
        let ghost ks = keys_of(self.entries@);
        let mut low: usize = 0;
        let mut high: usize = self.entries.len();
        while low < high
            invariant
                low <= high <= self.entries.len(),
                ks == keys_of(self.entries@),
                strictly_ascending(ks),
                forall|j: int| 0 <= j < low ==> key_lt(#[trigger] ks[j], key@),
                forall|j: int| high <= j < ks.len() ==> !key_lt(#[trigger] ks[j], key@),
            decreases high - low,
        {
            let mid = low + (high - low) / 2;
            let ghost here = ks[mid as int];
            assert(here == self.entries[mid as int].key@);
            if str_lt(self.entries[mid].key.as_str(), key) {
                proof {
                    assert forall|j: int| 0 <= j < mid + 1 implies key_lt(
                        #[trigger] ks[j],
                        key@,
                    ) by {
                        if j < mid {
                            lemma_key_lt_transitive(ks[j], here, key@);
                        }
                    }
                }
                low = mid + 1;
            } else {
                proof {
                    assert forall|j: int| mid <= j < ks.len() implies !key_lt(
                        #[trigger] ks[j],
                        key@,
                    ) by {
                        if j > mid && key_lt(ks[j], key@) {
                            lemma_key_lt_transitive(here, ks[j], key@);
                        }
                    }
                }
                high = mid;
            }
        }
        let found = low < self.entries.len() && !str_lt(key, self.entries[low].key.as_str());
        proof {
            if found {
                let here = self.entries[low as int].key@;
                assert(ks[low as int] == here);
                lemma_key_lt_trichotomy(here, key@);
                lemma_place_of(self.entries@, low as int);
            } else {
                assert forall|j: int| low <= j < self.entries.len() implies key_lt(
                    key@,
                    #[trigger] ks[j],
                ) by {
                    assert(ks[low as int] == self.entries[low as int].key@);
                    if j > low {
                        lemma_key_lt_transitive(key@, ks[low as int], ks[j]);
                    }
                }
                assert forall|j: int| 0 <= j < self.entries.len() implies (
                #[trigger] self.entries@[j]).key@ != key@ by {
                    assert(ks[j] == self.entries@[j].key@);
                    lemma_key_lt_trichotomy(ks[j], key@);
                }
                lemma_absent(self.entries@, key@);
            }
        }
        (low, found)
    }

    /// The number of entries.
    pub fn len(&self) -> (n: usize)
        ensures
            n == self@.dom().len(),
            self@.dom().finite(),
    {
        proof {
            use_type_invariant(self);
            let ks = keys_of(self.entries@);
            assert(self@.dom() =~= ks.to_set());
            lemma_ascending_no_duplicates(ks);
            ks.unique_seq_to_set();
            vstd::seq_lib::seq_to_set_is_finite(ks);
        }
        self.entries.len()
    }

    /// Whether `key` has an entry.
    pub fn contains_key(&self, key: &str) -> (r: bool)
        ensures
            r == self@.contains_key(key@),
    {
        self.place(key).1
    }

    /// The value stored for `key`, if it has an entry.
    pub fn get(&self, key: &str) -> (r: Option<T>) where T: Copy
        ensures
            r == (if self@.contains_key(key@) {
                Some(self@[key@])
            } else {
                None
            }),
    {
        proof {
            use_type_invariant(self);
        }
        let (p, found) = self.place(key);
        if found {
            proof {
                lemma_place_of(self.entries@, p as int);
            }
            Some(self.entries[p].value)
        } else {
            None
        }
    }

    /// Stores `value` for `key` unless `key` has an entry already, which is then
    /// left as it is. Returns whether the entry was added.
    pub fn insert_absent(&mut self, key: String, value: T) -> (added: bool)
        ensures
            added == !old(self)@.contains_key(key@),
            final(self)@ == (if added {
                old(self)@.insert(key@, value)
            } else {
                old(self)@
            }),
    {
        proof {
            use_type_invariant(&*self);
        }
        let (p, found) = self.place(key.as_str());
        if found {
            return false;
        }
        let mut entries = Vec::new();
        std::mem::swap(&mut entries, &mut self.entries);
        let entry = Entry { key, value };
        proof {
            lemma_insert(entries@, p as int, entry);
        }
        entries.insert(p, entry);
        self.entries = entries;
        true
    }

    /// Takes the entry of `key` out, if it has one. Returns whether it had.
    pub fn remove(&mut self, key: &str) -> (removed: bool)
        ensures
            removed == old(self)@.contains_key(key@),
            final(self)@ == old(self)@.remove(key@),
    {
        proof {
            use_type_invariant(&*self);
        }
        let (p, found) = self.place(key);
        if !found {
            assert(self@.remove(key@) =~= self@);
            return false;
        }
        let mut entries = Vec::new();
        std::mem::swap(&mut entries, &mut self.entries);
        proof {
            lemma_remove(entries@, p as int);
        }
        let _ = entries.remove(p);
        self.entries = entries;
        true
    }

    /// The keys in ascending order.
    pub fn keys(&self) -> (ks: Vec<String>)
        ensures
            views_of(ks@) == ascending(self@.dom()),
            ks.len() == self@.dom().len(),
    {
        proof {
            use_type_invariant(self);
        }
        let ghost all = keys_of(self.entries@);
        let mut ks: Vec<String> = Vec::new();
        let mut i: usize = 0;
        while i < self.entries.len()
            invariant
                i <= self.entries.len(),
                all == keys_of(self.entries@),
                all.len() == self.entries.len(),
                ks.len() == i,
                views_of(ks@) == all.subrange(0, i as int),
            decreases self.entries.len() - i,
        {
            let k = self.entries[i].key.clone();
            let ghost before = ks@;
            ks.push(k);
            proof {
                let now = views_of(ks@);
                let want = all.subrange(0, i as int + 1);
                assert(all[i as int] == self.entries@[i as int].key@);
                assert forall|j: int| 0 <= j < now.len() implies now[j] == want[j] by {
                    if j < i {
                        assert(views_of(before)[j] == all.subrange(0, i as int)[j]);
                        assert(ks@[j] == before[j]);
                    }
                }
                assert(now =~= want);
            }
            i += 1;
        }
        proof {
            assert(views_of(ks@) =~= all);
            assert forall|k: Seq<char>| self@.dom().contains(k) <==> all.contains(k) by {}
            lemma_listing_is_ascending(all, self@.dom());
            lemma_listing_len(all, self@.dom());
        }
        ks
    }
}

} // verus!
