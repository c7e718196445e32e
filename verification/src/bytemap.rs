//! A map keyed by byte strings, backed by a vector of entries.
//!
//! The asset ledger and the sale registry both key their records by an
//! asset identifier, which is an arbitrary byte string.  `ByteMap` stores
//! such records as a vector of key/value pairs with pairwise-distinct keys
//! and presents them as a mathematical `Map<Seq<u8>, V>`.

use vstd::prelude::*;

verus! {

/// No two entries of `s` carry the same key.
pub open spec fn unique_keys<V>(s: Seq<(Vec<u8>, V)>) -> bool {
    forall|i: int, j: int|
        0 <= i < s.len() && 0 <= j < s.len() && i != j ==> s[i].0@ != s[j].0@
}

/// Some entry of `s` carries the key `k`.
pub open spec fn seq_has_key<V>(s: Seq<(Vec<u8>, V)>, k: Seq<u8>) -> bool {
    exists|i: int| 0 <= i < s.len() && s[i].0@ == k
}

/// The value carried by the entry of `s` whose key is `k`.
pub open spec fn seq_value_of<V>(s: Seq<(Vec<u8>, V)>, k: Seq<u8>) -> V {
    s[choose|i: int| 0 <= i < s.len() && s[i].0@ == k].1
}

/// The entries of `s`, read as a mathematical map.
pub open spec fn seq_as_map<V>(s: Seq<(Vec<u8>, V)>) -> Map<Seq<u8>, V> {
    Map::new(|k: Seq<u8>| seq_has_key(s, k), |k: Seq<u8>| seq_value_of(s, k))
}

/// With pairwise-distinct keys, each entry is the one its key resolves to.
proof fn lemma_unique_values<V>(s: Seq<(Vec<u8>, V)>)
    requires
        unique_keys(s),
    ensures
        forall|i: int|
            0 <= i < s.len() ==> #[trigger] seq_has_key(s, s[i].0@)
                && seq_value_of(s, s[i].0@) == s[i].1,
{
    assert forall|i: int|
        0 <= i < s.len() implies #[trigger] seq_has_key(s, s[i].0@)
            && seq_value_of(s, s[i].0@) == s[i].1 by {
        assert(0 <= i < s.len() && s[i].0@ == s[i].0@);
        assert(seq_has_key(s, s[i].0@));
        let j = choose|j: int| 0 <= j < s.len() && s[j].0@ == s[i].0@;
        assert(j == i);
    }
}

/// Whether the byte strings `a` and `b` hold the same bytes.
fn bytes_eq(a: &Vec<u8>, b: &Vec<u8>) -> (r: bool)
    ensures
        r == (a@ == b@),
{
    if a.len() != b.len() {
        return false;
    }
    let n = a.len();
    let mut i: usize = 0;
    while i < n
        invariant
            a@.len() == n,
            b@.len() == n,
            i <= n,
            forall|j: int| 0 <= j < i ==> a@[j] == b@[j],
        decreases n - i,
    {
        if a[i] != b[i] {
            return false;
        }
        i += 1;
    }
    proof {
        assert(a@ =~= b@);
    }
    true
}

/// A map from byte-string keys to values, with pairwise-distinct keys.
pub struct ByteMap<V> {
    entries: Vec<(Vec<u8>, V)>,
}

impl<V> View for ByteMap<V> {
    type V = Map<Seq<u8>, V>;

    closed spec fn view(&self) -> Map<Seq<u8>, V> {
        seq_as_map(self.entries@)
    }
}

impl<V: Copy> ByteMap<V> {
    /// The keys of the stored entries are pairwise distinct.
    pub closed spec fn wf(self) -> bool {
        unique_keys(self.entries@)
    }

    /// An empty map.
    pub fn new() -> (r: Self)
        ensures
            r.wf(),
            r@ == Map::<Seq<u8>, V>::empty(),
    {
        let r = ByteMap { entries: Vec::new() };
        proof {
            assert(r@ =~= Map::<Seq<u8>, V>::empty());
        }
        r
    }

    /// The index of the entry whose key is `k`, if one is stored.
    fn find_index(&self, k: &Vec<u8>) -> (r: Option<usize>)
        ensures
            match r {
                Some(i) => i < self.entries@.len() && self.entries@[i as int].0@ == k@,
                None => !seq_has_key(self.entries@, k@),
            },
    {
        let n = self.entries.len();
        let mut i: usize = 0;
        while i < n
            invariant
                n == self.entries@.len(),
                i <= n,
                forall|j: int| 0 <= j < i ==> self.entries@[j].0@ != k@,
            decreases n - i,
        {
            if bytes_eq(&self.entries[i].0, k) {
                return Some(i);
            }
            i += 1;
        }
        None
    }

    /// The value stored under `k`, if any.
    pub fn get(&self, k: &Vec<u8>) -> (r: Option<V>)
        requires
            self.wf(),
        ensures
            r == if self@.contains_key(k@) {
                Some(self@[k@])
            } else {
                None::<V>
            },
    {
        match self.find_index(k) {
            Some(i) => {
                let v = self.entries[i].1;
                proof {
                    lemma_unique_values::<V>(self.entries@);
                }
                Some(v)
            },
            None => None,
        }
    }

    /// Whether a value is stored under `k`.
    pub fn contains(&self, k: &Vec<u8>) -> (r: bool)
        requires
            self.wf(),
        ensures
            r == self@.contains_key(k@),
    {
        self.get(k).is_some()
    }

    /// Stores `v` under `k`, overwriting any previous value.
    pub fn insert(&mut self, k: Vec<u8>, v: V)
        requires
            old(self).wf(),
        ensures
            final(self).wf(),
            final(self)@ == old(self)@.insert(k@, v),
    {
        let ghost kk = k@;
        let ghost s = self.entries@;
        match self.find_index(&k) {
            Some(i) => {
                let ghost ii = i as int;
                self.entries.set(i, (k, v));
                proof {
                    let s2 = self.entries@;
                    assert forall|j: int| 0 <= j < s2.len() implies s2[j].0@ == s[j].0@ by {
                        if j != ii {
                            assert(s2[j] == s[j]);
                        }
                    }
                    assert forall|x: int, y: int|
                        0 <= x < s2.len() && 0 <= y < s2.len() && x != y implies s2[x].0@
                            != s2[y].0@ by {
                        assert(s[x].0@ != s[y].0@);
                    }
                    lemma_unique_values::<V>(s);
                    lemma_unique_values::<V>(s2);
                    assert forall|q: Seq<u8>|
                        seq_has_key(s2, q) == (seq_has_key(s, q) || q == kk) by {
                        if seq_has_key(s2, q) {
                            let j = choose|j: int| 0 <= j < s2.len() && s2[j].0@ == q;
                            assert(s[j].0@ == q);
                            assert(seq_has_key(s, q));
                        }
                        if seq_has_key(s, q) {
                            let j = choose|j: int| 0 <= j < s.len() && s[j].0@ == q;
                            assert(s2[j].0@ == q);
                            assert(seq_has_key(s2, q));
                        }
                        if q == kk {
                            assert(s2[ii].0@ == q);
                            assert(seq_has_key(s2, q));
                        }
                    }
                    assert forall|q: Seq<u8>|
                        seq_has_key(s2, q) && q != kk implies seq_value_of(s2, q) == seq_value_of(
                        s,
                        q,
                    ) by {
                        let j = choose|j: int| 0 <= j < s2.len() && s2[j].0@ == q;
                        assert(j != ii);
                        assert(s2[j] == s[j]);
                        assert(seq_value_of(s2, s2[j].0@) == s2[j].1);
                        assert(seq_value_of(s, s[j].0@) == s[j].1);
                    }
                    assert(s2[ii].1 == v);
                    assert(seq_value_of(s2, s2[ii].0@) == s2[ii].1);
                    assert(self@ =~= old(self)@.insert(kk, v));
                }
            },
            None => {
                self.entries.push((k, v));
                proof {
                    let s2 = self.entries@;
                    let n = s.len() as int;
                    assert forall|x: int, y: int|
                        0 <= x < s2.len() && 0 <= y < s2.len() && x != y implies s2[x].0@
                            != s2[y].0@ by {
                        if x < n && y < n {
                            assert(s[x].0@ != s[y].0@);
                        } else if x == n {
                            assert(s[y].0@ != kk);
                        } else {
                            assert(s[x].0@ != kk);
                        }
                    }
                    lemma_unique_values::<V>(s);
                    lemma_unique_values::<V>(s2);
                    assert forall|q: Seq<u8>|
                        seq_has_key(s2, q) == (seq_has_key(s, q) || q == kk) by {
                        if seq_has_key(s2, q) {
                            let j = choose|j: int| 0 <= j < s2.len() && s2[j].0@ == q;
                            if j < n {
                                assert(s[j].0@ == q);
                                assert(seq_has_key(s, q));
                            } else {
                                assert(q == kk);
                            }
                        }
                        if seq_has_key(s, q) {
                            let j = choose|j: int| 0 <= j < s.len() && s[j].0@ == q;
                            assert(s2[j].0@ == q);
                            assert(seq_has_key(s2, q));
                        }
                        if q == kk {
                            assert(s2[n].0@ == q);
                            assert(seq_has_key(s2, q));
                        }
                    }
                    assert forall|q: Seq<u8>|
                        seq_has_key(s2, q) && q != kk implies seq_value_of(s2, q) == seq_value_of(
                        s,
                        q,
                    ) by {
                        let j = choose|j: int| 0 <= j < s2.len() && s2[j].0@ == q;
                        assert(j != n);
                        assert(s2[j] == s[j]);
                        assert(seq_value_of(s2, s2[j].0@) == s2[j].1);
                        assert(seq_value_of(s, s[j].0@) == s[j].1);
                    }
                    assert(s2[n].1 == v);
                    assert(seq_value_of(s2, s2[n].0@) == s2[n].1);
                    assert(self@ =~= old(self)@.insert(kk, v));
                }
            },
        }
    }

    /// Removes the value stored under `k` and returns it, if any.
    pub fn remove(&mut self, k: &Vec<u8>) -> (r: Option<V>)
        requires
            old(self).wf(),
        ensures
            final(self).wf(),
            old(self)@.contains_key(k@) ==> r == Some(old(self)@[k@]) && final(self)@ == old(
                self,
            )@.remove(k@),
            !old(self)@.contains_key(k@) ==> r == None::<V> && *final(self) == *old(self),
    {
        let ghost kk = k@;
        let ghost s = self.entries@;
        match self.find_index(k) {
            Some(i) => {
                let ghost ii = i as int;
                let e = self.entries.remove(i);
                proof {
                    let s2 = self.entries@;
                    lemma_unique_values::<V>(s);
                    assert(seq_value_of(s, s[ii].0@) == s[ii].1);
                    assert forall|x: int, y: int|
                        0 <= x < s2.len() && 0 <= y < s2.len() && x != y implies s2[x].0@
                            != s2[y].0@ by {
                        let x0 = if x < ii {
                            x
                        } else {
                            x + 1
                        };
                        let y0 = if y < ii {
                            y
                        } else {
                            y + 1
                        };
                        assert(s2[x] == s[x0]);
                        assert(s2[y] == s[y0]);
                        assert(s[x0].0@ != s[y0].0@);
                    }
                    lemma_unique_values::<V>(s2);
                    assert forall|q: Seq<u8>|
                        seq_has_key(s2, q) == (seq_has_key(s, q) && q != kk) by {
                        if seq_has_key(s2, q) {
                            let j = choose|j: int| 0 <= j < s2.len() && s2[j].0@ == q;
                            let j0 = if j < ii {
                                j
                            } else {
                                j + 1
                            };
                            assert(s2[j] == s[j0]);
                            assert(seq_has_key(s, q));
                            assert(s[j0].0@ != s[ii].0@);
                            assert(q != kk);
                        }
                        if seq_has_key(s, q) && q != kk {
                            let j = choose|j: int| 0 <= j < s.len() && s[j].0@ == q;
                            assert(j != ii);
                            if j < ii {
                                assert(s2[j] == s[j]);
                                assert(s2[j].0@ == q);
                            } else {
                                assert(s2[j - 1] == s[j]);
                                assert(s2[j - 1].0@ == q);
                            }
                            assert(seq_has_key(s2, q));
                        }
                    }
                    assert forall|q: Seq<u8>|
                        seq_has_key(s2, q) implies seq_value_of(s2, q) == seq_value_of(s, q) by {
                        let j = choose|j: int| 0 <= j < s2.len() && s2[j].0@ == q;
                        let j0 = if j < ii {
                            j
                        } else {
                            j + 1
                        };
                        assert(s2[j] == s[j0]);
                        assert(seq_value_of(s2, s2[j].0@) == s2[j].1);
                        assert(seq_value_of(s, s[j0].0@) == s[j0].1);
                    }
                    assert(self@ =~= old(self)@.remove(kk));
                }
                Some(e.1)
            },
            None => None,
        }
    }
}

} // verus!
