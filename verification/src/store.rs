//! A map from string keys to records that lists its entries in key order,
//! with the operations a contract performs on its keyed storage: test, load,
//! save, remove and an ascending range over all entries.

use vstd::prelude::*;
use crate::ordering::{key_lt, key_less, lemma_key_lt_irreflexive, lemma_key_lt_total, lemma_key_lt_transitive};

verus! {

/// `s` lists exactly the entries of `m`, each key once, in ascending key order.
pub open spec fn is_listing_of<T: View>(s: Seq<(String, T)>, m: Map<Seq<char>, T::V>) -> bool {
    &&& forall|i: int, j: int| 0 <= i < j < s.len() ==> key_lt(#[trigger] s[i].0@, #[trigger] s[j].0@)
    &&& forall|i: int| 0 <= i < s.len() ==> m.contains_key(#[trigger] s[i].0@) && m[s[i].0@] == s[i].1@
    &&& forall|k: Seq<char>| #[trigger] m.contains_key(k) ==> exists|i: int| 0 <= i < s.len() && s[i].0@ == k
}

#[verifier::reject_recursive_types(T)]
pub struct RecordMap<T: View> {
    entries: Vec<(String, T)>,
    contents: Ghost<Map<Seq<char>, T::V>>,
}

impl<T: View> View for RecordMap<T> {
    type V = Map<Seq<char>, T::V>;

    closed spec fn view(&self) -> Map<Seq<char>, T::V> {
        self.contents@
    }
}

impl<T: View> RecordMap<T> {
    /// The entries are held in ascending key order, and they are exactly the
    /// entries of the map.
    pub closed spec fn wf(&self) -> bool {
        is_listing_of(self.entries@, self.contents@)
    }

    /// An empty map.
    pub fn new() -> (r: Self)
        ensures
            r.wf(),
            r@ == Map::<Seq<char>, T::V>::empty(),
    {
        RecordMap { entries: Vec::new(), contents: Ghost(Map::empty()) }
    }

    /// Rebuilds a map from a listing of its entries; `None` where the keys are
    /// not strictly ascending.
    pub fn from_entries(entries: Vec<(String, T)>) -> (r: Option<Self>)
        ensures
            r is Some <==> forall|i: int, j: int|
                0 <= i < j < entries@.len() ==> key_lt(#[trigger] entries@[i].0@, #[trigger] entries@[j].0@),
            r matches Some(m) ==> m.wf() && is_listing_of(entries@, m@),
    {
        let n = entries.len();
        let mut i: usize = 1;
        while i < n
            invariant
                n == entries@.len(),
                1 <= i,
                forall|p: int, q: int| 0 <= p < q < i && q < n ==> key_lt(#[trigger] entries@[p].0@, #[trigger] entries@[q].0@),
            decreases n - i,
        {
            if !key_less(&entries[i - 1].0, &entries[i].0) {
                return None;
            }
            assert forall|p: int, q: int| 0 <= p < q < i + 1 && q < n implies key_lt(#[trigger] entries@[p].0@, #[trigger] entries@[q].0@) by {
                if q == i && p < i - 1 {
                    lemma_key_lt_transitive(entries@[p].0@, entries@[i - 1].0@, entries@[q].0@);
                }
            }
            i = i + 1;
        }
        let ghost s = entries@;
        let ghost m = Map::new(
            |k: Seq<char>| exists|i: int| 0 <= i < s.len() && s[i].0@ == k,
            |k: Seq<char>| s[choose|i: int| 0 <= i < s.len() && s[i].0@ == k].1@,
        );
        proof {
            assert forall|i: int| 0 <= i < s.len() implies m.contains_key(#[trigger] s[i].0@) && m[s[i].0@] == s[i].1@ by {
                let j = choose|j: int| 0 <= j < s.len() && s[j].0@ == s[i].0@;
                if j != i {
                    if j < i {
                        lemma_key_lt_irreflexive(s[i].0@);
                        assert(key_lt(s[j].0@, s[i].0@));
                    } else {
                        lemma_key_lt_irreflexive(s[i].0@);
                        assert(key_lt(s[i].0@, s[j].0@));
                    }
                }
            }
        }
        Some(RecordMap { entries, contents: Ghost(m) })
    }

    /// Position of `key`: every entry before it has a smaller key, and the
    /// entry there, if any, has `key` or a greater one.
    fn find(&self, key: &String) -> (r: (usize, bool))
        requires
            self.wf(),
        ensures
            r.0 <= self.entries@.len(),
            forall|i: int| 0 <= i < r.0 ==> key_lt(#[trigger] self.entries@[i].0@, key@),
            r.1 <==> (r.0 < self.entries@.len() && self.entries@[r.0 as int].0@ == key@),
            !r.1 && r.0 < self.entries@.len() ==> key_lt(key@, self.entries@[r.0 as int].0@),
            r.1 <==> self@.contains_key(key@),
    {
        let n = self.entries.len();
        let mut i: usize = 0;
        while i < n && key_less(&self.entries[i].0, key)
            invariant
                n == self.entries@.len(),
                i <= n,
                forall|j: int| 0 <= j < i ==> key_lt(#[trigger] self.entries@[j].0@, key@),
            decreases n - i,
        {
            i = i + 1;
        }
        let found = i < n && self.entries[i].0 == *key;
        proof {
            if i < n && !found {
                lemma_key_lt_total(key@, self.entries@[i as int].0@);
            }
            if self@.contains_key(key@) && !found {
                let j = choose|j: int| 0 <= j < self.entries@.len() && self.entries@[j].0@ == key@;
                lemma_key_lt_irreflexive(key@);
                if j < i {
                    assert(key_lt(self.entries@[j].0@, key@));
                } else if j > i {
                    assert(key_lt(self.entries@[i as int].0@, self.entries@[j].0@));
                    lemma_key_lt_transitive(key@, self.entries@[i as int].0@, self.entries@[j].0@);
                }
            }
        }
        (i, found)
    }

    /// Whether `key` has an entry.
    pub fn has(&self, key: &String) -> (r: bool)
        requires
            self.wf(),
        ensures
            r == self@.contains_key(key@),
    {
        let (_, found) = self.find(key);
        found
    }

    /// The record stored under `key`, if any.
    pub fn get(&self, key: &String) -> (r: Option<&T>)
        requires
            self.wf(),
        ensures
            r is Some <==> self@.contains_key(key@),
            r matches Some(v) ==> v@ == self@[key@],
    {
        let (i, found) = self.find(key);
        if found {
            Some(&self.entries[i].1)
        } else {
            None
        }
    }

    /// Stores `value` under `key`, replacing what was there.
    pub fn save(&mut self, key: String, value: T)
        requires
            old(self).wf(),
        ensures
            final(self).wf(),
            final(self)@ == old(self)@.insert(key@, value@),
    {
        let (i, found) = self.find(&key);
        let ghost k = key@;
        let ghost v = value@;
        let ghost s = self.entries@;
        let ghost m = self.contents@.insert(k, v);
        if found {
            self.entries.set(i, (key, value));
            proof {
                let t = self.entries@;
                assert forall|p: int| 0 <= p < t.len() implies m.contains_key(#[trigger] t[p].0@) && m[t[p].0@] == t[p].1@ by {
                    if p != i {
                        assert(t[p] == s[p]);
                        assert(s[p].0@ != k) by {
                            lemma_key_lt_irreflexive(k);
                        }
                    }
                }
                assert forall|kk: Seq<char>| #[trigger] m.contains_key(kk) implies exists|p: int| 0 <= p < t.len() && t[p].0@ == kk by {
                    if kk == k {
                        assert(t[i as int].0@ == kk);
                    } else {
                        let p = choose|p: int| 0 <= p < s.len() && s[p].0@ == kk;
                        assert(t[p].0@ == kk);
                    }
                }
            }
        } else {
            self.entries.insert(i, (key, value));
            proof {
                let t = self.entries@;
                assert forall|p: int, q: int| 0 <= p < q < t.len() implies key_lt(#[trigger] t[p].0@, #[trigger] t[q].0@) by {
                    if q < i {
                        assert(t[p] == s[p] && t[q] == s[q]);
                    } else if q == i {
                        assert(t[p] == s[p]);
                    } else if p == i {
                        assert(t[q] == s[q - 1]);
                        if q - 1 > i {
                            assert(key_lt(s[i as int].0@, s[q - 1].0@));
                            lemma_key_lt_transitive(k, s[i as int].0@, s[q - 1].0@);
                        }
                    } else if p < i {
                        assert(t[p] == s[p] && t[q] == s[q - 1]);
                    } else {
                        assert(t[p] == s[p - 1] && t[q] == s[q - 1]);
                    }
                }
                assert forall|p: int| 0 <= p < t.len() implies m.contains_key(#[trigger] t[p].0@) && m[t[p].0@] == t[p].1@ by {
                    if p < i {
                        assert(t[p] == s[p]);
                    } else if p > i {
                        assert(t[p] == s[p - 1]);
                    }
                    if p != i {
                        assert(t[p].0@ != k) by {
                            if p < i {
                                lemma_key_lt_irreflexive(k);
                            } else {
                                if p - 1 > i {
                                    assert(key_lt(s[i as int].0@, s[p - 1].0@));
                                    lemma_key_lt_transitive(k, s[i as int].0@, s[p - 1].0@);
                                }
                                lemma_key_lt_irreflexive(k);
                            }
                        }
                    }
                }
                assert forall|kk: Seq<char>| #[trigger] m.contains_key(kk) implies exists|p: int| 0 <= p < t.len() && t[p].0@ == kk by {
                    if kk == k {
                        assert(t[i as int].0@ == kk);
                    } else {
                        let p = choose|p: int| 0 <= p < s.len() && s[p].0@ == kk;
                        if p < i {
                            assert(t[p].0@ == kk);
                        } else {
                            assert(t[p + 1].0@ == kk);
                        }
                    }
                }
            }
        }
        self.contents = Ghost(m);
    }

    /// Removes the entry under `key`, if any.
    pub fn remove(&mut self, key: &String)
        requires
            old(self).wf(),
        ensures
            final(self).wf(),
            final(self)@ == old(self)@.remove(key@),
    {
        let (i, found) = self.find(key);
        let ghost k = key@;
        let ghost s = self.entries@;
        let ghost m = self.contents@.remove(k);
        if found {
            let _ = self.entries.remove(i);
            proof {
                let t = self.entries@;
                assert forall|p: int, q: int| 0 <= p < q < t.len() implies key_lt(#[trigger] t[p].0@, #[trigger] t[q].0@) by {
                    if q < i {
                        assert(t[p] == s[p] && t[q] == s[q]);
                    } else if p < i {
                        assert(t[p] == s[p] && t[q] == s[q + 1]);
                    } else {
                        assert(t[p] == s[p + 1] && t[q] == s[q + 1]);
                    }
                }
                assert forall|p: int| 0 <= p < t.len() implies m.contains_key(#[trigger] t[p].0@) && m[t[p].0@] == t[p].1@ by {
                    lemma_key_lt_irreflexive(k);
                    if p < i {
                        assert(t[p] == s[p]);
                        assert(key_lt(s[p].0@, s[i as int].0@));
                    } else {
                        assert(t[p] == s[p + 1]);
                        assert(key_lt(s[i as int].0@, s[p + 1].0@));
                    }
                }
                assert forall|kk: Seq<char>| #[trigger] m.contains_key(kk) implies exists|p: int| 0 <= p < t.len() && t[p].0@ == kk by {
                    let p = choose|p: int| 0 <= p < s.len() && s[p].0@ == kk;
                    if p < i {
                        assert(t[p].0@ == kk);
                    } else {
                        assert(p != i);
                        assert(t[p - 1].0@ == kk);
                    }
                }
            }
        } else {
            assert(m =~= self.contents@);
        }
        self.contents = Ghost(m);
    }

    /// All entries, in ascending key order.
    pub fn entries(&self) -> (r: &Vec<(String, T)>)
        requires
            self.wf(),
        ensures
            is_listing_of(r@, self@),
    {
        &self.entries
    }
}

/// A listing determines its map: the entries read back in key order give
/// back exactly the map they were listed from.
pub proof fn lemma_listing_determines_map<T: View>(s: Seq<(String, T)>, m1: Map<Seq<char>, T::V>, m2: Map<Seq<char>, T::V>)
    requires
        is_listing_of(s, m1),
        is_listing_of(s, m2),
    ensures
        m1 == m2,
{
    assert forall|k: Seq<char>| m1.contains_key(k) implies m2.contains_key(k) && m1[k] == m2[k] by {
        let i = choose|i: int| 0 <= i < s.len() && s[i].0@ == k;
        assert(m1[s[i].0@] == s[i].1@ && m2[s[i].0@] == s[i].1@);
    }
    assert forall|k: Seq<char>| m2.contains_key(k) implies m1.contains_key(k) by {
        let i = choose|i: int| 0 <= i < s.len() && s[i].0@ == k;
        assert(m1.contains_key(s[i].0@));
    }
    assert(m1 =~= m2);
}

} // verus!
