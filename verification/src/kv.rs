//! A small verified association list from string keys to values, each key
//! held at most once. It stands in for the in-memory hash maps of the
//! design (per-repository cursors, per-date stores).
use vstd::prelude::*;

use crate::strutil::str_eq;

verus! {

/// Index of the first entry whose key reads `k`, scanning from position
/// `i`; `es.len()` when no entry matches.
pub open spec fn key_idx<V>(es: Seq<(String, V)>, k: Seq<char>, i: int) -> int
    recommends
        0 <= i <= es.len(),
    decreases es.len() - i,
{
    if i < 0 || i >= es.len() {
        es.len() as int
    } else if es[i].0@ == k {
        i
    } else {
        key_idx(es, k, i + 1)
    }
}

/// `key_idx` lies between `i` and `es.len()`, points at `k` when it is not
/// `es.len()`, and no entry before it (from `i` on) has key `k`.
pub proof fn lemma_key_idx<V>(es: Seq<(String, V)>, k: Seq<char>, i: int)
    requires
        0 <= i <= es.len(),
    ensures
        i <= key_idx(es, k, i) <= es.len(),
        key_idx(es, k, i) < es.len() ==> es[key_idx(es, k, i)].0@ == k,
        forall|m: int| i <= m < key_idx(es, k, i) ==> es[m].0@ != k,
    decreases es.len() - i,
{
    if i < es.len() && es[i].0@ != k {
        lemma_key_idx(es, k, i + 1);
    }
}

/// Any position whose key is `k`, with no `k` before it (from `i` on), is
/// exactly where `key_idx` lands.
pub proof fn lemma_key_idx_is<V>(es: Seq<(String, V)>, k: Seq<char>, i: int, p: int)
    requires
        0 <= i <= p < es.len(),
        es[p].0@ == k,
        forall|m: int| i <= m < p ==> es[m].0@ != k,
    ensures
        key_idx(es, k, i) == p,
    decreases p - i,
{
    if i < p {
        lemma_key_idx_is(es, k, i + 1, p);
    }
}

/// String-keyed association list; `wf` says the keys are pairwise distinct.
pub struct KvList<V> {
    pub entries: Vec<(String, V)>,
}

impl<V> KvList<V> {
    pub open spec fn wf(&self) -> bool {
        forall|i: int, j: int|
            0 <= i < j < self.entries@.len() ==> self.entries@[i].0@ != self.entries@[j].0@
    }

    /// The value bound to key `k`, if any.
    pub open spec fn spec_get(&self, k: Seq<char>) -> Option<V> {
        let idx = key_idx(self.entries@, k, 0);
        if idx < self.entries@.len() {
            Some(self.entries@[idx].1)
        } else {
            None
        }
    }

    pub open spec fn contains_key(&self, k: Seq<char>) -> bool {
        self.spec_get(k) is Some
    }

    pub fn new() -> (r: Self)
        ensures
            r.wf(),
            forall|k: Seq<char>| r.spec_get(k) is None,
            r.entries@.len() == 0,
    {
        KvList { entries: Vec::new() }
    }

    /// Position of the entry keyed `k`, or the number of entries.
    fn index_of(&self, k: &str) -> (r: usize)
        ensures
            r == key_idx(self.entries@, k@, 0),
            r <= self.entries@.len(),
            r < self.entries@.len() ==> self.entries@[r as int].0@ == k@,
            forall|m: int| 0 <= m < r ==> self.entries@[m].0@ != k@,
    {
        let n = self.entries.len();
        let mut i: usize = 0;
        while i < n
            invariant
                0 <= i <= n,
                n == self.entries@.len(),
                key_idx(self.entries@, k@, 0) == key_idx(self.entries@, k@, i as int),
                forall|m: int| 0 <= m < i ==> self.entries@[m].0@ != k@,
            decreases n - i,
        {
            if str_eq(self.entries[i].0.as_str(), k) {
                return i;
            }
            i = i + 1;
        }
        i
    }

    pub fn get(&self, k: &str) -> (r: Option<&V>)
        ensures
            match r {
                Some(v) => self.spec_get(k@) == Some(*v),
                None => self.spec_get(k@) is None,
            },
    {
        let i = self.index_of(k);
        if i < self.entries.len() {
            Some(&self.entries[i].1)
        } else {
            None
        }
    }

    pub fn contains(&self, k: &str) -> (r: bool)
        ensures
            r == self.contains_key(k@),
    {
        let i = self.index_of(k);
        i < self.entries.len()
    }

    /// Binds `k` to `v`, replacing any earlier binding of `k` and leaving
    /// every other key's binding as it was.
    pub fn insert(&mut self, k: String, v: V)
        requires
            old(self).wf(),
        ensures
            final(self).wf(),
            final(self).spec_get(k@) == Some(v),
            forall|k2: Seq<char>| k2 != k@ ==> final(self).spec_get(k2) == old(self).spec_get(k2),
    {
        let ghost es = self.entries@;
        let ghost kk = k@;
        let i = self.index_of(k.as_str());
        if i < self.entries.len() {
            *vstd::std_specs::vec::vec_index_mut(&mut self.entries, i) = (k, v);
            proof {
                let es2 = self.entries@;
                assert(forall|j: int| 0 <= j < es.len() && j != i ==> es2[j] == es[j]);
                assert(forall|j: int| 0 <= j < es.len() ==> es2[j].0@ == es[j].0@);
                lemma_key_idx_is(es2, kk, 0, i as int);
                assert forall|k2: Seq<char>| k2 != kk implies self.spec_get(k2) == old(
                    self,
                ).spec_get(k2) by {
                    lemma_key_idx::<V>(es, k2, 0);
                    lemma_key_idx::<V>(es2, k2, 0);
                    let p = key_idx(es, k2, 0);
                    if p < es.len() {
                        lemma_key_idx_is(es2, k2, 0, p);
                    }
                }
            }
        } else {
            self.entries.push((k, v));
            proof {
                let es2 = self.entries@;
                assert(forall|j: int| 0 <= j < es.len() ==> es2[j] == es[j]);
                lemma_key_idx_is(es2, kk, 0, es.len() as int);
                assert forall|k2: Seq<char>| k2 != kk implies self.spec_get(k2) == old(
                    self,
                ).spec_get(k2) by {
                    lemma_key_idx::<V>(es, k2, 0);
                    lemma_key_idx::<V>(es2, k2, 0);
                    let p = key_idx(es, k2, 0);
                    if p < es.len() {
                        lemma_key_idx_is(es2, k2, 0, p);
                    }
                }
            }
        }
    }

    /// Drops the binding of `k`, if there is one; every other binding stays.
    pub fn remove(&mut self, k: &str)
        requires
            old(self).wf(),
        ensures
            final(self).wf(),
            final(self).spec_get(k@) is None,
            forall|k2: Seq<char>| k2 != k@ ==> final(self).spec_get(k2) == old(self).spec_get(k2),
    {
        let ghost es = self.entries@;
        let i = self.index_of(k);
        if i < self.entries.len() {
            self.entries.remove(i);
            proof {
                let es2 = self.entries@;
                es.remove_ensures(i as int);
                assert(forall|j: int| 0 <= j < i ==> es2[j] == es[j]);
                assert(forall|j: int| i <= j < es2.len() ==> es2[j] == es[j + 1]);
                assert(self.spec_get(k@) is None) by {
                    lemma_key_idx::<V>(es2, k@, 0);
                    assert(forall|j: int| 0 <= j < es2.len() ==> es2[j].0@ != k@);
                }
                assert forall|k2: Seq<char>| k2 != k@ implies self.spec_get(k2) == old(
                    self,
                ).spec_get(k2) by {
                    lemma_key_idx::<V>(es, k2, 0);
                    lemma_key_idx::<V>(es2, k2, 0);
                    let p = key_idx(es, k2, 0);
                    if p < es.len() {
                        if p < i {
                            lemma_key_idx_is(es2, k2, 0, p);
                        } else {
                            lemma_key_idx_is(es2, k2, 0, p - 1);
                        }
                    } else {
                        assert(forall|j: int| 0 <= j < es2.len() ==> es2[j].0@ != k2);
                    }
                }
            }
        }
    }
}

} // verus!
