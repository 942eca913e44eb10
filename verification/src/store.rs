//! A keyed store: a mapping from byte-sequence keys to records, with point
//! lookup, point insert, point delete and existence check, each atomic. It is
//! kept as an association list with pairwise-distinct keys and abstracts to a
//! `Map` from key contents to record views; every operation's contract is
//! stated over that map.

use vstd::prelude::*;

verus! {

/// One keyed store. The registry holds one instance per record kind.
pub struct KeyedStore<R> {
    entries: Vec<(Vec<u8>, R)>,
}

impl<R: View> KeyedStore<R> {
    /// Whether the listed keys are pairwise distinct, so that each key maps
    /// to at most one record.
    spec fn distinct_keys(entries: Seq<(Vec<u8>, R)>) -> bool {
        forall|i: int, j: int|
            0 <= i < j < entries.len() ==> entries[i].0@ != entries[j].0@
    }

    /// The map abstraction of an entry list: a later entry would win, but the
    /// store never holds two entries for one key.
    spec fn map_of(entries: Seq<(Vec<u8>, R)>) -> Map<Seq<u8>, R::V>
        decreases entries.len(),
    {
        if entries.len() == 0 {
            Map::empty()
        } else {
            Self::map_of(entries.drop_last()).insert(
                entries.last().0@,
                entries.last().1@,
            )
        }
    }

    /// Well-formedness: at most one entry per key.
    pub closed spec fn wf(&self) -> bool {
        Self::distinct_keys(self.entries@)
    }

    /// What the store holds, as a map from key contents to record views.
    pub closed spec fn contents(&self) -> Map<Seq<u8>, R::V> {
        Self::map_of(self.entries@)
    }

    proof fn lemma_map_of_contains(entries: Seq<(Vec<u8>, R)>, k: Seq<u8>)
        ensures
            Self::map_of(entries).contains_key(k) <==> exists|i: int|
                0 <= i < entries.len() && entries[i].0@ == k,
        decreases entries.len(),
    {
        if entries.len() > 0 {
            Self::lemma_map_of_contains(entries.drop_last(), k);
            let prior = entries.drop_last();
            if entries.last().0@ == k {
                assert(entries[entries.len() - 1].0@ == k);
            } else if Self::map_of(entries).contains_key(k) {
                let i = choose|i: int| 0 <= i < prior.len() && prior[i].0@ == k;
                assert(entries[i].0@ == k);
            } else if exists|i: int| 0 <= i < entries.len() && entries[i].0@ == k {
                let i = choose|i: int| 0 <= i < entries.len() && entries[i].0@ == k;
                assert(i < entries.len() - 1);
                assert(prior[i].0@ == k);
            }
        }
    }

    proof fn lemma_map_of_index(entries: Seq<(Vec<u8>, R)>, i: int)
        requires
            Self::distinct_keys(entries),
            0 <= i < entries.len(),
        ensures
            Self::map_of(entries).contains_key(entries[i].0@),
            Self::map_of(entries)[entries[i].0@] == entries[i].1@,
        decreases entries.len(),
    {
        if i < entries.len() - 1 {
            let prior = entries.drop_last();
            assert(Self::distinct_keys(prior));
            Self::lemma_map_of_index(prior, i);
            assert(entries.last().0@ != entries[i].0@);
            assert(prior[i] == entries[i]);
        }
    }

    proof fn lemma_map_of_remove(entries: Seq<(Vec<u8>, R)>, i: int)
        requires
            Self::distinct_keys(entries),
            0 <= i < entries.len(),
        ensures
            Self::distinct_keys(entries.remove(i)),
            Self::map_of(entries.remove(i)) =~= Self::map_of(entries).remove(entries[i].0@),
        decreases entries.len(),
    {
        let k = entries[i].0@;
        let shorter = entries.remove(i);
        assert forall|a: int, b: int| 0 <= a < b < shorter.len() implies shorter[a].0@
            != shorter[b].0@ by {
            let a2: int = if a < i { a } else { a + 1 };
            let b2: int = if b < i { b } else { b + 1 };
            assert(shorter[a] == entries[a2]);
            assert(shorter[b] == entries[b2]);
        }
        let prior = entries.drop_last();
        assert(Self::distinct_keys(prior));
        if i == entries.len() - 1 {
            Self::lemma_map_of_contains(prior, k);
            assert(!Self::map_of(prior).contains_key(k));
            assert(shorter =~= prior);
            assert(Self::map_of(shorter) =~= Self::map_of(entries).remove(k));
        } else {
            Self::lemma_map_of_remove(prior, i);
            assert(shorter.drop_last() =~= prior.remove(i));
            assert(shorter.last() == entries.last());
            assert(Self::map_of(shorter) == Self::map_of(prior.remove(i)).insert(
                entries.last().0@,
                entries.last().1@,
            ));
            assert(entries.last().0@ != k);
            assert(Self::map_of(prior).remove(k).insert(entries.last().0@, entries.last().1@)
                =~= Self::map_of(prior).insert(entries.last().0@, entries.last().1@).remove(k));
            assert(Self::map_of(entries) == Self::map_of(prior).insert(
                entries.last().0@,
                entries.last().1@,
            ));
        }
    }

    /// A fresh, empty store.
    pub fn new() -> (s: Self)
        ensures
            s.wf(),
            s.contents() == Map::<Seq<u8>, R::V>::empty(),
    {
        KeyedStore { entries: Vec::new() }
    }

    fn find_index(&self, key: &Vec<u8>) -> (r: Option<usize>)
        ensures
            match r {
                Some(i) => i < self.entries@.len() && self.entries@[i as int].0@ == key@,
                None => forall|j: int|
                    0 <= j < self.entries@.len() ==> self.entries@[j].0@ != key@,
            },
    {
        let mut i: usize = 0;
        while i < self.entries.len()
            invariant
                i <= self.entries@.len(),
                forall|j: int| 0 <= j < i ==> self.entries@[j].0@ != key@,
            decreases self.entries@.len() - i,
        {
            if &self.entries[i].0 == key {
                proof {
                    assert(self.entries@[i as int].0@ =~= key@);
                }
                return Some(i);
            }
            proof {
                assert(self.entries@[i as int].0@ != key@) by {
                    if self.entries@[i as int].0@ == key@ {
                        assert(self.entries@[i as int].0@ =~= key@);
                    }
                }
            }
            i = i + 1;
        }
        None
    }

    /// Existence check: whether the store holds a record under this key.
    pub fn contains(&self, key: &Vec<u8>) -> (present: bool)
        requires
            self.wf(),
        ensures
            present == self.contents().contains_key(key@),
    {
        proof {
            Self::lemma_map_of_contains(self.entries@, key@);
        }
        match self.find_index(key) {
            Some(_) => true,
            None => false,
        }
    }

    /// Point lookup: the record under this key, if the key is claimed.
    pub fn get(&self, key: &Vec<u8>) -> (r: Option<&R>)
        requires
            self.wf(),
        ensures
            match r {
                Some(record) => self.contents().contains_key(key@) && record@ == self.contents()[
                    key@
                ],
                None => !self.contents().contains_key(key@),
            },
    {
        proof {
            Self::lemma_map_of_contains(self.entries@, key@);
        }
        match self.find_index(key) {
            Some(i) => {
                proof {
                    Self::lemma_map_of_index(self.entries@, i as int);
                }
                Some(&self.entries[i].1)
            },
            None => None,
        }
    }

    /// Point insert of a record under a free key. Atomic: the whole record
    /// becomes visible at once.
    pub fn insert(&mut self, key: Vec<u8>, record: R)
        requires
            old(self).wf(),
            !old(self).contents().contains_key(key@),
        ensures
            final(self).wf(),
            final(self).contents() == old(self).contents().insert(key@, record@),
    {
        proof {
            Self::lemma_map_of_contains(self.entries@, key@);
        }
        let ghost prior = self.entries@;
        let ghost kview = key@;
        let ghost rview = record@;
        self.entries.push((key, record));
        proof {
            assert(self.entries@.drop_last() =~= prior);
            assert(self.entries@.last().0@ == kview);
            assert(self.entries@.last().1@ == rview);
            assert(Self::map_of(self.entries@) == Self::map_of(prior).insert(kview, rview));
            assert forall|a: int, b: int| 0 <= a < b < self.entries@.len() implies self.entries@[
                a
            ].0@ != self.entries@[b].0@ by {
                assert(self.entries@[a] == prior[a]);
                if b < self.entries@.len() - 1 {
                    assert(self.entries@[b] == prior[b]);
                } else {
                    assert(prior[a].0@ != kview);
                }
            }
        }
    }

    /// Point delete of the record under a claimed key. Atomic: the record
    /// vanishes whole.
    pub fn remove(&mut self, key: &Vec<u8>)
        requires
            old(self).wf(),
            old(self).contents().contains_key(key@),
        ensures
            final(self).wf(),
            final(self).contents() == old(self).contents().remove(key@),
    {
        proof {
            Self::lemma_map_of_contains(self.entries@, key@);
        }
        let ghost prior = self.entries@;
        let index: usize = match self.find_index(key) {
            Some(i) => i,
            None => {
                proof {
                    let i = choose|i: int| 0 <= i < prior.len() && prior[i].0@ == key@;
                    assert(prior[i].0@ != key@);
                }
                0
            },
        };
        proof {
            Self::lemma_map_of_remove(prior, index as int);
        }
        self.entries.remove(index);
        proof {
            assert(self.entries@ == prior.remove(index as int));
            assert(Self::map_of(self.entries@) =~= Self::map_of(prior).remove(key@));
        }
    }
}

} // verus!
