//! The key-value store for resolved hashes: a durable mapping from
//! filename to content hash with upsert semantics.
//!
//! The store's logic — point lookup, insert-if-absent, overwrite — is
//! carried by this table; the embedding application layers durability
//! on top by journalling every accepted write and replaying the
//! journal at startup, before the store is first read.

use vstd::prelude::*;

use crate::table::{keys_unique, lemma_keys_unique_remove, lemma_map_of_domain,
    lemma_map_of_index, lemma_map_of_push, lemma_map_of_remove, map_of};

verus! {

/// A failure of the persistence layer: it is unreachable or rejects a
/// write. Callers treat it as terminal for the attempt, never fatal
/// for the process.
#[derive(Clone, Copy, Debug, PartialEq, Eq, Structural)]
pub enum StoreError {
    /// A counter cannot grow past its machine bound.
    CounterOverflow,
}

/// Mapping from filename to content hash; records are created on first
/// resolution, overwritten on re-resolution, never deleted.
pub struct HashStore {
    entries: Vec<(String, String)>,
}

spec fn entries_view(s: Seq<(String, String)>) -> Seq<(Seq<char>, Seq<char>)> {
    s.map_values(|e: (String, String)| (e.0@, e.1@))
}

impl View for HashStore {
    type V = Map<Seq<char>, Seq<char>>;

    closed spec fn view(&self) -> Map<Seq<char>, Seq<char>> {
        map_of(entries_view(self.entries@))
    }
}

impl HashStore {
    /// No filename owns two records.
    pub closed spec fn wf(&self) -> bool {
        keys_unique(entries_view(self.entries@))
    }

    /// An empty store.
    pub fn new() -> (r: HashStore)
        ensures
            r.wf(),
            r@ == Map::<Seq<char>, Seq<char>>::empty(),
    {
        let r = HashStore { entries: Vec::new() };
        proof {
            assert(entries_view(r.entries@) =~= Seq::<(Seq<char>, Seq<char>)>::empty());
        }
        r
    }

    /// Index of the record for the filename, if present.
    fn find(&self, filename: &String) -> (r: Option<usize>)
        ensures
            match r {
                Some(i) => i < self.entries@.len() && self.entries@[i as int].0@ == filename@,
                None => forall|i: int|
                    0 <= i < self.entries@.len() ==> self.entries@[i].0@ != filename@,
            },
    {
        let mut i: usize = 0;
        while i < self.entries.len()
            invariant
                i <= self.entries@.len(),
                forall|j: int| 0 <= j < i ==> self.entries@[j].0@ != filename@,
            decreases self.entries@.len() - i,
        {
            if self.entries[i].0 == *filename {
                return Some(i);
            }
            i = i + 1;
        }
        None
    }

    /// Point lookup of the stored hash; no side effects.
    pub fn get(&self, filename: &String) -> (r: Option<String>)
        requires
            self.wf(),
        ensures
            match r {
                Some(h) => self@.contains_key(filename@) && h@ == self@[filename@],
                None => !self@.contains_key(filename@),
            },
    {
        let found = self.find(filename);
        proof {
            let mapped = entries_view(self.entries@);
            lemma_map_of_domain(mapped, filename@);
            if let Some(i) = found {
                assert(mapped[i as int] == (self.entries@[i as int].0@, self.entries@[i as int].1@));
                lemma_map_of_index(mapped, i as int);
            } else {
                assert(forall|j: int| 0 <= j < self.entries@.len()
                    ==> mapped[j] == (self.entries@[j].0@, self.entries@[j].1@));
            }
        }
        match found {
            Some(i) => Some(self.entries[i].1.clone()),
            None => None,
        }
    }

    /// Inserts the hash if the filename is absent, else overwrites the
    /// stored hash.
    pub fn upsert(&mut self, filename: &String, hash: &String)
        requires
            old(self).wf(),
        ensures
            final(self).wf(),
            final(self)@ == old(self)@.insert(filename@, hash@),
    {
        match self.find(filename) {
            Some(i) => {
                self.entries.remove(i);
                self.entries.push((filename.clone(), hash.clone()));
                proof {
                    let prev = entries_view(old(self).entries@);
                    assert(prev[i as int] == (old(self).entries@[i as int].0@,
                        old(self).entries@[i as int].1@));
                    assert(entries_view(self.entries@)
                        =~= prev.remove(i as int).push((filename@, hash@)));
                    lemma_map_of_remove(prev, i as int);
                    lemma_keys_unique_remove(prev, i as int);
                    assert forall|j: int|
                        0 <= j < prev.remove(i as int).len()
                            implies prev.remove(i as int)[j].0 != filename@ by {
                        assert(prev.remove(i as int)[j] == if j < i {
                            prev[j]
                        } else {
                            prev[j + 1]
                        });
                    }
                    lemma_map_of_push(prev.remove(i as int), filename@, hash@);
                    assert(map_of(prev).remove(filename@).insert(filename@, hash@)
                        =~= map_of(prev).insert(filename@, hash@));
                }
            },
            None => {
                self.entries.push((filename.clone(), hash.clone()));
                proof {
                    let prev = entries_view(old(self).entries@);
                    assert(forall|j: int| 0 <= j < prev.len()
                        ==> prev[j] == (old(self).entries@[j].0@, old(self).entries@[j].1@));
                    assert(entries_view(self.entries@) =~= prev.push((filename@, hash@)));
                    lemma_map_of_push(prev, filename@, hash@);
                }
            },
        }
    }
}

} // verus!
