//! The in-flight registry: the process-wide set of filenames whose
//! background resolution is currently executing.
//!
//! Membership is the concurrency-control primitive of the resolution
//! workflow: `try_acquire` tests membership and inserts in one
//! indivisible step, so two resolutions of the same filename can never
//! both proceed. The embedding application must hold the registry
//! behind a single lock so that each call is atomic with respect to
//! other callers; entries are memory-only and do not survive a restart.

use vstd::prelude::*;

use crate::table::{elems_unique, lemma_elems_unique_remove, lemma_set_of_contains,
    lemma_set_of_push, lemma_set_of_remove, set_of};

verus! {

/// Answer of `try_acquire`: either the caller now holds the only
/// resolution slot for the filename, or another resolution is already
/// running.
#[derive(Clone, Copy, Debug, PartialEq, Eq, Structural)]
pub enum Acquire {
    Acquired,
    AlreadyInFlight,
}

/// Set of filenames currently being resolved.
pub struct InFlightRegistry {
    names: Vec<String>,
}

spec fn names_view(s: Seq<String>) -> Seq<Seq<char>> {
    s.map_values(|n: String| n@)
}

impl View for InFlightRegistry {
    type V = Set<Seq<char>>;

    closed spec fn view(&self) -> Set<Seq<char>> {
        set_of(names_view(self.names@))
    }
}

impl InFlightRegistry {
    /// No filename is registered twice.
    pub closed spec fn wf(&self) -> bool {
        elems_unique(names_view(self.names@))
    }

    /// An empty registry: nothing is in flight.
    pub fn new() -> (r: InFlightRegistry)
        ensures
            r.wf(),
            r@ == Set::<Seq<char>>::empty(),
    {
        let r = InFlightRegistry { names: Vec::new() };
        proof {
            assert(names_view(r.names@) =~= Seq::<Seq<char>>::empty());
        }
        r
    }

    /// Index of the filename among the registered names, if present.
    fn find(&self, filename: &String) -> (r: Option<usize>)
        ensures
            match r {
                Some(i) => i < self.names@.len() && self.names@[i as int]@ == filename@,
                None => forall|i: int| 0 <= i < self.names@.len() ==> self.names@[i]@ != filename@,
            },
    {
        let mut i: usize = 0;
        while i < self.names.len()
            invariant
                i <= self.names@.len(),
                forall|j: int| 0 <= j < i ==> self.names@[j]@ != filename@,
            decreases self.names@.len() - i,
        {
            if self.names[i] == *filename {
                return Some(i);
            }
            i = i + 1;
        }
        None
    }

    /// Whether a resolution for the filename is currently in flight.
    pub fn contains(&self, filename: &String) -> (r: bool)
        ensures
            r == self@.contains(filename@),
    {
        let found = self.find(filename);
        proof {
            let mapped = names_view(self.names@);
            lemma_set_of_contains(mapped, filename@);
            if let Some(i) = found {
                assert(mapped[i as int] == self.names@[i as int]@);
            } else {
                assert(forall|j: int| 0 <= j < self.names@.len() ==> mapped[j] == self.names@[j]@);
            }
        }
        found.is_some()
    }

    /// Tests membership and, if absent, inserts, as one indivisible
    /// step: at most one caller per filename ever sees `Acquired`
    /// before the matching `release`.
    pub fn try_acquire(&mut self, filename: &String) -> (r: Acquire)
        requires
            old(self).wf(),
        ensures
            final(self).wf(),
            old(self)@.contains(filename@) ==> r == Acquire::AlreadyInFlight
                && final(self)@ == old(self)@,
            !old(self)@.contains(filename@) ==> r == Acquire::Acquired
                && final(self)@ == old(self)@.insert(filename@),
    {
        proof {
            let mapped = names_view(self.names@);
            lemma_set_of_contains(mapped, filename@);
            assert(forall|j: int| 0 <= j < self.names@.len() ==> mapped[j] == self.names@[j]@);
        }
        match self.find(filename) {
            Some(i) => {
                proof {
                    assert(names_view(self.names@)[i as int] == self.names@[i as int]@);
                }
                Acquire::AlreadyInFlight
            },
            None => {
                self.names.push(filename.clone());
                proof {
                    let prev = names_view(old(self).names@);
                    assert(forall|j: int| 0 <= j < prev.len() ==> prev[j] != filename@);
                    assert(names_view(self.names@) =~= prev.push(filename@));
                    lemma_set_of_push(prev, filename@);
                }
                Acquire::Acquired
            },
        }
    }

    /// Unconditionally removes the filename; called exactly once on
    /// every exit path of the resolution that acquired it.
    pub fn release(&mut self, filename: &String)
        requires
            old(self).wf(),
        ensures
            final(self).wf(),
            final(self)@ == old(self)@.remove(filename@),
    {
        proof {
            let mapped = names_view(self.names@);
            lemma_set_of_contains(mapped, filename@);
            assert(forall|j: int| 0 <= j < self.names@.len() ==> mapped[j] == self.names@[j]@);
        }
        match self.find(filename) {
            Some(i) => {
                self.names.remove(i);
                proof {
                    let prev = names_view(old(self).names@);
                    assert(names_view(self.names@) =~= prev.remove(i as int));
                    lemma_set_of_remove(prev, i as int);
                    lemma_elems_unique_remove(prev, i as int);
                }
            },
            None => {
                proof {
                    assert(self@ =~= old(self)@.remove(filename@));
                }
            },
        }
    }
}

} // verus!
