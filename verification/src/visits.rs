//! The visit counter store and the visit recording workflow: a durable
//! mapping from filename to a monotonic visit count.
//!
//! `increment_and_get` is insert-or-increment in one step, never a
//! separate read followed by a write, so concurrent visits to the same
//! filename lose no update when the embedding application serializes
//! calls through the store's lock.

use vstd::prelude::*;

use crate::store::StoreError;
use crate::table::{keys_unique, lemma_keys_unique_remove, lemma_map_of_domain,
    lemma_map_of_index, lemma_map_of_push, lemma_map_of_remove, map_of};

verus! {

/// Mapping from filename to the number of recorded visits; a record is
/// created at one on the first visit and incremented on each later one.
pub struct VisitStore {
    entries: Vec<(String, i64)>,
}

spec fn counts_view(s: Seq<(String, i64)>) -> Seq<(Seq<char>, int)> {
    s.map_values(|e: (String, i64)| (e.0@, e.1 as int))
}

impl View for VisitStore {
    type V = Map<Seq<char>, int>;

    closed spec fn view(&self) -> Map<Seq<char>, int> {
        map_of(counts_view(self.entries@))
    }
}

impl VisitStore {
    /// No filename owns two records, and every count is at least one.
    pub closed spec fn wf(&self) -> bool {
        &&& keys_unique(counts_view(self.entries@))
        &&& forall|i: int|
            0 <= i < self.entries@.len() ==> #[trigger] self.entries@[i].1 >= 1
    }

    /// An empty counter store.
    pub fn new() -> (r: VisitStore)
        ensures
            r.wf(),
            r@ == Map::<Seq<char>, int>::empty(),
    {
        let r = VisitStore { entries: Vec::new() };
        proof {
            assert(counts_view(r.entries@) =~= Seq::<(Seq<char>, int)>::empty());
        }
        r
    }

    /// Every recorded count is at least one and fits the machine bound.
    pub proof fn lemma_counts_in_range(&self)
        requires
            self.wf(),
        ensures
            forall|k: Seq<char>| #[trigger] self@.contains_key(k) ==> 1 <= self@[k] <= i64::MAX,
    {
        assert forall|k: Seq<char>| #[trigger] self@.contains_key(k)
            implies 1 <= self@[k] <= i64::MAX by {
            let mapped = counts_view(self.entries@);
            lemma_map_of_domain(mapped, k);
            let i = choose|i: int| 0 <= i < mapped.len() && mapped[i].0 == k;
            assert(mapped[i] == (self.entries@[i].0@, self.entries@[i].1 as int));
            lemma_map_of_index(mapped, i);
        }
    }

    /// Index of the record for the filename, if present.
    fn find(&self, filename: &String) -> (r: Option<usize>)
        ensures
            match r {
                Some(i) => i < self.entries@.len() && self.entries@[i as int].0@ == filename@,
                None => forall|i: int|
                    0 <= i < self.entries@.len() ==> self.entries@[i].0@ != filename@,
            },
    {
        let mut i: usize = 0;
        while i < self.entries.len()
            invariant
                i <= self.entries@.len(),
                forall|j: int| 0 <= j < i ==> self.entries@[j].0@ != filename@,
            decreases self.entries@.len() - i,
        {
            if self.entries[i].0 == *filename {
                return Some(i);
            }
            i = i + 1;
        }
        None
    }

    /// Restores one record of the durable table, as the embedding
    /// application replays its journal at startup.
    pub fn restore(&mut self, filename: &String, count: i64)
        requires
            old(self).wf(),
            count >= 1,
        ensures
            final(self).wf(),
            final(self)@ == old(self)@.insert(filename@, count as int),
    {
        match self.find(filename) {
            Some(i) => {
                self.entries.remove(i);
                self.entries.push((filename.clone(), count));
                proof {
                    let prev = counts_view(old(self).entries@);
                    assert(prev[i as int] == (old(self).entries@[i as int].0@,
                        old(self).entries@[i as int].1 as int));
                    assert(counts_view(self.entries@)
                        =~= prev.remove(i as int).push((filename@, count as int)));
                    lemma_map_of_remove(prev, i as int);
                    lemma_keys_unique_remove(prev, i as int);
                    assert forall|j: int|
                        0 <= j < prev.remove(i as int).len()
                            implies prev.remove(i as int)[j].0 != filename@ by {
                        assert(prev.remove(i as int)[j] == if j < i {
                            prev[j]
                        } else {
                            prev[j + 1]
                        });
                    }
                    lemma_map_of_push(prev.remove(i as int), filename@, count as int);
                    assert(map_of(prev).remove(filename@).insert(filename@, count as int)
                        =~= map_of(prev).insert(filename@, count as int));
                }
            },
            None => {
                self.entries.push((filename.clone(), count));
                proof {
                    let prev = counts_view(old(self).entries@);
                    assert(forall|j: int| 0 <= j < prev.len()
                        ==> prev[j] == (old(self).entries@[j].0@, old(self).entries@[j].1 as int));
                    assert(counts_view(self.entries@) =~= prev.push((filename@, count as int)));
                    lemma_map_of_push(prev, filename@, count as int);
                }
            },
        }
    }

    /// If the filename is absent, creates its record with count one and
    /// returns one; otherwise increments the stored count and returns
    /// the new value, in one step from the caller's point of view. The
    /// one write the store rejects is a count that would outgrow its
    /// machine bound.
    pub fn increment_and_get(&mut self, filename: &String) -> (r: Result<i64, StoreError>)
        requires
            old(self).wf(),
        ensures
            final(self).wf(),
            !old(self)@.contains_key(filename@) ==> r == Ok::<i64, StoreError>(1i64)
                && final(self)@ == old(self)@.insert(filename@, 1),
            old(self)@.contains_key(filename@) && old(self)@[filename@] < i64::MAX
                ==> r == Ok::<i64, StoreError>((old(self)@[filename@] + 1) as i64)
                    && final(self)@ == old(self)@.insert(filename@, old(self)@[filename@] + 1),
            old(self)@.contains_key(filename@) && old(self)@[filename@] == i64::MAX
                ==> r == Err::<i64, StoreError>(StoreError::CounterOverflow)
                    && final(self)@ == old(self)@,
    {
        match self.find(filename) {
            Some(i) => {
                proof {
                    let mapped = counts_view(self.entries@);
                    assert(mapped[i as int] == (self.entries@[i as int].0@,
                        self.entries@[i as int].1 as int));
                    lemma_map_of_index(mapped, i as int);
                }
                let count = self.entries[i].1;
                if count == i64::MAX {
                    return Err(StoreError::CounterOverflow);
                }
                let next = count + 1;
                self.entries.remove(i);
                self.entries.push((filename.clone(), next));
                proof {
                    let prev = counts_view(old(self).entries@);
                    assert(counts_view(self.entries@)
                        =~= prev.remove(i as int).push((filename@, next as int)));
                    lemma_map_of_remove(prev, i as int);
                    lemma_keys_unique_remove(prev, i as int);
                    assert forall|j: int|
                        0 <= j < prev.remove(i as int).len()
                            implies prev.remove(i as int)[j].0 != filename@ by {
                        assert(prev.remove(i as int)[j] == if j < i {
                            prev[j]
                        } else {
                            prev[j + 1]
                        });
                    }
                    lemma_map_of_push(prev.remove(i as int), filename@, next as int);
                    assert(map_of(prev).remove(filename@).insert(filename@, next as int)
                        =~= map_of(prev).insert(filename@, next as int));
                }
                Ok(next)
            },
            None => {
                proof {
                    let mapped = counts_view(self.entries@);
                    lemma_map_of_domain(mapped, filename@);
                    assert(forall|j: int| 0 <= j < self.entries@.len()
                        ==> mapped[j] == (self.entries@[j].0@, self.entries@[j].1 as int));
                }
                self.entries.push((filename.clone(), 1));
                proof {
                    let prev = counts_view(old(self).entries@);
                    assert(counts_view(self.entries@) =~= prev.push((filename@, 1int)));
                    lemma_map_of_push(prev, filename@, 1int);
                }
                Ok(1)
            },
        }
    }
}

/// One visit step over the counter's ghost map: the count the caller
/// sees and the map after the visit.
pub open spec fn visit_transition(visits: Map<Seq<char>, int>, filename: Seq<char>) -> (
    Map<Seq<char>, int>,
    int,
) {
    let n = if visits.contains_key(filename) {
        visits[filename] + 1
    } else {
        1
    };
    (visits.insert(filename, n), n)
}

/// Records one visit for the filename and returns the updated count;
/// when the store rejects the write, returns the sentinel `-1` and
/// leaves the store unchanged, since visit counting is best-effort
/// telemetry.
pub fn record_visit(store: &mut VisitStore, filename: &String) -> (r: i64)
    requires
        old(store).wf(),
    ensures
        final(store).wf(),
        old(store)@.contains_key(filename@) && old(store)@[filename@] == i64::MAX ==> r == -1
            && final(store)@ == old(store)@,
        !(old(store)@.contains_key(filename@) && old(store)@[filename@] == i64::MAX) ==> (final(store)@, r as int) == visit_transition(old(store)@, filename@),
{
    proof {
        store.lemma_counts_in_range();
    }
    match store.increment_and_get(filename) {
        Ok(count) => count,
        Err(_) => -1,
    }
}

} // verus!
