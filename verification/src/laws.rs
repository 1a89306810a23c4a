//! The workflow guarantees, stated and proved over the ghost
//! transitions that the executable contracts are pinned to.

use vstd::prelude::*;

use crate::resolver::{completion_transition, resolve_transition, ResolutionView, ResolverModel};
use crate::visits::visit_transition;

verus! {

/// Once a hash is stored for a filename, `resolve` answers it from the
/// store alone: any two later calls, whatever their background flags,
/// return the same stored hash, change nothing, and start no fetch.
pub proof fn lemma_resolve_idempotent(m: ResolverModel, filename: Seq<char>, t1: bool, t2: bool)
    requires
        m.hashes.contains_key(filename),
    ensures
        resolve_transition(m, filename, t1).0 == m,
        resolve_transition(m, filename, t1).1 == ResolutionView::Found(m.hashes[filename]),
        resolve_transition(resolve_transition(m, filename, t1).0, filename, t2).1
            == resolve_transition(m, filename, t1).1,
{
}

/// The number of fetches that one resolution outcome starts.
pub open spec fn launch_count(r: ResolutionView) -> nat {
    match r {
        ResolutionView::NotFoundYet { fetch_started } => if fetch_started {
            1nat
        } else {
            0nat
        },
        ResolutionView::Found(_) => 0nat,
    }
}

/// The model after `n` back-to-back background-triggering `resolve`
/// calls for one filename, paired with how many fetches they started.
pub open spec fn resolve_burst(m: ResolverModel, filename: Seq<char>, n: nat) -> (
    ResolverModel,
    nat,
)
    decreases n,
{
    if n == 0 {
        (m, 0nat)
    } else {
        let prev = resolve_burst(m, filename, (n - 1) as nat);
        let step = resolve_transition(prev.0, filename, true);
        (step.0, prev.1 + launch_count(step.1))
    }
}

/// Deduplication: when a filename is unresolved and not in flight,
/// any number of background-triggering `resolve` calls for it, in any
/// interleaving the registry serializes, start exactly one fetch; the
/// filename is in flight afterwards.
pub proof fn lemma_resolve_dedup(m: ResolverModel, filename: Seq<char>, n: nat)
    requires
        !m.hashes.contains_key(filename),
        !m.in_flight.contains(filename),
        n >= 1,
    ensures
        resolve_burst(m, filename, n).1 == 1,
        resolve_burst(m, filename, n).0 == (ResolverModel {
            hashes: m.hashes,
            in_flight: m.in_flight.insert(filename),
        }),
    decreases n,
{
    if n == 1 {
        assert(resolve_burst(m, filename, 0nat) == (m, 0nat));
    } else {
        lemma_resolve_dedup(m, filename, (n - 1) as nat);
    }
}

/// A failed fetch is isolated: it writes no record for the filename
/// and leaves the registry without it, so a later call may trigger a
/// fresh resolution.
pub proof fn lemma_failure_isolated(m: ResolverModel, filename: Seq<char>)
    ensures
        completion_transition(m, filename, None).hashes == m.hashes,
        !completion_transition(m, filename, None).in_flight.contains(filename),
        !m.hashes.contains_key(filename) ==> resolve_transition(
            completion_transition(m, filename, None),
            filename,
            true,
        ).1 == (ResolutionView::NotFoundYet { fetch_started: true }),
{
}

/// The counter map after `n` back-to-back visits to one filename.
pub open spec fn visit_burst(visits: Map<Seq<char>, int>, filename: Seq<char>, n: nat) -> Map<
    Seq<char>,
    int,
>
    decreases n,
{
    if n == 0 {
        visits
    } else {
        visit_transition(visit_burst(visits, filename, (n - 1) as nat), filename).0
    }
}

/// No lost update: `n` visits to a filename whose count stands at `c`
/// leave the count at exactly `c + n`, and the last visit reports it.
pub proof fn lemma_visit_counter_exact(visits: Map<Seq<char>, int>, filename: Seq<char>, n: nat)
    requires
        visits.contains_key(filename),
    ensures
        visit_burst(visits, filename, n).contains_key(filename),
        visit_burst(visits, filename, n)[filename] == visits[filename] + n,
        n >= 1 ==> visit_transition(visit_burst(visits, filename, (n - 1) as nat), filename).1
            == visits[filename] + n,
    decreases n,
{
    if n >= 1 {
        lemma_visit_counter_exact(visits, filename, (n - 1) as nat);
    }
}

/// Starting from no record, `n` visits leave the count at exactly `n`.
pub proof fn lemma_visit_counter_from_absent(
    visits: Map<Seq<char>, int>,
    filename: Seq<char>,
    n: nat,
)
    requires
        !visits.contains_key(filename),
        n >= 1,
    ensures
        visit_burst(visits, filename, n).contains_key(filename),
        visit_burst(visits, filename, n)[filename] == n,
    decreases n,
{
    if n == 1 {
        assert(visit_burst(visits, filename, 0nat) == visits);
    } else {
        lemma_visit_counter_from_absent(visits, filename, (n - 1) as nat);
    }
}

} // verus!
