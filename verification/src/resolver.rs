//! The hash resolution workflow: cache lookup, conditional background
//! resolution, and write-through.
//!
//! `resolve` is the synchronous entry point. A hit answers from the
//! store and never touches the network. A miss with background
//! resolution enabled tries to acquire the in-flight slot for the
//! filename; on success it hands the caller a [`FetchJob`], the order
//! to run the bounded fetch elsewhere and report back through
//! [`Resolver::complete_fetch`], which stores the digest on success
//! and releases the slot on every outcome. The caller owes exactly one
//! `complete_fetch` per job it was handed.

use vstd::prelude::*;

use crate::digest::{prefix_digest, prefix_hash};
use crate::registry::{Acquire, InFlightRegistry};
use crate::store::HashStore;

verus! {

/// Ghost model of the resolver: the stored hashes and the filenames
/// whose resolution is in flight.
pub struct ResolverModel {
    pub hashes: Map<Seq<char>, Seq<char>>,
    pub in_flight: Set<Seq<char>>,
}

/// Ghost outcome of one `resolve` call.
pub enum ResolutionView {
    Found(Seq<char>),
    NotFoundYet { fetch_started: bool },
}

/// A background fetch the caller must run: retrieve a bounded prefix
/// of `link` and report the outcome through `complete_fetch` for
/// `filename`.
pub struct FetchJob {
    pub filename: String,
    pub link: String,
}

/// Outcome of one `resolve` call: the cached hash, or not-found
/// together with the background work the caller now owes, if any.
pub enum Resolution {
    Found(String),
    NotFoundYet { fetch: Option<FetchJob> },
}

impl View for Resolution {
    type V = ResolutionView;

    open spec fn view(&self) -> ResolutionView {
        match self {
            Resolution::Found(h) => ResolutionView::Found(h@),
            Resolution::NotFoundYet { fetch } => ResolutionView::NotFoundYet {
                fetch_started: fetch is Some,
            },
        }
    }
}

/// One `resolve` step over the ghost model: the model afterwards and
/// the outcome the caller sees.
pub open spec fn resolve_transition(m: ResolverModel, filename: Seq<char>, trigger: bool) -> (
    ResolverModel,
    ResolutionView,
) {
    if m.hashes.contains_key(filename) {
        (m, ResolutionView::Found(m.hashes[filename]))
    } else if trigger && !m.in_flight.contains(filename) {
        (
            ResolverModel { hashes: m.hashes, in_flight: m.in_flight.insert(filename) },
            ResolutionView::NotFoundYet { fetch_started: true },
        )
    } else {
        (m, ResolutionView::NotFoundYet { fetch_started: false })
    }
}

/// One completion step over the ghost model: a fetched body stores its
/// bounded-prefix digest; any outcome releases the in-flight slot.
pub open spec fn completion_transition(
    m: ResolverModel,
    filename: Seq<char>,
    body: Option<Seq<u8>>,
) -> ResolverModel {
    match body {
        Some(bytes) => ResolverModel {
            hashes: m.hashes.insert(filename, prefix_digest(bytes)),
            in_flight: m.in_flight.remove(filename),
        },
        None => ResolverModel { hashes: m.hashes, in_flight: m.in_flight.remove(filename) },
    }
}

/// The hash resolution workflow over its two collaborators: the hash
/// store and the in-flight registry.
pub struct Resolver {
    store: HashStore,
    registry: InFlightRegistry,
}

impl View for Resolver {
    type V = ResolverModel;

    closed spec fn view(&self) -> ResolverModel {
        ResolverModel { hashes: self.store@, in_flight: self.registry@ }
    }
}

impl Resolver {
    pub closed spec fn wf(&self) -> bool {
        self.store.wf() && self.registry.wf()
    }

    /// A resolver over an empty store with nothing in flight.
    pub fn new() -> (r: Resolver)
        ensures
            r.wf(),
            r@.hashes == Map::<Seq<char>, Seq<char>>::empty(),
            r@.in_flight == Set::<Seq<char>>::empty(),
    {
        Resolver { store: HashStore::new(), registry: InFlightRegistry::new() }
    }

    /// Restores one record of the durable table, as the embedding
    /// application replays its journal at startup.
    pub fn restore(&mut self, filename: &String, hash: &String)
        requires
            old(self).wf(),
        ensures
            final(self).wf(),
            final(self)@.hashes == old(self)@.hashes.insert(filename@, hash@),
            final(self)@.in_flight == old(self)@.in_flight,
    {
        self.store.upsert(filename, hash);
    }

    /// Looks the filename up; on a hit returns the stored hash without
    /// touching anything else. On a miss with `trigger_background` set,
    /// starts a background resolution unless one is already in flight:
    /// at most one fetch job per filename is ever outstanding.
    pub fn resolve(&mut self, filename: &String, link: &String, trigger_background: bool) -> (r:
        Resolution)
        requires
            old(self).wf(),
        ensures
            final(self).wf(),
            (final(self)@, r@) == resolve_transition(old(self)@, filename@, trigger_background),
            r matches Resolution::NotFoundYet { fetch: Some(job) } ==> job.filename@ == filename@
                && job.link@ == link@,
    {
        if let Some(hash) = self.store.get(filename) {
            return Resolution::Found(hash);
        }
        if trigger_background {
            match self.registry.try_acquire(filename) {
                Acquire::Acquired => Resolution::NotFoundYet {
                    fetch: Some(FetchJob { filename: filename.clone(), link: link.clone() }),
                },
                Acquire::AlreadyInFlight => Resolution::NotFoundYet { fetch: None },
            }
        } else {
            Resolution::NotFoundYet { fetch: None }
        }
    }

    /// Finishes a background resolution: a fetched body is reduced to
    /// its bounded-prefix digest and written through to the store; a
    /// failed fetch writes nothing. Either way the in-flight slot for
    /// the filename is released, so a later call may retry.
    pub fn complete_fetch(&mut self, filename: &String, body: Option<&Vec<u8>>) -> (r: Option<
        String>)
        requires
            old(self).wf(),
        ensures
            final(self).wf(),
            final(self)@ == completion_transition(
                old(self)@,
                filename@,
                match body {
                    Some(b) => Some(b@),
                    None => None,
                },
            ),
            match r {
                Some(h) => body matches Some(b) && h@ == prefix_digest(b@),
                None => body is None,
            },
    {
        match body {
            Some(bytes) => {
                let hash = prefix_hash(bytes.as_slice());
                self.store.upsert(filename, &hash);
                self.registry.release(filename);
                Some(hash)
            },
            None => {
                self.registry.release(filename);
                None
            },
        }
    }
}

} // verus!
