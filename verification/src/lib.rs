//! Content-fingerprinting cache for remote files.
//!
//! The library resolves a filename to a content hash computed over the
//! leading bytes of a remote resource, remembers the result in an
//! upsert-only table, deduplicates concurrent resolutions of the same
//! filename through an in-flight registry, and keeps a monotonic visit
//! counter keyed by the same filenames.

pub mod digest;
pub mod table;
pub mod registry;
pub mod store;
pub mod visits;
pub mod resolver;
pub mod laws;
pub mod api;
