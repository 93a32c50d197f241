//! A local cache layer for a nostr status client: a freshness envelope with
//! time-boxed expiry, an embedded key-value store split into named partitions,
//! a structured-record cache for typed records, a content-addressed blob cache
//! for images, and a refresh orchestrator that keeps at most one fetch in
//! flight per key.

pub mod cache;
pub mod codec;
pub mod envelope;
pub mod records;
pub mod refresh;
pub mod store;
pub mod timeline;
pub mod types;
