//! Manifest and replication tracking for a pool-organized decentralized
//! storage network.
//!
//! A *manifest* records that one or more *uploaders* want a content payload
//! (identified by a `Cid`) replicated inside a storage *pool*; *storers*
//! claim and release replication slots against it, and per-storer accounting
//! records track proof-of-activity cycles.  The ledger that durably stores
//! these records is an external collaborator; this crate models its manifest
//! tables as in-memory state and verifies the transition and query rules.

pub mod api;
pub mod laws;
pub mod ledger;
pub mod model;
pub mod types;
