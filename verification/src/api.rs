//! Request and response shapes of the manifest engine.
//!
//! These mirror the records exchanged with callers, transport-agnostic.
//! `seed` fields are carried for the surrounding service, which resolves a
//! seed to the caller's [`Account`] before invoking the engine; the engine
//! itself never reads a seed.  Manifest metadata is an opaque payload owned
//! by callers; the engine stores and returns it without interpreting it.

use vstd::prelude::*;

use crate::model::{StorerDataView, UploaderView};
use crate::types::{Account, ChallengeStateValue, Cid, PoolId, ReplicationFactor, Seed};

verus! {

/// The view of a sequence of accounts.
pub open spec fn accounts_view(s: Seq<Account>) -> Seq<Seq<char>> {
    s.map_values(|a: Account| a@)
}

/// One uploader's entry of a manifest: the uploader, the storers holding a
/// slot for its copy, and the open slots left.
#[derive(Debug)]
pub struct UploaderData {
    pub uploader: Account,
    pub storers: Vec<Account>,
    pub replication_available: ReplicationFactor,
}

impl View for UploaderData {
    type V = UploaderView;

    open spec fn view(&self) -> UploaderView {
        UploaderView {
            uploader: self.uploader@,
            storers: accounts_view(self.storers@),
            replication_available: self.replication_available.value as int,
        }
    }
}

/// The view of a sequence of uploader entries.
pub open spec fn uploaders_view(s: Seq<UploaderData>) -> Seq<UploaderView> {
    s.map_values(|u: UploaderData| u@)
}

/// A manifest as returned by `get_all_manifests`.
#[derive(Debug)]
pub struct Manifest {
    pub pool_id: PoolId,
    pub uploaders: Vec<UploaderData>,
    pub manifest_metadata: String,
    pub size: Option<u64>,
}

/// One open-slot projection as returned by `get_available_manifests`.
#[derive(Debug)]
pub struct ManifestAvailable {
    pub pool_id: PoolId,
    pub manifest_metadata: String,
    pub replication_available: ReplicationFactor,
}

/// Per-storer accounting record joined with its challenge state.
#[derive(Debug)]
pub struct ManifestStorageData {
    pub pool_id: PoolId,
    pub account: Account,
    pub cid: Cid,
    pub active_days: i32,
    pub active_cycles: u16,
    pub missed_cycles: u16,
    pub state: ChallengeStateValue,
}

impl View for ManifestStorageData {
    type V = StorerDataView;

    open spec fn view(&self) -> StorerDataView {
        StorerDataView {
            pool_id: self.pool_id.value as int,
            account: self.account@,
            cid: self.cid@,
            active_days: self.active_days as int,
            active_cycles: self.active_cycles as int,
            missed_cycles: self.missed_cycles as int,
            state: self.state,
        }
    }
}

/// The view of an optional pool filter.
pub open spec fn opt_pool_view(p: Option<PoolId>) -> Option<int> {
    match p {
        Some(x) => Some(x.value as int),
        None => None,
    }
}

/// The view of an optional account filter.
pub open spec fn opt_account_view(a: Option<Account>) -> Option<Seq<char>> {
    match a {
        Some(x) => Some(x@),
        None => None,
    }
}

/// A cid list holds `c`.
pub open spec fn cids_contain(v: Seq<Cid>, c: Seq<char>) -> bool {
    exists|k: int| 0 <= k < v.len() && (#[trigger] v[k])@ == c
}

/// A returned [`Manifest`] reports this manifest record (the record's key
/// cid is not part of the response shape).
pub open spec fn manifest_out_matches(o: Manifest, m: crate::model::ManifestView) -> bool {
    &&& o.pool_id.value as int == m.pool_id
    &&& o.manifest_metadata@ == m.manifest_metadata
    &&& uploaders_view(o.uploaders@) == m.uploaders
    &&& o.size is None
}

/// A returned [`ManifestAvailable`] reports this open-slot projection.
pub open spec fn avail_out_matches(o: ManifestAvailable, a: crate::model::AvailView) -> bool {
    &&& o.pool_id.value as int == a.pool_id
    &&& o.manifest_metadata@ == a.manifest_metadata
    &&& o.replication_available.value as int == a.replication_available
}

/// The view of a cid list.
pub open spec fn cids_view(v: Seq<Cid>) -> Seq<Seq<char>> {
    v.map_values(|c: Cid| c@)
}

/// The elements of a batch upload, in request order.
pub open spec fn upload_elems(req: BatchUploadManifestInput) -> Seq<crate::model::UploadElem> {
    Seq::new(
        req.cid@.len(),
        |k: int| crate::model::UploadElem {
            cid: req.cid@[k]@,
            pool_id: req.pool_id@[k].value as int,
            metadata: req.manifest_metadata@[k]@,
            replication_factor: req.replication_factor@[k].value as int,
        },
    )
}

/// The elements of a batch removal, in request order.
pub open spec fn remove_elems(req: BatchRemoveManifestInput) -> Seq<crate::model::RemoveElem> {
    Seq::new(
        req.cid@.len(),
        |k: int| crate::model::RemoveElem {
            cid: req.cid@[k]@,
            pool_id: req.pool_id@[k].value as int,
        },
    )
}

#[derive(Debug)]
pub struct UploadManifestInput {
    pub seed: Seed,
    pub manifest_metadata: String,
    pub cid: Cid,
    pub pool_id: PoolId,
    pub replication_factor: ReplicationFactor,
}

#[derive(Debug)]
pub struct UploadManifestOutput {
    pub uploader: Account,
    pub storers: Vec<Account>,
    pub manifest_metadata: String,
    pub pool_id: PoolId,
}

#[derive(Debug)]
pub struct BatchUploadManifestInput {
    pub seed: Seed,
    pub manifest_metadata: Vec<String>,
    pub cid: Vec<Cid>,
    pub pool_id: Vec<PoolId>,
    pub replication_factor: Vec<ReplicationFactor>,
}

#[derive(Debug)]
pub struct BatchUploadManifestOutput {
    pub uploader: Account,
    pub pool_id: Vec<PoolId>,
    pub manifest_metadata: Vec<String>,
}

#[derive(Debug)]
pub struct UpdateManifestInput {
    pub seed: Seed,
    pub cid: Cid,
    pub pool_id: PoolId,
    pub active_days: i32,
    pub active_cycles: u16,
    pub missed_cycles: u16,
}

#[derive(Debug)]
pub struct UpdatedManifestOutput {
    pub storer: Account,
    pub pool_id: PoolId,
    pub cid: Cid,
    pub active_days: i32,
    pub active_cycles: u16,
    pub missed_cycles: u16,
}

#[derive(Debug)]
pub struct StorageManifestInput {
    pub seed: Seed,
    pub cid: Cid,
    pub pool_id: PoolId,
}

#[derive(Debug)]
pub struct StorageManifestOutput {
    pub storer: Account,
    pub cid: Cid,
    pub pool_id: PoolId,
}

#[derive(Debug)]
pub struct BatchStorageManifestInput {
    pub seed: Seed,
    pub pool_id: PoolId,
    pub cid: Vec<Cid>,
}

#[derive(Debug)]
pub struct BatchStorageManifestOutput {
    pub storer: Account,
    pub pool_id: PoolId,
    pub cid: Vec<Cid>,
}

#[derive(Debug)]
pub struct RemoveManifestInput {
    pub seed: Seed,
    pub cid: Cid,
    pub pool_id: PoolId,
}

#[derive(Debug)]
pub struct RemoveManifestOutput {
    pub uploader: Account,
    pub cid: Cid,
    pub pool_id: PoolId,
}

#[derive(Debug)]
pub struct BatchRemoveManifestInput {
    pub seed: Seed,
    pub pool_id: Vec<PoolId>,
    pub cid: Vec<Cid>,
}

#[derive(Debug)]
pub struct BatchRemoveManifestOutput {
    pub uploader: Account,
    pub pool_id: Vec<PoolId>,
    pub cid: Vec<Cid>,
}

#[derive(Debug)]
pub struct RemoveStoringManifestInput {
    pub seed: Seed,
    pub cid: Cid,
    pub pool_id: PoolId,
}

#[derive(Debug)]
pub struct RemoveStoringManifestOutput {
    pub storer: Option<Account>,
    pub cid: Cid,
    pub pool_id: PoolId,
}

#[derive(Debug)]
pub struct BatchRemoveStoringManifestInput {
    pub seed: Seed,
    pub pool_id: PoolId,
    pub cid: Vec<Cid>,
}

#[derive(Debug)]
pub struct BatchRemoveStoringManifestOutput {
    pub storer: Account,
    pub pool_id: PoolId,
    pub cid: Vec<Cid>,
}

#[derive(Debug)]
pub struct GetAllManifestsInput {
    pub pool_id: Option<PoolId>,
    pub uploader: Option<Account>,
    pub storer: Option<Account>,
}

#[derive(Debug)]
pub struct GetAllManifestsOutput {
    pub manifests: Vec<Manifest>,
}

#[derive(Debug)]
pub struct GetAllManifestsStorerDataInput {
    pub pool_id: Option<PoolId>,
    pub storer: Option<Account>,
}

#[derive(Debug)]
pub struct GetAllManifestsStorerDataOutput {
    pub manifests: Vec<ManifestStorageData>,
}

#[derive(Debug)]
pub struct GetAvailableManifestsInput {
    pub pool_id: Option<PoolId>,
}

#[derive(Debug)]
pub struct GetAvailableManifestsOutput {
    pub manifests: Vec<ManifestAvailable>,
}

#[derive(Debug)]
pub struct VerifyManifestsInput {
    pub seed: Seed,
}

#[derive(Debug)]
pub struct VerifyManifestsOutput {
    pub storer: Account,
    pub valid_manifests: Vec<Cid>,
    pub invalid_manifests: Vec<Cid>,
}

} // verus!
