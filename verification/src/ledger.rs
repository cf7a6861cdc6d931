//! The manifest engine: an in-memory model of the ledger's manifest tables
//! and the verified transition and query rules over them.
//!
//! The surrounding service keeps the durable copy of this state on the
//! external ledger; every mutation here corresponds to one ledger
//! transaction, so a failed operation leaves the state untouched.

use vstd::prelude::*;

use crate::api::{
    accounts_view, avail_out_matches, cids_contain, cids_view, manifest_out_matches,
    opt_account_view, opt_pool_view, remove_elems, upload_elems, uploaders_view,
    BatchRemoveManifestInput, BatchRemoveManifestOutput, BatchRemoveStoringManifestInput,
    BatchRemoveStoringManifestOutput, BatchStorageManifestInput, BatchStorageManifestOutput,
    BatchUploadManifestInput, BatchUploadManifestOutput, GetAllManifestsInput,
    GetAllManifestsOutput,
    GetAllManifestsStorerDataInput, GetAllManifestsStorerDataOutput, GetAvailableManifestsInput,
    GetAvailableManifestsOutput, Manifest, ManifestAvailable, RemoveManifestInput,
    RemoveManifestOutput, RemoveStoringManifestInput, RemoveStoringManifestOutput,
    StorageManifestInput, StorageManifestOutput, UpdateManifestInput, UpdatedManifestOutput,
    UploadManifestInput, UploadManifestOutput, UploaderData, VerifyManifestsOutput,
};
use crate::model::{
    available_entries, available_entries_upto, batch_claim_ok_upto, batch_claim_upto,
    batch_release_ok_upto, batch_release_upto, batch_remove_ok_upto, batch_remove_upto,
    batch_upload_ok_upto, batch_upload_upto, claim_post, claim_result, clamped_add,
    filter_manifests, filter_manifests_upto, filter_storer_data, filter_storer_data_upto,
    find_holder, find_holder_from, find_manifest, find_manifest_from, find_storer_data,
    find_storer_data_from, find_uploader, find_uploader_from, first_open, first_open_from,
    index_of_storer, index_of_storer_from, lemma_batch_claim_ok_monotone,
    lemma_batch_release_ok_monotone, lemma_batch_remove_ok_monotone,
    lemma_batch_upload_ok_monotone, lemma_claim_preserves_wf, lemma_find_holder_from_props,
    lemma_find_manifest_from_props, lemma_find_storer_data_from_props,
    lemma_find_uploader_from_props, lemma_first_open_from_props, lemma_index_of_storer_from_props,
    lemma_release_preserves_wf, lemma_remove_preserves_wf, lemma_update_preserves_wf,
    lemma_upload_preserves_wf, live_claim, live_claim_upto, manifest_avails, manifest_avails_upto,
    manifest_matches, manifest_wf, new_uploader, opt_as_int, pool_matches, prior_active_cycles,
    prior_missed_cycles, recorded_claim, recorded_claim_upto, release_found, release_post,
    remove_ok, remove_post, storer_data_matches, store_wf, update_ok, update_post, upload_ok,
    upload_post, uploader_claim, uploader_release, uploader_wf, ManifestView, StoreView,
    StorerDataView, UploaderView,
};
use crate::types::{ChallengeStateValue, ReplicationFactor};
use crate::types::{Account, Cid, FulaError, PoolId};

verus! {

/// One stored manifest record, keyed by `(pool_id, cid)`.
pub struct ManifestRecord {
    pub pool_id: PoolId,
    pub cid: Cid,
    pub manifest_metadata: String,
    pub uploaders: Vec<UploaderData>,
}

impl View for ManifestRecord {
    type V = ManifestView;

    open spec fn view(&self) -> ManifestView {
        ManifestView {
            pool_id: self.pool_id.value as int,
            cid: self.cid@,
            manifest_metadata: self.manifest_metadata@,
            uploaders: uploaders_view(self.uploaders@),
        }
    }
}

/// The manifest engine's state: the manifest table and the per-storer
/// accounting table.
pub struct ManifestLedger {
    pub manifests: Vec<ManifestRecord>,
    pub storer_data: Vec<crate::api::ManifestStorageData>,
}

impl View for ManifestLedger {
    type V = StoreView;

    open spec fn view(&self) -> StoreView {
        StoreView {
            manifests: self.manifests@.map_values(|m: ManifestRecord| m@),
            storer_data: self.storer_data@.map_values(|d: crate::api::ManifestStorageData| d@),
        }
    }
}

/// First index of the uploader entry owned by `account`.
fn find_uploader_idx(us: &Vec<UploaderData>, account: &Account) -> (r: Option<usize>)
    ensures
        opt_as_int(r) == find_uploader(uploaders_view(us@), account@),
{
    let n = us.len();
    let mut i: usize = 0;
    while i < n
        invariant
            n == us.len(),
            i <= n,
            find_uploader(uploaders_view(us@), account@)
                == find_uploader_from(uploaders_view(us@), account@, i as int),
        decreases n - i,
    {
        if us[i].uploader.value == account.value {
            return Some(i);
        }
        i = i + 1;
    }
    None
}

/// First index of `storer` in a storer list.
fn index_of_storer_idx(ss: &Vec<Account>, storer: &Account) -> (r: Option<usize>)
    ensures
        opt_as_int(r) == index_of_storer(accounts_view(ss@), storer@),
{
    let n = ss.len();
    let mut i: usize = 0;
    while i < n
        invariant
            n == ss.len(),
            i <= n,
            index_of_storer(accounts_view(ss@), storer@)
                == index_of_storer_from(accounts_view(ss@), storer@, i as int),
        decreases n - i,
    {
        if ss[i].value == storer.value {
            return Some(i);
        }
        i = i + 1;
    }
    None
}

/// Whether a storer list holds `storer`.
fn storers_contain(ss: &Vec<Account>, storer: &Account) -> (r: bool)
    ensures
        r == accounts_view(ss@).contains(storer@),
{
    let found = index_of_storer_idx(ss, storer);
    proof {
        lemma_index_of_storer_from_props(accounts_view(ss@), storer@, 0);
    }
    match found {
        Some(_) => true,
        None => {
            proof {
                assert forall|q: int| 0 <= q < accounts_view(ss@).len()
                    implies accounts_view(ss@)[q] != storer@ by {}
            }
            false
        }
    }
}

/// First index of the uploader entry whose storer set holds `storer`.
fn find_holder_idx(us: &Vec<UploaderData>, storer: &Account) -> (r: Option<usize>)
    ensures
        opt_as_int(r) == find_holder(uploaders_view(us@), storer@),
{
    let n = us.len();
    let mut i: usize = 0;
    while i < n
        invariant
            n == us.len(),
            i <= n,
            find_holder(uploaders_view(us@), storer@)
                == find_holder_from(uploaders_view(us@), storer@, i as int),
        decreases n - i,
    {
        if storers_contain(&us[i].storers, storer) {
            return Some(i);
        }
        i = i + 1;
    }
    None
}

/// First index of an uploader entry with an open slot.
fn first_open_idx(us: &Vec<UploaderData>) -> (r: Option<usize>)
    ensures
        opt_as_int(r) == first_open(uploaders_view(us@)),
{
    let n = us.len();
    let mut i: usize = 0;
    while i < n
        invariant
            n == us.len(),
            i <= n,
            first_open(uploaders_view(us@)) == first_open_from(uploaders_view(us@), i as int),
        decreases n - i,
    {
        if us[i].replication_available.value > 0 {
            return Some(i);
        }
        i = i + 1;
    }
    None
}

/// Copies a storer list.
fn clone_accounts(v: &Vec<Account>) -> (r: Vec<Account>)
    ensures
        accounts_view(r@) == accounts_view(v@),
{
    let n = v.len();
    let mut r: Vec<Account> = Vec::new();
    let mut i: usize = 0;
    while i < n
        invariant
            n == v.len(),
            i <= n,
            r@.len() == i as int,
            forall|q: int| 0 <= q < i ==> (#[trigger] r@[q])@ == v@[q]@,
        decreases n - i,
    {
        r.push(v[i].clone());
        i = i + 1;
    }
    proof {
        assert(accounts_view(r@) =~= accounts_view(v@));
    }
    r
}

/// Copies one uploader entry.
fn clone_uploader(u: &UploaderData) -> (r: UploaderData)
    ensures
        r@ == u@,
{
    let r = UploaderData {
        uploader: u.uploader.clone(),
        storers: clone_accounts(&u.storers),
        replication_available: u.replication_available,
    };
    proof {
        assert(r@ =~= u@);
    }
    r
}

/// Copies a manifest's uploader entries.
fn clone_uploaders(us: &Vec<UploaderData>) -> (r: Vec<UploaderData>)
    ensures
        uploaders_view(r@) == uploaders_view(us@),
{
    let n = us.len();
    let mut r: Vec<UploaderData> = Vec::new();
    let mut i: usize = 0;
    while i < n
        invariant
            n == us.len(),
            i <= n,
            r@.len() == i as int,
            forall|q: int| 0 <= q < i ==> (#[trigger] r@[q])@ == us@[q]@,
        decreases n - i,
    {
        r.push(clone_uploader(&us[i]));
        i = i + 1;
    }
    proof {
        assert(uploaders_view(r@) =~= uploaders_view(us@));
    }
    r
}

/// Copies one accounting record.
fn clone_storer_data(d: &crate::api::ManifestStorageData) -> (r: crate::api::ManifestStorageData)
    ensures
        r@ == d@,
{
    crate::api::ManifestStorageData {
        pool_id: d.pool_id,
        account: d.account.clone(),
        cid: d.cid.clone(),
        active_days: d.active_days,
        active_cycles: d.active_cycles,
        missed_cycles: d.missed_cycles,
        state: d.state,
    }
}

/// Whether a cid list holds `c`.
fn cid_vec_contains(v: &Vec<Cid>, c: &Cid) -> (r: bool)
    ensures
        r == cids_contain(v@, c@),
{
    let n = v.len();
    let mut i: usize = 0;
    while i < n
        invariant
            n == v.len(),
            i <= n,
            forall|q: int| 0 <= q < i ==> (#[trigger] v@[q])@ != c@,
        decreases n - i,
    {
        if v[i].value == c.value {
            proof {
                assert((v@[i as int])@ == c@);
            }
            return true;
        }
        i = i + 1;
    }
    false
}

/// Copies one manifest record.
fn clone_manifest_record(m: &ManifestRecord) -> (r: ManifestRecord)
    ensures
        r@ == m@,
{
    let r = ManifestRecord {
        pool_id: m.pool_id,
        cid: m.cid.clone(),
        manifest_metadata: m.manifest_metadata.clone(),
        uploaders: clone_uploaders(&m.uploaders),
    };
    proof {
        assert(r@ =~= m@);
    }
    r
}

/// Copies a pool list.
fn clone_pools(v: &Vec<PoolId>) -> (r: Vec<PoolId>)
    ensures
        r@ == v@,
{
    let n = v.len();
    let mut r: Vec<PoolId> = Vec::new();
    let mut i: usize = 0;
    while i < n
        invariant
            n == v.len(),
            i <= n,
            r@.len() == i as int,
            forall|q: int| 0 <= q < i ==> #[trigger] r@[q] == v@[q],
        decreases n - i,
    {
        r.push(v[i]);
        i = i + 1;
    }
    proof {
        assert(r@ =~= v@);
    }
    r
}

/// Copies a metadata list.
fn clone_strings(v: &Vec<String>) -> (r: Vec<String>)
    ensures
        r@ == v@,
{
    let n = v.len();
    let mut r: Vec<String> = Vec::new();
    let mut i: usize = 0;
    while i < n
        invariant
            n == v.len(),
            i <= n,
            r@.len() == i as int,
            forall|q: int| 0 <= q < i ==> #[trigger] r@[q] == v@[q],
        decreases n - i,
    {
        r.push(v[i].clone());
        i = i + 1;
    }
    proof {
        assert(r@ =~= v@);
    }
    r
}

/// Copies a cid list.
fn clone_cids(v: &Vec<Cid>) -> (r: Vec<Cid>)
    ensures
        cids_view(r@) == cids_view(v@),
{
    let n = v.len();
    let mut r: Vec<Cid> = Vec::new();
    let mut i: usize = 0;
    while i < n
        invariant
            n == v.len(),
            i <= n,
            r@.len() == i as int,
            forall|q: int| 0 <= q < i ==> (#[trigger] r@[q])@ == v@[q]@,
        decreases n - i,
    {
        r.push(v[i].clone());
        i = i + 1;
    }
    proof {
        assert(cids_view(r@) =~= cids_view(v@));
    }
    r
}

/// Adds two cycle counters, saturating at the top of the range.
fn sat_add_u16(a: u16, d: u16) -> (r: u16)
    ensures
        r as int == clamped_add(a as int, d as int),
{
    if a <= u16::MAX - d {
        a + d
    } else {
        u16::MAX
    }
}

impl ManifestLedger {
    /// The state is well formed: manifest keys unique, every manifest has an
    /// uploader, claims are unique, accounting keys unique.
    pub open spec fn wf(&self) -> bool {
        store_wf(self@)
    }

    /// An empty ledger model.
    pub fn new() -> (r: Self)
        ensures
            r.wf(),
            r@.manifests.len() == 0,
            r@.storer_data.len() == 0,
    {
        let r = ManifestLedger { manifests: Vec::new(), storer_data: Vec::new() };
        proof {
            assert(r@.manifests =~= Seq::<ManifestView>::empty());
            assert(r@.storer_data =~= Seq::<StorerDataView>::empty());
        }
        r
    }

    /// First index of the manifest keyed `(pool_id, cid)`.
    fn find_manifest_idx(&self, pool_id: PoolId, cid: &Cid) -> (r: Option<usize>)
        ensures
            opt_as_int(r) == find_manifest(self@.manifests, pool_id.value as int, cid@),
    {
        let n = self.manifests.len();
        let mut i: usize = 0;
        while i < n
            invariant
                n == self.manifests.len(),
                i <= n,
                find_manifest(self@.manifests, pool_id.value as int, cid@)
                    == find_manifest_from(self@.manifests, pool_id.value as int, cid@, i as int),
            decreases n - i,
        {
            let rec = &self.manifests[i];
            if rec.pool_id.value == pool_id.value && rec.cid.value == cid.value {
                return Some(i);
            }
            i = i + 1;
        }
        None
    }

    /// Registers one more uploader copy of a manifest.  Fails with
    /// `DuplicateUpload` when the `(pool_id, cid, uploader)` triple is
    /// already registered; re-uploading is not idempotent.
    pub fn upload_manifest(&mut self, uploader: &Account, req: &UploadManifestInput) -> (r: Result<UploadManifestOutput, FulaError>)
        requires
            old(self).wf(),
        ensures
            final(self).wf(),
            match r {
                Ok(out) => {
                    &&& upload_ok(old(self)@, uploader@, req.cid@, req.pool_id.value as int)
                    &&& final(self)@ == upload_post(
                        old(self)@,
                        uploader@,
                        req.cid@,
                        req.pool_id.value as int,
                        req.manifest_metadata@,
                        req.replication_factor.value as int,
                    )
                    &&& out.uploader@ == uploader@
                    &&& out.storers@.len() == 0
                    &&& out.manifest_metadata@ == req.manifest_metadata@
                    &&& out.pool_id == req.pool_id
                },
                Err(e) => {
                    &&& e == FulaError::DuplicateUpload
                    &&& !upload_ok(old(self)@, uploader@, req.cid@, req.pool_id.value as int)
                    &&& final(self)@ == old(self)@
                },
            },
    {
        let ghost pool = req.pool_id.value as int;
        let ghost s0 = self@;
        let found = self.find_manifest_idx(req.pool_id, &req.cid);
        match found {
            Some(i) => {
                proof {
                    lemma_find_manifest_from_props(s0.manifests, pool, req.cid@, 0);
                }
                let mut rec = self.manifests.remove(i);
                let dup = find_uploader_idx(&rec.uploaders, uploader);
                if dup.is_some() {
                    self.manifests.insert(i, rec);
                    proof {
                        assert(self@.manifests =~= s0.manifests);
                        assert(self@ =~= s0);
                    }
                    return Err(FulaError::DuplicateUpload);
                }
                let entry = UploaderData {
                    uploader: uploader.clone(),
                    storers: Vec::new(),
                    replication_available: req.replication_factor,
                };
                proof {
                    assert(entry@ =~= new_uploader(uploader@, req.replication_factor.value as int));
                }
                rec.uploaders.push(entry);
                proof {
                    assert(uploaders_view(rec.uploaders@) =~= s0.manifests[i as int].uploaders.push(
                        new_uploader(uploader@, req.replication_factor.value as int),
                    ));
                }
                self.manifests.insert(i, rec);
                let out = UploadManifestOutput {
                    uploader: uploader.clone(),
                    storers: Vec::new(),
                    manifest_metadata: req.manifest_metadata.clone(),
                    pool_id: req.pool_id,
                };
                proof {
                    let post = upload_post(
                        s0,
                        uploader@,
                        req.cid@,
                        pool,
                        req.manifest_metadata@,
                        req.replication_factor.value as int,
                    );
                    assert(self@.manifests =~= post.manifests);
                    assert(self@ =~= post);
                    lemma_upload_preserves_wf(
                        s0,
                        uploader@,
                        req.cid@,
                        pool,
                        req.manifest_metadata@,
                        req.replication_factor.value as int,
                    );
                }
                Ok(out)
            }
            None => {
                let entry = UploaderData {
                    uploader: uploader.clone(),
                    storers: Vec::new(),
                    replication_available: req.replication_factor,
                };
                proof {
                    assert(entry@ =~= new_uploader(uploader@, req.replication_factor.value as int));
                }
                let mut uploaders: Vec<UploaderData> = Vec::new();
                uploaders.push(entry);
                let rec = ManifestRecord {
                    pool_id: req.pool_id,
                    cid: req.cid.clone(),
                    manifest_metadata: req.manifest_metadata.clone(),
                    uploaders,
                };
                proof {
                    assert(rec@.uploaders =~= seq![
                        new_uploader(uploader@, req.replication_factor.value as int),
                    ]);
                }
                self.manifests.push(rec);
                let out = UploadManifestOutput {
                    uploader: uploader.clone(),
                    storers: Vec::new(),
                    manifest_metadata: req.manifest_metadata.clone(),
                    pool_id: req.pool_id,
                };
                proof {
                    let post = upload_post(
                        s0,
                        uploader@,
                        req.cid@,
                        pool,
                        req.manifest_metadata@,
                        req.replication_factor.value as int,
                    );
                    assert(self@.manifests =~= post.manifests);
                    assert(self@ =~= post);
                    lemma_upload_preserves_wf(
                        s0,
                        uploader@,
                        req.cid@,
                        pool,
                        req.manifest_metadata@,
                        req.replication_factor.value as int,
                    );
                }
                Ok(out)
            }
        }
    }

    /// Withdraws the caller's uploader entry from a manifest; the manifest
    /// itself is deleted when that entry was the last one.  Fails with
    /// `ManifestNotFound` when no matching uploader entry exists.  Storers
    /// and their accounting records are not evicted: their claims become
    /// orphans that `verify_manifest` reports as invalid.
    pub fn remove_manifest(&mut self, uploader: &Account, req: &RemoveManifestInput) -> (r: Result<RemoveManifestOutput, FulaError>)
        requires
            old(self).wf(),
        ensures
            final(self).wf(),
            match r {
                Ok(out) => {
                    &&& remove_ok(old(self)@, uploader@, req.cid@, req.pool_id.value as int)
                    &&& final(self)@ == remove_post(
                        old(self)@,
                        uploader@,
                        req.cid@,
                        req.pool_id.value as int,
                    )
                    &&& out.uploader@ == uploader@
                    &&& out.cid@ == req.cid@
                    &&& out.pool_id == req.pool_id
                },
                Err(e) => {
                    &&& e == FulaError::ManifestNotFound
                    &&& !remove_ok(old(self)@, uploader@, req.cid@, req.pool_id.value as int)
                    &&& final(self)@ == old(self)@
                },
            },
    {
        let ghost pool = req.pool_id.value as int;
        let ghost s0 = self@;
        let found = self.find_manifest_idx(req.pool_id, &req.cid);
        match found {
            Some(i) => {
                proof {
                    lemma_find_manifest_from_props(s0.manifests, pool, req.cid@, 0);
                }
                let mut rec = self.manifests.remove(i);
                let at = find_uploader_idx(&rec.uploaders, uploader);
                match at {
                    Some(j) => {
                        proof {
                            lemma_find_uploader_from_props(s0.manifests[i as int].uploaders, uploader@, 0);
                        }
                        if rec.uploaders.len() == 1 {
                            proof {
                                let post = remove_post(s0, uploader@, req.cid@, pool);
                                assert(self@.manifests =~= post.manifests);
                                assert(self@ =~= post);
                                lemma_remove_preserves_wf(s0, uploader@, req.cid@, pool);
                            }
                        } else {
                            rec.uploaders.remove(j);
                            proof {
                                assert(uploaders_view(rec.uploaders@)
                                    =~= s0.manifests[i as int].uploaders.remove(j as int));
                            }
                            self.manifests.insert(i, rec);
                            proof {
                                let post = remove_post(s0, uploader@, req.cid@, pool);
                                assert(self@.manifests =~= post.manifests);
                                assert(self@ =~= post);
                                lemma_remove_preserves_wf(s0, uploader@, req.cid@, pool);
                            }
                        }
                        Ok(RemoveManifestOutput {
                            uploader: uploader.clone(),
                            cid: req.cid.clone(),
                            pool_id: req.pool_id,
                        })
                    }
                    None => {
                        self.manifests.insert(i, rec);
                        proof {
                            assert(self@.manifests =~= s0.manifests);
                            assert(self@ =~= s0);
                        }
                        Err(FulaError::ManifestNotFound)
                    }
                }
            }
            None => Err(FulaError::ManifestNotFound),
        }
    }

    /// First index of the accounting record keyed `(pool_id, account, cid)`.
    fn find_storer_data_idx(&self, pool_id: PoolId, account: &Account, cid: &Cid) -> (r: Option<usize>)
        ensures
            opt_as_int(r) == find_storer_data(self@.storer_data, pool_id.value as int, account@, cid@),
    {
        let n = self.storer_data.len();
        let mut i: usize = 0;
        while i < n
            invariant
                n == self.storer_data.len(),
                i <= n,
                find_storer_data(self@.storer_data, pool_id.value as int, account@, cid@)
                    == find_storer_data_from(self@.storer_data, pool_id.value as int, account@, cid@, i as int),
            decreases n - i,
        {
            let d = &self.storer_data[i];
            if d.pool_id.value == pool_id.value && d.account.value == account.value
                && d.cid.value == cid.value {
                return Some(i);
            }
            i = i + 1;
        }
        None
    }

    /// A storer claims one replication slot on the manifest keyed
    /// `(pool_id, cid)`.  The slot comes from the first uploader entry, in
    /// insertion order, that still has one open.  Fails with
    /// `ManifestNotFound`, `AlreadyStoring` (a storer holds at most one slot
    /// per manifest) or `NoAvailableSlot`.
    pub fn storage_manifest(&mut self, storer: &Account, req: &StorageManifestInput) -> (r: Result<StorageManifestOutput, FulaError>)
        requires
            old(self).wf(),
        ensures
            final(self).wf(),
            match r {
                Ok(out) => {
                    &&& claim_result(old(self)@, storer@, req.cid@, req.pool_id.value as int) is None
                    &&& final(self)@ == claim_post(old(self)@, storer@, req.cid@, req.pool_id.value as int)
                    &&& out.storer@ == storer@
                    &&& out.cid@ == req.cid@
                    &&& out.pool_id == req.pool_id
                },
                Err(e) => {
                    &&& claim_result(old(self)@, storer@, req.cid@, req.pool_id.value as int) == Some(e)
                    &&& final(self)@ == old(self)@
                },
            },
    {
        let ghost pool = req.pool_id.value as int;
        let ghost s0 = self@;
        let found = self.find_manifest_idx(req.pool_id, &req.cid);
        match found {
            None => Err(FulaError::ManifestNotFound),
            Some(i) => {
                proof {
                    lemma_find_manifest_from_props(s0.manifests, pool, req.cid@, 0);
                }
                let mut rec = self.manifests.remove(i);
                let holder = find_holder_idx(&rec.uploaders, storer);
                if holder.is_some() {
                    self.manifests.insert(i, rec);
                    proof {
                        assert(self@.manifests =~= s0.manifests);
                        assert(self@ =~= s0);
                    }
                    return Err(FulaError::AlreadyStoring);
                }
                let open = first_open_idx(&rec.uploaders);
                match open {
                    None => {
                        self.manifests.insert(i, rec);
                        proof {
                            assert(self@.manifests =~= s0.manifests);
                            assert(self@ =~= s0);
                        }
                        Err(FulaError::NoAvailableSlot)
                    }
                    Some(j) => {
                        proof {
                            lemma_first_open_from_props(s0.manifests[i as int].uploaders, 0);
                        }
                        let mut entry = rec.uploaders.remove(j);
                        entry.storers.push(storer.clone());
                        let slots_left = entry.replication_available.value - 1;
                        entry.replication_available = ReplicationFactor { value: slots_left };
                        proof {
                            assert(entry@ =~= uploader_claim(
                                s0.manifests[i as int].uploaders[j as int],
                                storer@,
                            ));
                        }
                        rec.uploaders.insert(j, entry);
                        proof {
                            assert(uploaders_view(rec.uploaders@)
                                =~= s0.manifests[i as int].uploaders.update(
                                    j as int,
                                    uploader_claim(s0.manifests[i as int].uploaders[j as int], storer@),
                                ));
                        }
                        self.manifests.insert(i, rec);
                        proof {
                            let post = claim_post(s0, storer@, req.cid@, pool);
                            assert(self@.manifests =~= post.manifests);
                            assert(self@ =~= post);
                            lemma_claim_preserves_wf(s0, storer@, req.cid@, pool);
                        }
                        Ok(StorageManifestOutput {
                            storer: storer.clone(),
                            cid: req.cid.clone(),
                            pool_id: req.pool_id,
                        })
                    }
                }
            }
        }
    }

    /// A storer gives a replication slot back.  The slot returns to
    /// whichever uploader entry held the claim.  A release by a storer that
    /// holds no slot on an existing manifest is a lenient no-op: it succeeds
    /// with an empty storer field and changes nothing, so a release is safe
    /// to retry.  Only a missing manifest is an error.
    pub fn remove_stored_manifest(&mut self, storer: &Account, req: &RemoveStoringManifestInput) -> (r: Result<RemoveStoringManifestOutput, FulaError>)
        requires
            old(self).wf(),
        ensures
            final(self).wf(),
            match r {
                Ok(out) => {
                    &&& find_manifest(old(self)@.manifests, req.pool_id.value as int, req.cid@) is Some
                    &&& final(self)@ == release_post(old(self)@, storer@, req.cid@, req.pool_id.value as int)
                    &&& (out.storer is Some <==> release_found(old(self)@, storer@, req.cid@, req.pool_id.value as int))
                    &&& match out.storer {
                        Some(a) => a@ == storer@,
                        None => true,
                    }
                    &&& out.cid@ == req.cid@
                    &&& out.pool_id == req.pool_id
                },
                Err(e) => {
                    &&& e == FulaError::ManifestNotFound
                    &&& find_manifest(old(self)@.manifests, req.pool_id.value as int, req.cid@) is None
                    &&& final(self)@ == old(self)@
                },
            },
    {
        let ghost pool = req.pool_id.value as int;
        let ghost s0 = self@;
        let found = self.find_manifest_idx(req.pool_id, &req.cid);
        match found {
            None => Err(FulaError::ManifestNotFound),
            Some(i) => {
                proof {
                    lemma_find_manifest_from_props(s0.manifests, pool, req.cid@, 0);
                }
                let mut rec = self.manifests.remove(i);
                let holder = find_holder_idx(&rec.uploaders, storer);
                match holder {
                    None => {
                        self.manifests.insert(i, rec);
                        proof {
                            assert(self@.manifests =~= s0.manifests);
                            assert(self@ =~= s0);
                            let post = release_post(s0, storer@, req.cid@, pool);
                            assert(post.manifests =~= s0.manifests);
                            assert(post =~= s0);
                        }
                        Ok(RemoveStoringManifestOutput {
                            storer: None,
                            cid: req.cid.clone(),
                            pool_id: req.pool_id,
                        })
                    }
                    Some(j) => {
                        proof {
                            lemma_find_holder_from_props(s0.manifests[i as int].uploaders, storer@, 0);
                            assert(manifest_wf(s0.manifests[i as int]));
                            assert(uploader_wf(s0.manifests[i as int].uploaders[j as int]));
                        }
                        let mut entry = rec.uploaders.remove(j);
                        let at = index_of_storer_idx(&entry.storers, storer);
                        proof {
                            lemma_index_of_storer_from_props(accounts_view(entry.storers@), storer@, 0);
                        }
                        match at {
                            None => {
                                proof {
                                    assert(false);
                                }
                                rec.uploaders.insert(j, entry);
                                self.manifests.insert(i, rec);
                                Err(FulaError::ManifestNotFound)
                            }
                            Some(k) => {
                                entry.storers.remove(k);
                                let slots_left = entry.replication_available.value + 1;
                                entry.replication_available = ReplicationFactor { value: slots_left };
                                proof {
                                    assert(entry@ =~= uploader_release(
                                        s0.manifests[i as int].uploaders[j as int],
                                        storer@,
                                    ));
                                }
                                rec.uploaders.insert(j, entry);
                                proof {
                                    assert(uploaders_view(rec.uploaders@)
                                        =~= s0.manifests[i as int].uploaders.update(
                                            j as int,
                                            uploader_release(s0.manifests[i as int].uploaders[j as int], storer@),
                                        ));
                                }
                                self.manifests.insert(i, rec);
                                proof {
                                    let post = release_post(s0, storer@, req.cid@, pool);
                                    assert(self@.manifests =~= post.manifests);
                                    assert(self@ =~= post);
                                    lemma_release_preserves_wf(s0, storer@, req.cid@, pool);
                                }
                                Ok(RemoveStoringManifestOutput {
                                    storer: Some(storer.clone()),
                                    cid: req.cid.clone(),
                                    pool_id: req.pool_id,
                                })
                            }
                        }
                    }
                }
            }
        }
    }

    /// Upserts the accounting record keyed `(pool_id, storer, cid)`:
    /// `active_days` is overwritten with the given value, the cycle deltas
    /// are added to the counters (saturating at the top of their range), and
    /// the challenge state is left alone.  Fails with `ManifestNotFound`
    /// when no manifest exists for `(pool_id, cid)`, irrespective of the
    /// storer.
    pub fn update_manifest(&mut self, storer: &Account, req: &UpdateManifestInput) -> (r: Result<UpdatedManifestOutput, FulaError>)
        requires
            old(self).wf(),
        ensures
            final(self).wf(),
            match r {
                Ok(out) => {
                    &&& update_ok(old(self)@, req.cid@, req.pool_id.value as int)
                    &&& final(self)@ == update_post(
                        old(self)@,
                        storer@,
                        req.cid@,
                        req.pool_id.value as int,
                        req.active_days as int,
                        req.active_cycles as int,
                        req.missed_cycles as int,
                    )
                    &&& out.storer@ == storer@
                    &&& out.pool_id == req.pool_id
                    &&& out.cid@ == req.cid@
                    &&& out.active_days == req.active_days
                    &&& out.active_cycles as int == clamped_add(
                        prior_active_cycles(old(self)@, storer@, req.cid@, req.pool_id.value as int),
                        req.active_cycles as int,
                    )
                    &&& out.missed_cycles as int == clamped_add(
                        prior_missed_cycles(old(self)@, storer@, req.cid@, req.pool_id.value as int),
                        req.missed_cycles as int,
                    )
                },
                Err(e) => {
                    &&& e == FulaError::ManifestNotFound
                    &&& !update_ok(old(self)@, req.cid@, req.pool_id.value as int)
                    &&& final(self)@ == old(self)@
                },
            },
    {
        let ghost pool = req.pool_id.value as int;
        let ghost s0 = self@;
        let found = self.find_manifest_idx(req.pool_id, &req.cid);
        if found.is_none() {
            return Err(FulaError::ManifestNotFound);
        }
        let at = self.find_storer_data_idx(req.pool_id, storer, &req.cid);
        match at {
            Some(di) => {
                proof {
                    lemma_find_storer_data_from_props(s0.storer_data, pool, storer@, req.cid@, 0);
                }
                let mut d = self.storer_data.remove(di);
                let active_cycles = sat_add_u16(d.active_cycles, req.active_cycles);
                let missed_cycles = sat_add_u16(d.missed_cycles, req.missed_cycles);
                d.active_days = req.active_days;
                d.active_cycles = active_cycles;
                d.missed_cycles = missed_cycles;
                self.storer_data.insert(di, d);
                proof {
                    let post = update_post(
                        s0,
                        storer@,
                        req.cid@,
                        pool,
                        req.active_days as int,
                        req.active_cycles as int,
                        req.missed_cycles as int,
                    );
                    assert(self@.storer_data =~= post.storer_data);
                    assert(self@ =~= post);
                    lemma_update_preserves_wf(
                        s0,
                        storer@,
                        req.cid@,
                        pool,
                        req.active_days as int,
                        req.active_cycles as int,
                        req.missed_cycles as int,
                    );
                }
                Ok(UpdatedManifestOutput {
                    storer: storer.clone(),
                    pool_id: req.pool_id,
                    cid: req.cid.clone(),
                    active_days: req.active_days,
                    active_cycles,
                    missed_cycles,
                })
            }
            None => {
                let d = crate::api::ManifestStorageData {
                    pool_id: req.pool_id,
                    account: storer.clone(),
                    cid: req.cid.clone(),
                    active_days: req.active_days,
                    active_cycles: req.active_cycles,
                    missed_cycles: req.missed_cycles,
                    state: ChallengeStateValue::Open,
                };
                self.storer_data.push(d);
                proof {
                    let post = update_post(
                        s0,
                        storer@,
                        req.cid@,
                        pool,
                        req.active_days as int,
                        req.active_cycles as int,
                        req.missed_cycles as int,
                    );
                    assert(self@.storer_data =~= post.storer_data);
                    assert(self@ =~= post);
                    lemma_update_preserves_wf(
                        s0,
                        storer@,
                        req.cid@,
                        pool,
                        req.active_days as int,
                        req.active_cycles as int,
                        req.missed_cycles as int,
                    );
                }
                Ok(UpdatedManifestOutput {
                    storer: storer.clone(),
                    pool_id: req.pool_id,
                    cid: req.cid.clone(),
                    active_days: req.active_days,
                    active_cycles: req.active_cycles,
                    missed_cycles: req.missed_cycles,
                })
            }
        }
    }

    /// Copies the whole state, so that a failed batch can roll back.
    fn snapshot(&self) -> (r: Self)
        ensures
            r@ == self@,
    {
        let n = self.manifests.len();
        let mut manifests: Vec<ManifestRecord> = Vec::new();
        let mut i: usize = 0;
        while i < n
            invariant
                n == self.manifests.len(),
                i <= n,
                manifests@.len() == i as int,
                forall|q: int| 0 <= q < i ==> (#[trigger] manifests@[q])@ == self.manifests@[q]@,
            decreases n - i,
        {
            manifests.push(clone_manifest_record(&self.manifests[i]));
            i = i + 1;
        }
        let m = self.storer_data.len();
        let mut storer_data: Vec<crate::api::ManifestStorageData> = Vec::new();
        let mut t: usize = 0;
        while t < m
            invariant
                m == self.storer_data.len(),
                t <= m,
                storer_data@.len() == t as int,
                forall|q: int| 0 <= q < t ==> (#[trigger] storer_data@[q])@ == self.storer_data@[q]@,
            decreases m - t,
        {
            storer_data.push(clone_storer_data(&self.storer_data[t]));
            t = t + 1;
        }
        let r = ManifestLedger { manifests, storer_data };
        proof {
            assert(r@.manifests =~= self@.manifests);
            assert(r@.storer_data =~= self@.storer_data);
            assert(r@ =~= self@);
        }
        r
    }

    /// Uploads several manifests for one uploader as one atomic batch: on
    /// any `DuplicateUpload` the whole batch is rolled back and nothing is
    /// applied.  The element lists are parallel, element-wise.
    pub fn batch_upload_manifest(&mut self, uploader: &Account, req: &BatchUploadManifestInput) -> (r: Result<BatchUploadManifestOutput, FulaError>)
        requires
            old(self).wf(),
            req.cid@.len() == req.pool_id@.len(),
            req.cid@.len() == req.manifest_metadata@.len(),
            req.cid@.len() == req.replication_factor@.len(),
        ensures
            final(self).wf(),
            match r {
                Ok(out) => {
                    &&& batch_upload_ok_upto(old(self)@, uploader@, upload_elems(*req), req.cid@.len() as int)
                    &&& final(self)@ == batch_upload_upto(old(self)@, uploader@, upload_elems(*req), req.cid@.len() as int)
                    &&& out.uploader@ == uploader@
                    &&& out.pool_id@ == req.pool_id@
                    &&& out.manifest_metadata@ == req.manifest_metadata@
                },
                Err(e) => {
                    &&& e == FulaError::DuplicateUpload
                    &&& !batch_upload_ok_upto(old(self)@, uploader@, upload_elems(*req), req.cid@.len() as int)
                    &&& final(self)@ == old(self)@
                },
            },
    {
        let ghost s0 = self@;
        let ghost elems = upload_elems(*req);
        let backup = self.snapshot();
        let n = req.cid.len();
        let mut i: usize = 0;
        while i < n
            invariant
                self.wf(),
                s0 == old(self)@,
                store_wf(s0),
                backup@ == s0,
                n == req.cid@.len(),
                n == req.pool_id@.len(),
                n == req.manifest_metadata@.len(),
                n == req.replication_factor@.len(),
                elems == upload_elems(*req),
                i <= n,
                batch_upload_ok_upto(s0, uploader@, elems, i as int),
                self@ == batch_upload_upto(s0, uploader@, elems, i as int),
            decreases n - i,
        {
            let single = UploadManifestInput {
                seed: req.seed.clone(),
                manifest_metadata: req.manifest_metadata[i].clone(),
                cid: req.cid[i].clone(),
                pool_id: req.pool_id[i],
                replication_factor: req.replication_factor[i],
            };
            proof {
                assert(single.cid@ == elems[i as int].cid);
                assert(single.manifest_metadata@ == elems[i as int].metadata);
                assert(single.pool_id.value as int == elems[i as int].pool_id);
                assert(single.replication_factor.value as int == elems[i as int].replication_factor);
            }
            let step = self.upload_manifest(uploader, &single);
            if step.is_err() {
                proof {
                    if batch_upload_ok_upto(s0, uploader@, elems, n as int) {
                        lemma_batch_upload_ok_monotone(s0, uploader@, elems, i as int + 1, n as int);
                    }
                }
                *self = backup;
                return Err(FulaError::DuplicateUpload);
            }
            proof {
                assert(batch_upload_ok_upto(s0, uploader@, elems, i as int + 1));
                assert(self@ == batch_upload_upto(s0, uploader@, elems, i as int + 1));
            }
            i = i + 1;
        }
        Ok(BatchUploadManifestOutput {
            uploader: uploader.clone(),
            pool_id: clone_pools(&req.pool_id),
            manifest_metadata: clone_strings(&req.manifest_metadata),
        })
    }

    /// Removes several of one uploader's entries as one atomic batch: on any
    /// `ManifestNotFound` the whole batch is rolled back.
    pub fn batch_remove_manifest(&mut self, uploader: &Account, req: &BatchRemoveManifestInput) -> (r: Result<BatchRemoveManifestOutput, FulaError>)
        requires
            old(self).wf(),
            req.cid@.len() == req.pool_id@.len(),
        ensures
            final(self).wf(),
            match r {
                Ok(out) => {
                    &&& batch_remove_ok_upto(old(self)@, uploader@, remove_elems(*req), req.cid@.len() as int)
                    &&& final(self)@ == batch_remove_upto(old(self)@, uploader@, remove_elems(*req), req.cid@.len() as int)
                    &&& out.uploader@ == uploader@
                    &&& out.pool_id@ == req.pool_id@
                    &&& cids_view(out.cid@) == cids_view(req.cid@)
                },
                Err(e) => {
                    &&& e == FulaError::ManifestNotFound
                    &&& !batch_remove_ok_upto(old(self)@, uploader@, remove_elems(*req), req.cid@.len() as int)
                    &&& final(self)@ == old(self)@
                },
            },
    {
        let ghost s0 = self@;
        let ghost elems = remove_elems(*req);
        let backup = self.snapshot();
        let n = req.cid.len();
        let mut i: usize = 0;
        while i < n
            invariant
                self.wf(),
                s0 == old(self)@,
                store_wf(s0),
                backup@ == s0,
                n == req.cid@.len(),
                n == req.pool_id@.len(),
                elems == remove_elems(*req),
                i <= n,
                batch_remove_ok_upto(s0, uploader@, elems, i as int),
                self@ == batch_remove_upto(s0, uploader@, elems, i as int),
            decreases n - i,
        {
            let single = RemoveManifestInput {
                seed: req.seed.clone(),
                cid: req.cid[i].clone(),
                pool_id: req.pool_id[i],
            };
            proof {
                assert(single.cid@ == elems[i as int].cid);
                assert(single.pool_id.value as int == elems[i as int].pool_id);
            }
            let step = self.remove_manifest(uploader, &single);
            if step.is_err() {
                proof {
                    if batch_remove_ok_upto(s0, uploader@, elems, n as int) {
                        lemma_batch_remove_ok_monotone(s0, uploader@, elems, i as int + 1, n as int);
                    }
                }
                *self = backup;
                return Err(FulaError::ManifestNotFound);
            }
            proof {
                assert(batch_remove_ok_upto(s0, uploader@, elems, i as int + 1));
                assert(self@ == batch_remove_upto(s0, uploader@, elems, i as int + 1));
            }
            i = i + 1;
        }
        Ok(BatchRemoveManifestOutput {
            uploader: uploader.clone(),
            pool_id: clone_pools(&req.pool_id),
            cid: clone_cids(&req.cid),
        })
    }

    /// A storer claims slots on several manifests of one pool as one atomic
    /// batch: on any failure the whole batch is rolled back and the error of
    /// the first failing element is returned.
    pub fn batch_storage_manifest(&mut self, storer: &Account, req: &BatchStorageManifestInput) -> (r: Result<BatchStorageManifestOutput, FulaError>)
        requires
            old(self).wf(),
        ensures
            final(self).wf(),
            match r {
                Ok(out) => {
                    &&& batch_claim_ok_upto(old(self)@, storer@, req.pool_id.value as int, cids_view(req.cid@), req.cid@.len() as int)
                    &&& final(self)@ == batch_claim_upto(old(self)@, storer@, req.pool_id.value as int, cids_view(req.cid@), req.cid@.len() as int)
                    &&& out.storer@ == storer@
                    &&& out.pool_id == req.pool_id
                    &&& cids_view(out.cid@) == cids_view(req.cid@)
                },
                Err(e) => {
                    &&& exists|k: int|
                        0 <= k < req.cid@.len()
                            && #[trigger] batch_claim_ok_upto(old(self)@, storer@, req.pool_id.value as int, cids_view(req.cid@), k)
                            && claim_result(
                                batch_claim_upto(old(self)@, storer@, req.pool_id.value as int, cids_view(req.cid@), k),
                                storer@,
                                cids_view(req.cid@)[k],
                                req.pool_id.value as int,
                            ) == Some(e)
                    &&& final(self)@ == old(self)@
                },
            },
    {
        let ghost s0 = self@;
        let ghost pool = req.pool_id.value as int;
        let ghost cids = cids_view(req.cid@);
        let backup = self.snapshot();
        let n = req.cid.len();
        let mut i: usize = 0;
        while i < n
            invariant
                self.wf(),
                s0 == old(self)@,
                store_wf(s0),
                backup@ == s0,
                n == req.cid@.len(),
                cids == cids_view(req.cid@),
                pool == req.pool_id.value as int,
                i <= n,
                batch_claim_ok_upto(s0, storer@, pool, cids, i as int),
                self@ == batch_claim_upto(s0, storer@, pool, cids, i as int),
            decreases n - i,
        {
            let single = StorageManifestInput {
                seed: req.seed.clone(),
                cid: req.cid[i].clone(),
                pool_id: req.pool_id,
            };
            proof {
                assert(single.cid@ == cids[i as int]);
            }
            let step = self.storage_manifest(storer, &single);
            match step {
                Ok(_) => {
                    proof {
                        assert(batch_claim_ok_upto(s0, storer@, pool, cids, i as int + 1));
                        assert(self@ == batch_claim_upto(s0, storer@, pool, cids, i as int + 1));
                    }
                }
                Err(e) => {
                    proof {
                        assert(claim_result(batch_claim_upto(s0, storer@, pool, cids, i as int), storer@, cids[i as int], pool) == Some(e));
                    }
                    *self = backup;
                    return Err(e);
                }
            }
            i = i + 1;
        }
        Ok(BatchStorageManifestOutput {
            storer: storer.clone(),
            pool_id: req.pool_id,
            cid: clone_cids(&req.cid),
        })
    }

    /// A storer releases slots on several manifests of one pool as one
    /// atomic batch: on any `ManifestNotFound` the whole batch is rolled
    /// back.  Elements where the storer held no slot are the usual lenient
    /// no-ops.
    pub fn batch_remove_stored_manifest(&mut self, storer: &Account, req: &BatchRemoveStoringManifestInput) -> (r: Result<BatchRemoveStoringManifestOutput, FulaError>)
        requires
            old(self).wf(),
        ensures
            final(self).wf(),
            match r {
                Ok(out) => {
                    &&& batch_release_ok_upto(old(self)@, storer@, req.pool_id.value as int, cids_view(req.cid@), req.cid@.len() as int)
                    &&& final(self)@ == batch_release_upto(old(self)@, storer@, req.pool_id.value as int, cids_view(req.cid@), req.cid@.len() as int)
                    &&& out.storer@ == storer@
                    &&& out.pool_id == req.pool_id
                    &&& cids_view(out.cid@) == cids_view(req.cid@)
                },
                Err(e) => {
                    &&& e == FulaError::ManifestNotFound
                    &&& !batch_release_ok_upto(old(self)@, storer@, req.pool_id.value as int, cids_view(req.cid@), req.cid@.len() as int)
                    &&& final(self)@ == old(self)@
                },
            },
    {
        let ghost s0 = self@;
        let ghost pool = req.pool_id.value as int;
        let ghost cids = cids_view(req.cid@);
        let backup = self.snapshot();
        let n = req.cid.len();
        let mut i: usize = 0;
        while i < n
            invariant
                self.wf(),
                s0 == old(self)@,
                store_wf(s0),
                backup@ == s0,
                n == req.cid@.len(),
                cids == cids_view(req.cid@),
                pool == req.pool_id.value as int,
                i <= n,
                batch_release_ok_upto(s0, storer@, pool, cids, i as int),
                self@ == batch_release_upto(s0, storer@, pool, cids, i as int),
            decreases n - i,
        {
            let single = RemoveStoringManifestInput {
                seed: req.seed.clone(),
                cid: req.cid[i].clone(),
                pool_id: req.pool_id,
            };
            proof {
                assert(single.cid@ == cids[i as int]);
            }
            let step = self.remove_stored_manifest(storer, &single);
            if step.is_err() {
                proof {
                    if batch_release_ok_upto(s0, storer@, pool, cids, n as int) {
                        lemma_batch_release_ok_monotone(s0, storer@, pool, cids, i as int + 1, n as int);
                    }
                }
                *self = backup;
                return Err(FulaError::ManifestNotFound);
            }
            proof {
                assert(batch_release_ok_upto(s0, storer@, pool, cids, i as int + 1));
                assert(self@ == batch_release_upto(s0, storer@, pool, cids, i as int + 1));
            }
            i = i + 1;
        }
        Ok(BatchRemoveStoringManifestOutput {
            storer: storer.clone(),
            pool_id: req.pool_id,
            cid: clone_cids(&req.cid),
        })
    }

    /// Returns every manifest matching all given filters (an absent filter
    /// matches anything), in table order.
    pub fn get_all_manifests(&self, req: &GetAllManifestsInput) -> (out: GetAllManifestsOutput)
        ensures
            ({
                let fil = filter_manifests(
                    self@.manifests,
                    opt_pool_view(req.pool_id),
                    opt_account_view(req.uploader),
                    opt_account_view(req.storer),
                );
                &&& out.manifests@.len() == fil.len()
                &&& forall|k: int|
                    0 <= k < fil.len() ==> manifest_out_matches(#[trigger] out.manifests@[k], fil[k])
            }),
    {
        let ghost pf = opt_pool_view(req.pool_id);
        let ghost uf = opt_account_view(req.uploader);
        let ghost sf = opt_account_view(req.storer);
        let n = self.manifests.len();
        let mut result: Vec<Manifest> = Vec::new();
        let mut i: usize = 0;
        while i < n
            invariant
                n == self.manifests.len(),
                i <= n,
                pf == opt_pool_view(req.pool_id),
                uf == opt_account_view(req.uploader),
                sf == opt_account_view(req.storer),
                result@.len() == filter_manifests_upto(self@.manifests, pf, uf, sf, i as int).len(),
                forall|k: int|
                    0 <= k < result@.len() ==> manifest_out_matches(
                        #[trigger] result@[k],
                        filter_manifests_upto(self@.manifests, pf, uf, sf, i as int)[k],
                    ),
            decreases n - i,
        {
            let rec = &self.manifests[i];
            let pool_ok = match req.pool_id {
                Some(p) => rec.pool_id.value == p.value,
                None => true,
            };
            let uploader_ok = match &req.uploader {
                Some(a) => find_uploader_idx(&rec.uploaders, a).is_some(),
                None => true,
            };
            let storer_ok = match &req.storer {
                Some(a) => find_holder_idx(&rec.uploaders, a).is_some(),
                None => true,
            };
            if pool_ok && uploader_ok && storer_ok {
                proof {
                    assert(manifest_matches(self@.manifests[i as int], pf, uf, sf));
                }
                result.push(Manifest {
                    pool_id: rec.pool_id,
                    uploaders: clone_uploaders(&rec.uploaders),
                    manifest_metadata: rec.manifest_metadata.clone(),
                    size: None,
                });
            } else {
                proof {
                    assert(!manifest_matches(self@.manifests[i as int], pf, uf, sf));
                }
            }
            i = i + 1;
        }
        GetAllManifestsOutput { manifests: result }
    }

    /// Returns one open-slot projection per uploader entry with
    /// `replication_available > 0`, restricted to a pool when one is given,
    /// in table order.
    pub fn get_available_manifests(&self, req: &GetAvailableManifestsInput) -> (out: GetAvailableManifestsOutput)
        ensures
            ({
                let av = available_entries(self@.manifests, opt_pool_view(req.pool_id));
                &&& out.manifests@.len() == av.len()
                &&& forall|k: int|
                    0 <= k < av.len() ==> avail_out_matches(#[trigger] out.manifests@[k], av[k])
            }),
    {
        let ghost pf = opt_pool_view(req.pool_id);
        let n = self.manifests.len();
        let mut result: Vec<ManifestAvailable> = Vec::new();
        let mut i: usize = 0;
        while i < n
            invariant
                n == self.manifests.len(),
                i <= n,
                pf == opt_pool_view(req.pool_id),
                result@.len() == available_entries_upto(self@.manifests, pf, i as int).len(),
                forall|k: int|
                    0 <= k < result@.len() ==> avail_out_matches(
                        #[trigger] result@[k],
                        available_entries_upto(self@.manifests, pf, i as int)[k],
                    ),
            decreases n - i,
        {
            let rec = &self.manifests[i];
            let pool_ok = match req.pool_id {
                Some(p) => rec.pool_id.value == p.value,
                None => true,
            };
            if pool_ok {
                proof {
                    assert(pool_matches(self@.manifests[i as int].pool_id, pf));
                }
                let m = rec.uploaders.len();
                let mut j: usize = 0;
                while j < m
                    invariant
                        n == self.manifests.len(),
                        i < n,
                        m == self.manifests@[i as int].uploaders.len(),
                        j <= m,
                        pf == opt_pool_view(req.pool_id),
                        result@.len() == available_entries_upto(self@.manifests, pf, i as int).len()
                            + manifest_avails_upto(self@.manifests[i as int], j as int).len(),
                        forall|k: int|
                            0 <= k < result@.len() ==> avail_out_matches(
                                #[trigger] result@[k],
                                (available_entries_upto(self@.manifests, pf, i as int)
                                    + manifest_avails_upto(self@.manifests[i as int], j as int))[k],
                            ),
                    decreases m - j,
                {
                    let rec2 = &self.manifests[i];
                    if rec2.uploaders[j].replication_available.value > 0 {
                        result.push(ManifestAvailable {
                            pool_id: rec2.pool_id,
                            manifest_metadata: rec2.manifest_metadata.clone(),
                            replication_available: rec2.uploaders[j].replication_available,
                        });
                    }
                    j = j + 1;
                }
                proof {
                    assert(manifest_avails_upto(self@.manifests[i as int], m as int)
                        == manifest_avails(self@.manifests[i as int]));
                }
            } else {
                proof {
                    assert(!pool_matches(self@.manifests[i as int].pool_id, pf));
                }
            }
            i = i + 1;
        }
        GetAvailableManifestsOutput { manifests: result }
    }

    /// Returns the accounting snapshots matching all given filters, with
    /// their challenge state, in table order.
    pub fn get_all_manifests_storer_data(&self, req: &GetAllManifestsStorerDataInput) -> (out: GetAllManifestsStorerDataOutput)
        ensures
            ({
                let fil = filter_storer_data(
                    self@.storer_data,
                    opt_pool_view(req.pool_id),
                    opt_account_view(req.storer),
                );
                &&& out.manifests@.len() == fil.len()
                &&& forall|k: int| 0 <= k < fil.len() ==> (#[trigger] out.manifests@[k])@ == fil[k]
            }),
    {
        let ghost pf = opt_pool_view(req.pool_id);
        let ghost sf = opt_account_view(req.storer);
        let n = self.storer_data.len();
        let mut result: Vec<crate::api::ManifestStorageData> = Vec::new();
        let mut i: usize = 0;
        while i < n
            invariant
                n == self.storer_data.len(),
                i <= n,
                pf == opt_pool_view(req.pool_id),
                sf == opt_account_view(req.storer),
                result@.len() == filter_storer_data_upto(self@.storer_data, pf, sf, i as int).len(),
                forall|k: int|
                    0 <= k < result@.len() ==> (#[trigger] result@[k])@
                        == filter_storer_data_upto(self@.storer_data, pf, sf, i as int)[k],
            decreases n - i,
        {
            let d = &self.storer_data[i];
            let pool_ok = match req.pool_id {
                Some(p) => d.pool_id.value == p.value,
                None => true,
            };
            let storer_ok = match &req.storer {
                Some(a) => d.account.value == a.value,
                None => true,
            };
            if pool_ok && storer_ok {
                proof {
                    assert(storer_data_matches(self@.storer_data[i as int], pf, sf));
                }
                result.push(clone_storer_data(d));
            } else {
                proof {
                    assert(!storer_data_matches(self@.storer_data[i as int], pf, sf));
                }
            }
            i = i + 1;
        }
        GetAllManifestsStorerDataOutput { manifests: result }
    }

    /// Whether the storer currently holds a slot on some manifest with this
    /// cid, in any pool.
    fn has_live_claim(&self, storer: &Account, cid: &Cid) -> (r: bool)
        ensures
            r == live_claim(self@, storer@, cid@),
    {
        let n = self.manifests.len();
        let mut i: usize = 0;
        while i < n
            invariant
                n == self.manifests.len(),
                i <= n,
                forall|t: int|
                    0 <= t < i ==> !((#[trigger] self@.manifests[t]).cid == cid@
                        && find_holder(self@.manifests[t].uploaders, storer@) is Some),
            decreases n - i,
        {
            let rec = &self.manifests[i];
            if rec.cid.value == cid.value {
                if find_holder_idx(&rec.uploaders, storer).is_some() {
                    proof {
                        assert(self@.manifests[i as int].cid == cid@
                            && find_holder(self@.manifests[i as int].uploaders, storer@) is Some);
                    }
                    return true;
                }
            }
            i = i + 1;
        }
        false
    }

    /// Reconciles a storer's claims against the current table: every cid the
    /// storer has observably claimed lands in exactly one of the two lists.
    /// `valid_manifests` holds the cids whose claim is live on some manifest;
    /// `invalid_manifests` holds the cids that an accounting record of the
    /// storer still names although no live claim is left (the manifest, or
    /// the claim, is gone).  Neither list repeats a cid.
    pub fn verify_manifest(&self, storer: &Account) -> (out: VerifyManifestsOutput)
        ensures
            out.storer@ == storer@,
            forall|k: int|
                0 <= k < out.valid_manifests@.len()
                    ==> live_claim(self@, storer@, (#[trigger] out.valid_manifests@[k])@),
            forall|c: Seq<char>|
                #[trigger] live_claim(self@, storer@, c) ==> cids_contain(out.valid_manifests@, c),
            forall|k1: int, k2: int|
                0 <= k1 < k2 < out.valid_manifests@.len()
                    ==> (#[trigger] out.valid_manifests@[k1])@
                        != (#[trigger] out.valid_manifests@[k2])@,
            forall|k: int|
                0 <= k < out.invalid_manifests@.len()
                    ==> recorded_claim(self@, storer@, (#[trigger] out.invalid_manifests@[k])@)
                        && !live_claim(self@, storer@, out.invalid_manifests@[k]@),
            forall|c: Seq<char>|
                #[trigger] recorded_claim(self@, storer@, c) && !live_claim(self@, storer@, c)
                    ==> cids_contain(out.invalid_manifests@, c),
            forall|k1: int, k2: int|
                0 <= k1 < k2 < out.invalid_manifests@.len()
                    ==> (#[trigger] out.invalid_manifests@[k1])@
                        != (#[trigger] out.invalid_manifests@[k2])@,
    {
        let n = self.manifests.len();
        let mut valid: Vec<Cid> = Vec::new();
        let mut i: usize = 0;
        while i < n
            invariant
                n == self.manifests.len(),
                i <= n,
                forall|k: int|
                    0 <= k < valid@.len() ==> live_claim(self@, storer@, (#[trigger] valid@[k])@),
                forall|c: Seq<char>|
                    #[trigger] live_claim_upto(self@, storer@, c, i as int)
                        ==> cids_contain(valid@, c),
                forall|k1: int, k2: int|
                    0 <= k1 < k2 < valid@.len()
                        ==> (#[trigger] valid@[k1])@ != (#[trigger] valid@[k2])@,
            decreases n - i,
        {
            let rec = &self.manifests[i];
            let ghost prev = valid@;
            let holder_found = find_holder_idx(&rec.uploaders, storer).is_some();
            let mut already = false;
            if holder_found {
                already = cid_vec_contains(&valid, &rec.cid);
                if !already {
                    proof {
                        assert(self@.manifests[i as int].cid == rec.cid@
                            && find_holder(self@.manifests[i as int].uploaders, storer@) is Some);
                        assert(live_claim(self@, storer@, rec.cid@));
                    }
                    valid.push(rec.cid.clone());
                    proof {
                        assert forall|k1: int, k2: int| 0 <= k1 < k2 < valid@.len()
                            implies (valid@[k1])@ != (valid@[k2])@ by {
                            if k2 == prev.len() {
                                assert((valid@[k1])@ == (prev[k1])@);
                                assert((valid@[k2])@ == rec.cid@);
                            } else {
                                assert((valid@[k1])@ == (prev[k1])@);
                                assert((valid@[k2])@ == (prev[k2])@);
                            }
                        }
                    }
                }
            }
            proof {
                assert forall|c: Seq<char>|
                    #[trigger] live_claim_upto(self@, storer@, c, i as int + 1)
                        implies cids_contain(valid@, c) by {
                    if live_claim_upto(self@, storer@, c, i as int) {
                        assert(cids_contain(prev, c));
                        let k = choose|k: int| 0 <= k < prev.len() && (#[trigger] prev[k])@ == c;
                        assert((valid@[k])@ == c);
                        assert(cids_contain(valid@, c));
                    } else {
                        assert(self@.manifests[i as int].cid == c);
                        assert(holder_found);
                        if already {
                            let k = choose|k: int|
                                0 <= k < prev.len() && (#[trigger] prev[k])@ == rec.cid@;
                            assert((valid@[k])@ == c);
                            assert(cids_contain(valid@, c));
                        } else {
                            assert((valid@[prev.len() as int])@ == c);
                            assert(cids_contain(valid@, c));
                        }
                    }
                }
            }
            i = i + 1;
        }
        proof {
            assert forall|c: Seq<char>| #[trigger] live_claim(self@, storer@, c)
                implies cids_contain(valid@, c) by {
                assert(live_claim_upto(self@, storer@, c, n as int));
            }
        }
        let m = self.storer_data.len();
        let mut invalid: Vec<Cid> = Vec::new();
        let mut t: usize = 0;
        while t < m
            invariant
                m == self.storer_data.len(),
                t <= m,
                forall|k: int|
                    0 <= k < invalid@.len()
                        ==> recorded_claim(self@, storer@, (#[trigger] invalid@[k])@)
                            && !live_claim(self@, storer@, invalid@[k]@),
                forall|c: Seq<char>|
                    #[trigger] recorded_claim_upto(self@, storer@, c, t as int)
                        && !live_claim(self@, storer@, c) ==> cids_contain(invalid@, c),
                forall|k1: int, k2: int|
                    0 <= k1 < k2 < invalid@.len()
                        ==> (#[trigger] invalid@[k1])@ != (#[trigger] invalid@[k2])@,
            decreases m - t,
        {
            let d = &self.storer_data[t];
            let ghost prev = invalid@;
            let mine = d.account.value == storer.value;
            let mut dead = false;
            let mut already = false;
            if mine {
                dead = !self.has_live_claim(storer, &d.cid);
                if dead {
                    already = cid_vec_contains(&invalid, &d.cid);
                    if !already {
                        proof {
                            assert(self@.storer_data[t as int].account == storer@
                                && self@.storer_data[t as int].cid == d.cid@);
                            assert(recorded_claim(self@, storer@, d.cid@));
                        }
                        invalid.push(d.cid.clone());
                        proof {
                            assert forall|k1: int, k2: int| 0 <= k1 < k2 < invalid@.len()
                                implies (invalid@[k1])@ != (invalid@[k2])@ by {
                                if k2 == prev.len() {
                                    assert((invalid@[k1])@ == (prev[k1])@);
                                    assert((invalid@[k2])@ == d.cid@);
                                } else {
                                    assert((invalid@[k1])@ == (prev[k1])@);
                                    assert((invalid@[k2])@ == (prev[k2])@);
                                }
                            }
                        }
                    }
                }
            }
            proof {
                assert forall|c: Seq<char>|
                    #[trigger] recorded_claim_upto(self@, storer@, c, t as int + 1)
                        && !live_claim(self@, storer@, c)
                        implies cids_contain(invalid@, c) by {
                    if recorded_claim_upto(self@, storer@, c, t as int) {
                        assert(cids_contain(prev, c));
                        let k = choose|k: int| 0 <= k < prev.len() && (#[trigger] prev[k])@ == c;
                        assert((invalid@[k])@ == c);
                        assert(cids_contain(invalid@, c));
                    } else {
                        assert(self@.storer_data[t as int].cid == c
                            && self@.storer_data[t as int].account == storer@);
                        assert(mine && dead);
                        if already {
                            let k = choose|k: int|
                                0 <= k < prev.len() && (#[trigger] prev[k])@ == d.cid@;
                            assert((invalid@[k])@ == c);
                            assert(cids_contain(invalid@, c));
                        } else {
                            assert((invalid@[prev.len() as int])@ == c);
                            assert(cids_contain(invalid@, c));
                        }
                    }
                }
            }
            t = t + 1;
        }
        proof {
            assert forall|c: Seq<char>|
                #[trigger] recorded_claim(self@, storer@, c) && !live_claim(self@, storer@, c)
                    implies cids_contain(invalid@, c) by {
                assert(recorded_claim_upto(self@, storer@, c, m as int));
            }
        }
        VerifyManifestsOutput {
            storer: storer.clone(),
            valid_manifests: valid,
            invalid_manifests: invalid,
        }
    }
}

} // verus!
