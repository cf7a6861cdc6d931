//! Mathematical model of the ledger's manifest tables.
//!
//! Every executable operation of the engine is specified against this model:
//! a [`StoreView`] holds the manifest records and the per-storer accounting
//! records as sequences, and each operation's contract equates the post-state
//! with a spec-level transition function defined here.

use vstd::prelude::*;

use crate::types::ChallengeStateValue;

verus! {

/// One uploader's entry inside a manifest: who registered it, which storers
/// hold a slot, and how many slots are still open.
#[verifier::ext_equal]
pub ghost struct UploaderView {
    pub uploader: Seq<char>,
    pub storers: Seq<Seq<char>>,
    pub replication_available: int,
}

/// One manifest record, keyed by `(pool_id, cid)`.
#[verifier::ext_equal]
pub ghost struct ManifestView {
    pub pool_id: int,
    pub cid: Seq<char>,
    pub manifest_metadata: Seq<char>,
    pub uploaders: Seq<UploaderView>,
}

/// One per-storer accounting record, keyed by `(pool_id, account, cid)`.
#[verifier::ext_equal]
pub ghost struct StorerDataView {
    pub pool_id: int,
    pub account: Seq<char>,
    pub cid: Seq<char>,
    pub active_days: int,
    pub active_cycles: int,
    pub missed_cycles: int,
    pub state: ChallengeStateValue,
}

/// The whole ledger model: manifest table and accounting table.
#[verifier::ext_equal]
pub ghost struct StoreView {
    pub manifests: Seq<ManifestView>,
    pub storer_data: Seq<StorerDataView>,
}

// ---------------------------------------------------------------------------
// Finders: first index with the wanted key, scanning from position `k`.
// ---------------------------------------------------------------------------

/// First index `>= k` of the manifest keyed `(pool_id, cid)`.
pub open spec fn find_manifest_from(ms: Seq<ManifestView>, pool_id: int, cid: Seq<char>, k: int) -> Option<int>
    decreases ms.len() - k,
{
    if k < 0 || k >= ms.len() {
        None
    } else if ms[k].pool_id == pool_id && ms[k].cid == cid {
        Some(k)
    } else {
        find_manifest_from(ms, pool_id, cid, k + 1)
    }
}

pub open spec fn find_manifest(ms: Seq<ManifestView>, pool_id: int, cid: Seq<char>) -> Option<int> {
    find_manifest_from(ms, pool_id, cid, 0)
}

/// First index `>= k` of the uploader entry owned by `account`.
pub open spec fn find_uploader_from(us: Seq<UploaderView>, account: Seq<char>, k: int) -> Option<int>
    decreases us.len() - k,
{
    if k < 0 || k >= us.len() {
        None
    } else if us[k].uploader == account {
        Some(k)
    } else {
        find_uploader_from(us, account, k + 1)
    }
}

pub open spec fn find_uploader(us: Seq<UploaderView>, account: Seq<char>) -> Option<int> {
    find_uploader_from(us, account, 0)
}

/// First index `>= k` of an uploader entry with an open slot.
pub open spec fn first_open_from(us: Seq<UploaderView>, k: int) -> Option<int>
    decreases us.len() - k,
{
    if k < 0 || k >= us.len() {
        None
    } else if us[k].replication_available > 0 {
        Some(k)
    } else {
        first_open_from(us, k + 1)
    }
}

pub open spec fn first_open(us: Seq<UploaderView>) -> Option<int> {
    first_open_from(us, 0)
}

/// First index `>= k` of the uploader entry whose storer set holds `storer`.
pub open spec fn find_holder_from(us: Seq<UploaderView>, storer: Seq<char>, k: int) -> Option<int>
    decreases us.len() - k,
{
    if k < 0 || k >= us.len() {
        None
    } else if us[k].storers.contains(storer) {
        Some(k)
    } else {
        find_holder_from(us, storer, k + 1)
    }
}

pub open spec fn find_holder(us: Seq<UploaderView>, storer: Seq<char>) -> Option<int> {
    find_holder_from(us, storer, 0)
}

/// First index `>= k` where the storer sequence holds `storer`.
pub open spec fn index_of_storer_from(ss: Seq<Seq<char>>, storer: Seq<char>, k: int) -> Option<int>
    decreases ss.len() - k,
{
    if k < 0 || k >= ss.len() {
        None
    } else if ss[k] == storer {
        Some(k)
    } else {
        index_of_storer_from(ss, storer, k + 1)
    }
}

pub open spec fn index_of_storer(ss: Seq<Seq<char>>, storer: Seq<char>) -> Option<int> {
    index_of_storer_from(ss, storer, 0)
}

/// First index `>= k` of the accounting record keyed `(pool_id, account, cid)`.
pub open spec fn find_storer_data_from(sd: Seq<StorerDataView>, pool_id: int, account: Seq<char>, cid: Seq<char>, k: int) -> Option<int>
    decreases sd.len() - k,
{
    if k < 0 || k >= sd.len() {
        None
    } else if sd[k].pool_id == pool_id && sd[k].account == account && sd[k].cid == cid {
        Some(k)
    } else {
        find_storer_data_from(sd, pool_id, account, cid, k + 1)
    }
}

pub open spec fn find_storer_data(sd: Seq<StorerDataView>, pool_id: int, account: Seq<char>, cid: Seq<char>) -> Option<int> {
    find_storer_data_from(sd, pool_id, account, cid, 0)
}

// ---------------------------------------------------------------------------
// Well-formedness.
// ---------------------------------------------------------------------------

/// Slots committed to an uploader entry, claimed plus still open.  Claiming
/// and releasing conserve this quantity; it equals the replication factor
/// the entry was uploaded with.
pub open spec fn uploader_committed(u: UploaderView) -> int {
    u.storers.len() + u.replication_available
}

pub open spec fn uploader_wf(u: UploaderView) -> bool {
    &&& 0 <= u.replication_available
    &&& uploader_committed(u) <= u16::MAX
}

/// A manifest is well formed when it still has an uploader, uploader
/// accounts are distinct, every entry is well formed, and no storer holds
/// more than one slot on the whole manifest (claim uniqueness).
pub open spec fn manifest_wf(m: ManifestView) -> bool {
    &&& m.uploaders.len() > 0
    &&& forall|i: int, j: int|
        0 <= i < m.uploaders.len() && 0 <= j < m.uploaders.len() && i != j
            ==> #[trigger] m.uploaders[i].uploader != #[trigger] m.uploaders[j].uploader
    &&& forall|i: int| 0 <= i < m.uploaders.len() ==> uploader_wf(#[trigger] m.uploaders[i])
    &&& forall|i: int, j: int, ki: int, kj: int|
        0 <= i < m.uploaders.len() && 0 <= j < m.uploaders.len()
            && 0 <= ki < m.uploaders[i].storers.len() && 0 <= kj < m.uploaders[j].storers.len()
            && (i != j || ki != kj)
            ==> #[trigger] m.uploaders[i].storers[ki] != #[trigger] m.uploaders[j].storers[kj]
}

/// The whole store is well formed: manifest keys `(pool_id, cid)` unique,
/// every manifest well formed, accounting keys `(pool_id, account, cid)`
/// unique.
pub open spec fn store_wf(s: StoreView) -> bool {
    &&& forall|i: int, j: int|
        0 <= i < s.manifests.len() && 0 <= j < s.manifests.len() && i != j
            ==> !(#[trigger] s.manifests[i].pool_id == #[trigger] s.manifests[j].pool_id
                && s.manifests[i].cid == s.manifests[j].cid)
    &&& forall|i: int| 0 <= i < s.manifests.len() ==> manifest_wf(#[trigger] s.manifests[i])
    &&& forall|i: int, j: int|
        0 <= i < s.storer_data.len() && 0 <= j < s.storer_data.len() && i != j
            ==> !(#[trigger] s.storer_data[i].pool_id == #[trigger] s.storer_data[j].pool_id
                && s.storer_data[i].account == s.storer_data[j].account
                && s.storer_data[i].cid == s.storer_data[j].cid)
}

// ---------------------------------------------------------------------------
// Transitions.
// ---------------------------------------------------------------------------

/// A freshly uploaded entry: no storers yet, all slots open.
pub open spec fn new_uploader(uploader: Seq<char>, replication_factor: int) -> UploaderView {
    UploaderView { uploader, storers: Seq::empty(), replication_available: replication_factor }
}

/// `upload` succeeds iff no uploader entry exists yet for
/// `(pool_id, cid, uploader)`; it fails with `DuplicateUpload` otherwise.
pub open spec fn upload_ok(s: StoreView, uploader: Seq<char>, cid: Seq<char>, pool_id: int) -> bool {
    match find_manifest(s.manifests, pool_id, cid) {
        Some(i) => find_uploader(s.manifests[i].uploaders, uploader) is None,
        None => true,
    }
}

/// Post-state of a successful `upload`: the new uploader entry is appended
/// to the existing manifest, or a fresh single-uploader manifest is appended
/// to the table.
pub open spec fn upload_post(s: StoreView, uploader: Seq<char>, cid: Seq<char>, pool_id: int, metadata: Seq<char>, replication_factor: int) -> StoreView {
    match find_manifest(s.manifests, pool_id, cid) {
        Some(i) => StoreView {
            manifests: s.manifests.update(
                i,
                ManifestView {
                    uploaders: s.manifests[i].uploaders.push(new_uploader(uploader, replication_factor)),
                    ..s.manifests[i]
                },
            ),
            ..s
        },
        None => StoreView {
            manifests: s.manifests.push(ManifestView {
                pool_id,
                cid,
                manifest_metadata: metadata,
                uploaders: seq![new_uploader(uploader, replication_factor)],
            }),
            ..s
        },
    }
}

/// `remove` succeeds iff an uploader entry exists for
/// `(pool_id, cid, uploader)`; it fails with `ManifestNotFound` otherwise.
pub open spec fn remove_ok(s: StoreView, uploader: Seq<char>, cid: Seq<char>, pool_id: int) -> bool {
    match find_manifest(s.manifests, pool_id, cid) {
        Some(i) => find_uploader(s.manifests[i].uploaders, uploader) is Some,
        None => false,
    }
}

/// Post-state of a successful `remove`: the uploader entry leaves the
/// manifest; the manifest itself is deleted when that entry was the last
/// one.  Accounting records are not touched (they are reconciled by
/// `verify`).
pub open spec fn remove_post(s: StoreView, uploader: Seq<char>, cid: Seq<char>, pool_id: int) -> StoreView {
    let i = find_manifest(s.manifests, pool_id, cid)->Some_0;
    let j = find_uploader(s.manifests[i].uploaders, uploader)->Some_0;
    if s.manifests[i].uploaders.len() == 1 {
        StoreView { manifests: s.manifests.remove(i), ..s }
    } else {
        StoreView {
            manifests: s.manifests.update(
                i,
                ManifestView { uploaders: s.manifests[i].uploaders.remove(j), ..s.manifests[i] },
            ),
            ..s
        }
    }
}

/// One claim on one uploader entry: the storer is appended and one open
/// slot is consumed.
pub open spec fn uploader_claim(u: UploaderView, storer: Seq<char>) -> UploaderView {
    UploaderView {
        storers: u.storers.push(storer),
        replication_available: u.replication_available - 1,
        ..u
    }
}

/// One release on one uploader entry: the storer's (unique) slot is given
/// back.  An entry that does not hold the storer is left unchanged.
pub open spec fn uploader_release(u: UploaderView, storer: Seq<char>) -> UploaderView {
    match index_of_storer(u.storers, storer) {
        Some(k) => UploaderView {
            storers: u.storers.remove(k),
            replication_available: u.replication_available + 1,
            ..u
        },
        None => u,
    }
}

/// One slot operation in a history: a claim or a release by `storer`.
#[verifier::ext_equal]
pub ghost struct SlotOp {
    pub is_claim: bool,
    pub storer: Seq<char>,
}

/// Claiming on a manifest goes to the first uploader entry, in insertion
/// order, that still has an open slot.
pub open spec fn manifest_claim(m: ManifestView, storer: Seq<char>) -> ManifestView {
    let j = first_open(m.uploaders)->Some_0;
    ManifestView { uploaders: m.uploaders.update(j, uploader_claim(m.uploaders[j], storer)), ..m }
}

/// Releasing on a manifest frees the slot of whichever uploader entry holds
/// the storer; with no holder the manifest is unchanged.
pub open spec fn manifest_release(m: ManifestView, storer: Seq<char>) -> ManifestView {
    match find_holder(m.uploaders, storer) {
        Some(j) => ManifestView {
            uploaders: m.uploaders.update(j, uploader_release(m.uploaders[j], storer)),
            ..m
        },
        None => m,
    }
}

/// Outcome of `claim_slot`: `None` is success, `Some(e)` names the error.
pub open spec fn claim_result(s: StoreView, storer: Seq<char>, cid: Seq<char>, pool_id: int) -> Option<crate::types::FulaError> {
    match find_manifest(s.manifests, pool_id, cid) {
        None => Some(crate::types::FulaError::ManifestNotFound),
        Some(i) => if find_holder(s.manifests[i].uploaders, storer) is Some {
            Some(crate::types::FulaError::AlreadyStoring)
        } else if first_open(s.manifests[i].uploaders) is None {
            Some(crate::types::FulaError::NoAvailableSlot)
        } else {
            None
        },
    }
}

/// Post-state of a successful `claim_slot`.
pub open spec fn claim_post(s: StoreView, storer: Seq<char>, cid: Seq<char>, pool_id: int) -> StoreView {
    let i = find_manifest(s.manifests, pool_id, cid)->Some_0;
    StoreView { manifests: s.manifests.update(i, manifest_claim(s.manifests[i], storer)), ..s }
}

/// `release_slot` needs the manifest to exist; a missing storer is a
/// documented lenient no-op, not an error.
pub open spec fn release_found(s: StoreView, storer: Seq<char>, cid: Seq<char>, pool_id: int) -> bool {
    match find_manifest(s.manifests, pool_id, cid) {
        Some(i) => find_holder(s.manifests[i].uploaders, storer) is Some,
        None => false,
    }
}

/// Post-state of `release_slot` on an existing manifest (identity when the
/// storer held no slot).
pub open spec fn release_post(s: StoreView, storer: Seq<char>, cid: Seq<char>, pool_id: int) -> StoreView {
    match find_manifest(s.manifests, pool_id, cid) {
        Some(i) => StoreView {
            manifests: s.manifests.update(i, manifest_release(s.manifests[i], storer)),
            ..s
        },
        None => s,
    }
}

/// Cycle counters saturate at the top of their range instead of wrapping.
pub open spec fn clamped_add(a: int, d: int) -> int {
    if a + d > u16::MAX { u16::MAX as int } else { a + d }
}

/// The counters already on the accounting record, zero when none exists yet.
pub open spec fn prior_active_cycles(s: StoreView, account: Seq<char>, cid: Seq<char>, pool_id: int) -> int {
    match find_storer_data(s.storer_data, pool_id, account, cid) {
        Some(i) => s.storer_data[i].active_cycles,
        None => 0,
    }
}

pub open spec fn prior_missed_cycles(s: StoreView, account: Seq<char>, cid: Seq<char>, pool_id: int) -> int {
    match find_storer_data(s.storer_data, pool_id, account, cid) {
        Some(i) => s.storer_data[i].missed_cycles,
        None => 0,
    }
}

/// `update_accounting` succeeds iff a manifest exists for `(pool_id, cid)`,
/// irrespective of the storer.
pub open spec fn update_ok(s: StoreView, cid: Seq<char>, pool_id: int) -> bool {
    find_manifest(s.manifests, pool_id, cid) is Some
}

/// Post-state of a successful `update_accounting`: the record keyed
/// `(pool_id, account, cid)` is upserted — `active_days` is overwritten,
/// the cycle deltas are added to the counters, the challenge state is left
/// alone (a fresh record starts `Open`).
pub open spec fn update_post(s: StoreView, account: Seq<char>, cid: Seq<char>, pool_id: int, active_days: int, active_cycles: int, missed_cycles: int) -> StoreView {
    match find_storer_data(s.storer_data, pool_id, account, cid) {
        Some(i) => StoreView {
            storer_data: s.storer_data.update(
                i,
                StorerDataView {
                    active_days,
                    active_cycles: clamped_add(s.storer_data[i].active_cycles, active_cycles),
                    missed_cycles: clamped_add(s.storer_data[i].missed_cycles, missed_cycles),
                    ..s.storer_data[i]
                },
            ),
            ..s
        },
        None => StoreView {
            storer_data: s.storer_data.push(StorerDataView {
                pool_id,
                account,
                cid,
                active_days,
                active_cycles,
                missed_cycles,
                state: ChallengeStateValue::Open,
            }),
            ..s
        },
    }
}

/// An executable search result, lifted to the model's index type.
pub open spec fn opt_as_int(r: Option<usize>) -> Option<int> {
    match r {
        Some(i) => Some(i as int),
        None => None,
    }
}

// ---------------------------------------------------------------------------
// Batches: element-wise application of the single-item transitions.  A batch
// is one ledger transaction: it applies fully or not at all.
// ---------------------------------------------------------------------------

/// One element of a batch upload.
#[verifier::ext_equal]
pub ghost struct UploadElem {
    pub cid: Seq<char>,
    pub pool_id: int,
    pub metadata: Seq<char>,
    pub replication_factor: int,
}

/// The state after the first `k` uploads of a batch.
pub open spec fn batch_upload_upto(s: StoreView, uploader: Seq<char>, elems: Seq<UploadElem>, k: int) -> StoreView
    decreases k,
{
    if k <= 0 {
        s
    } else {
        let prev = batch_upload_upto(s, uploader, elems, k - 1);
        upload_post(prev, uploader, elems[k - 1].cid, elems[k - 1].pool_id, elems[k - 1].metadata, elems[k - 1].replication_factor)
    }
}

/// Every one of the first `k` uploads succeeds, applied in order.
pub open spec fn batch_upload_ok_upto(s: StoreView, uploader: Seq<char>, elems: Seq<UploadElem>, k: int) -> bool
    decreases k,
{
    if k <= 0 {
        true
    } else {
        batch_upload_ok_upto(s, uploader, elems, k - 1)
            && upload_ok(batch_upload_upto(s, uploader, elems, k - 1), uploader, elems[k - 1].cid, elems[k - 1].pool_id)
    }
}

pub proof fn lemma_batch_upload_ok_monotone(s: StoreView, uploader: Seq<char>, elems: Seq<UploadElem>, k1: int, k2: int)
    requires
        0 <= k1 <= k2,
        batch_upload_ok_upto(s, uploader, elems, k2),
    ensures
        batch_upload_ok_upto(s, uploader, elems, k1),
    decreases k2 - k1,
{
    if k1 < k2 {
        lemma_batch_upload_ok_monotone(s, uploader, elems, k1, k2 - 1);
    }
}

/// One element of a batch removal.
#[verifier::ext_equal]
pub ghost struct RemoveElem {
    pub cid: Seq<char>,
    pub pool_id: int,
}

pub open spec fn batch_remove_upto(s: StoreView, uploader: Seq<char>, elems: Seq<RemoveElem>, k: int) -> StoreView
    decreases k,
{
    if k <= 0 {
        s
    } else {
        let prev = batch_remove_upto(s, uploader, elems, k - 1);
        remove_post(prev, uploader, elems[k - 1].cid, elems[k - 1].pool_id)
    }
}

pub open spec fn batch_remove_ok_upto(s: StoreView, uploader: Seq<char>, elems: Seq<RemoveElem>, k: int) -> bool
    decreases k,
{
    if k <= 0 {
        true
    } else {
        batch_remove_ok_upto(s, uploader, elems, k - 1)
            && remove_ok(batch_remove_upto(s, uploader, elems, k - 1), uploader, elems[k - 1].cid, elems[k - 1].pool_id)
    }
}

pub proof fn lemma_batch_remove_ok_monotone(s: StoreView, uploader: Seq<char>, elems: Seq<RemoveElem>, k1: int, k2: int)
    requires
        0 <= k1 <= k2,
        batch_remove_ok_upto(s, uploader, elems, k2),
    ensures
        batch_remove_ok_upto(s, uploader, elems, k1),
    decreases k2 - k1,
{
    if k1 < k2 {
        lemma_batch_remove_ok_monotone(s, uploader, elems, k1, k2 - 1);
    }
}

/// The state after the first `k` claims of a batch, all in one pool.
pub open spec fn batch_claim_upto(s: StoreView, storer: Seq<char>, pool_id: int, cids: Seq<Seq<char>>, k: int) -> StoreView
    decreases k,
{
    if k <= 0 {
        s
    } else {
        claim_post(batch_claim_upto(s, storer, pool_id, cids, k - 1), storer, cids[k - 1], pool_id)
    }
}

pub open spec fn batch_claim_ok_upto(s: StoreView, storer: Seq<char>, pool_id: int, cids: Seq<Seq<char>>, k: int) -> bool
    decreases k,
{
    if k <= 0 {
        true
    } else {
        batch_claim_ok_upto(s, storer, pool_id, cids, k - 1)
            && claim_result(batch_claim_upto(s, storer, pool_id, cids, k - 1), storer, cids[k - 1], pool_id) is None
    }
}

pub proof fn lemma_batch_claim_ok_monotone(s: StoreView, storer: Seq<char>, pool_id: int, cids: Seq<Seq<char>>, k1: int, k2: int)
    requires
        0 <= k1 <= k2,
        batch_claim_ok_upto(s, storer, pool_id, cids, k2),
    ensures
        batch_claim_ok_upto(s, storer, pool_id, cids, k1),
    decreases k2 - k1,
{
    if k1 < k2 {
        lemma_batch_claim_ok_monotone(s, storer, pool_id, cids, k1, k2 - 1);
    }
}

/// The state after the first `k` releases of a batch, all in one pool.
pub open spec fn batch_release_upto(s: StoreView, storer: Seq<char>, pool_id: int, cids: Seq<Seq<char>>, k: int) -> StoreView
    decreases k,
{
    if k <= 0 {
        s
    } else {
        release_post(batch_release_upto(s, storer, pool_id, cids, k - 1), storer, cids[k - 1], pool_id)
    }
}

/// A batch release only needs each manifest to exist; a storer that holds no
/// slot is the usual lenient no-op.
pub open spec fn batch_release_ok_upto(s: StoreView, storer: Seq<char>, pool_id: int, cids: Seq<Seq<char>>, k: int) -> bool
    decreases k,
{
    if k <= 0 {
        true
    } else {
        batch_release_ok_upto(s, storer, pool_id, cids, k - 1)
            && find_manifest(batch_release_upto(s, storer, pool_id, cids, k - 1).manifests, pool_id, cids[k - 1]) is Some
    }
}

pub proof fn lemma_batch_release_ok_monotone(s: StoreView, storer: Seq<char>, pool_id: int, cids: Seq<Seq<char>>, k1: int, k2: int)
    requires
        0 <= k1 <= k2,
        batch_release_ok_upto(s, storer, pool_id, cids, k2),
    ensures
        batch_release_ok_upto(s, storer, pool_id, cids, k1),
    decreases k2 - k1,
{
    if k1 < k2 {
        lemma_batch_release_ok_monotone(s, storer, pool_id, cids, k1, k2 - 1);
    }
}

// ---------------------------------------------------------------------------
// Queries.
// ---------------------------------------------------------------------------

/// An absent filter matches anything.
pub open spec fn pool_matches(pool_id: int, pf: Option<int>) -> bool {
    match pf {
        Some(p) => pool_id == p,
        None => true,
    }
}

/// A manifest matches when every given filter matches (logical AND).
pub open spec fn manifest_matches(m: ManifestView, pf: Option<int>, uf: Option<Seq<char>>, sf: Option<Seq<char>>) -> bool {
    &&& pool_matches(m.pool_id, pf)
    &&& match uf {
        Some(a) => find_uploader(m.uploaders, a) is Some,
        None => true,
    }
    &&& match sf {
        Some(a) => find_holder(m.uploaders, a) is Some,
        None => true,
    }
}

/// The matching manifests among the first `k`, in table order.
pub open spec fn filter_manifests_upto(ms: Seq<ManifestView>, pf: Option<int>, uf: Option<Seq<char>>, sf: Option<Seq<char>>, k: int) -> Seq<ManifestView>
    decreases k,
{
    if k <= 0 {
        Seq::empty()
    } else {
        let rest = filter_manifests_upto(ms, pf, uf, sf, k - 1);
        if manifest_matches(ms[k - 1], pf, uf, sf) {
            rest.push(ms[k - 1])
        } else {
            rest
        }
    }
}

/// What `get_all_manifests` returns: the matching manifests in table order.
pub open spec fn filter_manifests(ms: Seq<ManifestView>, pf: Option<int>, uf: Option<Seq<char>>, sf: Option<Seq<char>>) -> Seq<ManifestView> {
    filter_manifests_upto(ms, pf, uf, sf, ms.len() as int)
}

/// One open-slot projection: the manifest's pool and metadata with one
/// uploader entry's open slot count.
#[verifier::ext_equal]
pub ghost struct AvailView {
    pub pool_id: int,
    pub manifest_metadata: Seq<char>,
    pub replication_available: int,
}

/// The open-slot projections of one manifest's first `k` uploader entries.
pub open spec fn manifest_avails_upto(m: ManifestView, k: int) -> Seq<AvailView>
    decreases k,
{
    if k <= 0 {
        Seq::empty()
    } else {
        let rest = manifest_avails_upto(m, k - 1);
        if m.uploaders[k - 1].replication_available > 0 {
            rest.push(AvailView {
                pool_id: m.pool_id,
                manifest_metadata: m.manifest_metadata,
                replication_available: m.uploaders[k - 1].replication_available,
            })
        } else {
            rest
        }
    }
}

pub open spec fn manifest_avails(m: ManifestView) -> Seq<AvailView> {
    manifest_avails_upto(m, m.uploaders.len() as int)
}

/// The open-slot projections of the first `k` manifests of a pool.
pub open spec fn available_entries_upto(ms: Seq<ManifestView>, pf: Option<int>, k: int) -> Seq<AvailView>
    decreases k,
{
    if k <= 0 {
        Seq::empty()
    } else if pool_matches(ms[k - 1].pool_id, pf) {
        available_entries_upto(ms, pf, k - 1) + manifest_avails(ms[k - 1])
    } else {
        available_entries_upto(ms, pf, k - 1)
    }
}

/// What `get_available_manifests` returns: one projection per uploader entry
/// with an open slot, in table order.
pub open spec fn available_entries(ms: Seq<ManifestView>, pf: Option<int>) -> Seq<AvailView> {
    available_entries_upto(ms, pf, ms.len() as int)
}

/// An accounting record matches when every given filter matches.
pub open spec fn storer_data_matches(d: StorerDataView, pf: Option<int>, sf: Option<Seq<char>>) -> bool {
    &&& pool_matches(d.pool_id, pf)
    &&& match sf {
        Some(a) => d.account == a,
        None => true,
    }
}

pub open spec fn filter_storer_data_upto(sd: Seq<StorerDataView>, pf: Option<int>, sf: Option<Seq<char>>, k: int) -> Seq<StorerDataView>
    decreases k,
{
    if k <= 0 {
        Seq::empty()
    } else {
        let rest = filter_storer_data_upto(sd, pf, sf, k - 1);
        if storer_data_matches(sd[k - 1], pf, sf) {
            rest.push(sd[k - 1])
        } else {
            rest
        }
    }
}

/// What `get_all_manifests_storer_data` returns.
pub open spec fn filter_storer_data(sd: Seq<StorerDataView>, pf: Option<int>, sf: Option<Seq<char>>) -> Seq<StorerDataView> {
    filter_storer_data_upto(sd, pf, sf, sd.len() as int)
}

/// The storer currently holds a slot on some manifest with this cid.
pub open spec fn live_claim(s: StoreView, storer: Seq<char>, cid: Seq<char>) -> bool {
    exists|i: int|
        0 <= i < s.manifests.len() && (#[trigger] s.manifests[i]).cid == cid
            && find_holder(s.manifests[i].uploaders, storer) is Some
}

/// Same, restricted to the first `n` manifests.
pub open spec fn live_claim_upto(s: StoreView, storer: Seq<char>, cid: Seq<char>, n: int) -> bool {
    exists|i: int|
        0 <= i < n && i < s.manifests.len() && (#[trigger] s.manifests[i]).cid == cid
            && find_holder(s.manifests[i].uploaders, storer) is Some
}

/// An accounting record of the storer names this cid: the trace a claim
/// leaves behind even after the manifest is removed.
pub open spec fn recorded_claim(s: StoreView, storer: Seq<char>, cid: Seq<char>) -> bool {
    exists|i: int|
        0 <= i < s.storer_data.len() && (#[trigger] s.storer_data[i]).account == storer
            && s.storer_data[i].cid == cid
}

/// Same, restricted to the first `n` records.
pub open spec fn recorded_claim_upto(s: StoreView, storer: Seq<char>, cid: Seq<char>, n: int) -> bool {
    exists|i: int|
        0 <= i < n && i < s.storer_data.len() && (#[trigger] s.storer_data[i]).account == storer
            && s.storer_data[i].cid == cid
}

/// A cid the storer has observably claimed at some point: either the claim
/// is live, or an accounting record still names it.
pub open spec fn ever_claimed(s: StoreView, storer: Seq<char>, cid: Seq<char>) -> bool {
    live_claim(s, storer, cid) || recorded_claim(s, storer, cid)
}

// ---------------------------------------------------------------------------
// Facts about the finders: what a hit and a miss mean element-wise.
// ---------------------------------------------------------------------------

pub proof fn lemma_find_manifest_from_props(ms: Seq<ManifestView>, pool_id: int, cid: Seq<char>, k: int)
    requires
        0 <= k <= ms.len(),
    ensures
        match find_manifest_from(ms, pool_id, cid, k) {
            Some(t) => k <= t < ms.len() && ms[t].pool_id == pool_id && ms[t].cid == cid
                && forall|q: int|
                    k <= q < t ==> !((#[trigger] ms[q]).pool_id == pool_id && ms[q].cid == cid),
            None => forall|q: int|
                k <= q < ms.len() ==> !((#[trigger] ms[q]).pool_id == pool_id && ms[q].cid == cid),
        },
    decreases ms.len() - k,
{
    if k < ms.len() {
        if !(ms[k].pool_id == pool_id && ms[k].cid == cid) {
            lemma_find_manifest_from_props(ms, pool_id, cid, k + 1);
        }
    }
}

pub proof fn lemma_find_uploader_from_props(us: Seq<UploaderView>, account: Seq<char>, k: int)
    requires
        0 <= k <= us.len(),
    ensures
        match find_uploader_from(us, account, k) {
            Some(t) => k <= t < us.len() && us[t].uploader == account
                && forall|q: int| k <= q < t ==> (#[trigger] us[q]).uploader != account,
            None => forall|q: int| k <= q < us.len() ==> (#[trigger] us[q]).uploader != account,
        },
    decreases us.len() - k,
{
    if k < us.len() {
        if us[k].uploader != account {
            lemma_find_uploader_from_props(us, account, k + 1);
        }
    }
}

pub proof fn lemma_first_open_from_props(us: Seq<UploaderView>, k: int)
    requires
        0 <= k <= us.len(),
    ensures
        match first_open_from(us, k) {
            Some(t) => k <= t < us.len() && us[t].replication_available > 0
                && forall|q: int| k <= q < t ==> (#[trigger] us[q]).replication_available <= 0,
            None => forall|q: int| k <= q < us.len() ==> (#[trigger] us[q]).replication_available <= 0,
        },
    decreases us.len() - k,
{
    if k < us.len() {
        if !(us[k].replication_available > 0) {
            lemma_first_open_from_props(us, k + 1);
        }
    }
}

pub proof fn lemma_find_holder_from_props(us: Seq<UploaderView>, storer: Seq<char>, k: int)
    requires
        0 <= k <= us.len(),
    ensures
        match find_holder_from(us, storer, k) {
            Some(t) => k <= t < us.len() && us[t].storers.contains(storer)
                && forall|q: int| k <= q < t ==> !(#[trigger] us[q]).storers.contains(storer),
            None => forall|q: int| k <= q < us.len() ==> !(#[trigger] us[q]).storers.contains(storer),
        },
    decreases us.len() - k,
{
    if k < us.len() {
        if !us[k].storers.contains(storer) {
            lemma_find_holder_from_props(us, storer, k + 1);
        }
    }
}

pub proof fn lemma_index_of_storer_from_props(ss: Seq<Seq<char>>, storer: Seq<char>, k: int)
    requires
        0 <= k <= ss.len(),
    ensures
        match index_of_storer_from(ss, storer, k) {
            Some(t) => k <= t < ss.len() && ss[t] == storer
                && forall|q: int| k <= q < t ==> #[trigger] ss[q] != storer,
            None => forall|q: int| k <= q < ss.len() ==> #[trigger] ss[q] != storer,
        },
    decreases ss.len() - k,
{
    if k < ss.len() {
        if ss[k] != storer {
            lemma_index_of_storer_from_props(ss, storer, k + 1);
        }
    }
}

pub proof fn lemma_find_storer_data_from_props(sd: Seq<StorerDataView>, pool_id: int, account: Seq<char>, cid: Seq<char>, k: int)
    requires
        0 <= k <= sd.len(),
    ensures
        match find_storer_data_from(sd, pool_id, account, cid, k) {
            Some(t) => k <= t < sd.len() && sd[t].pool_id == pool_id && sd[t].account == account
                && sd[t].cid == cid
                && forall|q: int|
                    k <= q < t ==> !((#[trigger] sd[q]).pool_id == pool_id
                        && sd[q].account == account && sd[q].cid == cid),
            None => forall|q: int|
                k <= q < sd.len() ==> !((#[trigger] sd[q]).pool_id == pool_id
                    && sd[q].account == account && sd[q].cid == cid),
        },
    decreases sd.len() - k,
{
    if k < sd.len() {
        if !(sd[k].pool_id == pool_id && sd[k].account == account && sd[k].cid == cid) {
            lemma_find_storer_data_from_props(sd, pool_id, account, cid, k + 1);
        }
    }
}

// ---------------------------------------------------------------------------
// The transitions preserve well-formedness.
// ---------------------------------------------------------------------------

pub proof fn lemma_upload_preserves_wf(s: StoreView, uploader: Seq<char>, cid: Seq<char>, pool_id: int, metadata: Seq<char>, rf: int)
    requires
        store_wf(s),
        upload_ok(s, uploader, cid, pool_id),
        0 <= rf <= u16::MAX,
    ensures
        store_wf(upload_post(s, uploader, cid, pool_id, metadata, rf)),
{
    let post = upload_post(s, uploader, cid, pool_id, metadata, rf);
    lemma_find_manifest_from_props(s.manifests, pool_id, cid, 0);
    match find_manifest(s.manifests, pool_id, cid) {
        Some(i) => {
            lemma_find_uploader_from_props(s.manifests[i].uploaders, uploader, 0);
            let old_us = s.manifests[i].uploaders;
            let us = post.manifests[i].uploaders;
            let n = old_us.len() as int;
            assert(us == old_us.push(new_uploader(uploader, rf)));
            assert(manifest_wf(post.manifests[i])) by {
                assert forall|a: int, b: int|
                    0 <= a < us.len() && 0 <= b < us.len() && a != b
                        implies us[a].uploader != us[b].uploader by {
                    if a == n {
                        assert(us[b] == old_us[b]);
                        assert(us[a].uploader == uploader);
                    } else if b == n {
                        assert(us[a] == old_us[a]);
                        assert(us[b].uploader == uploader);
                    } else {
                        assert(us[a] == old_us[a] && us[b] == old_us[b]);
                    }
                }
                assert forall|a: int| 0 <= a < us.len() implies uploader_wf(#[trigger] us[a]) by {
                    if a < n {
                        assert(us[a] == old_us[a]);
                    } else {
                        assert(us[a] == new_uploader(uploader, rf));
                    }
                }
                assert forall|a: int, b: int, ka: int, kb: int|
                    0 <= a < us.len() && 0 <= b < us.len()
                        && 0 <= ka < us[a].storers.len() && 0 <= kb < us[b].storers.len()
                        && (a != b || ka != kb)
                        implies us[a].storers[ka] != us[b].storers[kb] by {
                    assert(us[n].storers.len() == 0);
                    assert(a < n && b < n);
                    assert(us[a] == old_us[a] && us[b] == old_us[b]);
                }
            }
            assert forall|q: int| 0 <= q < post.manifests.len()
                implies manifest_wf(#[trigger] post.manifests[q]) by {
                if q != i {
                    assert(post.manifests[q] == s.manifests[q]);
                }
            }
            assert(store_wf(post));
        }
        None => {
            let fresh = post.manifests[post.manifests.len() - 1];
            assert(manifest_wf(fresh)) by {
                assert(fresh.uploaders == seq![new_uploader(uploader, rf)]);
                assert(fresh.uploaders[0] == new_uploader(uploader, rf));
                assert(fresh.uploaders.len() == 1);
            }
            assert forall|q: int| 0 <= q < post.manifests.len()
                implies manifest_wf(#[trigger] post.manifests[q]) by {
                if q < s.manifests.len() {
                    assert(post.manifests[q] == s.manifests[q]);
                }
            }
            assert(store_wf(post));
        }
    }
}

pub proof fn lemma_remove_preserves_wf(s: StoreView, uploader: Seq<char>, cid: Seq<char>, pool_id: int)
    requires
        store_wf(s),
        remove_ok(s, uploader, cid, pool_id),
    ensures
        store_wf(remove_post(s, uploader, cid, pool_id)),
{
    let post = remove_post(s, uploader, cid, pool_id);
    lemma_find_manifest_from_props(s.manifests, pool_id, cid, 0);
    let i = find_manifest(s.manifests, pool_id, cid)->Some_0;
    lemma_find_uploader_from_props(s.manifests[i].uploaders, uploader, 0);
    let j = find_uploader(s.manifests[i].uploaders, uploader)->Some_0;
    if s.manifests[i].uploaders.len() == 1 {
        assert(post.manifests == s.manifests.remove(i));
        assert forall|q: int| 0 <= q < post.manifests.len()
            implies manifest_wf(#[trigger] post.manifests[q]) by {
            if q < i {
                assert(post.manifests[q] == s.manifests[q]);
            } else {
                assert(post.manifests[q] == s.manifests[q + 1]);
            }
        }
        assert forall|q1: int, q2: int|
            0 <= q1 < post.manifests.len() && 0 <= q2 < post.manifests.len() && q1 != q2
                implies !((#[trigger] post.manifests[q1]).pool_id
                    == (#[trigger] post.manifests[q2]).pool_id
                    && post.manifests[q1].cid == post.manifests[q2].cid) by {
            let o1: int = if q1 < i { q1 } else { q1 + 1 };
            let o2: int = if q2 < i { q2 } else { q2 + 1 };
            assert(post.manifests[q1] == s.manifests[o1]);
            assert(post.manifests[q2] == s.manifests[o2]);
        }
        assert(store_wf(post));
    } else {
        let old_us = s.manifests[i].uploaders;
        let us = post.manifests[i].uploaders;
        assert(us == old_us.remove(j));
        assert(manifest_wf(post.manifests[i])) by {
            assert forall|a: int, b: int|
                0 <= a < us.len() && 0 <= b < us.len() && a != b
                    implies us[a].uploader != us[b].uploader by {
                let oa: int = if a < j { a } else { a + 1 };
                let ob: int = if b < j { b } else { b + 1 };
                assert(us[a] == old_us[oa] && us[b] == old_us[ob]);
            }
            assert forall|a: int| 0 <= a < us.len() implies uploader_wf(#[trigger] us[a]) by {
                let oa: int = if a < j { a } else { a + 1 };
                assert(us[a] == old_us[oa]);
            }
            assert forall|a: int, b: int, ka: int, kb: int|
                0 <= a < us.len() && 0 <= b < us.len()
                    && 0 <= ka < us[a].storers.len() && 0 <= kb < us[b].storers.len()
                    && (a != b || ka != kb)
                    implies us[a].storers[ka] != us[b].storers[kb] by {
                let oa: int = if a < j { a } else { a + 1 };
                let ob: int = if b < j { b } else { b + 1 };
                assert(us[a] == old_us[oa] && us[b] == old_us[ob]);
            }
        }
        assert forall|q: int| 0 <= q < post.manifests.len()
            implies manifest_wf(#[trigger] post.manifests[q]) by {
            if q != i {
                assert(post.manifests[q] == s.manifests[q]);
            }
        }
        assert(store_wf(post));
    }
}

pub proof fn lemma_claim_preserves_wf(s: StoreView, storer: Seq<char>, cid: Seq<char>, pool_id: int)
    requires
        store_wf(s),
        claim_result(s, storer, cid, pool_id) is None,
    ensures
        store_wf(claim_post(s, storer, cid, pool_id)),
{
    let post = claim_post(s, storer, cid, pool_id);
    lemma_find_manifest_from_props(s.manifests, pool_id, cid, 0);
    let i = find_manifest(s.manifests, pool_id, cid)->Some_0;
    let old_us = s.manifests[i].uploaders;
    lemma_find_holder_from_props(old_us, storer, 0);
    lemma_first_open_from_props(old_us, 0);
    let j = first_open(old_us)->Some_0;
    let us = post.manifests[i].uploaders;
    assert(us == old_us.update(j, uploader_claim(old_us[j], storer)));
    assert(manifest_wf(s.manifests[i]));
    assert(manifest_wf(post.manifests[i])) by {
        assert forall|a: int, b: int|
            0 <= a < us.len() && 0 <= b < us.len() && a != b
                implies us[a].uploader != us[b].uploader by {
            assert(us[a].uploader == old_us[a].uploader);
            assert(us[b].uploader == old_us[b].uploader);
        }
        assert forall|a: int| 0 <= a < us.len() implies uploader_wf(#[trigger] us[a]) by {
            if a != j {
                assert(us[a] == old_us[a]);
            } else {
                assert(uploader_wf(old_us[j]));
            }
        }
        let nj = old_us[j].storers.len() as int;
        assert forall|a: int, b: int, ka: int, kb: int|
            0 <= a < us.len() && 0 <= b < us.len()
                && 0 <= ka < us[a].storers.len() && 0 <= kb < us[b].storers.len()
                && (a != b || ka != kb)
                implies us[a].storers[ka] != us[b].storers[kb] by {
            if a != j && b != j {
                assert(us[a] == old_us[a] && us[b] == old_us[b]);
            } else {
                if a == j && ka == nj {
                    assert(us[a].storers[ka] == storer);
                    if b == j && kb < nj {
                        assert(us[b].storers[kb] == old_us[j].storers[kb]);
                        assert(!old_us[j].storers.contains(storer));
                    } else if b != j {
                        assert(us[b].storers[kb] == old_us[b].storers[kb]);
                        assert(!old_us[b].storers.contains(storer));
                    }
                }
                if b == j && kb == nj {
                    assert(us[b].storers[kb] == storer);
                    if a == j && ka < nj {
                        assert(us[a].storers[ka] == old_us[j].storers[ka]);
                        assert(!old_us[j].storers.contains(storer));
                    } else if a != j {
                        assert(us[a].storers[ka] == old_us[a].storers[ka]);
                        assert(!old_us[a].storers.contains(storer));
                    }
                }
                if (a != j || ka < nj) && (b != j || kb < nj) {
                    let sa = if a == j { old_us[j].storers[ka] } else { old_us[a].storers[ka] };
                    let sb = if b == j { old_us[j].storers[kb] } else { old_us[b].storers[kb] };
                    assert(us[a].storers[ka] == sa);
                    assert(us[b].storers[kb] == sb);
                }
            }
        }
    }
    assert forall|q: int| 0 <= q < post.manifests.len()
        implies manifest_wf(#[trigger] post.manifests[q]) by {
        if q != i {
            assert(post.manifests[q] == s.manifests[q]);
        }
    }
    assert(store_wf(post));
}

pub proof fn lemma_release_preserves_wf(s: StoreView, storer: Seq<char>, cid: Seq<char>, pool_id: int)
    requires
        store_wf(s),
    ensures
        store_wf(release_post(s, storer, cid, pool_id)),
{
    let post = release_post(s, storer, cid, pool_id);
    lemma_find_manifest_from_props(s.manifests, pool_id, cid, 0);
    match find_manifest(s.manifests, pool_id, cid) {
        None => {}
        Some(i) => {
            let old_us = s.manifests[i].uploaders;
            lemma_find_holder_from_props(old_us, storer, 0);
            assert(manifest_wf(s.manifests[i]));
            match find_holder(old_us, storer) {
                None => {
                    assert(post.manifests =~= s.manifests);
                    assert(post =~= s);
                }
                Some(j) => {
                    lemma_index_of_storer_from_props(old_us[j].storers, storer, 0);
                    let k = index_of_storer(old_us[j].storers, storer)->Some_0;
                    let us = post.manifests[i].uploaders;
                    assert(us == old_us.update(j, uploader_release(old_us[j], storer)));
                    assert(manifest_wf(post.manifests[i])) by {
                        assert forall|a: int, b: int|
                            0 <= a < us.len() && 0 <= b < us.len() && a != b
                                implies us[a].uploader != us[b].uploader by {
                            assert(us[a].uploader == old_us[a].uploader);
                            assert(us[b].uploader == old_us[b].uploader);
                        }
                        assert forall|a: int| 0 <= a < us.len()
                            implies uploader_wf(#[trigger] us[a]) by {
                            if a != j {
                                assert(us[a] == old_us[a]);
                            } else {
                                assert(uploader_wf(old_us[j]));
                            }
                        }
                        assert forall|a: int, b: int, ka: int, kb: int|
                            0 <= a < us.len() && 0 <= b < us.len()
                                && 0 <= ka < us[a].storers.len() && 0 <= kb < us[b].storers.len()
                                && (a != b || ka != kb)
                                implies us[a].storers[ka] != us[b].storers[kb] by {
                            let oka: int = if a == j && ka >= k { ka + 1 } else { ka };
                            let okb: int = if b == j && kb >= k { kb + 1 } else { kb };
                            assert(us[a].storers[ka] == old_us[a].storers[oka]);
                            assert(us[b].storers[kb] == old_us[b].storers[okb]);
                        }
                    }
                    assert forall|q: int| 0 <= q < post.manifests.len()
                        implies manifest_wf(#[trigger] post.manifests[q]) by {
                        if q != i {
                            assert(post.manifests[q] == s.manifests[q]);
                        }
                    }
                    assert(store_wf(post));
                }
            }
        }
    }
}

pub proof fn lemma_update_preserves_wf(s: StoreView, account: Seq<char>, cid: Seq<char>, pool_id: int, active_days: int, active_cycles: int, missed_cycles: int)
    requires
        store_wf(s),
    ensures
        store_wf(update_post(s, account, cid, pool_id, active_days, active_cycles, missed_cycles)),
{
    let post = update_post(s, account, cid, pool_id, active_days, active_cycles, missed_cycles);
    lemma_find_storer_data_from_props(s.storer_data, pool_id, account, cid, 0);
    match find_storer_data(s.storer_data, pool_id, account, cid) {
        Some(i) => {
            assert forall|q1: int, q2: int|
                0 <= q1 < post.storer_data.len() && 0 <= q2 < post.storer_data.len() && q1 != q2
                    implies !((#[trigger] post.storer_data[q1]).pool_id
                        == (#[trigger] post.storer_data[q2]).pool_id
                        && post.storer_data[q1].account == post.storer_data[q2].account
                        && post.storer_data[q1].cid == post.storer_data[q2].cid) by {
                assert(post.storer_data[q1].pool_id == s.storer_data[q1].pool_id
                    && post.storer_data[q1].account == s.storer_data[q1].account
                    && post.storer_data[q1].cid == s.storer_data[q1].cid);
                assert(post.storer_data[q2].pool_id == s.storer_data[q2].pool_id
                    && post.storer_data[q2].account == s.storer_data[q2].account
                    && post.storer_data[q2].cid == s.storer_data[q2].cid);
            }
            assert(store_wf(post));
        }
        None => {
            let n = s.storer_data.len() as int;
            assert forall|q1: int, q2: int|
                0 <= q1 < post.storer_data.len() && 0 <= q2 < post.storer_data.len() && q1 != q2
                    implies !((#[trigger] post.storer_data[q1]).pool_id
                        == (#[trigger] post.storer_data[q2]).pool_id
                        && post.storer_data[q1].account == post.storer_data[q2].account
                        && post.storer_data[q1].cid == post.storer_data[q2].cid) by {
                if q1 < n && q2 < n {
                    assert(post.storer_data[q1] == s.storer_data[q1]);
                    assert(post.storer_data[q2] == s.storer_data[q2]);
                } else if q1 == n {
                    assert(post.storer_data[q2] == s.storer_data[q2]);
                } else {
                    assert(post.storer_data[q1] == s.storer_data[q1]);
                }
            }
            assert(store_wf(post));
        }
    }
}

} // verus!
