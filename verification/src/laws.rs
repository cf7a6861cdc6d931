//! Laws of the manifest engine, proved once and for all over the model's
//! transition functions (the same spec functions that the executable
//! methods' contracts are stated against).

use vstd::prelude::*;

use crate::model::{
    ever_claimed, filter_manifests, filter_manifests_upto, find_holder, find_manifest,
    find_uploader, first_open, index_of_storer, lemma_find_holder_from_props,
    lemma_find_manifest_from_props, lemma_find_uploader_from_props, lemma_first_open_from_props,
    lemma_index_of_storer_from_props, live_claim, manifest_claim, manifest_release, new_uploader,
    recorded_claim, remove_ok, remove_post, store_wf, upload_ok, upload_post, uploader_claim,
    uploader_committed, uploader_release, ManifestView, SlotOp, StoreView, UploaderView,
};

verus! {

// ---------------------------------------------------------------------------
// Shared helper: in a well-formed store the manifest key pins the index.
// ---------------------------------------------------------------------------

proof fn lemma_find_manifest_unique(s: StoreView, pool_id: int, cid: Seq<char>, i: int)
    requires
        store_wf(s),
        0 <= i < s.manifests.len(),
        s.manifests[i].pool_id == pool_id,
        s.manifests[i].cid == cid,
    ensures
        find_manifest(s.manifests, pool_id, cid) == Some(i),
{
    lemma_find_manifest_from_props(s.manifests, pool_id, cid, 0);
    match find_manifest(s.manifests, pool_id, cid) {
        None => {
            assert(!(s.manifests[i].pool_id == pool_id && s.manifests[i].cid == cid));
        }
        Some(t) => {
            if t != i {
                assert(s.manifests[t].pool_id == s.manifests[i].pool_id
                    && s.manifests[t].cid == s.manifests[i].cid);
            }
        }
    }
}

// ---------------------------------------------------------------------------
// Law: re-uploading is refused, other uploaders are not.
//
// After an upload of `(pool_id, cid)` by `uploader`, a second upload of the
// same triple is refused (it would fail with `DuplicateUpload`), while an
// upload of the same `(pool_id, cid)` by any other account that has not
// itself uploaded it succeeds independently.
// ---------------------------------------------------------------------------

pub proof fn lemma_upload_conflict(s: StoreView, uploader: Seq<char>, other: Seq<char>, cid: Seq<char>, pool_id: int, metadata: Seq<char>, rf: int)
    requires
        store_wf(s),
        upload_ok(s, uploader, cid, pool_id),
        0 <= rf <= u16::MAX,
    ensures
        !upload_ok(upload_post(s, uploader, cid, pool_id, metadata, rf), uploader, cid, pool_id),
        other != uploader && upload_ok(s, other, cid, pool_id)
            ==> upload_ok(upload_post(s, uploader, cid, pool_id, metadata, rf), other, cid, pool_id),
{
    let post = upload_post(s, uploader, cid, pool_id, metadata, rf);
    crate::model::lemma_upload_preserves_wf(s, uploader, cid, pool_id, metadata, rf);
    lemma_find_manifest_from_props(s.manifests, pool_id, cid, 0);
    match find_manifest(s.manifests, pool_id, cid) {
        Some(i) => {
            lemma_find_uploader_from_props(s.manifests[i].uploaders, uploader, 0);
            lemma_find_manifest_unique(post, pool_id, cid, i);
            let us = post.manifests[i].uploaders;
            let n = s.manifests[i].uploaders.len() as int;
            assert(us[n].uploader == uploader);
            lemma_find_uploader_from_props(us, uploader, 0);
            assert(find_uploader(us, uploader) is Some);
            if other != uploader && upload_ok(s, other, cid, pool_id) {
                lemma_find_uploader_from_props(s.manifests[i].uploaders, other, 0);
                lemma_find_uploader_from_props(us, other, 0);
                match find_uploader(us, other) {
                    Some(t) => {
                        if t < n {
                            assert(s.manifests[i].uploaders[t].uploader == other);
                        }
                        assert(false);
                    }
                    None => {}
                }
            }
        }
        None => {
            let n = s.manifests.len() as int;
            assert(post.manifests[n].pool_id == pool_id && post.manifests[n].cid == cid);
            lemma_find_manifest_unique(post, pool_id, cid, n);
            let us = post.manifests[n].uploaders;
            assert(us == seq![new_uploader(uploader, rf)]);
            assert(us[0].uploader == uploader);
            lemma_find_uploader_from_props(us, uploader, 0);
            assert(find_uploader(us, uploader) is Some);
            if other != uploader {
                lemma_find_uploader_from_props(us, other, 0);
                match find_uploader(us, other) {
                    Some(t) => {
                        assert(us[t].uploader == other);
                        assert(false);
                    }
                    None => {}
                }
            }
        }
    }
}

// ---------------------------------------------------------------------------
// Law: slot balance of one uploader entry.
//
// `uploader_claim` and `uploader_release` are exactly what `claim_post` and
// `release_post` apply to the chosen uploader entry.  Over any history of
// successful claims (an open slot, a fresh storer) and successful releases
// (a storer that held a slot) starting from a fresh entry with replication
// factor `r`, the open slots equal `r - claims + releases`, never negative
// and never above `r`.
// ---------------------------------------------------------------------------

/// How many of the operations are claims.
pub open spec fn count_claims(ops: Seq<SlotOp>) -> int
    decreases ops.len(),
{
    if ops.len() == 0 {
        0
    } else {
        (if ops[0].is_claim { 1int } else { 0int }) + count_claims(ops.drop_first())
    }
}

/// How many of the operations are releases.
pub open spec fn count_releases(ops: Seq<SlotOp>) -> int
    decreases ops.len(),
{
    if ops.len() == 0 {
        0
    } else {
        (if ops[0].is_claim { 0int } else { 1int }) + count_releases(ops.drop_first())
    }
}

/// One entry's state after a history of slot operations.
pub open spec fn apply_slot_ops(u: UploaderView, ops: Seq<SlotOp>) -> UploaderView
    decreases ops.len(),
{
    if ops.len() == 0 {
        u
    } else {
        let u1 = if ops[0].is_claim {
            uploader_claim(u, ops[0].storer)
        } else {
            uploader_release(u, ops[0].storer)
        };
        apply_slot_ops(u1, ops.drop_first())
    }
}

/// Every operation of the history succeeds: a claim finds an open slot and a
/// storer not yet holding one, a release finds the storer holding one.
pub open spec fn slot_ops_ok(u: UploaderView, ops: Seq<SlotOp>) -> bool
    decreases ops.len(),
{
    if ops.len() == 0 {
        true
    } else {
        let ok0 = if ops[0].is_claim {
            u.replication_available > 0 && !u.storers.contains(ops[0].storer)
        } else {
            u.storers.contains(ops[0].storer)
        };
        let u1 = if ops[0].is_claim {
            uploader_claim(u, ops[0].storer)
        } else {
            uploader_release(u, ops[0].storer)
        };
        ok0 && slot_ops_ok(u1, ops.drop_first())
    }
}

proof fn lemma_slot_ops_preserve_committed(u: UploaderView, ops: Seq<SlotOp>)
    requires
        slot_ops_ok(u, ops),
        u.replication_available >= 0,
    ensures
        uploader_committed(apply_slot_ops(u, ops)) == uploader_committed(u),
        apply_slot_ops(u, ops).replication_available >= 0,
        apply_slot_ops(u, ops).storers.len() == u.storers.len() + count_claims(ops) - count_releases(ops),
    decreases ops.len(),
{
    if ops.len() > 0 {
        let u1 = if ops[0].is_claim {
            uploader_claim(u, ops[0].storer)
        } else {
            uploader_release(u, ops[0].storer)
        };
        if !ops[0].is_claim {
            lemma_index_of_storer_from_props(u.storers, ops[0].storer, 0);
            match index_of_storer(u.storers, ops[0].storer) {
                Some(k) => {}
                None => {
                    let w = choose|w: int| 0 <= w < u.storers.len() && u.storers[w] == ops[0].storer;
                    assert(u.storers[w] == ops[0].storer);
                    assert(false);
                }
            }
        }
        lemma_slot_ops_preserve_committed(u1, ops.drop_first());
    }
}

pub proof fn lemma_replication_balance(uploader: Seq<char>, r: int, ops: Seq<SlotOp>)
    requires
        r >= 0,
        slot_ops_ok(new_uploader(uploader, r), ops),
    ensures
        apply_slot_ops(new_uploader(uploader, r), ops).replication_available
            == r - count_claims(ops) + count_releases(ops),
        0 <= apply_slot_ops(new_uploader(uploader, r), ops).replication_available <= r,
{
    let u0 = new_uploader(uploader, r);
    lemma_slot_ops_preserve_committed(u0, ops);
    let u1 = apply_slot_ops(u0, ops);
    assert(u1.storers.len() + u1.replication_available == r);
}

// ---------------------------------------------------------------------------
// Law: claims never exceed the committed total of a manifest.
//
// `manifest_claim` and `manifest_release` are exactly what `claim_post` and
// `release_post` apply to the chosen manifest.  Over any history of claims
// and releases on a manifest whose uploader entries all start without
// storers, the total of concurrently claimed storers, across all uploader
// entries, never exceeds the sum of the entries' original replication
// factors.
// ---------------------------------------------------------------------------

/// Total storers claimed across a manifest's uploader entries.
pub open spec fn total_storers(us: Seq<UploaderView>) -> int
    decreases us.len(),
{
    if us.len() == 0 {
        0
    } else {
        total_storers(us.drop_last()) + us.last().storers.len()
    }
}

/// Total committed slots (claimed plus open) across the entries.
pub open spec fn total_committed(us: Seq<UploaderView>) -> int
    decreases us.len(),
{
    if us.len() == 0 {
        0
    } else {
        total_committed(us.drop_last()) + uploader_committed(us.last())
    }
}

/// A manifest's state after a history of slot operations.
pub open spec fn apply_manifest_ops(m: ManifestView, ops: Seq<SlotOp>) -> ManifestView
    decreases ops.len(),
{
    if ops.len() == 0 {
        m
    } else {
        let m1 = if ops[0].is_claim {
            manifest_claim(m, ops[0].storer)
        } else {
            manifest_release(m, ops[0].storer)
        };
        apply_manifest_ops(m1, ops.drop_first())
    }
}

/// Every claim of the history succeeds (a slot is open, the storer is new);
/// a release may be the lenient no-op.
pub open spec fn manifest_ops_ok(m: ManifestView, ops: Seq<SlotOp>) -> bool
    decreases ops.len(),
{
    if ops.len() == 0 {
        true
    } else {
        let ok0 = if ops[0].is_claim {
            find_holder(m.uploaders, ops[0].storer) is None && first_open(m.uploaders) is Some
        } else {
            true
        };
        let m1 = if ops[0].is_claim {
            manifest_claim(m, ops[0].storer)
        } else {
            manifest_release(m, ops[0].storer)
        };
        ok0 && manifest_ops_ok(m1, ops.drop_first())
    }
}

proof fn lemma_total_storers_update(us: Seq<UploaderView>, j: int, u2: UploaderView)
    requires
        0 <= j < us.len(),
    ensures
        total_storers(us.update(j, u2))
            == total_storers(us) - us[j].storers.len() + u2.storers.len(),
    decreases us.len(),
{
    if j == us.len() - 1 {
        assert(us.update(j, u2).drop_last() =~= us.drop_last());
    } else {
        assert(us.update(j, u2).drop_last() =~= us.drop_last().update(j, u2));
        lemma_total_storers_update(us.drop_last(), j, u2);
    }
}

proof fn lemma_total_committed_update(us: Seq<UploaderView>, j: int, u2: UploaderView)
    requires
        0 <= j < us.len(),
    ensures
        total_committed(us.update(j, u2))
            == total_committed(us) - uploader_committed(us[j]) + uploader_committed(u2),
    decreases us.len(),
{
    if j == us.len() - 1 {
        assert(us.update(j, u2).drop_last() =~= us.drop_last());
    } else {
        assert(us.update(j, u2).drop_last() =~= us.drop_last().update(j, u2));
        lemma_total_committed_update(us.drop_last(), j, u2);
    }
}

proof fn lemma_total_storers_le_committed(us: Seq<UploaderView>)
    requires
        forall|q: int| 0 <= q < us.len() ==> (#[trigger] us[q]).replication_available >= 0,
    ensures
        total_storers(us) <= total_committed(us),
    decreases us.len(),
{
    if us.len() > 0 {
        assert(forall|q: int|
            0 <= q < us.drop_last().len() ==> (#[trigger] us.drop_last()[q]).replication_available >= 0);
        lemma_total_storers_le_committed(us.drop_last());
        assert(us.last().replication_available >= 0);
    }
}

proof fn lemma_manifest_ops_preserve(m: ManifestView, ops: Seq<SlotOp>)
    requires
        manifest_ops_ok(m, ops),
        forall|q: int| 0 <= q < m.uploaders.len() ==> (#[trigger] m.uploaders[q]).replication_available >= 0,
    ensures
        total_committed(apply_manifest_ops(m, ops).uploaders) == total_committed(m.uploaders),
        forall|q: int|
            0 <= q < apply_manifest_ops(m, ops).uploaders.len()
                ==> (#[trigger] apply_manifest_ops(m, ops).uploaders[q]).replication_available >= 0,
        apply_manifest_ops(m, ops).uploaders.len() == m.uploaders.len(),
    decreases ops.len(),
{
    if ops.len() > 0 {
        let m1 = if ops[0].is_claim {
            manifest_claim(m, ops[0].storer)
        } else {
            manifest_release(m, ops[0].storer)
        };
        if ops[0].is_claim {
            lemma_first_open_from_props(m.uploaders, 0);
            let j = first_open(m.uploaders)->Some_0;
            let u2 = uploader_claim(m.uploaders[j], ops[0].storer);
            lemma_total_committed_update(m.uploaders, j, u2);
            assert(forall|q: int|
                0 <= q < m1.uploaders.len()
                    ==> (#[trigger] m1.uploaders[q]).replication_available >= 0) by {
                assert(m.uploaders[j].replication_available > 0);
            }
        } else {
            match find_holder(m.uploaders, ops[0].storer) {
                None => {
                    assert(m1 == m);
                }
                Some(j) => {
                    lemma_find_holder_from_props(m.uploaders, ops[0].storer, 0);
                    let u2 = uploader_release(m.uploaders[j], ops[0].storer);
                    lemma_total_committed_update(m.uploaders, j, u2);
                    lemma_index_of_storer_from_props(m.uploaders[j].storers, ops[0].storer, 0);
                    match index_of_storer(m.uploaders[j].storers, ops[0].storer) {
                        Some(k) => {}
                        None => {
                            let w = choose|w: int|
                                0 <= w < m.uploaders[j].storers.len()
                                    && m.uploaders[j].storers[w] == ops[0].storer;
                            assert(m.uploaders[j].storers[w] == ops[0].storer);
                            assert(false);
                        }
                    }
                    assert(forall|q: int|
                        0 <= q < m1.uploaders.len()
                            ==> (#[trigger] m1.uploaders[q]).replication_available >= 0);
                }
            }
        }
        lemma_manifest_ops_preserve(m1, ops.drop_first());
    }
}

pub proof fn lemma_claims_bounded(m: ManifestView, ops: Seq<SlotOp>)
    requires
        manifest_ops_ok(m, ops),
        forall|q: int| 0 <= q < m.uploaders.len() ==> (#[trigger] m.uploaders[q]).storers.len() == 0,
        forall|q: int| 0 <= q < m.uploaders.len() ==> (#[trigger] m.uploaders[q]).replication_available >= 0,
    ensures
        // With no storers at the start, the committed total is exactly the
        // sum of the entries' original replication factors; no history of
        // claims and releases pushes the claimed total above it.
        total_storers(apply_manifest_ops(m, ops).uploaders) <= total_committed(m.uploaders),
        total_committed(apply_manifest_ops(m, ops).uploaders) == total_committed(m.uploaders),
{
    lemma_manifest_ops_preserve(m, ops);
    lemma_total_storers_le_committed(apply_manifest_ops(m, ops).uploaders);
}

// ---------------------------------------------------------------------------
// Law: removing the sole uploader entry removes the manifest from every
// later listing.
// ---------------------------------------------------------------------------

proof fn lemma_filter_manifests_elements(ms: Seq<ManifestView>, pf: Option<int>, uf: Option<Seq<char>>, sf: Option<Seq<char>>, k: int)
    requires
        0 <= k <= ms.len(),
    ensures
        forall|t: int|
            0 <= t < filter_manifests_upto(ms, pf, uf, sf, k).len()
                ==> exists|q: int|
                    0 <= q < k && #[trigger] filter_manifests_upto(ms, pf, uf, sf, k)[t] == ms[q],
    decreases k,
{
    if k > 0 {
        lemma_filter_manifests_elements(ms, pf, uf, sf, k - 1);
        let fil = filter_manifests_upto(ms, pf, uf, sf, k);
        let prev = filter_manifests_upto(ms, pf, uf, sf, k - 1);
        assert forall|t: int| 0 <= t < fil.len()
            implies exists|q: int| 0 <= q < k && #[trigger] fil[t] == ms[q] by {
            if t < prev.len() {
                assert(fil[t] == prev[t]);
                let q = choose|q: int| 0 <= q < k - 1 && prev[t] == ms[q];
                assert(fil[t] == ms[q]);
            } else {
                assert(fil[t] == ms[k - 1]);
            }
        }
    }
}

/// Law: after `remove` takes the sole remaining uploader entry off a
/// manifest, no `get_all_manifests` listing, under any filters, contains a
/// manifest keyed `(pool_id, cid)` any more.
pub proof fn lemma_removed_sole_uploader_not_listed(s: StoreView, uploader: Seq<char>, cid: Seq<char>, pool_id: int, pf: Option<int>, uf: Option<Seq<char>>, sf: Option<Seq<char>>)
    requires
        store_wf(s),
        remove_ok(s, uploader, cid, pool_id),
        s.manifests[find_manifest(s.manifests, pool_id, cid)->Some_0].uploaders.len() == 1,
    ensures
        ({
            let listed = filter_manifests(remove_post(s, uploader, cid, pool_id).manifests, pf, uf, sf);
            forall|t: int|
                0 <= t < listed.len()
                    ==> !((#[trigger] listed[t]).pool_id == pool_id && listed[t].cid == cid)
        }),
{
    lemma_find_manifest_from_props(s.manifests, pool_id, cid, 0);
    let i = find_manifest(s.manifests, pool_id, cid)->Some_0;
    let post = remove_post(s, uploader, cid, pool_id);
    assert(post.manifests == s.manifests.remove(i));
    assert forall|q: int| 0 <= q < post.manifests.len()
        implies !((#[trigger] post.manifests[q]).pool_id == pool_id
            && post.manifests[q].cid == cid) by {
        let o: int = if q < i { q } else { q + 1 };
        assert(post.manifests[q] == s.manifests[o]);
        assert(o != i);
    }
    lemma_filter_manifests_elements(post.manifests, pf, uf, sf, post.manifests.len() as int);
    let listed = filter_manifests(post.manifests, pf, uf, sf);
    assert forall|t: int| 0 <= t < listed.len()
        implies !((#[trigger] listed[t]).pool_id == pool_id && listed[t].cid == cid) by {
        let q = choose|q: int| 0 <= q < post.manifests.len() && listed[t] == post.manifests[q];
        assert(listed[t] == post.manifests[q]);
    }
}

// ---------------------------------------------------------------------------
// Law: `verify` is a partition.
//
// `verify_manifest` returns the cids with a live claim as `valid_manifests`
// and the cids only an accounting record still names as `invalid_manifests`
// (each list an iff, without repeats).  Those two sets split the cids the
// storer has ever observably claimed exactly: each such cid is in one of the
// two and none is in both.
// ---------------------------------------------------------------------------

pub proof fn lemma_verify_partition(s: StoreView, storer: Seq<char>, cid: Seq<char>)
    ensures
        ever_claimed(s, storer, cid) <==> (live_claim(s, storer, cid)
            || (recorded_claim(s, storer, cid) && !live_claim(s, storer, cid))),
        !(live_claim(s, storer, cid)
            && (recorded_claim(s, storer, cid) && !live_claim(s, storer, cid))),
{
}

} // verus!
