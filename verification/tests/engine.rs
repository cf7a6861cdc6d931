use sugarfunge_fula::api::{
    BatchRemoveManifestInput, BatchRemoveStoringManifestInput, BatchStorageManifestInput,
    BatchUploadManifestInput, GetAllManifestsInput, GetAllManifestsStorerDataInput,
    GetAvailableManifestsInput, RemoveManifestInput, RemoveStoringManifestInput,
    StorageManifestInput, UpdateManifestInput, UploadManifestInput,
};
use sugarfunge_fula::ledger::ManifestLedger;
use sugarfunge_fula::types::{Account, Cid, FulaError, PoolId, ReplicationFactor, Seed};

fn acct(s: &str) -> Account {
    Account { value: s.to_string() }
}

fn cid(s: &str) -> Cid {
    Cid { value: s.to_string() }
}

fn seed(s: &str) -> Seed {
    Seed { value: s.to_string() }
}

fn pool(p: u32) -> PoolId {
    PoolId { value: p }
}

fn rf(r: u16) -> ReplicationFactor {
    ReplicationFactor { value: r }
}

fn upload_input(c: &str, p: u32, r: u16) -> UploadManifestInput {
    UploadManifestInput {
        seed: seed("//seed"),
        manifest_metadata: format!("{{\"job\":{{\"uri\":\"{}\"}}}}", c),
        cid: cid(c),
        pool_id: pool(p),
        replication_factor: rf(r),
    }
}

fn storage_input(c: &str, p: u32) -> StorageManifestInput {
    StorageManifestInput { seed: seed("//seed"), cid: cid(c), pool_id: pool(p) }
}

fn remove_input(c: &str, p: u32) -> RemoveManifestInput {
    RemoveManifestInput { seed: seed("//seed"), cid: cid(c), pool_id: pool(p) }
}

fn release_input(c: &str, p: u32) -> RemoveStoringManifestInput {
    RemoveStoringManifestInput { seed: seed("//seed"), cid: cid(c), pool_id: pool(p) }
}

fn update_input(c: &str, p: u32, days: i32, active: u16, missed: u16) -> UpdateManifestInput {
    UpdateManifestInput {
        seed: seed("//seed"),
        cid: cid(c),
        pool_id: pool(p),
        active_days: days,
        active_cycles: active,
        missed_cycles: missed,
    }
}

fn all_manifests(l: &ManifestLedger) -> Vec<sugarfunge_fula::api::Manifest> {
    l.get_all_manifests(&GetAllManifestsInput { pool_id: None, uploader: None, storer: None })
        .manifests
}

#[test]
fn upload_creates_manifest_with_empty_storers() {
    let mut l = ManifestLedger::new();
    let out = l.upload_manifest(&acct("A"), &upload_input("abc", 1, 2)).unwrap();
    assert_eq!(out.uploader.value, "A");
    assert!(out.storers.is_empty());
    assert_eq!(out.pool_id, pool(1));
    let ms = all_manifests(&l);
    assert_eq!(ms.len(), 1);
    assert_eq!(ms[0].uploaders.len(), 1);
    assert_eq!(ms[0].uploaders[0].uploader.value, "A");
    assert_eq!(ms[0].uploaders[0].replication_available, rf(2));
    assert!(ms[0].size.is_none());
}

#[test]
fn duplicate_upload_fails_other_uploader_succeeds() {
    let mut l = ManifestLedger::new();
    l.upload_manifest(&acct("A"), &upload_input("abc", 1, 2)).unwrap();
    let again = l.upload_manifest(&acct("A"), &upload_input("abc", 1, 2));
    assert_eq!(again.unwrap_err(), FulaError::DuplicateUpload);
    // A different uploader registers the same (pool, cid) independently.
    let other = l.upload_manifest(&acct("B"), &upload_input("abc", 1, 3));
    assert!(other.is_ok());
    let ms = all_manifests(&l);
    assert_eq!(ms.len(), 1);
    assert_eq!(ms[0].uploaders.len(), 2);
    assert_eq!(ms[0].uploaders[0].uploader.value, "A");
    assert_eq!(ms[0].uploaders[1].uploader.value, "B");
}

#[test]
fn replication_balance_after_claims_and_releases() {
    // r = 3, n = 2 claims, m = 1 release: available must be 3 - 2 + 1 = 2.
    let mut l = ManifestLedger::new();
    l.upload_manifest(&acct("A"), &upload_input("abc", 1, 3)).unwrap();
    l.storage_manifest(&acct("X"), &storage_input("abc", 1)).unwrap();
    l.storage_manifest(&acct("Y"), &storage_input("abc", 1)).unwrap();
    let rel = l.remove_stored_manifest(&acct("X"), &release_input("abc", 1)).unwrap();
    assert_eq!(rel.storer.unwrap().value, "X");
    let ms = all_manifests(&l);
    assert_eq!(ms[0].uploaders[0].replication_available, rf(2));
    assert_eq!(ms[0].uploaders[0].storers.len(), 1);
    assert_eq!(ms[0].uploaders[0].storers[0].value, "Y");
    // A release by a storer that holds nothing is the lenient no-op: it
    // succeeds with an empty storer field and does not over-increment.
    let noop = l.remove_stored_manifest(&acct("Z"), &release_input("abc", 1)).unwrap();
    assert!(noop.storer.is_none());
    let ms = all_manifests(&l);
    assert_eq!(ms[0].uploaders[0].replication_available, rf(2));
}

#[test]
fn claim_slots_exhausted() {
    // upload(pool=1, cid="abc", uploader=A, replication=2), claims by X and
    // Y succeed, the claim by Z fails with NoAvailableSlot.
    let mut l = ManifestLedger::new();
    l.upload_manifest(&acct("A"), &upload_input("abc", 1, 2)).unwrap();
    l.storage_manifest(&acct("X"), &storage_input("abc", 1)).unwrap();
    l.storage_manifest(&acct("Y"), &storage_input("abc", 1)).unwrap();
    let third = l.storage_manifest(&acct("Z"), &storage_input("abc", 1));
    assert_eq!(third.unwrap_err(), FulaError::NoAvailableSlot);
}

#[test]
fn claims_never_exceed_total_replication() {
    // Two uploaders with factor 1 each: two claims fill the manifest, the
    // third fails whoever asks.
    let mut l = ManifestLedger::new();
    l.upload_manifest(&acct("A"), &upload_input("abc", 1, 1)).unwrap();
    l.upload_manifest(&acct("B"), &upload_input("abc", 1, 1)).unwrap();
    l.storage_manifest(&acct("X"), &storage_input("abc", 1)).unwrap();
    l.storage_manifest(&acct("Y"), &storage_input("abc", 1)).unwrap();
    let third = l.storage_manifest(&acct("Z"), &storage_input("abc", 1));
    assert_eq!(third.unwrap_err(), FulaError::NoAvailableSlot);
    let ms = all_manifests(&l);
    let total: usize = ms[0].uploaders.iter().map(|u| u.storers.len()).sum();
    assert_eq!(total, 2);
}

#[test]
fn claim_goes_to_first_uploader_in_insertion_order() {
    let mut l = ManifestLedger::new();
    l.upload_manifest(&acct("A"), &upload_input("abc", 1, 1)).unwrap();
    l.upload_manifest(&acct("B"), &upload_input("abc", 1, 1)).unwrap();
    l.storage_manifest(&acct("X"), &storage_input("abc", 1)).unwrap();
    let ms = all_manifests(&l);
    assert_eq!(ms[0].uploaders[0].uploader.value, "A");
    assert_eq!(ms[0].uploaders[0].storers.len(), 1);
    assert_eq!(ms[0].uploaders[0].storers[0].value, "X");
    assert_eq!(ms[0].uploaders[1].storers.len(), 0);
}

#[test]
fn duplicate_claim_fails() {
    let mut l = ManifestLedger::new();
    l.upload_manifest(&acct("A"), &upload_input("abc", 1, 2)).unwrap();
    l.storage_manifest(&acct("X"), &storage_input("abc", 1)).unwrap();
    let again = l.storage_manifest(&acct("X"), &storage_input("abc", 1));
    assert_eq!(again.unwrap_err(), FulaError::AlreadyStoring);
}

#[test]
fn claim_on_missing_manifest_fails() {
    let mut l = ManifestLedger::new();
    let r = l.storage_manifest(&acct("X"), &storage_input("abc", 1));
    assert_eq!(r.unwrap_err(), FulaError::ManifestNotFound);
}

#[test]
fn upload_then_remove_leaves_pool_without_available() {
    // upload then immediate remove by the same uploader: the pool has no
    // available manifests left.
    let mut l = ManifestLedger::new();
    l.upload_manifest(&acct("A"), &upload_input("abc", 1, 2)).unwrap();
    l.remove_manifest(&acct("A"), &remove_input("abc", 1)).unwrap();
    let av = l.get_available_manifests(&GetAvailableManifestsInput { pool_id: Some(pool(1)) });
    assert!(av.manifests.is_empty());
}

#[test]
fn remove_sole_uploader_omits_manifest_from_listings() {
    let mut l = ManifestLedger::new();
    l.upload_manifest(&acct("A"), &upload_input("abc", 1, 2)).unwrap();
    l.upload_manifest(&acct("A"), &upload_input("def", 1, 2)).unwrap();
    l.remove_manifest(&acct("A"), &remove_input("abc", 1)).unwrap();
    let ms = all_manifests(&l);
    assert_eq!(ms.len(), 1);
    assert!(ms[0].manifest_metadata.contains("def"));
}

#[test]
fn remove_keeps_manifest_while_other_uploaders_remain() {
    let mut l = ManifestLedger::new();
    l.upload_manifest(&acct("A"), &upload_input("abc", 1, 2)).unwrap();
    l.upload_manifest(&acct("B"), &upload_input("abc", 1, 2)).unwrap();
    l.remove_manifest(&acct("A"), &remove_input("abc", 1)).unwrap();
    let ms = all_manifests(&l);
    assert_eq!(ms.len(), 1);
    assert_eq!(ms[0].uploaders.len(), 1);
    assert_eq!(ms[0].uploaders[0].uploader.value, "B");
}

#[test]
fn remove_without_matching_uploader_fails() {
    let mut l = ManifestLedger::new();
    l.upload_manifest(&acct("A"), &upload_input("abc", 1, 2)).unwrap();
    let r = l.remove_manifest(&acct("B"), &remove_input("abc", 1));
    assert_eq!(r.unwrap_err(), FulaError::ManifestNotFound);
    let missing = l.remove_manifest(&acct("A"), &remove_input("zzz", 1));
    assert_eq!(missing.unwrap_err(), FulaError::ManifestNotFound);
}

#[test]
fn update_manifest_twice_accumulates_cycles_overwrites_days() {
    // Two updates with active_cycles = 1 each: the stored record ends with
    // active_cycles = 2, active_days = 5 (last write wins), missed = 0.
    let mut l = ManifestLedger::new();
    l.upload_manifest(&acct("A"), &upload_input("abc", 1, 2)).unwrap();
    l.update_manifest(&acct("X"), &update_input("abc", 1, 5, 1, 0)).unwrap();
    let out = l.update_manifest(&acct("X"), &update_input("abc", 1, 5, 1, 0)).unwrap();
    assert_eq!(out.active_cycles, 2);
    assert_eq!(out.active_days, 5);
    assert_eq!(out.missed_cycles, 0);
    let data = l
        .get_all_manifests_storer_data(&GetAllManifestsStorerDataInput {
            pool_id: Some(pool(1)),
            storer: Some(acct("X")),
        })
        .manifests;
    assert_eq!(data.len(), 1);
    assert_eq!(data[0].active_cycles, 2);
    assert_eq!(data[0].active_days, 5);
    assert_eq!(data[0].missed_cycles, 0);
}

#[test]
fn update_manifest_overwrites_days_with_negative_value() {
    let mut l = ManifestLedger::new();
    l.upload_manifest(&acct("A"), &upload_input("abc", 1, 2)).unwrap();
    l.update_manifest(&acct("X"), &update_input("abc", 1, 7, 1, 1)).unwrap();
    let out = l.update_manifest(&acct("X"), &update_input("abc", 1, -3, 0, 1)).unwrap();
    assert_eq!(out.active_days, -3);
    assert_eq!(out.active_cycles, 1);
    assert_eq!(out.missed_cycles, 2);
}

#[test]
fn update_manifest_cycles_saturate() {
    let mut l = ManifestLedger::new();
    l.upload_manifest(&acct("A"), &upload_input("abc", 1, 2)).unwrap();
    l.update_manifest(&acct("X"), &update_input("abc", 1, 1, u16::MAX, 0)).unwrap();
    let out = l.update_manifest(&acct("X"), &update_input("abc", 1, 1, 1, 0)).unwrap();
    assert_eq!(out.active_cycles, u16::MAX);
}

#[test]
fn update_manifest_without_manifest_fails() {
    let mut l = ManifestLedger::new();
    let r = l.update_manifest(&acct("X"), &update_input("abc", 1, 5, 1, 0));
    assert_eq!(r.unwrap_err(), FulaError::ManifestNotFound);
}

#[test]
fn verify_partitions_claims_into_valid_and_invalid() {
    let mut l = ManifestLedger::new();
    l.upload_manifest(&acct("A"), &upload_input("live", 1, 2)).unwrap();
    l.upload_manifest(&acct("A"), &upload_input("gone", 1, 2)).unwrap();
    l.storage_manifest(&acct("X"), &storage_input("live", 1)).unwrap();
    l.storage_manifest(&acct("X"), &storage_input("gone", 1)).unwrap();
    l.update_manifest(&acct("X"), &update_input("live", 1, 1, 1, 0)).unwrap();
    l.update_manifest(&acct("X"), &update_input("gone", 1, 1, 1, 0)).unwrap();
    // The uploader pulls "gone" out from under the storer.
    l.remove_manifest(&acct("A"), &remove_input("gone", 1)).unwrap();
    let out = l.verify_manifest(&acct("X"));
    assert_eq!(out.storer.value, "X");
    let valid: Vec<&str> = out.valid_manifests.iter().map(|c| c.value.as_str()).collect();
    let invalid: Vec<&str> = out.invalid_manifests.iter().map(|c| c.value.as_str()).collect();
    assert_eq!(valid, vec!["live"]);
    assert_eq!(invalid, vec!["gone"]);
    // Partition: no cid in both lists.
    for v in &valid {
        assert!(!invalid.contains(v));
    }
}

#[test]
fn verify_reports_nothing_for_unknown_storer() {
    let mut l = ManifestLedger::new();
    l.upload_manifest(&acct("A"), &upload_input("abc", 1, 2)).unwrap();
    let out = l.verify_manifest(&acct("X"));
    assert!(out.valid_manifests.is_empty());
    assert!(out.invalid_manifests.is_empty());
}

#[test]
fn batch_upload_applies_all_elements() {
    let mut l = ManifestLedger::new();
    let out = l
        .batch_upload_manifest(
            &acct("A"),
            &BatchUploadManifestInput {
                seed: seed("//seed"),
                manifest_metadata: vec!["m1".to_string(), "m2".to_string()],
                cid: vec![cid("c1"), cid("c2")],
                pool_id: vec![pool(1), pool(2)],
                replication_factor: vec![rf(1), rf(2)],
            },
        )
        .unwrap();
    assert_eq!(out.uploader.value, "A");
    assert_eq!(out.pool_id, vec![pool(1), pool(2)]);
    assert_eq!(out.manifest_metadata, vec!["m1".to_string(), "m2".to_string()]);
    assert_eq!(all_manifests(&l).len(), 2);
}

#[test]
fn batch_upload_is_atomic() {
    // The second element repeats the first triple: the whole batch must be
    // rolled back, including the first element.
    let mut l = ManifestLedger::new();
    let r = l.batch_upload_manifest(
        &acct("A"),
        &BatchUploadManifestInput {
            seed: seed("//seed"),
            manifest_metadata: vec!["m1".to_string(), "m1".to_string()],
            cid: vec![cid("c1"), cid("c1")],
            pool_id: vec![pool(1), pool(1)],
            replication_factor: vec![rf(1), rf(1)],
        },
    );
    assert_eq!(r.unwrap_err(), FulaError::DuplicateUpload);
    assert!(all_manifests(&l).is_empty());
}

#[test]
fn batch_remove_is_atomic() {
    let mut l = ManifestLedger::new();
    l.upload_manifest(&acct("A"), &upload_input("c1", 1, 1)).unwrap();
    let r = l.batch_remove_manifest(
        &acct("A"),
        &BatchRemoveManifestInput {
            seed: seed("//seed"),
            pool_id: vec![pool(1), pool(1)],
            cid: vec![cid("c1"), cid("missing")],
        },
    );
    assert_eq!(r.unwrap_err(), FulaError::ManifestNotFound);
    // The first removal was rolled back.
    assert_eq!(all_manifests(&l).len(), 1);
    let ok = l.batch_remove_manifest(
        &acct("A"),
        &BatchRemoveManifestInput {
            seed: seed("//seed"),
            pool_id: vec![pool(1)],
            cid: vec![cid("c1")],
        },
    );
    assert!(ok.is_ok());
    assert!(all_manifests(&l).is_empty());
}

#[test]
fn batch_storage_is_atomic() {
    let mut l = ManifestLedger::new();
    l.upload_manifest(&acct("A"), &upload_input("c1", 1, 1)).unwrap();
    let r = l.batch_storage_manifest(
        &acct("X"),
        &BatchStorageManifestInput {
            seed: seed("//seed"),
            pool_id: pool(1),
            cid: vec![cid("c1"), cid("missing")],
        },
    );
    assert_eq!(r.unwrap_err(), FulaError::ManifestNotFound);
    let ms = all_manifests(&l);
    assert_eq!(ms[0].uploaders[0].storers.len(), 0);
    assert_eq!(ms[0].uploaders[0].replication_available, rf(1));
}

#[test]
fn batch_storage_and_batch_release() {
    let mut l = ManifestLedger::new();
    l.upload_manifest(&acct("A"), &upload_input("c1", 1, 1)).unwrap();
    l.upload_manifest(&acct("A"), &upload_input("c2", 1, 1)).unwrap();
    let claimed = l
        .batch_storage_manifest(
            &acct("X"),
            &BatchStorageManifestInput {
                seed: seed("//seed"),
                pool_id: pool(1),
                cid: vec![cid("c1"), cid("c2")],
            },
        )
        .unwrap();
    assert_eq!(claimed.storer.value, "X");
    let released = l
        .batch_remove_stored_manifest(
            &acct("X"),
            &BatchRemoveStoringManifestInput {
                seed: seed("//seed"),
                pool_id: pool(1),
                cid: vec![cid("c1"), cid("c2")],
            },
        )
        .unwrap();
    assert_eq!(released.storer.value, "X");
    let ms = all_manifests(&l);
    assert_eq!(ms[0].uploaders[0].replication_available, rf(1));
    assert_eq!(ms[1].uploaders[0].replication_available, rf(1));
}

#[test]
fn available_lists_one_entry_per_open_uploader() {
    let mut l = ManifestLedger::new();
    l.upload_manifest(&acct("A"), &upload_input("abc", 1, 2)).unwrap();
    l.upload_manifest(&acct("B"), &upload_input("abc", 1, 1)).unwrap();
    l.upload_manifest(&acct("A"), &upload_input("other", 2, 1)).unwrap();
    let av = l.get_available_manifests(&GetAvailableManifestsInput { pool_id: Some(pool(1)) });
    assert_eq!(av.manifests.len(), 2);
    assert_eq!(av.manifests[0].replication_available, rf(2));
    assert_eq!(av.manifests[1].replication_available, rf(1));
    // A filled uploader entry disappears from the availability view.
    l.storage_manifest(&acct("X"), &storage_input("abc", 1)).unwrap();
    l.storage_manifest(&acct("Y"), &storage_input("abc", 1)).unwrap();
    let av = l.get_available_manifests(&GetAvailableManifestsInput { pool_id: Some(pool(1)) });
    assert_eq!(av.manifests.len(), 1);
    assert_eq!(av.manifests[0].replication_available, rf(1));
    let all = l.get_available_manifests(&GetAvailableManifestsInput { pool_id: None });
    assert_eq!(all.manifests.len(), 2);
}

#[test]
fn list_manifests_filters_by_pool_uploader_and_storer() {
    let mut l = ManifestLedger::new();
    l.upload_manifest(&acct("A"), &upload_input("c1", 1, 2)).unwrap();
    l.upload_manifest(&acct("B"), &upload_input("c2", 1, 2)).unwrap();
    l.upload_manifest(&acct("A"), &upload_input("c3", 2, 2)).unwrap();
    l.storage_manifest(&acct("X"), &storage_input("c1", 1)).unwrap();
    let by_pool = l.get_all_manifests(&GetAllManifestsInput {
        pool_id: Some(pool(1)),
        uploader: None,
        storer: None,
    });
    assert_eq!(by_pool.manifests.len(), 2);
    let by_uploader = l.get_all_manifests(&GetAllManifestsInput {
        pool_id: None,
        uploader: Some(acct("A")),
        storer: None,
    });
    assert_eq!(by_uploader.manifests.len(), 2);
    let by_storer = l.get_all_manifests(&GetAllManifestsInput {
        pool_id: None,
        uploader: None,
        storer: Some(acct("X")),
    });
    assert_eq!(by_storer.manifests.len(), 1);
    let combined = l.get_all_manifests(&GetAllManifestsInput {
        pool_id: Some(pool(2)),
        uploader: Some(acct("A")),
        storer: None,
    });
    assert_eq!(combined.manifests.len(), 1);
    let none = l.get_all_manifests(&GetAllManifestsInput {
        pool_id: Some(pool(2)),
        uploader: Some(acct("B")),
        storer: None,
    });
    assert!(none.manifests.is_empty());
}

#[test]
fn storer_data_filters_by_pool_and_storer() {
    let mut l = ManifestLedger::new();
    l.upload_manifest(&acct("A"), &upload_input("c1", 1, 2)).unwrap();
    l.upload_manifest(&acct("A"), &upload_input("c2", 2, 2)).unwrap();
    l.update_manifest(&acct("X"), &update_input("c1", 1, 1, 1, 0)).unwrap();
    l.update_manifest(&acct("Y"), &update_input("c1", 1, 2, 2, 1)).unwrap();
    l.update_manifest(&acct("X"), &update_input("c2", 2, 3, 3, 2)).unwrap();
    let by_storer = l
        .get_all_manifests_storer_data(&GetAllManifestsStorerDataInput {
            pool_id: None,
            storer: Some(acct("X")),
        })
        .manifests;
    assert_eq!(by_storer.len(), 2);
    let by_both = l
        .get_all_manifests_storer_data(&GetAllManifestsStorerDataInput {
            pool_id: Some(pool(2)),
            storer: Some(acct("X")),
        })
        .manifests;
    assert_eq!(by_both.len(), 1);
    assert_eq!(by_both[0].cid.value, "c2");
    assert_eq!(by_both[0].active_days, 3);
    let everything = l
        .get_all_manifests_storer_data(&GetAllManifestsStorerDataInput {
            pool_id: None,
            storer: None,
        })
        .manifests;
    assert_eq!(everything.len(), 3);
}

#[test]
fn new_ledger_is_empty() {
    let l = ManifestLedger::new();
    assert!(all_manifests(&l).is_empty());
    let av = l.get_available_manifests(&GetAvailableManifestsInput { pool_id: None });
    assert!(av.manifests.is_empty());
}
