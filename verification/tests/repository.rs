use orchestrator::browse::{
    after_clone, begin_browse, browse_listing, browse_update, clone_args, first_clone, BrowseError, BrowseStage, BrowseState,
    CloneNext, CloneSource,
};
use orchestrator::chroots::{
    chroot_cache_fresh, chroot_cache_serves_stale, group_files_by_build, mock_chroot_candidates, ChrootCacheStats,
};
use orchestrator::digest::{hex_lower, recompute_artifact_metadata};
use orchestrator::model::ArtifactKind;
use orchestrator::reconcile::{
    is_signable_existing_artifact, start_reconcile, FileRewrite, ReconcileMode, ReconcileState, SignatureBatch,
};
use orchestrator::signing::{ArtifactSignature, ArtifactSigningStatus, ImportedSigningKey};
use orchestrator::signing_admin::{
    key_change_allowed, private_key_export_target, signing_test_allowed, signing_toggle, KeyChange,
    SigningAdminError,
};
use orchestrator::sort::{sort_texts, text_le};

#[test]
fn artifact_metadata_is_sha256_and_size() {
    let (sha, size) = recompute_artifact_metadata(b"abc");
    assert_eq!(sha, "ba7816bf8f01cfea414140de5dae2223b00361a396177a9cb410ff61f20015ad");
    assert_eq!(size, 3);
    let (empty, zero) = recompute_artifact_metadata(b"");
    assert_eq!(empty, "e3b0c44298fc1c149afbf4c8996fb92427ae41e4649b934ca495991b7852b855");
    assert_eq!(zero, 0);
    assert_eq!(hex_lower(&[0x00, 0x0f, 0xa0, 0xff]), "000fa0ff");
}

#[test]
fn texts_sort_like_strings() {
    let items = vec!["b".to_string(), "a/b".to_string(), "a".to_string(), "B".to_string(), "é".to_string(), "a".to_string()];
    let mut expected = items.clone();
    expected.sort();
    assert_eq!(sort_texts(&items), expected);
    assert!(text_le("abc", "abd"));
    assert!(text_le("ab", "abc"));
    assert!(!text_le("abc", "ab"));
    assert!(text_le("", ""));
}

#[test]
fn browse_requests() {
    assert_eq!(begin_browse("  https://example.org/r.git \n", false), Ok("https://example.org/r.git".to_string()));
    assert_eq!(begin_browse("   ", false), Err(BrowseError::EmptyUrl));
    assert_eq!(begin_browse("   ", true), Err(BrowseError::EmptyUrl));
    assert_eq!(begin_browse("x", true), Err(BrowseError::AlreadyRunning));
    assert_eq!(BrowseError::AlreadyRunning.message(), "repository browse is already running");
}

#[test]
fn browse_reports() {
    let clone = browse_update(BrowseStage::Cloning { percent: 99, message: "Receiving".to_string() });
    assert_eq!((clone.state, clone.percent, clone.message.as_str()), (BrowseState::Running, 95, "Receiving"));
    let early = browse_update(BrowseStage::Cloning { percent: 40, message: "x".to_string() });
    assert_eq!(early.percent, 40);
    let done = browse_update(BrowseStage::Completed { spec_file_count: 2 });
    assert_eq!(done.state, BrowseState::Completed);
    assert_eq!(done.percent, 100);
    assert_eq!(done.message, "Clone complete. 2 spec file(s) discovered.");
    let prep = browse_update(BrowseStage::Preparing);
    assert_eq!((prep.percent, prep.message.as_str()), (0, "Preparing repository clone\u{2026}"));
    let fallback = browse_update(BrowseStage::MirrorCloneFailed);
    assert_eq!((fallback.percent, fallback.message.as_str()), (8, "Mirror clone failed. Retrying direct clone\u{2026}"));
    let failed = browse_update(BrowseStage::Failed { message: "git failed".to_string() });
    assert_eq!((failed.state, failed.percent), (BrowseState::Failed, 100));
}

#[test]
fn browse_listing_sorts_files_and_finds_specs() {
    let listing = browse_listing(" 0123abc\n", "pkg.spec\nREADME.md\n\n  b/other.spec \r\nspec\n");
    assert_eq!(listing.head_commit, "0123abc");
    assert_eq!(listing.files, vec!["README.md", "b/other.spec", "pkg.spec", "spec"]);
    assert_eq!(listing.spec_files, vec!["b/other.spec", "pkg.spec"]);
}

#[test]
fn chroot_candidates_are_sorted_fedora_names() {
    let output = "fedora-41-x86_64    Fedora 41\nepel-9-x86_64\n\n  fedora-40-aarch64 x\nfedora-41-x86_64\ncentos\n";
    assert_eq!(mock_chroot_candidates(output), vec!["fedora-40-aarch64", "fedora-41-x86_64"]);
    assert!(mock_chroot_candidates("").is_empty());
}

#[test]
fn chroot_cache_rules() {
    assert!(chroot_cache_fresh("img", "img", 5_000_000_000, 10));
    assert!(!chroot_cache_fresh("img", "img", 10_000_000_000, 10));
    assert!(!chroot_cache_fresh("old", "img", 0, 10));
    assert!(chroot_cache_serves_stale(Some("img"), "img"));
    assert!(!chroot_cache_serves_stale(Some("old"), "img"));
    assert!(!chroot_cache_serves_stale(None, "img"));
    let mut stats = ChrootCacheStats::default();
    stats.record_hit();
    stats.record_miss();
    stats.record_miss();
    stats.record_stale_served();
    assert_eq!((stats.hit_count, stats.miss_count, stats.stale_served_count), (1, 2, 1));
    let mut full = ChrootCacheStats { hit_count: u64::MAX, miss_count: 0, stale_served_count: 0 };
    full.record_hit();
    assert_eq!(full.hit_count, u64::MAX);
}

#[test]
fn build_history_groups_files_by_job() {
    let groups = group_files_by_build(&[10, 20, 10], &[20, 10, 30, 10]);
    assert_eq!(groups, vec![vec![1, 3], vec![0], vec![]]);
}

#[test]
fn reconcile_counts_and_records() {
    assert!(is_signable_existing_artifact(ArtifactKind::Debugsource));
    assert!(!is_signable_existing_artifact(ArtifactKind::Log));
    let mut p = start_reconcile(9, ReconcileMode::Sign, 3);
    p.skip_file();
    let signer = Some(ImportedSigningKey { key_id: "KEY".to_string(), fingerprint: "FP".to_string() });
    let signed = p.record_file(1, FileRewrite::Rewritten, 100, &signer).unwrap();
    assert_eq!(signed.status, ArtifactSigningStatus::Signed);
    assert_eq!(signed.key_id, Some("KEY".to_string()));
    assert_eq!(signed.fingerprint, Some("FP".to_string()));
    assert_eq!(signed.signed_at, Some(100));
    let failed = p.record_file(2, FileRewrite::ToolFailed("exit 1".to_string()), 100, &signer).unwrap();
    assert_eq!(failed.error_message, Some("artifact signing failed: exit 1".to_string()));
    assert_eq!((p.processed_artifacts, p.failed_artifacts), (3, 1));
    p.finish(None);
    assert_eq!(p.state, ReconcileState::Completed);
    let mut u = start_reconcile(9, ReconcileMode::Unsign, 1);
    let removed = u.record_file(1, FileRewrite::Rewritten, 100, &None).unwrap();
    assert_eq!(removed.status, ArtifactSigningStatus::Skipped);
    assert_eq!(removed.error_message, Some("artifact signature removed".to_string()));
    let tool = u.record_file(2, FileRewrite::ToolFailed("e".to_string()), 0, &None).unwrap();
    assert_eq!(tool.error_message, Some("artifact unsigning failed: e".to_string()));
    let persist = u.record_file(3, FileRewrite::PersistFailed("db".to_string()), 0, &None).unwrap();
    assert_eq!(persist.error_message, Some("failed to persist artifact metadata: db".to_string()));
    u.finish(Some("stopped".to_string()));
    assert_eq!(u.state, ReconcileState::Failed);
    assert_eq!(u.message, Some("stopped".to_string()));
}

#[test]
fn signing_pass_without_a_key_stops() {
    let mut p = start_reconcile(3, ReconcileMode::Sign, 2);
    let res = p.record_file(7, FileRewrite::Rewritten, 100, &None);
    assert_eq!(res, Err("missing signing key id".to_string()));
    assert_eq!((p.processed_artifacts, p.failed_artifacts), (1, 0));
}

fn record(id: u128) -> ArtifactSignature {
    ArtifactSignature {
        artifact_id: id,
        status: ArtifactSigningStatus::Skipped,
        signed_at: None,
        key_id: None,
        fingerprint: None,
        error_message: None,
    }
}

#[test]
fn signature_batches_flush_at_two_hundred() {
    let mut batch = SignatureBatch::new();
    for id in 0..199u128 {
        assert!(batch.push(record(id)).is_none());
    }
    let flushed = batch.push(record(199)).unwrap();
    assert_eq!(flushed.len(), 200);
    assert_eq!(flushed[199].artifact_id, 199);
    assert!(batch.pending.is_empty());
    assert!(batch.drain().is_none());
    batch.push(record(1));
    assert_eq!(batch.drain().unwrap().len(), 1);
}

#[test]
fn signing_administration_rules() {
    assert_eq!(signing_toggle(true, false, true), Err(SigningAdminError::KeyRequiredToEnable));
    assert_eq!(signing_toggle(true, true, false), Err(SigningAdminError::NoKeyMaterial));
    assert_eq!(signing_toggle(true, true, true), Ok(ReconcileMode::Sign));
    assert_eq!(signing_toggle(false, false, false), Ok(ReconcileMode::Unsign));
    assert_eq!(key_change_allowed(KeyChange::Import, true, true), Err(SigningAdminError::DisableBeforeImport));
    assert_eq!(key_change_allowed(KeyChange::Delete, false, false), Err(SigningAdminError::NoKeyToDelete));
    assert_eq!(key_change_allowed(KeyChange::Generate, false, false), Ok(()));
    assert_eq!(signing_test_allowed(false, true, true), Err(SigningAdminError::SigningDisabled));
    assert_eq!(signing_test_allowed(true, true, false), Err(SigningAdminError::NoKeyPresent));
    assert_eq!(
        SigningAdminError::DisableBeforeDelete.message(),
        "disable repository signing before deleting the key"
    );
}

#[test]
fn private_key_export_choice() {
    assert!(matches!(
        private_key_export_target(false, true, &None, &None),
        Err(SigningAdminError::Unauthorized)
    ));
    assert!(matches!(
        private_key_export_target(true, false, &None, &None),
        Err(SigningAdminError::NoKeyPresent)
    ));
    assert!(matches!(
        private_key_export_target(true, true, &None, &None),
        Err(SigningAdminError::NoKeyIdForExport)
    ));
    let t = private_key_export_target(true, true, &None, &Some("FP".to_string())).unwrap();
    assert_eq!((t.key_id.as_str(), t.fingerprint.as_str(), t.record_key_id), ("FP", "FP", true));
    let t = private_key_export_target(true, true, &Some("ID".to_string()), &None).unwrap();
    assert_eq!((t.key_id.as_str(), t.fingerprint.as_str(), t.record_key_id), ("ID", "ID", false));
}

#[test]
fn browse_clones_from_the_mirror_then_directly() {
    let (src, note) = first_clone(Ok("/cache/m.git".to_string()));
    assert_eq!(src, CloneSource::Mirror("/cache/m.git".to_string()));
    assert_eq!(note, None);
    assert_eq!(
        clone_args(&src, "https://x/r.git", "/w/1"),
        vec!["clone", "--progress", "--depth", "1", "/cache/m.git", "/w/1"]
    );
    assert_eq!(after_clone(&src, Err("boom".to_string())), CloneNext::RetryDirect);
    assert_eq!(after_clone(&src, Ok(())), CloneNext::Finished(Ok(())));
    let (direct, note) = first_clone(Err("no cache".to_string()));
    assert_eq!(direct, CloneSource::Direct);
    assert_eq!(note, Some(BrowseStage::MirrorUnavailable));
    assert_eq!(clone_args(&direct, "https://x/r.git", "/w/1")[4], "https://x/r.git");
    assert_eq!(after_clone(&direct, Err("e".to_string())), CloneNext::Finished(Err("e".to_string())));
}
