use orchestrator::keyring::parse_first_fingerprint;
use orchestrator::model::ArtifactKind;
use orchestrator::signing::{
    imported_key, list_secret_keys_args, required_signing_key_id, rpm_resign_args, signing_identity,
    SigningIdentityError,
};
use orchestrator::signing::{
    artifact_signature, choose_managed_key, gate_signatures, imported_key_from_fingerprint,
    is_publish_signable_artifact, key_lookup_outcome, keyring_unavailable_signatures, signature_failed,
    signing_gate, uniform_signatures, ArtifactSigningStatus, KeyLookup, RepoSigningManager, SignAttempt,
    SigningGate,
};
use orchestrator::signing::{sign_artifacts, FileSigning, WorkerArtifact};

#[test]
fn extracts_first_fingerprint_from_colon_output() {
    let output = "sec:-:255:22:ABCDEF1234:1710000000:0::::::scESC:::+:::23::0:\n\
fpr:::::::::0123456789ABCDEF0123456789ABCDEF01234567:\n\
uid:-::::1710000000::ABCDEF1234567890::Example <example@example.com>::::::::::0:\n";
    assert_eq!(
        parse_first_fingerprint(output),
        Some("0123456789ABCDEF0123456789ABCDEF01234567".to_string())
    );
}

#[test]
fn returns_none_when_no_fingerprint_exists() {
    let output = "sec:-:255:22:ABCDEF1234:1710000000:0::::::scESC:::+:::23::0:\n";
    assert_eq!(parse_first_fingerprint(output), None);
}

#[test]
fn fingerprint_is_taken_from_the_first_fpr_line_only() {
    let output = "fpr:::::::::AAAA:\r\nfpr:::::::::BBBB:\n";
    assert_eq!(parse_first_fingerprint(output), Some("AAAA".to_string()));
}

#[test]
fn empty_fingerprint_field_is_passed_over() {
    let output = "fpr::::::::::\nfpr:::::::::CCCC";
    assert_eq!(parse_first_fingerprint(output), Some("CCCC".to_string()));
    assert_eq!(parse_first_fingerprint(""), None);
    assert_eq!(parse_first_fingerprint("fpr:::"), None);
}

#[test]
fn signable_kinds_follow_publication_settings() {
    assert!(is_publish_signable_artifact(false, false, ArtifactKind::Rpm));
    assert!(!is_publish_signable_artifact(false, true, ArtifactKind::Srpm));
    assert!(is_publish_signable_artifact(true, false, ArtifactKind::Srpm));
    assert!(is_publish_signable_artifact(false, true, ArtifactKind::Debuginfo));
    assert!(!is_publish_signable_artifact(true, false, ArtifactKind::Debugsource));
    assert!(!is_publish_signable_artifact(true, true, ArtifactKind::Log));
    assert!(!is_publish_signable_artifact(true, true, ArtifactKind::Other));
}

#[test]
fn failed_signature_carries_only_its_message() {
    let s = signature_failed(7, "boom".to_string());
    assert_eq!(s.artifact_id, 7);
    assert_eq!(s.status, ArtifactSigningStatus::Failed);
    assert_eq!(s.signed_at, None);
    assert_eq!(s.key_id, None);
    assert_eq!(s.fingerprint, None);
    assert_eq!(s.error_message, Some("boom".to_string()));
}

#[test]
fn signing_gate_decides_from_configuration() {
    assert_eq!(signing_gate(false, &Some("k".to_string())), SigningGate::Disabled);
    assert_eq!(signing_gate(true, &None), SigningGate::MissingKeyId);
    assert_eq!(signing_gate(true, &Some("k".to_string())), SigningGate::Proceed("k".to_string()));
}

#[test]
fn gate_records_every_artifact_when_signing_cannot_start() {
    let ids = [1u128, 2, 3];
    let disabled = gate_signatures(&SigningGate::Disabled, &ids).unwrap();
    assert_eq!(disabled.len(), 3);
    assert!(disabled.iter().all(|s| s.status == ArtifactSigningStatus::Skipped));
    assert_eq!(disabled[0].error_message, Some("repository signing disabled".to_string()));
    assert!(disabled.iter().all(|s| s.signed_at.is_none() && s.key_id.is_none() && s.fingerprint.is_none()));
    let missing = gate_signatures(&SigningGate::MissingKeyId, &ids).unwrap();
    assert!(missing.iter().all(|s| s.status == ArtifactSigningStatus::Failed));
    assert_eq!(missing[2].artifact_id, 3);
    assert!(gate_signatures(&SigningGate::Proceed("k".to_string()), &ids).is_none());
    let uniform = uniform_signatures(&ids, ArtifactSigningStatus::Skipped, "why");
    assert_eq!(uniform[1].error_message, Some("why".to_string()));
}

#[test]
fn key_lookup_outcomes() {
    let ids = [5u128];
    assert_eq!(
        key_lookup_outcome(KeyLookup::Found("FP".to_string()), "key", &ids),
        Ok("FP".to_string())
    );
    let missing = key_lookup_outcome(KeyLookup::NotFound, "key", &ids).unwrap_err();
    assert_eq!(missing[0].status, ArtifactSigningStatus::Failed);
    assert_eq!(
        missing[0].error_message,
        Some("configured signing key not found in keyring: key".to_string())
    );
    let unreadable = key_lookup_outcome(KeyLookup::Unreadable("denied".to_string()), "key", &ids).unwrap_err();
    assert_eq!(
        unreadable[0].error_message,
        Some("failed to inspect signing keyring: denied".to_string())
    );
    let unavailable = keyring_unavailable_signatures("gpg gone", &ids);
    assert_eq!(unavailable[0].status, ArtifactSigningStatus::Failed);
    assert_eq!(
        unavailable[0].error_message,
        Some("failed to initialize signing keyring: gpg gone".to_string())
    );
}

#[test]
fn artifact_signature_per_attempt() {
    let signed = artifact_signature(9, SignAttempt::Signed, 1_700_000_000, "key", "fp");
    assert_eq!(signed.status, ArtifactSigningStatus::Signed);
    assert_eq!(signed.signed_at, Some(1_700_000_000));
    assert_eq!(signed.key_id, Some("key".to_string()));
    assert_eq!(signed.fingerprint, Some("fp".to_string()));
    let failed = artifact_signature(9, SignAttempt::SignFailed("bad".to_string()), 0, "key", "fp");
    assert_eq!(failed.error_message, Some("rpm signing failed: bad".to_string()));
    let meta = artifact_signature(9, SignAttempt::MetadataFailed("io".to_string()), 0, "key", "fp");
    assert_eq!(meta.error_message, Some("signed artifact metadata refresh failed: io".to_string()));
    let skipped = artifact_signature(9, SignAttempt::NotPublished, 0, "key", "fp");
    assert_eq!(skipped.status, ArtifactSigningStatus::Skipped);
    assert_eq!(
        skipped.error_message,
        Some("artifact is not configured for publication/signing".to_string())
    );
}

#[test]
fn managed_key_choice() {
    let configured = choose_managed_key(&Some("id".to_string()), Some("fp".to_string()), Some("other".to_string()))
        .unwrap();
    assert_eq!(configured.key_id, "id");
    assert_eq!(configured.fingerprint, "fp");
    let first = choose_managed_key(&Some("id".to_string()), None, Some("other".to_string())).unwrap();
    assert_eq!(first.key_id, "other");
    assert_eq!(first.fingerprint, "other");
    assert!(choose_managed_key(&None, None, None).is_none());
    let k = imported_key_from_fingerprint("F".to_string());
    assert_eq!(k.key_id, "F");
}

#[test]
fn status_reports_key_presence() {
    let status = RepoSigningManager.status_from_lookup(true, Some("id".to_string()), "/keys".to_string(), None);
    assert!(!status.key_present);
    let status = RepoSigningManager.status_from_lookup(true, None, "/keys".to_string(), Some("fp".to_string()));
    assert!(status.key_present);
    assert_eq!(status.active_fingerprint, Some("fp".to_string()));
}

#[test]
fn signing_identity_resolution() {
    assert_eq!(required_signing_key_id(&Some("K".to_string())), Ok("K".to_string()));
    assert_eq!(required_signing_key_id(&None), Err(SigningIdentityError::KeyIdMissing));
    assert_eq!(
        SigningIdentityError::KeyIdMissing.message(),
        "signing_key_id must be configured when signing is enabled"
    );
    assert_eq!(
        signing_identity("K".to_string(), Some("FP".to_string())),
        Ok(("K".to_string(), "FP".to_string()))
    );
    let missing = signing_identity("K".to_string(), None).unwrap_err();
    assert_eq!(missing, SigningIdentityError::KeyNotInKeyring("K".to_string()));
    assert_eq!(missing.message(), "configured signing key was not found in keyring: K");
    assert_eq!(imported_key(None), Err(SigningIdentityError::NothingImported));
    assert_eq!(imported_key(Some("F".to_string())).unwrap().key_id, "F");
    assert_eq!(
        list_secret_keys_args(Some("K")),
        vec!["--batch", "--with-colons", "--fingerprint", "--list-secret-keys", "K"]
    );
    assert_eq!(list_secret_keys_args(None).len(), 4);
    assert_eq!(
        rpm_resign_args("K", "/keys", "/a.rpm"),
        vec![
            "--define",
            "_gpg_name K",
            "--define",
            "_gpg_path /keys",
            "--define",
            "_signature gpg",
            "--define",
            "__gpg /usr/bin/gpg",
            "--resign",
            "/a.rpm"
        ]
    );
}

fn artifact(id: u128, kind: ArtifactKind) -> WorkerArtifact {
    WorkerArtifact { id, kind, sha256: "old".to_string(), size_bytes: 10 }
}

#[test]
fn signing_refreshes_only_signed_artifacts() {
    let mut artifacts = vec![
        artifact(1, ArtifactKind::Rpm),
        artifact(2, ArtifactKind::Srpm),
        artifact(3, ArtifactKind::Rpm),
        artifact(4, ArtifactKind::Log),
    ];
    let outcomes = vec![
        FileSigning::Signed { sha256: "new".to_string(), size_bytes: 12 },
        FileSigning::Signed { sha256: "ignored".to_string(), size_bytes: 99 },
        FileSigning::SignFailed("exit 1".to_string()),
        FileSigning::MetadataFailed("unused".to_string()),
    ];
    let records = sign_artifacts(&mut artifacts, false, false, &outcomes, 1_700_000_000, "KEY", "FP");
    assert_eq!(records.len(), 4);
    assert_eq!(records.iter().map(|r| r.artifact_id).collect::<Vec<_>>(), vec![1, 2, 3, 4]);
    assert_eq!(records[0].status, ArtifactSigningStatus::Signed);
    assert_eq!(records[0].signed_at, Some(1_700_000_000));
    assert_eq!(records[0].fingerprint, Some("FP".to_string()));
    assert_eq!(records[1].status, ArtifactSigningStatus::Skipped);
    assert_eq!(records[1].key_id, Some("KEY".to_string()));
    assert_eq!(records[2].error_message, Some("rpm signing failed: exit 1".to_string()));
    assert_eq!(records[3].status, ArtifactSigningStatus::Skipped);
    assert_eq!((artifacts[0].sha256.as_str(), artifacts[0].size_bytes), ("new", 12));
    assert_eq!((artifacts[1].sha256.as_str(), artifacts[1].size_bytes), ("old", 10));
    assert_eq!((artifacts[2].sha256.as_str(), artifacts[2].size_bytes), ("old", 10));
    assert_eq!((artifacts[3].sha256.as_str(), artifacts[3].size_bytes), ("old", 10));
}
