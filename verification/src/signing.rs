use vstd::prelude::*;

use crate::model::ArtifactKind;
use crate::text::{concat_strs, strings_view, text_opt, to_owned_string};

verus! {

/// What became of an artifact's signature.
#[derive(Debug, Clone, Copy, PartialEq, Eq)]
pub enum ArtifactSigningStatus {
    Signed,
    Skipped,
    Failed,
}

/// The signing record of one build artifact.
#[derive(Debug, Clone, PartialEq, Eq)]
pub struct ArtifactSignature {
    pub artifact_id: u128,
    pub status: ArtifactSigningStatus,
    /// When it was signed, in seconds since the Unix epoch.
    pub signed_at: Option<i64>,
    pub key_id: Option<String>,
    pub fingerprint: Option<String>,
    pub error_message: Option<String>,
}

/// A signing key held in the keyring.
#[derive(Debug, Clone, PartialEq, Eq)]
pub struct ImportedSigningKey {
    pub key_id: String,
    pub fingerprint: String,
}

/// What the signing APIs report of repository signing.
#[derive(Debug, Clone, PartialEq, Eq)]
pub struct RepoSigningStatus {
    pub enabled: bool,
    pub configured_key_id: Option<String>,
    pub keyring_dir: String,
    pub key_present: bool,
    pub active_fingerprint: Option<String>,
}

/// Signs repository artifacts and metadata with the managed GnuPG keyring.
#[derive(Debug, Default, Clone, Copy)]
pub struct RepoSigningManager;

/// Whether a published artifact of this kind is signed: binary packages
/// always, source packages and debug packages when the package publishes
/// them, logs and other files never.
pub open spec fn is_signable_spec(publish_srpm: bool, publish_debuginfo: bool, kind: ArtifactKind) -> bool {
    match kind {
        ArtifactKind::Rpm => true,
        ArtifactKind::Srpm => publish_srpm,
        ArtifactKind::Debuginfo | ArtifactKind::Debugsource => publish_debuginfo,
        ArtifactKind::Log | ArtifactKind::Other => false,
    }
}

/// Whether an artifact of this kind is published and signed for a package
/// with the given publication settings.
pub fn is_publish_signable_artifact(publish_srpm: bool, publish_debuginfo: bool, kind: ArtifactKind) -> (res: bool)
    ensures
        res == is_signable_spec(publish_srpm, publish_debuginfo, kind),
{
    match kind {
        ArtifactKind::Rpm => true,
        ArtifactKind::Srpm => publish_srpm,
        ArtifactKind::Debuginfo | ArtifactKind::Debugsource => publish_debuginfo,
        ArtifactKind::Log | ArtifactKind::Other => false,
    }
}

/// A failed signing record with its reason.
pub fn signature_failed(artifact_id: u128, message: String) -> (res: ArtifactSignature)
    ensures
        res.artifact_id == artifact_id,
        res.status == ArtifactSigningStatus::Failed,
        res.signed_at is None && res.key_id is None && res.fingerprint is None,
        text_opt(res.error_message) == Some(message@),
{
    ArtifactSignature {
        artifact_id,
        status: ArtifactSigningStatus::Failed,
        signed_at: None,
        key_id: None,
        fingerprint: None,
        error_message: Some(message),
    }
}

/// Whether signing can start, given the configuration.
#[derive(Debug, Clone, PartialEq, Eq)]
pub enum SigningGate {
    /// Signing is disabled: every artifact is skipped.
    Disabled,
    /// No key is configured: every artifact fails.
    MissingKeyId,
    /// Sign with the configured key.
    Proceed(String),
}

/// Decides whether artifacts can be signed under the configuration.
pub fn signing_gate(signing_enabled: bool, signing_key_id: &Option<String>) -> (res: SigningGate)
    ensures
        !signing_enabled ==> res == SigningGate::Disabled,
        signing_enabled && signing_key_id is None ==> res == SigningGate::MissingKeyId,
        signing_enabled && signing_key_id is Some ==> (res matches SigningGate::Proceed(k) && k@
            == signing_key_id->Some_0@),
{
    if !signing_enabled {
        return SigningGate::Disabled;
    }
    match signing_key_id {
        None => SigningGate::MissingKeyId,
        Some(key_id) => SigningGate::Proceed(key_id.clone()),
    }
}

/// One record per artifact, all with the same status and message.
pub fn uniform_signatures(artifact_ids: &[u128], status: ArtifactSigningStatus, message: &str) -> (res: Vec<ArtifactSignature>)
    ensures
        res@.len() == artifact_ids@.len(),
        forall|i: int|
            0 <= i < res@.len() ==> (#[trigger] res@[i]).artifact_id == artifact_ids@[i] && res@[i].status
                == status && res@[i].signed_at is None && res@[i].key_id is None && res@[i].fingerprint is None
                && text_opt(res@[i].error_message) == Some(message@),
{
    let mut out: Vec<ArtifactSignature> = Vec::new();
    let mut i: usize = 0;
    while i < artifact_ids.len()
        invariant
            i <= artifact_ids@.len(),
            out@.len() == i,
            forall|j: int|
                0 <= j < i ==> (#[trigger] out@[j]).artifact_id == artifact_ids@[j] && out@[j].status == status
                    && out@[j].signed_at is None && out@[j].key_id is None && out@[j].fingerprint is None
                    && text_opt(out@[j].error_message) == Some(message@),
        decreases artifact_ids@.len() - i,
    {
        out.push(
            ArtifactSignature {
                artifact_id: artifact_ids[i],
                status,
                signed_at: None,
                key_id: None,
                fingerprint: None,
                error_message: Some(to_owned_string(message)),
            },
        );
        i = i + 1;
    }
    out
}

/// The records when signing cannot start: skipped when signing is
/// disabled, failed when no key is configured.
pub fn gate_signatures(gate: &SigningGate, artifact_ids: &[u128]) -> (res: Option<Vec<ArtifactSignature>>)
    ensures
        match gate {
            SigningGate::Proceed(_) => res is None,
            SigningGate::Disabled => res matches Some(v) && v@.len() == artifact_ids@.len() && forall|i: int|
                0 <= i < v@.len() ==> (#[trigger] v@[i]).artifact_id == artifact_ids@[i] && v@[i].status
                    == ArtifactSigningStatus::Skipped && v@[i].signed_at is None && v@[i].key_id is None
                    && v@[i].fingerprint is None && text_opt(v@[i].error_message) == Some(
                    "repository signing disabled"@,
                ),
            SigningGate::MissingKeyId => res matches Some(v) && v@.len() == artifact_ids@.len() && forall|i: int|
                0 <= i < v@.len() ==> (#[trigger] v@[i]).artifact_id == artifact_ids@[i] && v@[i].status
                    == ArtifactSigningStatus::Failed && v@[i].signed_at is None && v@[i].key_id is None
                    && v@[i].fingerprint is None && text_opt(v@[i].error_message) == Some(
                    "missing signing key id in configuration"@,
                ),
        },
{
    match gate {
        SigningGate::Proceed(_) => None,
        SigningGate::Disabled => Some(
            uniform_signatures(artifact_ids, ArtifactSigningStatus::Skipped, "repository signing disabled"),
        ),
        SigningGate::MissingKeyId => Some(
            uniform_signatures(
                artifact_ids,
                ArtifactSigningStatus::Failed,
                "missing signing key id in configuration",
            ),
        ),
    }
}

/// What looking the configured key up in the keyring found.
#[derive(Debug, Clone, PartialEq, Eq)]
pub enum KeyLookup {
    Found(String),
    NotFound,
    /// The keyring could not be inspected; the text says why.
    Unreadable(String),
}

/// The fingerprint to sign with, or one failed record per artifact saying
/// why there is none.
pub fn key_lookup_outcome(lookup: KeyLookup, key_id: &str, artifact_ids: &[u128]) -> (res: Result<String, Vec<ArtifactSignature>>)
    ensures
        match lookup {
            KeyLookup::Found(f) => res matches Ok(g) && g@ == f@,
            KeyLookup::NotFound => res matches Err(v) && v@.len() == artifact_ids@.len() && forall|i: int|
                0 <= i < v@.len() ==> (#[trigger] v@[i]).artifact_id == artifact_ids@[i] && v@[i].status
                    == ArtifactSigningStatus::Failed && v@[i].signed_at is None && v@[i].key_id is None
                    && v@[i].fingerprint is None && text_opt(v@[i].error_message) == Some(
                    "configured signing key not found in keyring: "@ + key_id@,
                ),
            KeyLookup::Unreadable(e) => res matches Err(v) && v@.len() == artifact_ids@.len() && forall|i: int|
                0 <= i < v@.len() ==> (#[trigger] v@[i]).artifact_id == artifact_ids@[i] && v@[i].status
                    == ArtifactSigningStatus::Failed && v@[i].signed_at is None && v@[i].key_id is None
                    && v@[i].fingerprint is None && text_opt(v@[i].error_message) == Some(
                    "failed to inspect signing keyring: "@ + e@,
                ),
        },
{
    match lookup {
        KeyLookup::Found(fingerprint) => Ok(fingerprint),
        KeyLookup::NotFound => {
            let message = concat_strs("configured signing key not found in keyring: ", key_id);
            Err(uniform_signatures(artifact_ids, ArtifactSigningStatus::Failed, message.as_str()))
        },
        KeyLookup::Unreadable(error) => {
            let message = concat_strs("failed to inspect signing keyring: ", error.as_str());
            Err(uniform_signatures(artifact_ids, ArtifactSigningStatus::Failed, message.as_str()))
        },
    }
}

/// One failed record per artifact when the keyring directory could not be
/// prepared.
pub fn keyring_unavailable_signatures(error: &str, artifact_ids: &[u128]) -> (res: Vec<ArtifactSignature>)
    ensures
        res@.len() == artifact_ids@.len(),
        forall|i: int|
            0 <= i < res@.len() ==> (#[trigger] res@[i]).artifact_id == artifact_ids@[i] && res@[i].status
                == ArtifactSigningStatus::Failed && res@[i].signed_at is None && res@[i].key_id is None
                && res@[i].fingerprint is None && text_opt(res@[i].error_message) == Some(
                "failed to initialize signing keyring: "@ + error@,
            ),
{
    let message = concat_strs("failed to initialize signing keyring: ", error);
    uniform_signatures(artifact_ids, ArtifactSigningStatus::Failed, message.as_str())
}

/// How signing one artifact went.
#[derive(Debug, Clone, PartialEq, Eq)]
pub enum SignAttempt {
    /// The artifact is not published, so it is not signed.
    NotPublished,
    /// `rpmsign` failed; the text says why.
    SignFailed(String),
    /// Signing worked but re-reading the signed file failed.
    MetadataFailed(String),
    /// Signed, and its checksum and size refreshed.
    Signed,
}

/// The signing record of an artifact after an attempt with key `key_id`
/// (fingerprint `fingerprint`) at time `signed_at`.
pub open spec fn signature_after(
    res: ArtifactSignature,
    artifact_id: u128,
    attempt: SignAttempt,
    signed_at: i64,
    key_id: Seq<char>,
    fingerprint: Seq<char>,
) -> bool {
    &&& res.artifact_id == artifact_id
    &&& match attempt {
        SignAttempt::NotPublished => res.status == ArtifactSigningStatus::Skipped && res.signed_at is None
            && text_opt(res.key_id) == Some(key_id) && text_opt(res.fingerprint) == Some(fingerprint)
            && text_opt(res.error_message) == Some("artifact is not configured for publication/signing"@),
        SignAttempt::SignFailed(e) => res.status == ArtifactSigningStatus::Failed && res.signed_at is None
            && res.key_id is None && res.fingerprint is None && text_opt(res.error_message) == Some(
            "rpm signing failed: "@ + e@,
        ),
        SignAttempt::MetadataFailed(e) => res.status == ArtifactSigningStatus::Failed && res.signed_at is None
            && res.key_id is None && res.fingerprint is None && text_opt(res.error_message) == Some(
            "signed artifact metadata refresh failed: "@ + e@,
        ),
        SignAttempt::Signed => res.status == ArtifactSigningStatus::Signed && res.signed_at == Some(signed_at)
            && text_opt(res.key_id) == Some(key_id) && text_opt(res.fingerprint) == Some(fingerprint)
            && res.error_message is None,
    }
}

/// The signing record of one artifact after an attempt with key `key_id`
/// (fingerprint `fingerprint`) at time `signed_at`.
pub fn artifact_signature(artifact_id: u128, attempt: SignAttempt, signed_at: i64, key_id: &str, fingerprint: &str) -> (res: ArtifactSignature)
    ensures
        signature_after(res, artifact_id, attempt, signed_at, key_id@, fingerprint@),
{
    match attempt {
        SignAttempt::NotPublished => ArtifactSignature {
            artifact_id,
            status: ArtifactSigningStatus::Skipped,
            signed_at: None,
            key_id: Some(to_owned_string(key_id)),
            fingerprint: Some(to_owned_string(fingerprint)),
            error_message: Some(to_owned_string("artifact is not configured for publication/signing")),
        },
        SignAttempt::SignFailed(error) => signature_failed(artifact_id, concat_strs("rpm signing failed: ", error.as_str())),
        SignAttempt::MetadataFailed(error) => signature_failed(
            artifact_id,
            concat_strs("signed artifact metadata refresh failed: ", error.as_str()),
        ),
        SignAttempt::Signed => ArtifactSignature {
            artifact_id,
            status: ArtifactSigningStatus::Signed,
            signed_at: Some(signed_at),
            key_id: Some(to_owned_string(key_id)),
            fingerprint: Some(to_owned_string(fingerprint)),
            error_message: None,
        },
    }
}

/// A build artifact as the worker reported it: what signing reads of it
/// and what it refreshes.
#[derive(Debug, Clone, PartialEq, Eq)]
pub struct WorkerArtifact {
    pub id: u128,
    pub kind: ArtifactKind,
    /// The SHA-256 digest of the file, in lower-case hexadecimal.
    pub sha256: String,
    pub size_bytes: u64,
}

/// What signing the file of an artifact that is published came to.
#[derive(Debug, Clone, PartialEq, Eq)]
pub enum FileSigning {
    /// `rpmsign` failed; the text says why.
    SignFailed(String),
    /// Signed, but the signed file could not be read back.
    MetadataFailed(String),
    /// Signed; the signed file has this checksum and size.
    Signed { sha256: String, size_bytes: u64 },
}

/// The attempt an artifact's record reports: an artifact that is not
/// published is not signed, whatever its outcome says.
pub open spec fn attempt_for(signable: bool, outcome: FileSigning) -> SignAttempt {
    if !signable {
        SignAttempt::NotPublished
    } else {
        match outcome {
            FileSigning::SignFailed(e) => SignAttempt::SignFailed(e),
            FileSigning::MetadataFailed(e) => SignAttempt::MetadataFailed(e),
            FileSigning::Signed { .. } => SignAttempt::Signed,
        }
    }
}

/// The artifact after signing: a signed one takes the checksum and size
/// of its signed file, any other is left as it was.
pub open spec fn artifact_after(before: WorkerArtifact, after: WorkerArtifact, signable: bool, outcome: FileSigning) -> bool {
    &&& after.id == before.id
    &&& after.kind == before.kind
    &&& if signable && outcome is Signed {
        after.sha256@ == outcome->sha256@ && after.size_bytes == outcome->size_bytes
    } else {
        after.sha256@ == before.sha256@ && after.size_bytes == before.size_bytes
    }
}

/// Signs a build's artifacts with key `key_id` (fingerprint
/// `fingerprint`) at time `signed_at`, given what signing the file of
/// each came to (`outcomes[i]` for `artifacts[i]`; the outcome of an
/// artifact that is not published is not read). Gives one record per
/// artifact, in order, and refreshes the checksum and size of exactly the
/// artifacts that were signed.
pub fn sign_artifacts(
    artifacts: &mut Vec<WorkerArtifact>,
    publish_srpm: bool,
    publish_debuginfo: bool,
    outcomes: &[FileSigning],
    signed_at: i64,
    key_id: &str,
    fingerprint: &str,
) -> (res: Vec<ArtifactSignature>)
    requires
        outcomes@.len() == old(artifacts)@.len(),
    ensures
        final(artifacts)@.len() == old(artifacts)@.len(),
        res@.len() == old(artifacts)@.len(),
        forall|i: int|
            0 <= i < res@.len() ==> {
                let signable = is_signable_spec(publish_srpm, publish_debuginfo, old(artifacts)@[i].kind);
                &&& signature_after(
                    #[trigger] res@[i],
                    old(artifacts)@[i].id,
                    attempt_for(signable, outcomes@[i]),
                    signed_at,
                    key_id@,
                    fingerprint@,
                )
                &&& artifact_after(old(artifacts)@[i], final(artifacts)@[i], signable, outcomes@[i])
            },
{
    let ghost before = artifacts@;
    let mut out: Vec<ArtifactSignature> = Vec::new();
    let mut i: usize = 0;
    while i < artifacts.len()
        invariant
            outcomes@.len() == before.len(),
            artifacts@.len() == before.len(),
            i <= before.len(),
            out@.len() == i,
            forall|j: int| i <= j < before.len() ==> artifacts@[j] == before[j],
            forall|j: int|
                0 <= j < i ==> {
                    let signable = is_signable_spec(publish_srpm, publish_debuginfo, before[j].kind);
                    &&& signature_after(
                        #[trigger] out@[j],
                        before[j].id,
                        attempt_for(signable, outcomes@[j]),
                        signed_at,
                        key_id@,
                        fingerprint@,
                    )
                    &&& artifact_after(before[j], artifacts@[j], signable, outcomes@[j])
                },
        decreases before.len() - i,
    {
        let id = artifacts[i].id;
        let kind = artifacts[i].kind;
        let signable = is_publish_signable_artifact(publish_srpm, publish_debuginfo, kind);
        let attempt = if !signable {
            SignAttempt::NotPublished
        } else {
            match &outcomes[i] {
                FileSigning::SignFailed(e) => SignAttempt::SignFailed(e.clone()),
                FileSigning::MetadataFailed(e) => SignAttempt::MetadataFailed(e.clone()),
                FileSigning::Signed { sha256, size_bytes } => {
                    artifacts.set(i, WorkerArtifact { id, kind, sha256: sha256.clone(), size_bytes: *size_bytes });
                    SignAttempt::Signed
                },
            }
        };
        let ghost expected = attempt_for(signable, outcomes@[i as int]);
        assert(attempt == expected);
        out.push(artifact_signature(id, attempt, signed_at, key_id, fingerprint));
        i = i + 1;
    }
    out
}

/// The key found for a fingerprint lookup: a key is named by its
/// fingerprint.
pub fn imported_key_from_fingerprint(fingerprint: String) -> (res: ImportedSigningKey)
    ensures
        res.key_id@ == fingerprint@,
        res.fingerprint@ == fingerprint@,
{
    ImportedSigningKey { key_id: fingerprint.clone(), fingerprint }
}

/// The managed key to use: the configured key when the keyring holds it,
/// otherwise the first secret key of the keyring; `None` when a new key
/// must be generated.
pub fn choose_managed_key(
    configured_key_id: &Option<String>,
    configured_fingerprint: Option<String>,
    first_fingerprint: Option<String>,
) -> (res: Option<ImportedSigningKey>)
    ensures
        (configured_key_id is Some && configured_fingerprint is Some) ==> (res matches Some(k) && k.key_id@
            == configured_key_id->Some_0@ && k.fingerprint@ == configured_fingerprint->Some_0@),
        !(configured_key_id is Some && configured_fingerprint is Some) ==> match first_fingerprint {
            Some(f) => res matches Some(k) && k.key_id@ == f@ && k.fingerprint@ == f@,
            None => res is None,
        },
{
    if let Some(key_id) = configured_key_id {
        if let Some(fingerprint) = configured_fingerprint {
            return Some(ImportedSigningKey { key_id: key_id.clone(), fingerprint });
        }
    }
    match first_fingerprint {
        Some(f) => Some(imported_key_from_fingerprint(f)),
        None => None,
    }
}

impl RepoSigningManager {
    /// The signing report: a key is present exactly when the keyring holds
    /// the active key.
    pub fn status_from_lookup(
        &self,
        enabled: bool,
        configured_key_id: Option<String>,
        keyring_dir: String,
        active_fingerprint: Option<String>,
    ) -> (res: RepoSigningStatus)
        ensures
            res.enabled == enabled,
            text_opt(res.configured_key_id) == text_opt(configured_key_id),
            res.keyring_dir@ == keyring_dir@,
            res.key_present == active_fingerprint is Some,
            text_opt(res.active_fingerprint) == text_opt(active_fingerprint),
    {
        let key_present = active_fingerprint.is_some();
        RepoSigningStatus { enabled, configured_key_id, keyring_dir, key_present, active_fingerprint }
    }
}

/// Why the configured signing identity could not be resolved.
#[derive(Debug, Clone, PartialEq, Eq)]
pub enum SigningIdentityError {
    /// Signing is on but no key id is configured.
    KeyIdMissing,
    /// The configured key is not in the keyring.
    KeyNotInKeyring(String),
    /// An import left no secret key in the keyring.
    NothingImported,
}

impl SigningIdentityError {
    /// The error text the daemon reports.
    pub fn message(&self) -> (res: String)
        ensures
            res@ == match *self {
                SigningIdentityError::KeyIdMissing => "signing_key_id must be configured when signing is enabled"@,
                SigningIdentityError::KeyNotInKeyring(k) => "configured signing key was not found in keyring: "@ + k@,
                SigningIdentityError::NothingImported => "no secret key found after import"@,
            },
    {
        match self {
            SigningIdentityError::KeyIdMissing => to_owned_string("signing_key_id must be configured when signing is enabled"),
            SigningIdentityError::KeyNotInKeyring(k) => concat_strs(
                "configured signing key was not found in keyring: ",
                k.as_str(),
            ),
            SigningIdentityError::NothingImported => to_owned_string("no secret key found after import"),
        }
    }
}

/// The key id signing uses: the configured one, which must exist.
pub fn required_signing_key_id(configured_key_id: &Option<String>) -> (res: Result<String, SigningIdentityError>)
    ensures
        match *configured_key_id {
            Some(k) => res matches Ok(r) && r@ == k@,
            None => res == Err::<String, SigningIdentityError>(SigningIdentityError::KeyIdMissing),
        },
{
    match configured_key_id {
        Some(k) => Ok(k.clone()),
        None => Err(SigningIdentityError::KeyIdMissing),
    }
}

/// The signing identity once the keyring was searched for `key_id`: the
/// key id with the fingerprint found, or an error naming the missing key.
pub fn signing_identity(key_id: String, fingerprint: Option<String>) -> (res: Result<(String, String), SigningIdentityError>)
    ensures
        match fingerprint {
            Some(f) => res matches Ok((k, g)) && k@ == key_id@ && g@ == f@,
            None => res matches Err(SigningIdentityError::KeyNotInKeyring(k)) && k@ == key_id@,
        },
{
    match fingerprint {
        Some(f) => Ok((key_id, f)),
        None => Err(SigningIdentityError::KeyNotInKeyring(key_id)),
    }
}

/// The key an import leaves: the keyring's first secret key, named by its
/// fingerprint.
pub fn imported_key(first_fingerprint: Option<String>) -> (res: Result<ImportedSigningKey, SigningIdentityError>)
    ensures
        match first_fingerprint {
            Some(f) => res matches Ok(key) && key.key_id@ == f@ && key.fingerprint@ == f@,
            None => res == Err::<ImportedSigningKey, SigningIdentityError>(SigningIdentityError::NothingImported),
        },
{
    match first_fingerprint {
        Some(f) => Ok(imported_key_from_fingerprint(f)),
        None => Err(SigningIdentityError::NothingImported),
    }
}

/// The arguments of `gpg` that list the keyring's secret keys (only
/// `key_id`'s when given) with their fingerprints, in colon format.
pub fn list_secret_keys_args(key_id: Option<&str>) -> (res: Vec<String>)
    ensures
        strings_view(res@) == match key_id {
            Some(k) => seq!["--batch"@, "--with-colons"@, "--fingerprint"@, "--list-secret-keys"@, k@],
            None => seq!["--batch"@, "--with-colons"@, "--fingerprint"@, "--list-secret-keys"@],
        },
{
    let mut args: Vec<String> = Vec::new();
    args.push(to_owned_string("--batch"));
    args.push(to_owned_string("--with-colons"));
    args.push(to_owned_string("--fingerprint"));
    args.push(to_owned_string("--list-secret-keys"));
    if let Some(k) = key_id {
        args.push(to_owned_string(k));
    }
    proof {
        assert(strings_view(args@) =~= match key_id {
            Some(k) => seq!["--batch"@, "--with-colons"@, "--fingerprint"@, "--list-secret-keys"@, k@],
            None => seq!["--batch"@, "--with-colons"@, "--fingerprint"@, "--list-secret-keys"@],
        });
    }
    args
}

/// The arguments of `rpmsign --resign` (or `rpm --resign`) that sign a
/// package with `key_id` from the keyring at `keyring_dir`.
pub fn rpm_resign_args(key_id: &str, keyring_dir: &str, artifact_path: &str) -> (res: Vec<String>)
    ensures
        strings_view(res@) == seq![
            "--define"@,
            "_gpg_name "@ + key_id@,
            "--define"@,
            "_gpg_path "@ + keyring_dir@,
            "--define"@,
            "_signature gpg"@,
            "--define"@,
            "__gpg /usr/bin/gpg"@,
            "--resign"@,
            artifact_path@,
        ],
{
    let mut args: Vec<String> = Vec::new();
    args.push(to_owned_string("--define"));
    args.push(concat_strs("_gpg_name ", key_id));
    args.push(to_owned_string("--define"));
    args.push(concat_strs("_gpg_path ", keyring_dir));
    args.push(to_owned_string("--define"));
    args.push(to_owned_string("_signature gpg"));
    args.push(to_owned_string("--define"));
    args.push(to_owned_string("__gpg /usr/bin/gpg"));
    args.push(to_owned_string("--resign"));
    args.push(to_owned_string(artifact_path));
    proof {
        assert(strings_view(args@) =~= seq![
            "--define"@,
            "_gpg_name "@ + key_id@,
            "--define"@,
            "_gpg_path "@ + keyring_dir@,
            "--define"@,
            "_signature gpg"@,
            "--define"@,
            "__gpg /usr/bin/gpg"@,
            "--resign"@,
            artifact_path@,
        ]);
    }
    args
}

} // verus!
