use vstd::prelude::*;

use crate::model::ArtifactKind;
use crate::signing::{signature_failed, ArtifactSignature, ArtifactSigningStatus, ImportedSigningKey};
use crate::text::text_opt;
use crate::text::{concat_strs, to_owned_string};

verus! {

/// Whether a pass over the published artifacts adds or removes signatures.
#[derive(Debug, Clone, Copy, PartialEq, Eq)]
pub enum ReconcileMode {
    Sign,
    Unsign,
}

/// Where a pass over the published artifacts stands.
#[derive(Debug, Clone, Copy, PartialEq, Eq)]
pub enum ReconcileState {
    Running,
    Completed,
    Failed,
}

/// The progress report of a pass over the published artifacts.
#[derive(Debug, Clone)]
pub struct ReconcileProgress {
    pub operation_id: u128,
    pub mode: ReconcileMode,
    pub state: ReconcileState,
    pub total_artifacts: u64,
    pub processed_artifacts: u64,
    pub failed_artifacts: u64,
    pub message: Option<String>,
}

/// The number of signing records written to the store at once.
pub const SIGNATURE_BATCH_SIZE: usize = 200;

/// Whether a published file of this kind carries an RPM signature:
/// binary, source and debug packages do, logs and other files do not.
pub open spec fn is_signable_existing_spec(kind: ArtifactKind) -> bool {
    match kind {
        ArtifactKind::Rpm | ArtifactKind::Srpm | ArtifactKind::Debuginfo | ArtifactKind::Debugsource => true,
        ArtifactKind::Log | ArtifactKind::Other => false,
    }
}

/// Whether a published file of this kind is signed or unsigned by a pass.
pub fn is_signable_existing_artifact(kind: ArtifactKind) -> (res: bool)
    ensures
        res == is_signable_existing_spec(kind),
{
    match kind {
        ArtifactKind::Rpm | ArtifactKind::Srpm | ArtifactKind::Debuginfo | ArtifactKind::Debugsource => true,
        ArtifactKind::Log | ArtifactKind::Other => false,
    }
}

/// A fresh report for a pass over `total_artifacts` files.
pub fn start_reconcile(operation_id: u128, mode: ReconcileMode, total_artifacts: u64) -> (res: ReconcileProgress)
    ensures
        res.operation_id == operation_id,
        res.mode == mode,
        res.state == ReconcileState::Running,
        res.total_artifacts == total_artifacts,
        res.processed_artifacts == 0,
        res.failed_artifacts == 0,
        res.message is None,
{
    ReconcileProgress {
        operation_id,
        mode,
        state: ReconcileState::Running,
        total_artifacts,
        processed_artifacts: 0,
        failed_artifacts: 0,
        message: None,
    }
}

/// How rewriting one signable file went.
#[derive(Debug, Clone, PartialEq, Eq)]
pub enum FileRewrite {
    /// `rpm --resign` or `rpm --delsign` failed; the text says why.
    ToolFailed(String),
    /// The rewritten file could not be read back.
    MetadataFailed(String),
    /// The new checksum and size could not be stored.
    PersistFailed(String),
    /// The file was rewritten and its metadata stored.
    Rewritten,
}

pub open spec fn rewrite_failed(outcome: FileRewrite) -> bool {
    !(outcome is Rewritten)
}

/// The text that opens the error of a failed signing tool in this mode.
pub open spec fn tool_failure_prefix(mode: ReconcileMode) -> Seq<char> {
    match mode {
        ReconcileMode::Sign => "artifact signing failed: "@,
        ReconcileMode::Unsign => "artifact unsigning failed: "@,
    }
}

/// The counters move on by one file; the failure count by one more when
/// the file failed. Nothing else of the report changes.
pub open spec fn counted(old_p: ReconcileProgress, new_p: ReconcileProgress, failed: bool) -> bool {
    &&& new_p.processed_artifacts == old_p.processed_artifacts + 1
    &&& new_p.failed_artifacts == old_p.failed_artifacts + if failed { 1int } else { 0int }
    &&& new_p.operation_id == old_p.operation_id
    &&& new_p.mode == old_p.mode
    &&& new_p.state == old_p.state
    &&& new_p.total_artifacts == old_p.total_artifacts
    &&& new_p.message == old_p.message
}

/// The failed files are among the processed ones.
pub open spec fn counts_consistent(p: ReconcileProgress) -> bool {
    p.failed_artifacts <= p.processed_artifacts
}

impl ReconcileProgress {
    /// Counts a file that is passed over because its kind carries no
    /// signature.
    pub fn skip_file(&mut self)
        requires
            old(self).processed_artifacts < u64::MAX,
        ensures
            counted(*old(self), *final(self), false),
    {
        self.processed_artifacts = self.processed_artifacts + 1;
    }

    /// Counts a rewritten file and gives the signing record to store for
    /// it. In `Sign` mode a success records the signer's key id and
    /// fingerprint, and a pass without a signer cannot sign at all: the
    /// file is counted, not as failed, and the pass stops with
    /// "missing signing key id". In `Unsign` mode a success records that
    /// the signature was removed, and the signer is not used.
    pub fn record_file(
        &mut self,
        artifact_id: u128,
        outcome: FileRewrite,
        signed_at: i64,
        signer: &Option<ImportedSigningKey>,
    ) -> (res: Result<ArtifactSignature, String>)
        requires
            old(self).processed_artifacts < u64::MAX,
            old(self).failed_artifacts < u64::MAX,
        ensures
            old(self).mode == ReconcileMode::Sign && signer is None ==> (counted(*old(self), *final(self), false)
                && (res matches Err(e) && e@ == "missing signing key id"@)),
            !(old(self).mode == ReconcileMode::Sign && signer is None) ==> (counted(
                *old(self),
                *final(self),
                rewrite_failed(outcome),
            ) && (res matches Ok(sig) && sig.artifact_id == artifact_id && match outcome {
                FileRewrite::Rewritten => match old(self).mode {
                    ReconcileMode::Sign => sig.status == ArtifactSigningStatus::Signed && sig.signed_at == Some(
                        signed_at,
                    ) && text_opt(sig.key_id) == Some(signer->Some_0.key_id@) && text_opt(sig.fingerprint)
                        == Some(signer->Some_0.fingerprint@) && sig.error_message is None,
                    ReconcileMode::Unsign => sig.status == ArtifactSigningStatus::Skipped && sig.signed_at is None
                        && sig.key_id is None && sig.fingerprint is None && text_opt(sig.error_message) == Some(
                        "artifact signature removed"@,
                    ),
                },
                FileRewrite::ToolFailed(e) => sig.status == ArtifactSigningStatus::Failed && sig.signed_at is None
                    && sig.key_id is None && sig.fingerprint is None && text_opt(sig.error_message) == Some(
                    tool_failure_prefix(old(self).mode) + e@,
                ),
                FileRewrite::MetadataFailed(e) => sig.status == ArtifactSigningStatus::Failed && sig.signed_at is None
                    && sig.key_id is None && sig.fingerprint is None && text_opt(sig.error_message) == Some(
                    "signed artifact metadata refresh failed: "@ + e@,
                ),
                FileRewrite::PersistFailed(e) => sig.status == ArtifactSigningStatus::Failed && sig.signed_at is None
                    && sig.key_id is None && sig.fingerprint is None && text_opt(sig.error_message) == Some(
                    "failed to persist artifact metadata: "@ + e@,
                ),
            })),
    {
        self.processed_artifacts = self.processed_artifacts + 1;
        let key = match self.mode {
            ReconcileMode::Sign => match signer {
                Some(k) => Some(k),
                None => {
                    return Err(to_owned_string("missing signing key id"));
                },
            },
            ReconcileMode::Unsign => None,
        };
        match outcome {
            FileRewrite::Rewritten => match key {
                Some(k) => Ok(
                    ArtifactSignature {
                        artifact_id,
                        status: ArtifactSigningStatus::Signed,
                        signed_at: Some(signed_at),
                        key_id: Some(k.key_id.clone()),
                        fingerprint: Some(k.fingerprint.clone()),
                        error_message: None,
                    },
                ),
                None => Ok(
                    ArtifactSignature {
                        artifact_id,
                        status: ArtifactSigningStatus::Skipped,
                        signed_at: None,
                        key_id: None,
                        fingerprint: None,
                        error_message: Some(to_owned_string("artifact signature removed")),
                    },
                ),
            },
            FileRewrite::ToolFailed(error) => {
                self.failed_artifacts = self.failed_artifacts + 1;
                let prefix = match self.mode {
                    ReconcileMode::Sign => "artifact signing failed: ",
                    ReconcileMode::Unsign => "artifact unsigning failed: ",
                };
                Ok(signature_failed(artifact_id, concat_strs(prefix, error.as_str())))
            },
            FileRewrite::MetadataFailed(error) => {
                self.failed_artifacts = self.failed_artifacts + 1;
                Ok(signature_failed(artifact_id, concat_strs("signed artifact metadata refresh failed: ", error.as_str())))
            },
            FileRewrite::PersistFailed(error) => {
                self.failed_artifacts = self.failed_artifacts + 1;
                Ok(signature_failed(artifact_id, concat_strs("failed to persist artifact metadata: ", error.as_str())))
            },
        }
    }

    /// Closes the report: `Completed` when the pass went through,
    /// `Failed` with the error's text when it stopped early. The counters
    /// stay as they were.
    pub fn finish(&mut self, error: Option<String>)
        ensures
            final(self).state == match error {
                Some(_) => ReconcileState::Failed,
                None => ReconcileState::Completed,
            },
            text_opt(final(self).message) == text_opt(error),
            final(self).operation_id == old(self).operation_id,
            final(self).mode == old(self).mode,
            final(self).total_artifacts == old(self).total_artifacts,
            final(self).processed_artifacts == old(self).processed_artifacts,
            final(self).failed_artifacts == old(self).failed_artifacts,
    {
        self.state = match error {
            Some(_) => ReconcileState::Failed,
            None => ReconcileState::Completed,
        };
        self.message = error;
    }
}

/// Failed files are never more than processed ones: the fresh report
/// starts at zero and every counting step keeps it so.
pub proof fn lemma_failures_within_processed(old_p: ReconcileProgress, new_p: ReconcileProgress, failed: bool)
    requires
        counts_consistent(old_p),
        counted(old_p, new_p, failed),
    ensures
        counts_consistent(new_p),
{
}

/// Signing records waiting to be written to the store.
#[derive(Debug)]
pub struct SignatureBatch {
    pub pending: Vec<ArtifactSignature>,
}

impl SignatureBatch {
    pub fn new() -> (res: Self)
        ensures
            res.pending@.len() == 0,
    {
        SignatureBatch { pending: Vec::new() }
    }

    /// Adds a record; once the batch is full, hands all of its records
    /// back, in order, to be written, and starts an empty batch.
    pub fn push(&mut self, signature: ArtifactSignature) -> (flushed: Option<Vec<ArtifactSignature>>)
        requires
            old(self).pending@.len() < SIGNATURE_BATCH_SIZE,
        ensures
            old(self).pending@.len() + 1 >= SIGNATURE_BATCH_SIZE ==> {
                &&& flushed matches Some(v) && v@ == old(self).pending@.push(signature)
                &&& final(self).pending@.len() == 0
            },
            old(self).pending@.len() + 1 < SIGNATURE_BATCH_SIZE ==> {
                &&& flushed is None
                &&& final(self).pending@ == old(self).pending@.push(signature)
            },
            final(self).pending@.len() < SIGNATURE_BATCH_SIZE,
    {
        self.pending.push(signature);
        if self.pending.len() >= SIGNATURE_BATCH_SIZE {
            let mut full: Vec<ArtifactSignature> = Vec::new();
            std::mem::swap(&mut full, &mut self.pending);
            Some(full)
        } else {
            None
        }
    }

    /// The records not yet written, in order; `None` when there are none.
    pub fn drain(&mut self) -> (rest: Option<Vec<ArtifactSignature>>)
        ensures
            old(self).pending@.len() == 0 ==> rest is None,
            old(self).pending@.len() > 0 ==> (rest matches Some(v) && v@ == old(self).pending@),
            final(self).pending@.len() == 0,
    {
        let mut rest: Vec<ArtifactSignature> = Vec::new();
        std::mem::swap(&mut rest, &mut self.pending);
        if rest.len() == 0 {
            None
        } else {
            Some(rest)
        }
    }
}

} // verus!
