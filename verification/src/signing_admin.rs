use vstd::prelude::*;

use crate::reconcile::ReconcileMode;
use crate::text::text_opt;

verus! {

/// Why a repository signing request was refused.
#[derive(Debug, Clone, Copy, PartialEq, Eq)]
pub enum SigningAdminError {
    /// Signing cannot be enabled before a key is configured.
    KeyRequiredToEnable,
    /// Signing cannot be enabled without key material in the keyring.
    NoKeyMaterial,
    /// Keys cannot be generated while signing is enabled.
    DisableBeforeGenerate,
    /// Keys cannot be imported while signing is enabled.
    DisableBeforeImport,
    /// The key cannot be deleted while signing is enabled.
    DisableBeforeDelete,
    /// There is no key to delete.
    NoKeyToDelete,
    /// Signing is disabled.
    SigningDisabled,
    /// No key is present to sign or export with.
    NoKeyPresent,
    /// No key id could be found for the export.
    NoKeyIdForExport,
    /// Only the bootstrap administrator may export the private key.
    Unauthorized,
}

impl SigningAdminError {
    pub fn message(&self) -> (res: &'static str)
        ensures
            res@ == match *self {
                SigningAdminError::KeyRequiredToEnable => "generate or import a private key before enabling repository signing"@,
                SigningAdminError::NoKeyMaterial => "no private key material is available; generate or import a key first"@,
                SigningAdminError::DisableBeforeGenerate => "disable repository signing before generating a new key"@,
                SigningAdminError::DisableBeforeImport => "disable repository signing before importing a new key"@,
                SigningAdminError::DisableBeforeDelete => "disable repository signing before deleting the key"@,
                SigningAdminError::NoKeyToDelete => "no signing key is present to delete"@,
                SigningAdminError::SigningDisabled => "repository signing is disabled"@,
                SigningAdminError::NoKeyPresent => "no signing key is present; generate or import a key first"@,
                SigningAdminError::NoKeyIdForExport => "no signing key id could be resolved for export"@,
                SigningAdminError::Unauthorized => "unauthorized"@,
            },
    {
        match self {
            SigningAdminError::KeyRequiredToEnable => "generate or import a private key before enabling repository signing",
            SigningAdminError::NoKeyMaterial => "no private key material is available; generate or import a key first",
            SigningAdminError::DisableBeforeGenerate => "disable repository signing before generating a new key",
            SigningAdminError::DisableBeforeImport => "disable repository signing before importing a new key",
            SigningAdminError::DisableBeforeDelete => "disable repository signing before deleting the key",
            SigningAdminError::NoKeyToDelete => "no signing key is present to delete",
            SigningAdminError::SigningDisabled => "repository signing is disabled",
            SigningAdminError::NoKeyPresent => "no signing key is present; generate or import a key first",
            SigningAdminError::NoKeyIdForExport => "no signing key id could be resolved for export",
            SigningAdminError::Unauthorized => "unauthorized",
        }
    }
}

/// Turning signing on or off: on needs a configured key id and key
/// material in the keyring; the published artifacts are then signed, or
/// their signatures removed.
pub fn signing_toggle(enable: bool, key_id_configured: bool, key_present: bool) -> (res: Result<
    ReconcileMode,
    SigningAdminError,
>)
    ensures
        enable && !key_id_configured ==> res == Err::<ReconcileMode, SigningAdminError>(
            SigningAdminError::KeyRequiredToEnable,
        ),
        enable && key_id_configured && !key_present ==> res == Err::<ReconcileMode, SigningAdminError>(
            SigningAdminError::NoKeyMaterial,
        ),
        enable && key_id_configured && key_present ==> res == Ok::<ReconcileMode, SigningAdminError>(
            ReconcileMode::Sign,
        ),
        !enable ==> res == Ok::<ReconcileMode, SigningAdminError>(ReconcileMode::Unsign),
{
    if enable && !key_id_configured {
        return Err(SigningAdminError::KeyRequiredToEnable);
    }
    if enable {
        if !key_present {
            return Err(SigningAdminError::NoKeyMaterial);
        }
        Ok(ReconcileMode::Sign)
    } else {
        Ok(ReconcileMode::Unsign)
    }
}

/// A change to the signing key.
#[derive(Debug, Clone, Copy, PartialEq, Eq)]
pub enum KeyChange {
    Generate,
    Import,
    Delete,
}

/// Whether the signing key may be changed: only while signing is off, and
/// a key can only be deleted when one is present.
pub fn key_change_allowed(change: KeyChange, signing_enabled: bool, key_present: bool) -> (res: Result<
    (),
    SigningAdminError,
>)
    ensures
        signing_enabled ==> res == Err::<(), SigningAdminError>(
            match change {
                KeyChange::Generate => SigningAdminError::DisableBeforeGenerate,
                KeyChange::Import => SigningAdminError::DisableBeforeImport,
                KeyChange::Delete => SigningAdminError::DisableBeforeDelete,
            },
        ),
        !signing_enabled && change == KeyChange::Delete && !key_present ==> res == Err::<(), SigningAdminError>(
            SigningAdminError::NoKeyToDelete,
        ),
        !signing_enabled && !(change == KeyChange::Delete && !key_present) ==> res is Ok,
{
    if signing_enabled {
        return Err(
            match change {
                KeyChange::Generate => SigningAdminError::DisableBeforeGenerate,
                KeyChange::Import => SigningAdminError::DisableBeforeImport,
                KeyChange::Delete => SigningAdminError::DisableBeforeDelete,
            },
        );
    }
    match change {
        KeyChange::Delete => if !key_present {
            Err(SigningAdminError::NoKeyToDelete)
        } else {
            Ok(())
        },
        _ => Ok(()),
    }
}

/// Whether a signing test can run: signing must be on, with a key present
/// and configured.
pub fn signing_test_allowed(signing_enabled: bool, key_present: bool, key_id_configured: bool) -> (res: Result<
    (),
    SigningAdminError,
>)
    ensures
        !signing_enabled ==> res == Err::<(), SigningAdminError>(SigningAdminError::SigningDisabled),
        signing_enabled && !(key_present && key_id_configured) ==> res == Err::<(), SigningAdminError>(
            SigningAdminError::NoKeyPresent,
        ),
        signing_enabled && key_present && key_id_configured ==> res is Ok,
{
    if !signing_enabled {
        return Err(SigningAdminError::SigningDisabled);
    }
    if !key_present || !key_id_configured {
        return Err(SigningAdminError::NoKeyPresent);
    }
    Ok(())
}

/// The key an export hands out.
#[derive(Debug, Clone)]
pub struct ExportTarget {
    pub key_id: String,
    pub fingerprint: String,
    /// Whether the key id must be recorded because the configuration does
    /// not name it yet.
    pub record_key_id: bool,
}

/// Which key the private key export uses: only the bootstrap administrator
/// may export, a key must be present; the key is the configured one, else
/// the keyring's active key, and its fingerprint is the active
/// fingerprint, else the key id.
pub fn private_key_export_target(
    is_bootstrap_admin: bool,
    key_present: bool,
    configured_key_id: &Option<String>,
    active_fingerprint: &Option<String>,
) -> (res: Result<ExportTarget, SigningAdminError>)
    ensures
        !is_bootstrap_admin ==> res == Err::<ExportTarget, SigningAdminError>(SigningAdminError::Unauthorized),
        is_bootstrap_admin && !key_present ==> res == Err::<ExportTarget, SigningAdminError>(
            SigningAdminError::NoKeyPresent,
        ),
        is_bootstrap_admin && key_present && configured_key_id is None && active_fingerprint is None ==> res
            == Err::<ExportTarget, SigningAdminError>(SigningAdminError::NoKeyIdForExport),
        res matches Ok(t) ==> {
            &&& is_bootstrap_admin && key_present
            &&& t.key_id@ == match configured_key_id {
                Some(k) => k@,
                None => active_fingerprint->Some_0@,
            }
            &&& t.fingerprint@ == match active_fingerprint {
                Some(f) => f@,
                None => t.key_id@,
            }
            &&& t.record_key_id == (text_opt(*configured_key_id) != Some(t.key_id@))
        },
        is_bootstrap_admin && key_present && (configured_key_id is Some || active_fingerprint is Some) ==> res is Ok,
{
    if !is_bootstrap_admin {
        return Err(SigningAdminError::Unauthorized);
    }
    if !key_present {
        return Err(SigningAdminError::NoKeyPresent);
    }
    let key_id = match configured_key_id {
        Some(k) => k.clone(),
        None => match active_fingerprint {
            Some(f) => f.clone(),
            None => {
                return Err(SigningAdminError::NoKeyIdForExport);
            },
        },
    };
    let fingerprint = match active_fingerprint {
        Some(f) => f.clone(),
        None => key_id.clone(),
    };
    let record_key_id = match configured_key_id {
        Some(k) => !(*k == key_id),
        None => true,
    };
    Ok(ExportTarget { key_id, fingerprint, record_key_id })
}

} // verus!
