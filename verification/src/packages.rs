use vstd::prelude::*;

use crate::model::BuildStatus;
use crate::text::str_eq;

verus! {

/// A variable set in a package's build environment.
#[derive(Debug, Clone, PartialEq, Eq)]
pub struct BuildEnvVar {
    pub name: String,
    pub value: String,
}

/// The build settings of a package.
#[derive(Debug, Clone)]
pub struct MaterializePackageOptions {
    pub enabled: bool,
    pub publish_srpm: bool,
    pub publish_debuginfo: bool,
    pub network_access: bool,
    pub ccache_enabled: bool,
    pub ccache_max_size_mb: Option<u64>,
    pub mock_chroots: Vec<String>,
    pub poll_interval_seconds: u64,
    pub build_timeout_seconds: u64,
    pub package_history_count: u64,
    pub cpu_limit_millicores: Option<u64>,
    pub memory_limit_mb: Option<u64>,
    pub build_env: Vec<BuildEnvVar>,
}

/// A change to a package's settings: a field left out keeps its value.
/// For the cache size and the resource limits, zero clears the limit.
#[derive(Debug, Clone)]
pub struct PackageOptionsUpdate {
    pub enabled: Option<bool>,
    pub publish_srpm: Option<bool>,
    pub publish_debuginfo: Option<bool>,
    pub network_access: Option<bool>,
    pub ccache_enabled: Option<bool>,
    pub ccache_max_size_mb: Option<u64>,
    pub mock_chroots: Option<Vec<String>>,
    pub poll_interval_seconds: Option<u64>,
    pub build_timeout_seconds: Option<u64>,
    pub package_history_count: Option<u64>,
    pub cpu_limit_millicores: Option<u64>,
    pub memory_limit_mb: Option<u64>,
    pub build_env: Option<Vec<BuildEnvVar>>,
}

/// A requested value if given, else the current one.
pub open spec fn keep_or<T>(requested: Option<T>, current: T) -> T {
    match requested {
        Some(v) => v,
        None => current,
    }
}

/// A limit after an update: zero clears it, another value sets it, and
/// none leaves it.
pub open spec fn limit_after(requested: Option<u64>, current: Option<u64>) -> Option<u64> {
    match requested {
        Some(0) => None,
        Some(v) => Some(v),
        None => current,
    }
}

/// A limit as first configured: zero means no limit.
pub open spec fn limit_given(requested: Option<u64>) -> Option<u64> {
    match requested {
        Some(0) => None,
        other => other,
    }
}

fn apply_limit(requested: Option<u64>, current: Option<u64>) -> (res: Option<u64>)
    ensures
        res == limit_after(requested, current),
{
    match requested {
        Some(0) => None,
        Some(v) => Some(v),
        None => current,
    }
}

fn apply_flag(requested: Option<bool>, current: bool) -> (res: bool)
    ensures
        res == keep_or(requested, current),
{
    match requested {
        Some(v) => v,
        None => current,
    }
}

fn apply_count(requested: Option<u64>, current: u64) -> (res: u64)
    ensures
        res == keep_or(requested, current),
{
    match requested {
        Some(v) => v,
        None => current,
    }
}

fn apply_list<T>(requested: Option<Vec<T>>, current: Vec<T>) -> (res: Vec<T>)
    ensures
        res@ == match requested {
            Some(v) => v@,
            None => current@,
        },
{
    match requested {
        Some(v) => v,
        None => current,
    }
}

/// The settings a package update leaves: each field the update gives
/// replaces the current one, except that a zero cache size or resource
/// limit removes the limit.
pub fn merge_package_options(current: MaterializePackageOptions, update: PackageOptionsUpdate) -> (res:
    MaterializePackageOptions)
    ensures
        res.enabled == keep_or(update.enabled, current.enabled),
        res.publish_srpm == keep_or(update.publish_srpm, current.publish_srpm),
        res.publish_debuginfo == keep_or(update.publish_debuginfo, current.publish_debuginfo),
        res.network_access == keep_or(update.network_access, current.network_access),
        res.ccache_enabled == keep_or(update.ccache_enabled, current.ccache_enabled),
        res.ccache_max_size_mb == limit_after(update.ccache_max_size_mb, current.ccache_max_size_mb),
        res.mock_chroots@ == match update.mock_chroots {
            Some(v) => v@,
            None => current.mock_chroots@,
        },
        res.poll_interval_seconds == keep_or(update.poll_interval_seconds, current.poll_interval_seconds),
        res.build_timeout_seconds == keep_or(update.build_timeout_seconds, current.build_timeout_seconds),
        res.package_history_count == keep_or(update.package_history_count, current.package_history_count),
        res.cpu_limit_millicores == limit_after(update.cpu_limit_millicores, current.cpu_limit_millicores),
        res.memory_limit_mb == limit_after(update.memory_limit_mb, current.memory_limit_mb),
        res.build_env@ == match update.build_env {
            Some(v) => v@,
            None => current.build_env@,
        },
{
    MaterializePackageOptions {
        enabled: apply_flag(update.enabled, current.enabled),
        publish_srpm: apply_flag(update.publish_srpm, current.publish_srpm),
        publish_debuginfo: apply_flag(update.publish_debuginfo, current.publish_debuginfo),
        network_access: apply_flag(update.network_access, current.network_access),
        ccache_enabled: apply_flag(update.ccache_enabled, current.ccache_enabled),
        ccache_max_size_mb: apply_limit(update.ccache_max_size_mb, current.ccache_max_size_mb),
        mock_chroots: apply_list(update.mock_chroots, current.mock_chroots),
        poll_interval_seconds: apply_count(update.poll_interval_seconds, current.poll_interval_seconds),
        build_timeout_seconds: apply_count(update.build_timeout_seconds, current.build_timeout_seconds),
        package_history_count: apply_count(update.package_history_count, current.package_history_count),
        cpu_limit_millicores: apply_limit(update.cpu_limit_millicores, current.cpu_limit_millicores),
        memory_limit_mb: apply_limit(update.memory_limit_mb, current.memory_limit_mb),
        build_env: apply_list(update.build_env, current.build_env),
    }
}

/// Why a package update was refused.
#[derive(Debug, Clone, Copy, PartialEq, Eq)]
pub enum PackageUpdateError {
    /// The re-read sources name a different package.
    NameMismatch,
}

impl PackageUpdateError {
    /// The message the daemon reports for this refusal.
    pub fn message(&self) -> (res: &'static str)
        ensures
            res@ == "updated package name must match existing package"@,
    {
        match self {
            PackageUpdateError::NameMismatch => "updated package name must match existing package",
        }
    }
}

/// An updated package must keep the name it is stored under.
pub fn check_updated_package_name(updated_name: &str, package_name: &str) -> (res: Result<(), PackageUpdateError>)
    ensures
        res is Ok <==> updated_name@ == package_name@,
        res is Err ==> res == Err::<(), PackageUpdateError>(PackageUpdateError::NameMismatch),
{
    if str_eq(updated_name, package_name) {
        Ok(())
    } else {
        Err(PackageUpdateError::NameMismatch)
    }
}

/// A limit as a new package gives it: zero means no limit.
pub fn initial_limit(requested: Option<u64>) -> (res: Option<u64>)
    ensures
        res == limit_given(requested),
{
    match requested {
        Some(0) => None,
        other => other,
    }
}

/// Updating a limit is idempotent, and an update that leaves a limit out
/// keeps it.
pub proof fn lemma_limit_update_idempotent(requested: Option<u64>, current: Option<u64>)
    ensures
        limit_after(requested, limit_after(requested, current)) == limit_after(requested, current),
        limit_after(None, current) == current,
        requested is Some ==> limit_after(requested, current) == limit_given(requested),
{
}

/// A package may be deleted only while none of its jobs is pending or
/// running.
pub fn package_deletable(job_statuses: &[BuildStatus]) -> (res: bool)
    ensures
        res == forall|i: int| 0 <= i < job_statuses@.len() ==> !crate::model::is_active_status(#[trigger] job_statuses@[i]),
{
    let mut i: usize = 0;
    while i < job_statuses.len()
        invariant
            i <= job_statuses@.len(),
            forall|k: int| 0 <= k < i ==> !crate::model::is_active_status(#[trigger] job_statuses@[k]),
        decreases job_statuses@.len() - i,
    {
        if crate::model::is_active(job_statuses[i]) {
            return false;
        }
        i = i + 1;
    }
    true
}

/// How a finished build is recorded.
#[derive(Debug, Clone)]
pub struct SettledBuild {
    pub status: BuildStatus,
    pub error_message: Option<String>,
    /// Whether older builds of the target are pruned afterwards.
    pub prune_history: bool,
}

/// Records a build the worker finished with `status` and `message`. A
/// succeeded build is published first (`publish_error` says how that went,
/// and is ignored otherwise): a failed publication turns the build into a
/// failure with the publication's error. Only a build that stays succeeded
/// prunes the older history of its target.
pub fn settle_build(status: BuildStatus, message: Option<String>, publish_error: Option<String>) -> (res: SettledBuild)
    ensures
        status == BuildStatus::Succeeded && publish_error is Some ==> res.status == BuildStatus::Failed
            && res.error_message == publish_error && !res.prune_history,
        status == BuildStatus::Succeeded && publish_error is None ==> res.status == BuildStatus::Succeeded
            && res.error_message == message && res.prune_history,
        status != BuildStatus::Succeeded ==> res.status == status && res.error_message == message && !res.prune_history,
{
    match status {
        BuildStatus::Succeeded => match publish_error {
            Some(error) => SettledBuild { status: BuildStatus::Failed, error_message: Some(error), prune_history: false },
            None => SettledBuild { status, error_message: message, prune_history: true },
        },
        _ => SettledBuild { status, error_message: message, prune_history: false },
    }
}

} // verus!
