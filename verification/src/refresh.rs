use vstd::prelude::*;

use crate::scheduler::PackageActionDisposition;
use crate::text::{chars_of, concat_strs, decimal_string, decimal_text, string_from_chars, text_opt, to_owned_string};

verus! {

/// Where a refresh of all packages stands.
#[derive(Debug, Clone, Copy, PartialEq, Eq)]
pub enum RefreshAllPackagesState {
    Running,
    Completed,
    Failed,
}

/// The progress report of a refresh of all enabled packages.
#[derive(Debug, Clone, PartialEq, Eq)]
pub struct RefreshAllProgress {
    pub operation_id: u128,
    pub state: RefreshAllPackagesState,
    pub total_packages: u64,
    pub processed_packages: u64,
    pub queued_packages: u64,
    pub skipped_packages: u64,
    pub blocked_packages: u64,
    pub failed_packages: u64,
    pub queued_targets: u64,
    pub skipped_targets: u64,
    pub blocked_targets: u64,
    pub message: Option<String>,
}

/// Every processed package is counted exactly once: as queued, skipped,
/// blocked or failed.
pub open spec fn counts_balance(p: RefreshAllProgress) -> bool {
    p.queued_packages + p.skipped_packages + p.blocked_packages + p.failed_packages == p.processed_packages
}

/// The number of results with the given disposition.
pub open spec fn disposition_count(results: Seq<PackageActionDisposition>, d: PackageActionDisposition) -> nat
    decreases results.len(),
{
    if results.len() == 0 {
        0
    } else {
        disposition_count(results.drop_last(), d) + if results.last() == d {
            1nat
        } else {
            0nat
        }
    }
}

/// How many targets of an action were queued, skipped and blocked.
#[derive(Debug, Clone, Copy, PartialEq, Eq)]
pub struct DispositionCounts {
    pub queued: usize,
    pub skipped: usize,
    pub blocked: usize,
}

proof fn lemma_counts_bounded(results: Seq<PackageActionDisposition>)
    ensures
        disposition_count(results, PackageActionDisposition::Queued) + disposition_count(
            results,
            PackageActionDisposition::Skipped,
        ) + disposition_count(results, PackageActionDisposition::Blocked) == results.len(),
    decreases results.len(),
{
    if results.len() > 0 {
        lemma_counts_bounded(results.drop_last());
    }
}

/// Counts the dispositions of an action's target results.
pub fn count_dispositions(results: &[PackageActionDisposition]) -> (counts: DispositionCounts)
    ensures
        counts.queued == disposition_count(results@, PackageActionDisposition::Queued),
        counts.skipped == disposition_count(results@, PackageActionDisposition::Skipped),
        counts.blocked == disposition_count(results@, PackageActionDisposition::Blocked),
        counts.queued + counts.skipped + counts.blocked == results@.len(),
{
    let mut counts = DispositionCounts { queued: 0, skipped: 0, blocked: 0 };
    let mut i: usize = 0;
    while i < results.len()
        invariant
            i <= results@.len(),
            counts.queued == disposition_count(results@.take(i as int), PackageActionDisposition::Queued),
            counts.skipped == disposition_count(results@.take(i as int), PackageActionDisposition::Skipped),
            counts.blocked == disposition_count(results@.take(i as int), PackageActionDisposition::Blocked),
        decreases results@.len() - i,
    {
        proof {
            let t = results@.take(i + 1);
            assert(t.drop_last() =~= results@.take(i as int));
            lemma_counts_bounded(results@.take(i as int));
        }
        match results[i] {
            PackageActionDisposition::Queued => counts.queued = counts.queued + 1,
            PackageActionDisposition::Skipped => counts.skipped = counts.skipped + 1,
            PackageActionDisposition::Blocked => counts.blocked = counts.blocked + 1,
        }
        i = i + 1;
    }
    assert(results@.take(results@.len() as int) =~= results@);
    proof {
        lemma_counts_bounded(results@);
    }
    counts
}

/// A fresh refresh report, collecting the enabled packages.
pub fn start_refresh_progress(operation_id: u128) -> (p: RefreshAllProgress)
    ensures
        p.operation_id == operation_id,
        p.state == RefreshAllPackagesState::Running,
        p.total_packages == 0 && p.processed_packages == 0,
        p.queued_packages == 0 && p.skipped_packages == 0 && p.blocked_packages == 0 && p.failed_packages == 0,
        p.queued_targets == 0 && p.skipped_targets == 0 && p.blocked_targets == 0,
        text_opt(p.message) == Some("collecting enabled packages"@),
        counts_balance(p),
{
    RefreshAllProgress {
        operation_id,
        state: RefreshAllPackagesState::Running,
        total_packages: 0,
        processed_packages: 0,
        queued_packages: 0,
        skipped_packages: 0,
        blocked_packages: 0,
        failed_packages: 0,
        queued_targets: 0,
        skipped_targets: 0,
        blocked_targets: 0,
        message: Some(to_owned_string("collecting enabled packages")),
    }
}

/// Records how many packages a refresh covers; a refresh of no packages is
/// complete at once.
pub fn set_refresh_total(progress: &mut RefreshAllProgress, total: u64)
    ensures
        final(progress).total_packages == total,
        final(progress).processed_packages == old(progress).processed_packages,
        final(progress).queued_packages == old(progress).queued_packages,
        final(progress).skipped_packages == old(progress).skipped_packages,
        final(progress).blocked_packages == old(progress).blocked_packages,
        final(progress).failed_packages == old(progress).failed_packages,
        final(progress).queued_targets == old(progress).queued_targets,
        final(progress).skipped_targets == old(progress).skipped_targets,
        final(progress).blocked_targets == old(progress).blocked_targets,
        final(progress).operation_id == old(progress).operation_id,
        total == 0 ==> final(progress).state == RefreshAllPackagesState::Completed && text_opt(
            final(progress).message,
        ) == Some("no enabled packages found to refresh"@),
        total != 0 ==> final(progress).state == old(progress).state && final(progress).message is None,
{
    progress.total_packages = total;
    if total == 0 {
        progress.state = RefreshAllPackagesState::Completed;
        progress.message = Some(to_owned_string("no enabled packages found to refresh"));
    } else {
        progress.message = None;
    }
}

/// Counts one refreshed package from its target results: it counts as
/// queued when a target was queued, otherwise as blocked when a target was
/// blocked, otherwise as skipped.
pub fn record_package_outcome(progress: &mut RefreshAllProgress, results: &[PackageActionDisposition])
    requires
        old(progress).processed_packages < u64::MAX,
        old(progress).queued_targets + results@.len() <= u64::MAX,
        old(progress).skipped_targets + results@.len() <= u64::MAX,
        old(progress).blocked_targets + results@.len() <= u64::MAX,
        counts_balance(*old(progress)),
    ensures
        ({
            let q = disposition_count(results@, PackageActionDisposition::Queued);
            let s = disposition_count(results@, PackageActionDisposition::Skipped);
            let b = disposition_count(results@, PackageActionDisposition::Blocked);
            &&& final(progress).queued_targets == old(progress).queued_targets + q
            &&& final(progress).skipped_targets == old(progress).skipped_targets + s
            &&& final(progress).blocked_targets == old(progress).blocked_targets + b
            &&& final(progress).queued_packages == old(progress).queued_packages + if q > 0 {
                1int
            } else {
                0int
            }
            &&& final(progress).blocked_packages == old(progress).blocked_packages + if q == 0 && b > 0 {
                1int
            } else {
                0int
            }
            &&& final(progress).skipped_packages == old(progress).skipped_packages + if q == 0 && b == 0 {
                1int
            } else {
                0int
            }
        }),
        final(progress).failed_packages == old(progress).failed_packages,
        final(progress).processed_packages == old(progress).processed_packages + 1,
        final(progress).total_packages == old(progress).total_packages,
        final(progress).state == old(progress).state,
        final(progress).operation_id == old(progress).operation_id,
        text_opt(final(progress).message) == text_opt(old(progress).message),
        counts_balance(*final(progress)),
{
    let counts = count_dispositions(results);
    progress.queued_targets = progress.queued_targets + counts.queued as u64;
    progress.skipped_targets = progress.skipped_targets + counts.skipped as u64;
    progress.blocked_targets = progress.blocked_targets + counts.blocked as u64;
    if counts.queued > 0 {
        progress.queued_packages = progress.queued_packages + 1;
    } else if counts.blocked > 0 {
        progress.blocked_packages = progress.blocked_packages + 1;
    } else {
        progress.skipped_packages = progress.skipped_packages + 1;
    }
    progress.processed_packages = progress.processed_packages + 1;
}

/// The message that names the first package whose action failed.
pub open spec fn first_failure_text(package_name: Seq<char>, error: Seq<char>) -> Seq<char> {
    "first failed package: "@ + package_name + " ("@ + error + ")"@
}

/// Counts one package whose action failed; the first failure becomes the
/// report's message.
pub fn record_package_failure(progress: &mut RefreshAllProgress, package_name: &str, error: &str)
    requires
        old(progress).processed_packages < u64::MAX,
        counts_balance(*old(progress)),
    ensures
        final(progress).failed_packages == old(progress).failed_packages + 1,
        final(progress).processed_packages == old(progress).processed_packages + 1,
        final(progress).queued_packages == old(progress).queued_packages,
        final(progress).skipped_packages == old(progress).skipped_packages,
        final(progress).blocked_packages == old(progress).blocked_packages,
        final(progress).queued_targets == old(progress).queued_targets,
        final(progress).skipped_targets == old(progress).skipped_targets,
        final(progress).blocked_targets == old(progress).blocked_targets,
        final(progress).total_packages == old(progress).total_packages,
        final(progress).state == old(progress).state,
        final(progress).operation_id == old(progress).operation_id,
        text_opt(final(progress).message) == match text_opt(old(progress).message) {
            Some(m) => Some(m),
            None => Some(first_failure_text(package_name@, error@)),
        },
        counts_balance(*final(progress)),
{
    progress.failed_packages = progress.failed_packages + 1;
    if progress.message.is_none() {
        let a = concat_strs("first failed package: ", package_name);
        let b = concat_strs(a.as_str(), " (");
        let c = concat_strs(b.as_str(), error);
        progress.message = Some(concat_strs(c.as_str(), ")"));
    }
    progress.processed_packages = progress.processed_packages + 1;
}

/// Closes a refresh report: complete, with no message when no package
/// failed, and otherwise a message counting the failures.
pub fn finish_refresh(progress: &mut RefreshAllProgress)
    ensures
        final(progress).state == RefreshAllPackagesState::Completed,
        old(progress).failed_packages == 0 ==> final(progress).message is None,
        old(progress).failed_packages != 0 ==> text_opt(final(progress).message) == Some(
            decimal_text(old(progress).failed_packages as nat) + " package(s) failed to refresh"@,
        ),
        final(progress).failed_packages == old(progress).failed_packages,
        final(progress).processed_packages == old(progress).processed_packages,
        final(progress).queued_packages == old(progress).queued_packages,
        final(progress).skipped_packages == old(progress).skipped_packages,
        final(progress).blocked_packages == old(progress).blocked_packages,
        final(progress).queued_targets == old(progress).queued_targets,
        final(progress).skipped_targets == old(progress).skipped_targets,
        final(progress).blocked_targets == old(progress).blocked_targets,
        final(progress).total_packages == old(progress).total_packages,
        final(progress).operation_id == old(progress).operation_id,
{
    progress.state = RefreshAllPackagesState::Completed;
    if progress.failed_packages == 0 {
        progress.message = None;
    } else {
        let mut text = decimal_string(progress.failed_packages);
        let suffix = chars_of(" package(s) failed to refresh");
        let ghost base = text@;
        let mut k: usize = 0;
        while k < suffix.len()
            invariant
                k <= suffix@.len(),
                text@ == base + suffix@.take(k as int),
            decreases suffix@.len() - k,
        {
            text.push(suffix[k]);
            assert(text@ =~= base + suffix@.take(k as int + 1));
            k = k + 1;
        }
        assert(suffix@.take(suffix@.len() as int) =~= suffix@);
        progress.message = Some(string_from_chars(&text));
    }
}

/// Why a refresh of all packages could not start.
#[derive(Debug, Clone, Copy, PartialEq, Eq)]
pub enum RefreshStartError {
    AlreadyRunning,
}

impl RefreshStartError {
    pub fn message(&self) -> (res: &'static str)
        ensures
            res@ == "refresh-all operation is already running"@,
    {
        "refresh-all operation is already running"
    }
}

/// A refresh of all packages may start unless the last one is still
/// running.
pub fn refresh_may_start(last: Option<RefreshAllPackagesState>) -> (res: Result<(), RefreshStartError>)
    ensures
        last == Some(RefreshAllPackagesState::Running) ==> res == Err::<(), RefreshStartError>(
            RefreshStartError::AlreadyRunning,
        ),
        last != Some(RefreshAllPackagesState::Running) ==> res is Ok,
{
    match last {
        Some(RefreshAllPackagesState::Running) => Err(RefreshStartError::AlreadyRunning),
        _ => Ok(()),
    }
}

/// Ends a refresh whose package list could not be read: failed, with the
/// error's text; the counters stay as they were.
pub fn fail_refresh(progress: &mut RefreshAllProgress, error: String)
    ensures
        final(progress).state == RefreshAllPackagesState::Failed,
        text_opt(final(progress).message) == Some(error@),
        final(progress).total_packages == old(progress).total_packages,
        final(progress).processed_packages == old(progress).processed_packages,
        final(progress).queued_packages == old(progress).queued_packages,
        final(progress).skipped_packages == old(progress).skipped_packages,
        final(progress).blocked_packages == old(progress).blocked_packages,
        final(progress).failed_packages == old(progress).failed_packages,
        final(progress).queued_targets == old(progress).queued_targets,
        final(progress).skipped_targets == old(progress).skipped_targets,
        final(progress).blocked_targets == old(progress).blocked_targets,
        final(progress).operation_id == old(progress).operation_id,
{
    progress.state = RefreshAllPackagesState::Failed;
    progress.message = Some(error);
}

} // verus!
