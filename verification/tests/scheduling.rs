use orchestrator::backoff::{plan_failure_backoff, BackoffError, BackoffUpdate};
use orchestrator::model::{ArtifactKind, BuildStatus, BuildTrigger};
use orchestrator::packages::{
    initial_limit, merge_package_options, package_deletable, settle_build, BuildEnvVar,
    MaterializePackageOptions, PackageOptionsUpdate,
};
use orchestrator::publish::{FileRepoManager, PublishCandidate, PublishError};
use orchestrator::refresh::{
    count_dispositions, fail_refresh, finish_refresh, record_package_failure, record_package_outcome,
    refresh_may_start, set_refresh_total, start_refresh_progress, RefreshAllPackagesState, RefreshStartError,
};
use orchestrator::scheduler::{
    check_package_name, is_quiet_poll_error, package_is_due, plan_package_targets, queue_new_jobs, record_queued_targets,
    PackageActionDisposition, PollTracker, SchedulerError, TargetObservation,
};

fn obs(active: bool, last: Option<&str>) -> TargetObservation {
    TargetObservation { active, last_successful_revision: last.map(|s| s.to_string()) }
}

#[test]
fn targets_are_built_when_sources_changed_or_forced() {
    let chroots = vec!["fedora-40-x86_64".to_string(), "fedora-41-x86_64".to_string(), "fedora-42-x86_64".to_string()];
    let observations = vec![obs(false, Some("r1")), obs(false, Some("r2")), obs(true, None)];
    let plan = plan_package_targets("pkg", &chroots, &observations, "r2", false).unwrap();
    assert_eq!(plan.queued, vec!["fedora-40-x86_64".to_string()]);
    assert_eq!(plan.results.len(), 2);
    assert_eq!(plan.results[0].disposition, PackageActionDisposition::Skipped);
    assert_eq!(plan.results[0].reason, Some("no_source_change".to_string()));
    assert_eq!(plan.results[1].disposition, PackageActionDisposition::Blocked);
    assert_eq!(plan.results[1].reason, Some("pending_or_running".to_string()));
    let forced = plan_package_targets("pkg", &chroots, &observations, "r2", true).unwrap();
    assert_eq!(forced.queued.len(), 2);
}

#[test]
fn actions_that_build_nothing_fail() {
    let chroots = vec!["a".to_string(), "b".to_string()];
    let unchanged = vec![obs(false, Some("r")), obs(false, Some("r"))];
    assert_eq!(plan_package_targets("pkg", &chroots, &unchanged, "r", false), Err(SchedulerError::NoSourceChanges));
    let busy = vec![obs(true, None), obs(false, Some("r"))];
    assert_eq!(
        plan_package_targets("pkg", &chroots, &busy, "r", false),
        Err(SchedulerError::AlreadyQueued("pkg".to_string()))
    );
    assert!(is_quiet_poll_error(&SchedulerError::NoSourceChanges));
    assert!(!is_quiet_poll_error(&SchedulerError::PackageRenamed));
    assert_eq!(check_package_name("other", "pkg"), Err(SchedulerError::PackageRenamed));
    assert_eq!(check_package_name("pkg", "pkg"), Ok(()));
}

#[test]
fn queued_targets_get_their_job_ids() {
    let mut results = Vec::new();
    record_queued_targets(&mut results, "pkg", &["a".to_string(), "b".to_string()], &[11, 12], "rev");
    assert_eq!(results.len(), 2);
    assert_eq!(results[1].job_id, Some(12));
    assert_eq!(results[1].mock_chroot, "b");
    assert_eq!(results[1].disposition, PackageActionDisposition::Queued);
    assert_eq!(results[1].revision, Some("rev".to_string()));
    let queued = queue_new_jobs(
        &mut results,
        "pkg",
        &["c".to_string(), "d".to_string()],
        "rev",
        BuildTrigger::ManualRebuild,
        "pkg.spec",
        1_700_000_000,
    );
    let ids: Vec<u128> = queued.jobs.iter().map(|j| j.id).collect();
    assert_eq!(ids.len(), 2);
    assert_eq!(results.len(), 4);
    assert_eq!(results[2].job_id, Some(ids[0]));
    assert_eq!(results[3].job_id, Some(ids[1]));
    assert_eq!(results[3].mock_chroot, "d");
    assert!(ids[0] < ids[1]);
    let job = &queued.jobs[1];
    assert_eq!(job.status, BuildStatus::Pending);
    assert_eq!(job.revision, "rev");
    assert_eq!(job.trigger, BuildTrigger::ManualRebuild);
    assert_eq!(job.mock_chroot, "d");
    assert_eq!(job.spec_path, "pkg.spec");
    assert_eq!((job.created_at, job.updated_at, job.finished_at), (1_700_000_000, 1_700_000_000, None));
    assert_eq!(queued.queued_builds[1].job_id, ids[1]);
    assert_eq!(queued.queued_builds[0].mock_chroot, "c");
}

#[test]
fn polling_waits_for_the_interval() {
    assert!(package_is_due(None, 60));
    assert!(!package_is_due(Some(59_999_999_999), 60));
    assert!(package_is_due(Some(60_000_000_000), 60));
    assert!(package_is_due(Some(1_000_000_000), 0));
}

#[test]
fn poll_tracker_polls_each_package_once_per_interval() {
    let mut tracker = PollTracker::new();
    let second = 1_000_000_000u128;
    assert!(tracker.take_due("a", 10 * second, 60));
    assert!(!tracker.take_due("a", 69 * second, 60));
    assert!(tracker.take_due("b", 69 * second, 60));
    assert!(tracker.take_due("a", 70 * second, 60));
    assert!(!tracker.take_due("a", 100 * second, 60));
    assert!(!tracker.take_due("a", 5 * second, 60));
    assert_eq!(tracker.entries.len(), 2);
    assert!(tracker.take_due("c", 0, 0));
    assert!(!tracker.take_due("c", second - 1, 0));
    assert!(tracker.take_due("c", second, 0));
}

#[test]
fn refresh_counts_every_package_once() {
    let mut p = start_refresh_progress(1);
    assert_eq!(p.message, Some("collecting enabled packages".to_string()));
    set_refresh_total(&mut p, 3);
    record_package_outcome(&mut p, &[PackageActionDisposition::Queued, PackageActionDisposition::Skipped]);
    record_package_outcome(&mut p, &[PackageActionDisposition::Skipped]);
    record_package_failure(&mut p, "pkg", "boom");
    assert_eq!(p.message, Some("first failed package: pkg (boom)".to_string()));
    record_package_failure(&mut p, "other", "late");
    assert_eq!(p.message, Some("first failed package: pkg (boom)".to_string()));
    assert_eq!(p.processed_packages, 4);
    assert_eq!(p.queued_packages + p.skipped_packages + p.blocked_packages + p.failed_packages, 4);
    assert_eq!((p.queued_targets, p.skipped_targets, p.blocked_targets), (1, 2, 0));
    finish_refresh(&mut p);
    assert_eq!(p.state, RefreshAllPackagesState::Completed);
    assert_eq!(p.message, Some("2 package(s) failed to refresh".to_string()));
    assert_eq!(refresh_may_start(Some(RefreshAllPackagesState::Running)), Err(RefreshStartError::AlreadyRunning));
    assert_eq!(refresh_may_start(Some(RefreshAllPackagesState::Completed)), Ok(()));
    assert_eq!(refresh_may_start(None), Ok(()));
    let mut broken = start_refresh_progress(3);
    fail_refresh(&mut broken, "db down".to_string());
    assert_eq!(broken.state, RefreshAllPackagesState::Failed);
    assert_eq!(broken.message, Some("db down".to_string()));
    let mut empty = start_refresh_progress(2);
    set_refresh_total(&mut empty, 0);
    assert_eq!(empty.state, RefreshAllPackagesState::Completed);
    assert_eq!(empty.message, Some("no enabled packages found to refresh".to_string()));
    let counts = count_dispositions(&[PackageActionDisposition::Blocked, PackageActionDisposition::Queued]);
    assert_eq!((counts.queued, counts.skipped, counts.blocked), (1, 0, 1));
}

#[test]
fn failure_backoff_doubles_up_to_the_maximum() {
    assert_eq!(plan_failure_backoff(BuildStatus::Succeeded, Some(3), 60, 3600), Ok(BackoffUpdate::Clear));
    assert_eq!(plan_failure_backoff(BuildStatus::Running, Some(3), 60, 3600), Ok(BackoffUpdate::Unchanged));
    assert_eq!(
        plan_failure_backoff(BuildStatus::Failed, None, 60, 3600),
        Ok(BackoffUpdate::Record { consecutive_failures: 1, backoff_seconds: 60 })
    );
    assert_eq!(
        plan_failure_backoff(BuildStatus::TimedOut, Some(2), 60, 3600),
        Ok(BackoffUpdate::Record { consecutive_failures: 3, backoff_seconds: 240 })
    );
    assert_eq!(
        plan_failure_backoff(BuildStatus::Failed, Some(10), 60, 3600),
        Ok(BackoffUpdate::Record { consecutive_failures: 11, backoff_seconds: 3600 })
    );
    assert_eq!(
        plan_failure_backoff(BuildStatus::Failed, Some(31), 60, 3600),
        Ok(BackoffUpdate::Record { consecutive_failures: 31, backoff_seconds: 3600 })
    );
    assert_eq!(
        plan_failure_backoff(BuildStatus::Failed, Some(40), i64::MAX as u64, i64::MAX as u64),
        Ok(BackoffUpdate::Record { consecutive_failures: 31, backoff_seconds: i64::MAX })
    );
    assert_eq!(
        plan_failure_backoff(BuildStatus::Failed, None, u64::MAX, 1),
        Err(BackoffError::BaseOutOfRange)
    );
    assert_eq!(plan_failure_backoff(BuildStatus::Failed, None, 1, u64::MAX), Err(BackoffError::MaxOutOfRange));
    assert_eq!(BackoffError::MaxOutOfRange.message(), "max backoff seconds out of range");
}

fn options() -> MaterializePackageOptions {
    MaterializePackageOptions {
        enabled: true,
        publish_srpm: false,
        publish_debuginfo: false,
        network_access: false,
        ccache_enabled: false,
        ccache_max_size_mb: Some(512),
        mock_chroots: vec!["fedora-41-x86_64".to_string()],
        poll_interval_seconds: 300,
        build_timeout_seconds: 3600,
        package_history_count: 5,
        cpu_limit_millicores: Some(2000),
        memory_limit_mb: None,
        build_env: vec![BuildEnvVar { name: "A".to_string(), value: "1".to_string() }],
    }
}

fn no_update() -> PackageOptionsUpdate {
    PackageOptionsUpdate {
        enabled: None,
        publish_srpm: None,
        publish_debuginfo: None,
        network_access: None,
        ccache_enabled: None,
        ccache_max_size_mb: None,
        mock_chroots: None,
        poll_interval_seconds: None,
        build_timeout_seconds: None,
        package_history_count: None,
        cpu_limit_millicores: None,
        memory_limit_mb: None,
        build_env: None,
    }
}

#[test]
fn package_updates_keep_what_they_leave_out() {
    let same = merge_package_options(options(), no_update());
    assert_eq!(same.poll_interval_seconds, 300);
    assert_eq!(same.ccache_max_size_mb, Some(512));
    assert_eq!(same.cpu_limit_millicores, Some(2000));
    assert_eq!(same.build_env, options().build_env);
    let mut update = no_update();
    update.enabled = Some(false);
    update.cpu_limit_millicores = Some(0);
    update.memory_limit_mb = Some(1024);
    update.mock_chroots = Some(vec![]);
    let merged = merge_package_options(options(), update);
    assert!(!merged.enabled);
    assert_eq!(merged.cpu_limit_millicores, None);
    assert_eq!(merged.memory_limit_mb, Some(1024));
    assert!(merged.mock_chroots.is_empty());
    assert_eq!(merged.ccache_max_size_mb, Some(512));
    let mut again = no_update();
    again.cpu_limit_millicores = Some(0);
    again.memory_limit_mb = Some(1024);
    let twice = merge_package_options(merge_package_options(options(), again.clone()), again);
    assert_eq!(twice.cpu_limit_millicores, None);
    assert_eq!(twice.memory_limit_mb, Some(1024));
    assert_eq!(initial_limit(Some(0)), None);
    assert_eq!(initial_limit(Some(5)), Some(5));
    assert_eq!(initial_limit(None), None);
}

#[test]
fn packages_with_active_jobs_are_not_deleted() {
    assert!(package_deletable(&[BuildStatus::Succeeded, BuildStatus::Failed]));
    assert!(!package_deletable(&[BuildStatus::Succeeded, BuildStatus::Pending]));
    assert!(package_deletable(&[]));
}

#[test]
fn settled_builds() {
    let ok = settle_build(BuildStatus::Succeeded, None, None);
    assert_eq!(ok.status, BuildStatus::Succeeded);
    assert!(ok.prune_history);
    let bad = settle_build(BuildStatus::Succeeded, None, Some("disk full".to_string()));
    assert_eq!(bad.status, BuildStatus::Failed);
    assert_eq!(bad.error_message, Some("disk full".to_string()));
    assert!(!bad.prune_history);
    let failed = settle_build(BuildStatus::Failed, Some("exit 1".to_string()), Some("ignored".to_string()));
    assert_eq!(failed.status, BuildStatus::Failed);
    assert_eq!(failed.error_message, Some("exit 1".to_string()));
    assert!(!failed.prune_history);
}

fn candidate(id: u128, path: &str, chroot: &str, kind: ArtifactKind) -> PublishCandidate {
    PublishCandidate { artifact_id: id, path: path.to_string(), mock_chroot: chroot.to_string(), kind }
}

#[test]
fn publication_lays_out_build_files() {
    let job = 0xa1a2a3a4b1b2c1c2d1d2d3d4d5d6d7d8u128;
    let artifacts = vec![
        candidate(1, "results/foo-1.0-1.x86_64.rpm", "fedora-41-x86_64", ArtifactKind::Rpm),
        candidate(2, "results/foo-1.0-1.src.rpm", "fedora-41-x86_64", ArtifactKind::Srpm),
        candidate(3, "other/foo-1.0-1.x86_64.rpm", "fedora-41-x86_64", ArtifactKind::Rpm),
        candidate(4, "logs/build.log/", "fedora-41-x86_64", ArtifactKind::Log),
    ];
    let plan = FileRepoManager.plan_publication("foo", false, job, BuildStatus::Succeeded, &artifacts).unwrap();
    assert_eq!(plan.len(), 2);
    assert_eq!(plan[0].index, 0);
    assert_eq!(
        plan[0].repo_path,
        "packages/foo/fedora-41-x86_64/builds/a1a2a3a4-b1b2-c1c2-d1d2-d3d4d5d6d7d8/foo-1.0-1.x86_64.rpm"
    );
    assert_eq!(plan[1].index, 3);
    assert!(plan[1].repo_path.ends_with("/build.log"));
    let with_srpm = FileRepoManager.plan_publication("foo", true, job, BuildStatus::Succeeded, &artifacts).unwrap();
    assert_eq!(with_srpm.iter().map(|p| p.index).collect::<Vec<_>>(), vec![0, 1, 3]);
}

#[test]
fn publication_refusals() {
    let artifacts = vec![candidate(1, "a.rpm", "c", ArtifactKind::Rpm), candidate(2, "x/..", "c", ArtifactKind::Rpm)];
    assert_eq!(
        FileRepoManager.plan_publication("foo", false, 1, BuildStatus::Failed, &artifacts).unwrap_err(),
        PublishError::BuildNotSucceeded
    );
    assert_eq!(
        FileRepoManager.plan_publication("foo", false, 1, BuildStatus::Succeeded, &artifacts).unwrap_err(),
        PublishError::NoFileName(1)
    );
    let root_only = vec![candidate(1, "/", "c", ArtifactKind::Rpm)];
    assert_eq!(
        FileRepoManager.plan_publication("foo", false, 1, BuildStatus::Succeeded, &root_only).unwrap_err(),
        PublishError::NoFileName(0)
    );
}
