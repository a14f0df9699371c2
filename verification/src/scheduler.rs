use vstd::prelude::*;

use crate::model::{BuildStatus, BuildTrigger};
use crate::text::{concat_strs, str_eq, strings_view, text_opt, to_owned_string};

verus! {

/// Why a package action queued nothing.
#[derive(Debug, Clone, PartialEq, Eq)]
pub enum SchedulerError {
    /// Every target that would build is already pending or running.
    AlreadyQueued(String),
    /// No target's sources changed since its last successful build.
    NoSourceChanges,
    /// The spec now names a different package.
    PackageRenamed,
}

impl SchedulerError {
    /// The message the daemon reports for this refusal.
    pub fn message(&self) -> (res: String)
        ensures
            res@ == match *self {
                SchedulerError::AlreadyQueued(name) => "package "@ + name@ + " is already queued or running"@,
                SchedulerError::NoSourceChanges => "no source changes detected"@,
                SchedulerError::PackageRenamed => "spec Name changed; remove and re-add the package instead"@,
            },
    {
        match self {
            SchedulerError::AlreadyQueued(name) => {
                let head = concat_strs("package ", name.as_str());
                concat_strs(head.as_str(), " is already queued or running")
            },
            SchedulerError::NoSourceChanges => to_owned_string("no source changes detected"),
            SchedulerError::PackageRenamed => to_owned_string("spec Name changed; remove and re-add the package instead"),
        }
    }
}

/// What a package action did for one build target.
#[derive(Debug, Clone, Copy, PartialEq, Eq)]
pub enum PackageActionDisposition {
    Queued,
    Skipped,
    Blocked,
}

/// The outcome of a package action for one build target.
#[derive(Debug, Clone, PartialEq, Eq)]
pub struct PackageActionTargetResult {
    pub package_name: String,
    pub mock_chroot: String,
    pub disposition: PackageActionDisposition,
    pub reason: Option<String>,
    pub job_id: Option<u128>,
    pub revision: Option<String>,
}

/// What the job store reports of one build target before an action.
#[derive(Debug, Clone, PartialEq, Eq)]
pub struct TargetObservation {
    /// A job for the target is pending or running.
    pub active: bool,
    /// The revision of the target's latest successful build.
    pub last_successful_revision: Option<String>,
}

/// The targets an action will build, and the outcome of every other target.
#[derive(Debug, Clone, PartialEq, Eq)]
pub struct TargetPlan {
    pub queued: Vec<String>,
    pub results: Vec<PackageActionTargetResult>,
}

/// The content of a target result.
pub struct TargetResultView {
    pub package_name: Seq<char>,
    pub mock_chroot: Seq<char>,
    pub disposition: PackageActionDisposition,
    pub reason: Option<Seq<char>>,
    pub job_id: Option<u128>,
    pub revision: Option<Seq<char>>,
}

pub open spec fn result_view(r: PackageActionTargetResult) -> TargetResultView {
    TargetResultView {
        package_name: r.package_name@,
        mock_chroot: r.mock_chroot@,
        disposition: r.disposition,
        reason: text_opt(r.reason),
        job_id: r.job_id,
        revision: text_opt(r.revision),
    }
}

pub open spec fn results_view(rs: Seq<PackageActionTargetResult>) -> Seq<TargetResultView> {
    rs.map_values(|r: PackageActionTargetResult| result_view(r))
}

/// What an action does with a target: an active target is blocked;
/// otherwise it is built when forced or when its sources changed since its
/// last successful build, and skipped when they did not.
pub open spec fn target_disposition(obs: TargetObservation, revision_key: Seq<char>, force: bool) -> PackageActionDisposition {
    if obs.active {
        PackageActionDisposition::Blocked
    } else if force || text_opt(obs.last_successful_revision) != Some(revision_key) {
        PackageActionDisposition::Queued
    } else {
        PackageActionDisposition::Skipped
    }
}

/// The result recorded for a target that is not built.
pub open spec fn settled_result(
    package_name: Seq<char>,
    mock_chroot: Seq<char>,
    disposition: PackageActionDisposition,
    revision_key: Seq<char>,
) -> TargetResultView {
    TargetResultView {
        package_name,
        mock_chroot,
        disposition,
        reason: Some(
            if disposition is Blocked {
                "pending_or_running"@
            } else {
                "no_source_change"@
            },
        ),
        job_id: None,
        revision: Some(revision_key),
    }
}

/// The targets among the first `n` that an action builds, in order.
pub open spec fn queued_targets(
    chroots: Seq<String>,
    obs: Seq<TargetObservation>,
    revision_key: Seq<char>,
    force: bool,
    n: int,
) -> Seq<Seq<char>>
    decreases n,
{
    if n <= 0 {
        seq![]
    } else if target_disposition(obs[n - 1], revision_key, force) is Queued {
        queued_targets(chroots, obs, revision_key, force, n - 1).push(chroots[n - 1]@)
    } else {
        queued_targets(chroots, obs, revision_key, force, n - 1)
    }
}

/// The results of the targets among the first `n` that an action does not
/// build, in order.
pub open spec fn settled_results(
    package_name: Seq<char>,
    chroots: Seq<String>,
    obs: Seq<TargetObservation>,
    revision_key: Seq<char>,
    force: bool,
    n: int,
) -> Seq<TargetResultView>
    decreases n,
{
    if n <= 0 {
        seq![]
    } else {
        let d = target_disposition(obs[n - 1], revision_key, force);
        let before = settled_results(package_name, chroots, obs, revision_key, force, n - 1);
        if d is Queued {
            before
        } else {
            before.push(settled_result(package_name, chroots[n - 1]@, d, revision_key))
        }
    }
}

/// Some target among the first `n` is blocked by an active job.
pub open spec fn any_blocked(obs: Seq<TargetObservation>, n: int) -> bool {
    exists|i: int| 0 <= i < n && (#[trigger] obs[i]).active
}

/// Decides a package action from what the job store reports of each build
/// target: which targets to build and what happened to the others. An
/// action that builds nothing fails: with `AlreadyQueued` when some target
/// is blocked by an active job, with `NoSourceChanges` otherwise.
pub fn plan_package_targets(
    package_name: &str,
    mock_chroots: &[String],
    observations: &[TargetObservation],
    revision_key: &str,
    force: bool,
) -> (res: Result<TargetPlan, SchedulerError>)
    requires
        observations@.len() == mock_chroots@.len(),
    ensures
        ({
            let n = mock_chroots@.len() as int;
            let queued = queued_targets(mock_chroots@, observations@, revision_key@, force, n);
            match res {
                Ok(plan) => queued.len() > 0 && strings_view(plan.queued@) == queued
                    && results_view(plan.results@) == settled_results(
                    package_name@,
                    mock_chroots@,
                    observations@,
                    revision_key@,
                    force,
                    n,
                ),
                Err(SchedulerError::AlreadyQueued(name)) => queued.len() == 0 && any_blocked(
                    observations@,
                    n,
                ) && name@ == package_name@,
                Err(SchedulerError::NoSourceChanges) => queued.len() == 0 && !any_blocked(
                    observations@,
                    n,
                ),
                Err(SchedulerError::PackageRenamed) => false,
            }
        }),
{
    let mut queued: Vec<String> = Vec::new();
    let mut results: Vec<PackageActionTargetResult> = Vec::new();
    let mut blocked = false;
    let mut i: usize = 0;
    while i < mock_chroots.len()
        invariant
            observations@.len() == mock_chroots@.len(),
            i <= mock_chroots@.len(),
            strings_view(queued@) == queued_targets(mock_chroots@, observations@, revision_key@, force, i as int),
            results_view(results@) == settled_results(
                package_name@,
                mock_chroots@,
                observations@,
                revision_key@,
                force,
                i as int,
            ),
            blocked == any_blocked(observations@, i as int),
        decreases mock_chroots@.len() - i,
    {
        let obs = &observations[i];
        let chroot = &mock_chroots[i];
        let ghost q0 = queued@;
        let ghost r0 = results@;
        if obs.active {
            blocked = true;
            results.push(
                PackageActionTargetResult {
                    package_name: to_owned_string(package_name),
                    mock_chroot: chroot.clone(),
                    disposition: PackageActionDisposition::Blocked,
                    reason: Some(to_owned_string("pending_or_running")),
                    job_id: None,
                    revision: Some(to_owned_string(revision_key)),
                },
            );
            assert(results_view(results@) =~= results_view(r0).push(results_view(results@).last()));
        } else {
            let unchanged = match &obs.last_successful_revision {
                Some(previous) => str_eq(previous.as_str(), revision_key),
                None => false,
            };
            if force || !unchanged {
                queued.push(chroot.clone());
                assert(strings_view(queued@) =~= strings_view(q0).push(chroot@));
            } else {
                results.push(
                    PackageActionTargetResult {
                        package_name: to_owned_string(package_name),
                        mock_chroot: chroot.clone(),
                        disposition: PackageActionDisposition::Skipped,
                        reason: Some(to_owned_string("no_source_change")),
                        job_id: None,
                        revision: Some(to_owned_string(revision_key)),
                    },
                );
                assert(results_view(results@) =~= results_view(r0).push(results_view(results@).last()));
            }
        }
        proof {
            if !blocked {
                assert(!any_blocked(observations@, i as int + 1)) by {
                    if any_blocked(observations@, i as int + 1) {
                        let w = choose|w: int| 0 <= w < i + 1 && (#[trigger] observations@[w]).active;
                        assert(w < i);
                    }
                }
            } else if !any_blocked(observations@, i as int) {
                assert(observations@[i as int].active);
            }
        }
        i = i + 1;
    }
    if queued.len() == 0 {
        if blocked {
            return Err(SchedulerError::AlreadyQueued(to_owned_string(package_name)));
        }
        return Err(SchedulerError::NoSourceChanges);
    }
    Ok(TargetPlan { queued, results })
}

/// The result recorded for a target an action builds.
pub open spec fn queued_result(
    package_name: Seq<char>,
    mock_chroot: Seq<char>,
    job_id: u128,
    revision_key: Seq<char>,
) -> TargetResultView {
    TargetResultView {
        package_name,
        mock_chroot,
        disposition: PackageActionDisposition::Queued,
        reason: None,
        job_id: Some(job_id),
        revision: Some(revision_key),
    }
}

/// A build job as it is created for a target an action builds.
#[derive(Debug, Clone, PartialEq, Eq)]
pub struct NewBuildJob {
    pub id: u128,
    pub package_name: String,
    pub mock_chroot: String,
    /// The comparison key of the revision the job builds.
    pub revision: String,
    pub trigger: BuildTrigger,
    pub status: BuildStatus,
    pub spec_path: String,
    pub worker_container_id: Option<String>,
    /// Seconds since the Unix epoch.
    pub created_at: i64,
    pub updated_at: i64,
    pub finished_at: Option<i64>,
    pub error_message: Option<String>,
}

/// A build handed to the build runner, naming the job it runs as.
#[derive(Debug, Clone, PartialEq, Eq)]
pub struct QueuedBuild {
    pub job_id: u128,
    pub package_name: String,
    pub mock_chroot: String,
    pub revision: String,
    pub trigger: BuildTrigger,
}

/// The jobs an action creates and the builds it hands on, one of each per
/// built target, in target order.
#[derive(Debug, Clone, PartialEq, Eq)]
pub struct QueuedJobs {
    pub jobs: Vec<NewBuildJob>,
    pub queued_builds: Vec<QueuedBuild>,
}

/// The `k`-th job and build of `q` are those of target `mock_chroot`,
/// created at `now` as a pending job with id `job_id`.
pub open spec fn is_new_job(
    q: QueuedJobs,
    k: int,
    job_id: u128,
    package_name: Seq<char>,
    mock_chroot: Seq<char>,
    revision_key: Seq<char>,
    trigger: BuildTrigger,
    spec_path: Seq<char>,
    now: i64,
) -> bool {
    let job = q.jobs@[k];
    let build = q.queued_builds@[k];
    &&& job.id == job_id
    &&& job.package_name@ == package_name
    &&& job.mock_chroot@ == mock_chroot
    &&& job.revision@ == revision_key
    &&& job.trigger == trigger
    &&& job.status == BuildStatus::Pending
    &&& job.spec_path@ == spec_path
    &&& job.worker_container_id is None
    &&& job.created_at == now
    &&& job.updated_at == now
    &&& job.finished_at is None
    &&& job.error_message is None
    &&& build.job_id == job_id
    &&& build.package_name@ == package_name
    &&& build.mock_chroot@ == mock_chroot
    &&& build.revision@ == revision_key
    &&& build.trigger == trigger
}

/// The pending jobs and runner builds for the built targets, the `k`-th
/// with id `job_ids[k]`.
pub fn build_queued_jobs(
    package_name: &str,
    queued: &[String],
    job_ids: &[u128],
    revision_key: &str,
    trigger: BuildTrigger,
    spec_path: &str,
    now: i64,
) -> (res: QueuedJobs)
    requires
        job_ids@.len() == queued@.len(),
    ensures
        res.jobs@.len() == queued@.len(),
        res.queued_builds@.len() == queued@.len(),
        forall|k: int|
            0 <= k < queued@.len() ==> is_new_job(
                res,
                k,
                job_ids@[k],
                package_name@,
                (#[trigger] queued@[k])@,
                revision_key@,
                trigger,
                spec_path@,
                now,
            ),
{
    let mut jobs: Vec<NewBuildJob> = Vec::new();
    let mut builds: Vec<QueuedBuild> = Vec::new();
    let mut k: usize = 0;
    while k < queued.len()
        invariant
            job_ids@.len() == queued@.len(),
            k <= queued@.len(),
            jobs@.len() == k,
            builds@.len() == k,
            forall|m: int|
                0 <= m < k ==> is_new_job(
                    QueuedJobs { jobs, queued_builds: builds },
                    m,
                    job_ids@[m],
                    package_name@,
                    (#[trigger] queued@[m])@,
                    revision_key@,
                    trigger,
                    spec_path@,
                    now,
                ),
        decreases queued@.len() - k,
    {
        jobs.push(
            NewBuildJob {
                id: job_ids[k],
                package_name: to_owned_string(package_name),
                mock_chroot: queued[k].clone(),
                revision: to_owned_string(revision_key),
                trigger,
                status: BuildStatus::Pending,
                spec_path: to_owned_string(spec_path),
                worker_container_id: None,
                created_at: now,
                updated_at: now,
                finished_at: None,
                error_message: None,
            },
        );
        builds.push(
            QueuedBuild {
                job_id: job_ids[k],
                package_name: to_owned_string(package_name),
                mock_chroot: queued[k].clone(),
                revision: to_owned_string(revision_key),
                trigger,
            },
        );
        k = k + 1;
    }
    QueuedJobs { jobs, queued_builds: builds }
}

/// Creates a pending job for each built target, with fresh time-ordered
/// ids that rise in target order (so no two are equal), hands each on as
/// a build for the runner, and appends their results after those already
/// recorded.
pub fn queue_new_jobs(
    results: &mut Vec<PackageActionTargetResult>,
    package_name: &str,
    queued: &[String],
    revision_key: &str,
    trigger: BuildTrigger,
    spec_path: &str,
    now: i64,
) -> (res: QueuedJobs)
    ensures
        res.jobs@.len() == queued@.len(),
        res.queued_builds@.len() == queued@.len(),
        forall|i: int, j: int| 0 <= i < j < queued@.len() ==> res.jobs@[i].id < res.jobs@[j].id,
        forall|k: int|
            0 <= k < queued@.len() ==> is_new_job(
                res,
                k,
                res.jobs@[k].id,
                package_name@,
                (#[trigger] queued@[k])@,
                revision_key@,
                trigger,
                spec_path@,
                now,
            ),
        results_view(final(results)@) == results_view(old(results)@) + Seq::new(
            queued@.len(),
            |k: int| queued_result(package_name@, queued@[k]@, res.jobs@[k].id, revision_key@),
        ),
{
    let job_ids = crate::sessions::new_time_ordered_ids(queued.len());
    record_queued_targets(results, package_name, queued, job_ids.as_slice(), revision_key);
    let res = build_queued_jobs(package_name, queued, job_ids.as_slice(), revision_key, trigger, spec_path, now);
    proof {
        assert forall|k: int| 0 <= k < queued@.len() implies res.jobs@[k].id == job_ids@[k] by {
            assert(is_new_job(res, k, job_ids@[k], package_name@, queued@[k]@, revision_key@, trigger, spec_path@, now));
        }
        assert forall|i: int, j: int| 0 <= i < j < queued@.len() implies res.jobs@[i].id < res.jobs@[j].id by {
            assert(res.jobs@[i].id == job_ids@[i]);
            assert(res.jobs@[j].id == job_ids@[j]);
        }
        assert(Seq::new(
            queued@.len(),
            |k: int| queued_result(package_name@, queued@[k]@, res.jobs@[k].id, revision_key@),
        ) =~= Seq::new(
            queued@.len(),
            |k: int| queued_result(package_name@, queued@[k]@, job_ids@[k], revision_key@),
        ));
    }
    res
}

/// Appends the results of the built targets, each with the id of the job
/// created for it, after the results already recorded.
pub fn record_queued_targets(
    results: &mut Vec<PackageActionTargetResult>,
    package_name: &str,
    queued: &[String],
    job_ids: &[u128],
    revision_key: &str,
)
    requires
        job_ids@.len() == queued@.len(),
    ensures
        results_view(final(results)@) == results_view(old(results)@) + Seq::new(
            queued@.len(),
            |k: int| queued_result(package_name@, queued@[k]@, job_ids@[k], revision_key@),
        ),
{
    let ghost start = results_view(results@);
    let mut k: usize = 0;
    while k < queued.len()
        invariant
            job_ids@.len() == queued@.len(),
            k <= queued@.len(),
            results_view(results@) == start + Seq::new(
                k as nat,
                |m: int| queued_result(package_name@, queued@[m]@, job_ids@[m], revision_key@),
            ),
        decreases queued@.len() - k,
    {
        let ghost before = results_view(results@);
        results.push(
            PackageActionTargetResult {
                package_name: to_owned_string(package_name),
                mock_chroot: queued[k].clone(),
                disposition: PackageActionDisposition::Queued,
                reason: None,
                job_id: Some(job_ids[k]),
                revision: Some(to_owned_string(revision_key)),
            },
        );
        assert(results_view(results@) =~= before.push(results_view(results@).last()));
        assert(results_view(results@) =~= start + Seq::new(
            (k + 1) as nat,
            |m: int| queued_result(package_name@, queued@[m]@, job_ids@[m], revision_key@),
        ));
        k = k + 1;
    }
}

/// A package must keep its name when its sources are re-read.
pub fn check_package_name(updated_name: &str, package_name: &str) -> (res: Result<(), SchedulerError>)
    ensures
        res is Ok <==> updated_name@ == package_name@,
        res is Err ==> res == Err::<(), SchedulerError>(SchedulerError::PackageRenamed),
{
    if str_eq(updated_name, package_name) {
        Ok(())
    } else {
        Err(SchedulerError::PackageRenamed)
    }
}

/// Poll failures that are expected and not worth a warning: nothing to
/// queue, or everything already queued.
pub fn is_quiet_poll_error(error: &SchedulerError) -> (res: bool)
    ensures
        res == (error is AlreadyQueued || error is NoSourceChanges),
{
    match error {
        SchedulerError::AlreadyQueued(_) | SchedulerError::NoSourceChanges => true,
        SchedulerError::PackageRenamed => false,
    }
}

/// Nanoseconds in a second.
pub const NANOS_PER_SECOND: u128 = 1_000_000_000;

/// A package is due for polling when it was never polled, or when at least
/// its poll interval (at least one second) passed since its last poll.
pub fn package_is_due(nanos_since_last_poll: Option<u128>, poll_interval_seconds: u64) -> (res: bool)
    ensures
        res == match nanos_since_last_poll {
            None => true,
            Some(elapsed) => elapsed >= (if poll_interval_seconds < 1 {
                1
            } else {
                poll_interval_seconds
            }) * NANOS_PER_SECOND,
        },
{
    let seconds: u64 = if poll_interval_seconds < 1 {
        1
    } else {
        poll_interval_seconds
    };
    match nanos_since_last_poll {
        None => true,
        Some(elapsed) => {
            let interval = (seconds as u128) * NANOS_PER_SECOND;
            !(elapsed < interval)
        },
    }
}


/// When a package was last polled, by package name.
pub struct PollHistoryView {
    pub last: Map<Seq<char>, u128>,
}

/// The last poll time of each package, on the daemon's monotonic clock in
/// nanoseconds; each package appears once.
#[derive(Debug, Clone)]
pub struct PollTracker {
    pub entries: Vec<(String, u128)>,
}

/// The nanoseconds from `last` to `now`, zero when `now` is earlier.
pub open spec fn elapsed_since(now: u128, last: u128) -> u128 {
    if now >= last {
        (now - last) as u128
    } else {
        0
    }
}

impl PollTracker {
    /// Each package is recorded once.
    pub open spec fn wf(&self) -> bool {
        forall|i: int, j: int| 0 <= i < j < self.entries@.len() ==> (#[trigger] self.entries@[i]).0@
            != (#[trigger] self.entries@[j]).0@
    }

    /// The last poll of each recorded package.
    pub open spec fn history(&self) -> Map<Seq<char>, u128> {
        Map::new(
            |name: Seq<char>| exists|i: int| 0 <= i < self.entries@.len() && (#[trigger] self.entries@[i]).0@ == name,
            |name: Seq<char>|
                self.entries@[choose|i: int| 0 <= i < self.entries@.len() && (#[trigger] self.entries@[i]).0@ == name].1,
        )
    }

    /// No package polled yet.
    pub fn new() -> (res: Self)
        ensures
            res.wf(),
            res.history() == Map::<Seq<char>, u128>::empty(),
    {
        let res = PollTracker { entries: Vec::new() };
        assert(res.history() =~= Map::<Seq<char>, u128>::empty());
        res
    }

    /// Whether `package_name` is due for a poll at `now`: never polled, or
    /// polled at least its interval (one second at least) ago. A due
    /// package is recorded as polled at `now`; otherwise nothing changes.
    pub fn take_due(&mut self, package_name: &str, now: u128, poll_interval_seconds: u64) -> (due: bool)
        requires
            old(self).wf(),
        ensures
            final(self).wf(),
            due == match old(self).history().get(package_name@) {
                None => true,
                Some(last) => elapsed_since(now, last) >= (if poll_interval_seconds < 1 {
                    1
                } else {
                    poll_interval_seconds
                }) * NANOS_PER_SECOND,
            },
            due ==> final(self).history() == old(self).history().insert(package_name@, now),
            !due ==> final(self).history() == old(self).history(),
    {
        let mut i: usize = 0;
        while i < self.entries.len()
            invariant
                i <= self.entries@.len(),
                forall|k: int| 0 <= k < i ==> (#[trigger] self.entries@[k]).0@ != package_name@,
            ensures
                i <= self.entries@.len(),
                forall|k: int| 0 <= k < i ==> (#[trigger] self.entries@[k]).0@ != package_name@,
                i < self.entries@.len() ==> self.entries@[i as int].0@ == package_name@,
            decreases self.entries@.len() - i,
        {
            if str_eq(self.entries[i].0.as_str(), package_name) {
                break;
            }
            i = i + 1;
        }
        let ghost old_history = self.history();
        if i < self.entries.len() {
            let last = self.entries[i].1;
            proof {
                assert(self.entries@[i as int].0@ == package_name@);
                assert(old_history.dom().contains(package_name@));
                let c = choose|c: int| 0 <= c < self.entries@.len() && (#[trigger] self.entries@[c]).0@ == package_name@;
                assert(c == i);
            }
            let elapsed = if now >= last {
                now - last
            } else {
                0
            };
            if !package_is_due(Some(elapsed), poll_interval_seconds) {
                return false;
            }
            let ghost before = self.entries@;
            let name = self.entries[i].0.clone();
            self.entries.set(i, (name, now));
            proof {
                assert(self.entries@ == before.update(i as int, (before[i as int].0, now)));
                assert forall|a: int, b: int| 0 <= a < b < self.entries@.len() implies (#[trigger] self.entries@[a]).0@
                    != (#[trigger] self.entries@[b]).0@ by {
                    assert(self.entries@[a].0 == before[a].0 && self.entries@[b].0 == before[b].0);
                }
                assert forall|n: Seq<char>| #[trigger] self.history().dom().contains(n) == old_history.insert(package_name@, now).dom().contains(n) by {
                    if old_history.dom().contains(n) {
                        let k = choose|k: int| 0 <= k < before.len() && (#[trigger] before[k]).0@ == n;
                        assert(self.entries@[k].0@ == n);
                    }
                    if self.history().dom().contains(n) {
                        let k = choose|k: int| 0 <= k < self.entries@.len() && (#[trigger] self.entries@[k]).0@ == n;
                        assert(before[k].0@ == n);
                    }
                }
                assert forall|n: Seq<char>| #[trigger] self.history().dom().contains(n) implies self.history()[n]
                    == old_history.insert(package_name@, now)[n] by {
                    let k = choose|k: int| 0 <= k < self.entries@.len() && (#[trigger] self.entries@[k]).0@ == n;
                    let ko = choose|k: int| 0 <= k < before.len() && (#[trigger] before[k]).0@ == n;
                    assert(before[k].0@ == n);
                    if k != ko {
                        assert(before[k].0@ == before[ko].0@);
                    }
                }
                assert(self.history() =~= old_history.insert(package_name@, now));
            }
            true
        } else {
            proof {
                assert(!old_history.dom().contains(package_name@));
            }
            let ghost before = self.entries@;
            self.entries.push((to_owned_string(package_name), now));
            proof {
                assert forall|a: int, b: int| 0 <= a < b < self.entries@.len() implies (#[trigger] self.entries@[a]).0@
                    != (#[trigger] self.entries@[b]).0@ by {
                    if b == before.len() {
                        assert(self.entries@[a] == before[a]);
                    } else {
                        assert(self.entries@[a] == before[a] && self.entries@[b] == before[b]);
                    }
                }
                assert forall|n: Seq<char>| #[trigger] self.history().dom().contains(n) == old_history.insert(package_name@, now).dom().contains(n) by {
                    if old_history.dom().contains(n) {
                        let k = choose|k: int| 0 <= k < before.len() && (#[trigger] before[k]).0@ == n;
                        assert(self.entries@[k] == before[k]);
                    }
                    if n == package_name@ {
                        assert(self.entries@[before.len() as int].0@ == n);
                    }
                    if self.history().dom().contains(n) && n != package_name@ {
                        let k = choose|k: int| 0 <= k < self.entries@.len() && (#[trigger] self.entries@[k]).0@ == n;
                        assert(k < before.len());
                        assert(before[k].0@ == n);
                    }
                }
                assert forall|n: Seq<char>| #[trigger] self.history().dom().contains(n) implies self.history()[n]
                    == old_history.insert(package_name@, now)[n] by {
                    let k = choose|k: int| 0 <= k < self.entries@.len() && (#[trigger] self.entries@[k]).0@ == n;
                    if n == package_name@ {
                        if k < before.len() {
                            assert(before[k].0@ == n);
                        }
                    } else {
                        assert(k < before.len());
                        let ko = choose|k: int| 0 <= k < before.len() && (#[trigger] before[k]).0@ == n;
                        assert(self.entries@[k] == before[k]);
                        if k != ko {
                            assert(before[k].0@ == before[ko].0@);
                        }
                    }
                }
                assert(self.history() =~= old_history.insert(package_name@, now));
            }
            true
        }
    }
}

/// A package is polled at most once per interval: right after a due poll
/// at `now`, the same package is not due again until its interval passed.
pub proof fn lemma_polled_once_per_interval(history: Map<Seq<char>, u128>, package_name: Seq<char>, now: u128, later: u128, poll_interval_seconds: u64)
    requires
        now <= later,
        later - now < (if poll_interval_seconds < 1 {
            1
        } else {
            poll_interval_seconds
        }) * NANOS_PER_SECOND,
    ensures
        !(elapsed_since(later, history.insert(package_name, now)[package_name]) >= (if poll_interval_seconds < 1 {
            1
        } else {
            poll_interval_seconds
        }) * NANOS_PER_SECOND),
{
}

/// A target queued among the first `m` stays queued among the first `n`.
proof fn lemma_queued_stays(
    chroots: Seq<String>,
    obs: Seq<TargetObservation>,
    revision_key: Seq<char>,
    force: bool,
    m: int,
    n: int,
    c: Seq<char>,
)
    requires
        0 <= m <= n,
        queued_targets(chroots, obs, revision_key, force, m).contains(c),
    ensures
        queued_targets(chroots, obs, revision_key, force, n).contains(c),
    decreases n - m,
{
    if m < n {
        lemma_queued_stays(chroots, obs, revision_key, force, m, n - 1, c);
        let before = queued_targets(chroots, obs, revision_key, force, n - 1);
        let k = choose|k: int| 0 <= k < before.len() && before[k] == c;
        let after = queued_targets(chroots, obs, revision_key, force, n);
        assert(after[k] == c);
    }
}

/// An unforced action builds every target that is not busy and has no
/// successful build of the current revision, and a target that never had
/// a successful build is such a target: its name is among the targets
/// built, so the action has something to build and does not fail.
pub proof fn lemma_outdated_target_is_built(
    chroots: Seq<String>,
    obs: Seq<TargetObservation>,
    revision_key: Seq<char>,
    force: bool,
    i: int,
)
    requires
        obs.len() == chroots.len(),
        0 <= i < chroots.len(),
        !obs[i].active,
        match obs[i].last_successful_revision {
            None => true,
            Some(r) => r@ != revision_key,
        },
    ensures
        queued_targets(chroots, obs, revision_key, force, chroots.len() as int).contains(chroots[i]@),
        queued_targets(chroots, obs, revision_key, force, chroots.len() as int).len() > 0,
{
    let q = queued_targets(chroots, obs, revision_key, force, i + 1);
    assert(q.last() == chroots[i]@);
    assert(q.contains(chroots[i]@)) by {
        assert(q[q.len() - 1] == chroots[i]@);
    }
    lemma_queued_stays(chroots, obs, revision_key, force, i + 1, chroots.len() as int, chroots[i]@);
}

/// Every target of an action gets exactly one outcome: it is built, or it
/// has a blocked or skipped result.
pub proof fn lemma_targets_partitioned(
    package_name: Seq<char>,
    chroots: Seq<String>,
    obs: Seq<TargetObservation>,
    revision_key: Seq<char>,
    force: bool,
    n: int,
)
    requires
        0 <= n <= chroots.len(),
        obs.len() == chroots.len(),
    ensures
        queued_targets(chroots, obs, revision_key, force, n).len() + settled_results(
            package_name,
            chroots,
            obs,
            revision_key,
            force,
            n,
        ).len() == n,
    decreases n,
{
    if n > 0 {
        lemma_targets_partitioned(package_name, chroots, obs, revision_key, force, n - 1);
    }
}

/// A forced action (a rebuild) skips nothing: every target it does not
/// build is blocked by an active job.
pub proof fn lemma_forced_action_skips_nothing(
    package_name: Seq<char>,
    chroots: Seq<String>,
    obs: Seq<TargetObservation>,
    revision_key: Seq<char>,
    n: int,
)
    requires
        0 <= n <= chroots.len(),
        obs.len() == chroots.len(),
    ensures
        forall|k: int|
            0 <= k < settled_results(package_name, chroots, obs, revision_key, true, n).len()
                ==> (#[trigger] settled_results(package_name, chroots, obs, revision_key, true, n)[k]).disposition is Blocked,
    decreases n,
{
    if n > 0 {
        lemma_forced_action_skips_nothing(package_name, chroots, obs, revision_key, n - 1);
        let before = settled_results(package_name, chroots, obs, revision_key, true, n - 1);
        let after = settled_results(package_name, chroots, obs, revision_key, true, n);
        assert forall|k: int| 0 <= k < after.len() implies (#[trigger] after[k]).disposition is Blocked by {
            if k < before.len() {
                assert(after[k] == before[k]);
            }
        }
    }
}

/// An unforced action (a refresh or a poll) builds nothing when no target
/// is active and every target's last successful build is of the current
/// revision.
pub proof fn lemma_unchanged_sources_build_nothing(
    chroots: Seq<String>,
    obs: Seq<TargetObservation>,
    revision_key: Seq<char>,
    n: int,
)
    requires
        0 <= n <= chroots.len(),
        obs.len() == chroots.len(),
        forall|i: int|
            0 <= i < n ==> !(#[trigger] obs[i]).active && text_opt(obs[i].last_successful_revision)
                == Some(revision_key),
    ensures
        queued_targets(chroots, obs, revision_key, false, n).len() == 0,
        !any_blocked(obs, n),
    decreases n,
{
    if n > 0 {
        lemma_unchanged_sources_build_nothing(chroots, obs, revision_key, n - 1);
        assert(!obs[n - 1].active);
    }
}

} // verus!
