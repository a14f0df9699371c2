use vstd::prelude::*;

use crate::text::str_eq;

verus! {

/// Where a build job is in its life.
#[derive(Debug, Clone, Copy, PartialEq, Eq)]
pub enum BuildStatus {
    Pending,
    Running,
    Succeeded,
    Failed,
    TimedOut,
}

/// What asked for a build.
#[derive(Debug, Clone, Copy, PartialEq, Eq)]
pub enum BuildTrigger {
    Poll,
    ManualRefresh,
    ManualRebuild,
    Api,
}

/// What a build artifact is.
#[derive(Debug, Clone, Copy, PartialEq, Eq)]
pub enum ArtifactKind {
    Rpm,
    Srpm,
    Debuginfo,
    Debugsource,
    Log,
    Other,
}

/// A job is active while it is pending or running.
pub open spec fn is_active_status(status: BuildStatus) -> bool {
    status is Pending || status is Running
}

/// Whether a job is still pending or running.
pub fn is_active(status: BuildStatus) -> (res: bool)
    ensures
        res == is_active_status(status),
{
    match status {
        BuildStatus::Pending | BuildStatus::Running => true,
        _ => false,
    }
}

/// Failed and timed-out jobs are the ones failure pruning removes and the
/// ones that start a failure backoff.
pub open spec fn is_failure_status(status: BuildStatus) -> bool {
    status is Failed || status is TimedOut
}

/// Whether a job ended in failure (failed or timed out).
pub fn is_failure(status: BuildStatus) -> (res: bool)
    ensures
        res == is_failure_status(status),
{
    match status {
        BuildStatus::Failed | BuildStatus::TimedOut => true,
        _ => false,
    }
}

pub open spec fn build_status_text(value: BuildStatus) -> Seq<char> {
    match value {
        BuildStatus::Pending => "pending"@,
        BuildStatus::Running => "running"@,
        BuildStatus::Succeeded => "succeeded"@,
        BuildStatus::Failed => "failed"@,
        BuildStatus::TimedOut => "timed_out"@,
    }
}

/// The stored text of a build status.
pub fn build_status_value(value: BuildStatus) -> (res: &'static str)
    ensures
        res@ == build_status_text(value),
{
    match value {
        BuildStatus::Pending => "pending",
        BuildStatus::Running => "running",
        BuildStatus::Succeeded => "succeeded",
        BuildStatus::Failed => "failed",
        BuildStatus::TimedOut => "timed_out",
    }
}

pub open spec fn parse_build_status_spec(value: Seq<char>) -> BuildStatus {
    if value == "running"@ {
        BuildStatus::Running
    } else if value == "succeeded"@ {
        BuildStatus::Succeeded
    } else if value == "failed"@ {
        BuildStatus::Failed
    } else if value == "timedout"@ || value == "timed_out"@ {
        BuildStatus::TimedOut
    } else {
        BuildStatus::Pending
    }
}

/// Reads a stored build status; unknown text reads as pending.
pub fn parse_build_status(value: &str) -> (res: BuildStatus)
    ensures
        res == parse_build_status_spec(value@),
{
    if str_eq(value, "running") {
        BuildStatus::Running
    } else if str_eq(value, "succeeded") {
        BuildStatus::Succeeded
    } else if str_eq(value, "failed") {
        BuildStatus::Failed
    } else if str_eq(value, "timedout") || str_eq(value, "timed_out") {
        BuildStatus::TimedOut
    } else {
        BuildStatus::Pending
    }
}

pub open spec fn build_trigger_text(value: BuildTrigger) -> Seq<char> {
    match value {
        BuildTrigger::Poll => "poll"@,
        BuildTrigger::ManualRefresh => "manual_refresh"@,
        BuildTrigger::ManualRebuild => "manual_rebuild"@,
        BuildTrigger::Api => "api"@,
    }
}

/// The stored text of a build trigger.
pub fn build_trigger_value(value: BuildTrigger) -> (res: &'static str)
    ensures
        res@ == build_trigger_text(value),
{
    match value {
        BuildTrigger::Poll => "poll",
        BuildTrigger::ManualRefresh => "manual_refresh",
        BuildTrigger::ManualRebuild => "manual_rebuild",
        BuildTrigger::Api => "api",
    }
}

pub open spec fn parse_build_trigger_spec(value: Seq<char>) -> BuildTrigger {
    if value == "manualrefresh"@ || value == "manual_refresh"@ {
        BuildTrigger::ManualRefresh
    } else if value == "manualrebuild"@ || value == "manual_rebuild"@ {
        BuildTrigger::ManualRebuild
    } else if value == "api"@ {
        BuildTrigger::Api
    } else {
        BuildTrigger::Poll
    }
}

/// Reads a stored build trigger; unknown text reads as a poll.
pub fn parse_build_trigger(value: &str) -> (res: BuildTrigger)
    ensures
        res == parse_build_trigger_spec(value@),
{
    if str_eq(value, "manualrefresh") || str_eq(value, "manual_refresh") {
        BuildTrigger::ManualRefresh
    } else if str_eq(value, "manualrebuild") || str_eq(value, "manual_rebuild") {
        BuildTrigger::ManualRebuild
    } else if str_eq(value, "api") {
        BuildTrigger::Api
    } else {
        BuildTrigger::Poll
    }
}

pub open spec fn artifact_kind_text(value: ArtifactKind) -> Seq<char> {
    match value {
        ArtifactKind::Rpm => "rpm"@,
        ArtifactKind::Srpm => "srpm"@,
        ArtifactKind::Debuginfo => "debuginfo"@,
        ArtifactKind::Debugsource => "debugsource"@,
        ArtifactKind::Log => "log"@,
        ArtifactKind::Other => "other"@,
    }
}

/// The stored text of an artifact kind.
pub fn artifact_kind_value(value: ArtifactKind) -> (res: &'static str)
    ensures
        res@ == artifact_kind_text(value),
{
    match value {
        ArtifactKind::Rpm => "rpm",
        ArtifactKind::Srpm => "srpm",
        ArtifactKind::Debuginfo => "debuginfo",
        ArtifactKind::Debugsource => "debugsource",
        ArtifactKind::Log => "log",
        ArtifactKind::Other => "other",
    }
}

pub open spec fn parse_artifact_kind_spec(value: Seq<char>) -> ArtifactKind {
    if value == "srpm"@ {
        ArtifactKind::Srpm
    } else if value == "debuginfo"@ {
        ArtifactKind::Debuginfo
    } else if value == "debugsource"@ {
        ArtifactKind::Debugsource
    } else if value == "log"@ {
        ArtifactKind::Log
    } else if value == "other"@ {
        ArtifactKind::Other
    } else {
        ArtifactKind::Rpm
    }
}

/// Reads a stored artifact kind; unknown text reads as an rpm.
pub fn parse_artifact_kind(value: &str) -> (res: ArtifactKind)
    ensures
        res == parse_artifact_kind_spec(value@),
{
    if str_eq(value, "srpm") {
        ArtifactKind::Srpm
    } else if str_eq(value, "debuginfo") {
        ArtifactKind::Debuginfo
    } else if str_eq(value, "debugsource") {
        ArtifactKind::Debugsource
    } else if str_eq(value, "log") {
        ArtifactKind::Log
    } else if str_eq(value, "other") {
        ArtifactKind::Other
    } else {
        ArtifactKind::Rpm
    }
}

/// Reading back the stored text of a build status gives the status.
pub proof fn lemma_build_status_round_trip(value: BuildStatus)
    ensures
        parse_build_status_spec(build_status_text(value)) == value,
{
    reveal_strlit("pending");
    reveal_strlit("running");
    reveal_strlit("succeeded");
    reveal_strlit("failed");
    reveal_strlit("timedout");
    reveal_strlit("timed_out");
    assert("pending"@.len() == 7);
    assert("pending"@[0] == 'p');
    assert("running"@.len() == 7);
    assert("running"@[0] == 'r');
    assert("succeeded"@.len() == 9);
    assert("succeeded"@[0] == 's');
    assert("failed"@.len() == 6);
    assert("failed"@[0] == 'f');
    assert("timedout"@.len() == 8);
    assert("timedout"@[0] == 't');
    assert("timed_out"@.len() == 9);
    assert("timed_out"@[0] == 't');
}

/// Reading back the stored text of a build trigger gives the trigger.
pub proof fn lemma_build_trigger_round_trip(value: BuildTrigger)
    ensures
        parse_build_trigger_spec(build_trigger_text(value)) == value,
{
    reveal_strlit("poll");
    reveal_strlit("manualrefresh");
    reveal_strlit("manual_refresh");
    reveal_strlit("manualrebuild");
    reveal_strlit("manual_rebuild");
    reveal_strlit("api");
    assert("poll"@.len() == 4);
    assert("poll"@[0] == 'p');
    assert("manualrefresh"@.len() == 13);
    assert("manualrefresh"@[0] == 'm');
    assert("manualrefresh"@[8] == 'f');
    assert("manualrefresh"@[9] == 'r');
    assert("manual_refresh"@.len() == 14);
    assert("manual_refresh"@[0] == 'm');
    assert("manual_refresh"@[8] == 'e');
    assert("manual_refresh"@[9] == 'f');
    assert("manualrebuild"@.len() == 13);
    assert("manualrebuild"@[0] == 'm');
    assert("manualrebuild"@[8] == 'b');
    assert("manualrebuild"@[9] == 'u');
    assert("manual_rebuild"@.len() == 14);
    assert("manual_rebuild"@[0] == 'm');
    assert("manual_rebuild"@[8] == 'e');
    assert("manual_rebuild"@[9] == 'b');
    assert("api"@.len() == 3);
    assert("api"@[0] == 'a');
}

/// Reading back the stored text of an artifact kind gives the kind.
pub proof fn lemma_artifact_kind_round_trip(value: ArtifactKind)
    ensures
        parse_artifact_kind_spec(artifact_kind_text(value)) == value,
{
    reveal_strlit("rpm");
    reveal_strlit("srpm");
    reveal_strlit("debuginfo");
    reveal_strlit("debugsource");
    reveal_strlit("log");
    reveal_strlit("other");
    assert("rpm"@.len() == 3);
    assert("rpm"@[0] == 'r');
    assert("srpm"@.len() == 4);
    assert("srpm"@[0] == 's');
    assert("debuginfo"@.len() == 9);
    assert("debuginfo"@[0] == 'd');
    assert("debugsource"@.len() == 11);
    assert("debugsource"@[0] == 'd');
    assert("log"@.len() == 3);
    assert("log"@[0] == 'l');
    assert("other"@.len() == 5);
    assert("other"@[0] == 'o');
}

} // verus!
