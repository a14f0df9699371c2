use orchestrator::model::ArtifactKind;
use orchestrator::sessions::{
    managed_key_identity, merge_result_artifacts, new_managed_key_identity, orphan_job_dir, SessionTable,
    WorkerSession,
};
use orchestrator::worker_launch::{
    choose_network, hostname_from_file, mock_mount_plan, path_join, worker_command_args, worker_container_name,
    worker_resource_limits, CcacheTarget, ResourceLimitError, WorkerResourceLimits,
};
use orchestrator::worker_protocol::{
    ArtifactUpload, ConnectionAction, ConnectionEvent, ConnectionPhase, ProtocolError, WireMessage,
    WorkerConnection,
};

const JOB: u128 = 0xa1a2a3a4b1b2c1c2d1d2d3d4d5d6d7d8;

#[test]
fn sessions_are_named_by_their_job() {
    let session = WorkerSession::for_job(JOB);
    assert_eq!(session.worker_id, "a1a2a3a4-b1b2-c1c2-d1d2-d3d4d5d6d7d8");
    assert_eq!(WorkerSession::for_job(0).worker_id, "00000000-0000-0000-0000-000000000000");
    assert_eq!(worker_container_name(JOB), "synforge-worker-a1a2a3a4-b1b2-c1c2-d1d2-d3d4d5d6d7d8");
}

#[test]
fn reported_artifacts_win_over_uploads() {
    assert_eq!(merge_result_artifacts(vec![1, 2], vec![3]), vec![1, 2]);
    assert_eq!(merge_result_artifacts(Vec::<u8>::new(), vec![3]), vec![3]);
}

#[test]
fn managed_key_identities() {
    assert_eq!(
        managed_key_identity("abc"),
        "Synforge Repository Signing abc <synforge+abc@localhost>"
    );
    let fresh = new_managed_key_identity();
    let nonce = &fresh["Synforge Repository Signing ".len().."Synforge Repository Signing ".len() + 32];
    assert!(nonce.chars().all(|c| c.is_ascii_hexdigit() && !c.is_ascii_uppercase()));
    assert_eq!(fresh, managed_key_identity(nonce));
}

#[test]
fn orphan_directories() {
    let name = "a1a2a3a4-b1b2-c1c2-d1d2-d3d4d5d6d7d8";
    assert_eq!(orphan_job_dir(name, &[]), Some(JOB));
    assert_eq!(orphan_job_dir(name, &[7, JOB]), None);
    assert_eq!(orphan_job_dir("a1a2a3a4b1b2c1c2d1d2d3d4d5d6d7d8", &[]), Some(JOB));
    assert_eq!(orphan_job_dir("not-a-job", &[]), None);
}

#[test]
fn paths_join_like_std() {
    assert_eq!(path_join("/a", "b"), "/a/b");
    assert_eq!(path_join("/a/", "b"), "/a/b");
    assert_eq!(path_join("", "b"), "b");
    assert_eq!(path_join("/a", "/b"), "/b");
    assert_eq!(path_join("a", ""), "a/");
}

#[test]
fn mock_mounts() {
    assert!(mock_mount_plan(None, "/jobs", "/synforge", JOB, None).is_none());
    let plan = mock_mount_plan(Some("/host/jobs"), "/jobs", "/synforge", JOB, None).unwrap();
    let job = "a1a2a3a4-b1b2-c1c2-d1d2-d3d4d5d6d7d8";
    assert_eq!(
        plan.create_dirs,
        vec![format!("/jobs/{job}/mock/lib"), format!("/jobs/{job}/mock/cache")]
    );
    assert_eq!(
        plan.binds,
        vec![
            format!("/host/jobs/{job}/mock/lib:/synforge/mock/lib:rw,z"),
            format!("/host/jobs/{job}/mock/cache:/synforge/mock/cache:rw,z"),
        ]
    );
    let target = CcacheTarget { package_name: "foo".to_string(), mock_chroot: "fedora-41-x86_64".to_string() };
    let with_cache = mock_mount_plan(Some("/host/jobs"), "/jobs", "/synforge", JOB, Some(target)).unwrap();
    assert_eq!(with_cache.create_dirs[2], "/jobs/ccache/foo/fedora-41-x86_64");
    assert_eq!(with_cache.binds[2], "/host/jobs/ccache/foo/fedora-41-x86_64:/synforge/ccache:rw,z");
}

#[test]
fn resource_limits_scale_for_docker() {
    assert_eq!(
        worker_resource_limits(Some(1500), Some(2048)),
        Ok(WorkerResourceLimits {
            cpu_limit_millicores: Some(1500),
            memory_limit_mb: Some(2048),
            nano_cpus: Some(1_500_000_000),
            memory_bytes: Some(2_147_483_648),
        })
    );
    assert_eq!(
        worker_resource_limits(Some(0), None),
        Ok(WorkerResourceLimits { cpu_limit_millicores: None, memory_limit_mb: None, nano_cpus: None, memory_bytes: None })
    );
    assert_eq!(worker_resource_limits(Some(u64::MAX), None), Err(ResourceLimitError::CpuTooLarge(u64::MAX)));
    assert_eq!(
        worker_resource_limits(Some(10_000_000_000_000), None),
        Err(ResourceLimitError::CpuOutOfRange)
    );
    assert_eq!(worker_resource_limits(None, Some(u64::MAX)), Err(ResourceLimitError::MemoryTooLarge(u64::MAX)));
    assert_eq!(
        worker_resource_limits(None, Some(9_000_000_000_000)),
        Err(ResourceLimitError::MemoryOutOfRange)
    );
}

#[test]
fn worker_command_line() {
    assert_eq!(
        worker_command_args("w1", 7000, 30),
        vec!["--worker-id", "w1", "--connect-addr", "daemon:7000", "--socket-timeout-seconds", "30"]
    );
}

#[test]
fn network_choice_prefers_user_networks() {
    let names = vec!["bridge".to_string(), "synforge_net".to_string(), "host".to_string()];
    assert_eq!(choose_network(&names), Some("synforge_net".to_string()));
    assert_eq!(choose_network(&vec!["host".to_string(), "none".to_string()]), Some("host".to_string()));
    assert_eq!(choose_network(&vec![]), None);
    assert_eq!(hostname_from_file(" abc123\n"), Some("abc123".to_string()));
    assert_eq!(hostname_from_file("\n"), None);
}

fn frame(m: WireMessage) -> ConnectionEvent {
    ConnectionEvent::Frame(m)
}

#[test]
fn worker_protocol_happy_path() {
    let mut c = WorkerConnection::new();
    assert_eq!(
        c.handle_event(frame(WireMessage::Hello { worker_id: "w".to_string() })),
        ConnectionAction::AssignJob { worker_id: "w".to_string() }
    );
    assert_eq!(
        c.handle_event(frame(WireMessage::LogChunk { path: "build.log".to_string() })),
        ConnectionAction::AppendLog { path: "build.log".to_string(), register: true }
    );
    assert_eq!(
        c.handle_event(frame(WireMessage::LogChunk { path: "build.log".to_string() })),
        ConnectionAction::AppendLog { path: "build.log".to_string(), register: false }
    );
    let upload = ArtifactUpload { artifact_id: 5, relative_path: "a.rpm".to_string(), kind: ArtifactKind::Rpm };
    assert_eq!(
        c.handle_event(frame(WireMessage::ArtifactStart {
            artifact_id: 5,
            path: "a.rpm".to_string(),
            kind: ArtifactKind::Rpm
        })),
        ConnectionAction::BeginArtifact(upload.clone())
    );
    assert_eq!(c.handle_event(frame(WireMessage::ArtifactChunk)), ConnectionAction::WriteArtifactChunk);
    assert_eq!(c.handle_event(frame(WireMessage::Heartbeat)), ConnectionAction::Ignore);
    assert_eq!(c.handle_event(frame(WireMessage::ArtifactComplete)), ConnectionAction::FinalizeArtifact(upload));
    assert_eq!(c.handle_event(frame(WireMessage::Result)), ConnectionAction::Complete);
    assert_eq!(c.phase, ConnectionPhase::Closed);
}

#[test]
fn worker_protocol_violations() {
    let mut c = WorkerConnection::new();
    assert_eq!(c.handle_event(ConnectionEvent::Disconnected), ConnectionAction::Fail(ProtocolError::DisconnectedBeforeHello));
    let mut c = WorkerConnection::new();
    assert_eq!(c.handle_event(frame(WireMessage::Heartbeat)), ConnectionAction::Fail(ProtocolError::ExpectedHello));
    let start = || {
        let mut c = WorkerConnection::new();
        c.handle_event(frame(WireMessage::Hello { worker_id: "w".to_string() }));
        c
    };
    let mut c = start();
    assert_eq!(c.handle_event(frame(WireMessage::ArtifactChunk)), ConnectionAction::Fail(ProtocolError::ChunkWithoutStart));
    let mut c = start();
    assert_eq!(
        c.handle_event(frame(WireMessage::ArtifactComplete)),
        ConnectionAction::Fail(ProtocolError::CompleteWithoutStart)
    );
    let mut c = start();
    let begin = WireMessage::ArtifactStart { artifact_id: 1, path: "x".to_string(), kind: ArtifactKind::Srpm };
    c.handle_event(frame(begin.clone()));
    assert_eq!(c.handle_event(frame(begin)), ConnectionAction::Fail(ProtocolError::UploadInProgress));
    let mut c = start();
    assert_eq!(
        c.handle_event(frame(WireMessage::Error { message: "oom".to_string() })),
        ConnectionAction::Fail(ProtocolError::WorkerReported("oom".to_string()))
    );
    assert_eq!(ProtocolError::WorkerReported("oom".to_string()).message(), "worker reported error: oom");
    let mut c = start();
    assert_eq!(c.handle_event(frame(WireMessage::JobAssignment)), ConnectionAction::Fail(ProtocolError::UnexpectedMessage));
    let mut c = start();
    assert_eq!(c.handle_event(ConnectionEvent::Disconnected), ConnectionAction::Close);
    assert_eq!(ProtocolError::ExpectedHello.message(), "expected worker hello");
}

#[test]
fn session_table_tracks_workers() {
    let mut table: SessionTable<&str, u32> = SessionTable::new();
    let session = table.create_session(JOB, "payload-1");
    assert_eq!(session.worker_id, "a1a2a3a4-b1b2-c1c2-d1d2-d3d4d5d6d7d8");
    table.create_session(7, "payload-7");
    assert_eq!(table.connect_worker(&session.worker_id), Some((JOB, &"payload-1")));
    assert_eq!(table.connect_worker("nobody"), None);
    table.create_session(JOB, "payload-2");
    assert_eq!(table.entries.len(), 2);
    assert_eq!(table.connect_worker(&session.worker_id), Some((JOB, &"payload-2")));
    table.set_container_id(7, "c7".to_string());
    table.set_container_id(99, "none".to_string());
    assert_eq!(table.active_container_sessions(), vec![(7, "c7".to_string())]);
    assert!(table.record_artifact(7, 1));
    assert!(table.record_artifact(7, 2));
    assert!(!table.record_artifact(99, 3));
    let removed = table.remove_session(7).unwrap();
    assert_eq!(removed.artifacts, vec![1, 2]);
    assert_eq!(removed.container_id, Some("c7".to_string()));
    assert!(table.remove_session(7).is_none());
    assert!(table.active_container_sessions().is_empty());
    assert!(!table.has_session(7));
    assert!(table.has_session(JOB));
    let seven = orchestrator::sessions::WorkerSession::for_job(7);
    assert_eq!(table.connect_worker(&seven.worker_id), None);
    assert_eq!(table.connect_worker(&session.worker_id), Some((JOB, &"payload-2")));
}
