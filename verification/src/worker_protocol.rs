use vstd::prelude::*;

use crate::model::ArtifactKind;

verus! {

/// A frame a build worker sends over its socket, as far as the daemon's
/// decisions read it (the payload bytes of log and artifact chunks travel
/// beside it).
#[derive(Debug, Clone, PartialEq, Eq)]
pub enum WireMessage {
    Hello { worker_id: String },
    JobAssignment,
    LogChunk { path: String },
    ArtifactStart { artifact_id: u128, path: String, kind: ArtifactKind },
    ArtifactChunk,
    ArtifactComplete,
    Result,
    Heartbeat,
    Error { message: String },
}

/// What happened on a worker connection.
#[derive(Debug, Clone, PartialEq, Eq)]
pub enum ConnectionEvent {
    /// A decoded frame arrived.
    Frame(WireMessage),
    /// The worker closed the connection.
    Disconnected,
}

/// The artifact whose bytes are being received.
#[derive(Debug, Clone, PartialEq, Eq)]
pub struct ArtifactUpload {
    pub artifact_id: u128,
    pub relative_path: String,
    pub kind: ArtifactKind,
}

/// Why a worker connection was dropped.
#[derive(Debug, Clone, PartialEq, Eq)]
pub enum ProtocolError {
    DisconnectedBeforeHello,
    ExpectedHello,
    UploadInProgress,
    ChunkWithoutStart,
    CompleteWithoutStart,
    WorkerReported(String),
    UnexpectedMessage,
}

impl ProtocolError {
    /// The error text the daemon logs for the connection.
    pub fn message(&self) -> (res: String)
        ensures
            res@ == protocol_error_text(*self),
    {
        match self {
            ProtocolError::DisconnectedBeforeHello => "worker disconnected before hello".to_string(),
            ProtocolError::ExpectedHello => "expected worker hello".to_string(),
            ProtocolError::UploadInProgress => "artifact upload already in progress".to_string(),
            ProtocolError::ChunkWithoutStart => "artifact chunk received without start".to_string(),
            ProtocolError::CompleteWithoutStart => "artifact complete received without start".to_string(),
            ProtocolError::WorkerReported(message) => crate::text::concat_strs(
                "worker reported error: ",
                message.as_str(),
            ),
            ProtocolError::UnexpectedMessage => "unexpected worker message".to_string(),
        }
    }
}

pub open spec fn protocol_error_text(e: ProtocolError) -> Seq<char> {
    match e {
        ProtocolError::DisconnectedBeforeHello => "worker disconnected before hello"@,
        ProtocolError::ExpectedHello => "expected worker hello"@,
        ProtocolError::UploadInProgress => "artifact upload already in progress"@,
        ProtocolError::ChunkWithoutStart => "artifact chunk received without start"@,
        ProtocolError::CompleteWithoutStart => "artifact complete received without start"@,
        ProtocolError::WorkerReported(message) => "worker reported error: "@ + message@,
        ProtocolError::UnexpectedMessage => "unexpected worker message"@,
    }
}

/// What the daemon does in answer to an event.
#[derive(Debug, Clone, PartialEq, Eq)]
pub enum ConnectionAction {
    /// Look up the worker's session and send it its job.
    AssignJob { worker_id: String },
    /// Append the chunk's bytes to the log at `path`; when `register` is set
    /// the log file is opened and recorded for the job first.
    AppendLog { path: String, register: bool },
    /// Create the upload file of a new artifact.
    BeginArtifact(ArtifactUpload),
    /// Append the chunk's bytes to the artifact being received.
    WriteArtifactChunk,
    /// Flush the artifact's file and record it with the session.
    FinalizeArtifact(ArtifactUpload),
    /// Hand the worker's result to its session and end the connection.
    Complete,
    /// Nothing to do.
    Ignore,
    /// The worker went away after its hello: end without error.
    Close,
    /// End the connection with an error.
    Fail(ProtocolError),
}

/// Where a connection stands.
#[derive(Debug, Clone, Copy, PartialEq, Eq)]
pub enum ConnectionPhase {
    AwaitingHello,
    Streaming,
    Closed,
}

/// The daemon's side of one worker connection.
#[derive(Debug, Clone)]
pub struct WorkerConnection {
    pub phase: ConnectionPhase,
    /// The artifact being received, if any.
    pub upload: Option<ArtifactUpload>,
    /// The log paths already opened on this connection, in order.
    pub open_logs: Vec<String>,
}

/// A connection as the protocol sees it.
pub struct ConnectionView {
    pub phase: ConnectionPhase,
    pub upload: Option<ArtifactUpload>,
    pub open_logs: Seq<String>,
}

impl View for WorkerConnection {
    type V = ConnectionView;

    open spec fn view(&self) -> ConnectionView {
        ConnectionView { phase: self.phase, upload: self.upload, open_logs: self.open_logs@ }
    }
}

/// Whether `path` is among the opened logs.
pub open spec fn has_log(logs: Seq<String>, path: Seq<char>) -> bool {
    exists|i: int| 0 <= i < logs.len() && (#[trigger] logs[i])@ == path
}

/// No log path is opened twice.
pub open spec fn logs_distinct(logs: Seq<String>) -> bool {
    forall|i: int, j: int| 0 <= i < j < logs.len() ==> (#[trigger] logs[i])@ != (#[trigger] logs[j])@
}

pub open spec fn closed_with(c: ConnectionView, action: ConnectionAction) -> (ConnectionView, ConnectionAction) {
    (ConnectionView { phase: ConnectionPhase::Closed, ..c }, action)
}

/// The protocol: the worker greets first, then streams logs, artifacts one
/// at a time, and finally its result. Any other order ends the connection
/// with an error.
pub open spec fn step_spec(c: ConnectionView, e: ConnectionEvent) -> (ConnectionView, ConnectionAction) {
    match c.phase {
        ConnectionPhase::AwaitingHello => match e {
            ConnectionEvent::Disconnected => closed_with(c, ConnectionAction::Fail(ProtocolError::DisconnectedBeforeHello)),
            ConnectionEvent::Frame(WireMessage::Hello { worker_id }) => (
                ConnectionView { phase: ConnectionPhase::Streaming, ..c },
                ConnectionAction::AssignJob { worker_id },
            ),
            ConnectionEvent::Frame(_) => closed_with(c, ConnectionAction::Fail(ProtocolError::ExpectedHello)),
        },
        ConnectionPhase::Streaming => match e {
            ConnectionEvent::Disconnected => closed_with(c, ConnectionAction::Close),
            ConnectionEvent::Frame(m) => match m {
                WireMessage::LogChunk { path } => {
                    let register = !has_log(c.open_logs, path@);
                    (
                        if register {
                            ConnectionView { open_logs: c.open_logs.push(path), ..c }
                        } else {
                            c
                        },
                        ConnectionAction::AppendLog { path, register },
                    )
                },
                WireMessage::ArtifactStart { artifact_id, path, kind } => match c.upload {
                    Some(_) => closed_with(c, ConnectionAction::Fail(ProtocolError::UploadInProgress)),
                    None => {
                        let u = ArtifactUpload { artifact_id, relative_path: path, kind };
                        (ConnectionView { upload: Some(u), ..c }, ConnectionAction::BeginArtifact(u))
                    },
                },
                WireMessage::ArtifactChunk => match c.upload {
                    Some(_) => (c, ConnectionAction::WriteArtifactChunk),
                    None => closed_with(c, ConnectionAction::Fail(ProtocolError::ChunkWithoutStart)),
                },
                WireMessage::ArtifactComplete => match c.upload {
                    Some(u) => (ConnectionView { upload: None, ..c }, ConnectionAction::FinalizeArtifact(u)),
                    None => closed_with(c, ConnectionAction::Fail(ProtocolError::CompleteWithoutStart)),
                },
                WireMessage::Result => closed_with(c, ConnectionAction::Complete),
                WireMessage::Heartbeat => (c, ConnectionAction::Ignore),
                WireMessage::Error { message } => closed_with(
                    c,
                    ConnectionAction::Fail(ProtocolError::WorkerReported(message)),
                ),
                WireMessage::Hello { .. } | WireMessage::JobAssignment => closed_with(
                    c,
                    ConnectionAction::Fail(ProtocolError::UnexpectedMessage),
                ),
            },
        },
        ConnectionPhase::Closed => (c, ConnectionAction::Ignore),
    }
}

fn log_is_open(logs: &Vec<String>, path: &String) -> (res: bool)
    ensures
        res == has_log(logs@, path@),
{
    let mut i: usize = 0;
    while i < logs.len()
        invariant
            i <= logs@.len(),
            forall|k: int| 0 <= k < i ==> (#[trigger] logs@[k])@ != path@,
        decreases logs@.len() - i,
    {
        if logs[i] == *path {
            return true;
        }
        i = i + 1;
    }
    false
}

impl WorkerConnection {
    /// A connection that has not yet heard from its worker.
    pub fn new() -> (res: Self)
        ensures
            res@.phase == ConnectionPhase::AwaitingHello,
            res@.upload is None,
            res@.open_logs.len() == 0,
    {
        WorkerConnection { phase: ConnectionPhase::AwaitingHello, upload: None, open_logs: Vec::new() }
    }

    /// Answers one event on an open connection and moves to the next state.
    pub fn handle_event(&mut self, event: ConnectionEvent) -> (action: ConnectionAction)
        requires
            old(self).phase != ConnectionPhase::Closed,
        ensures
            (final(self)@, action) == step_spec(old(self)@, event),
    {
        match self.phase {
            ConnectionPhase::AwaitingHello => match event {
                ConnectionEvent::Frame(WireMessage::Hello { worker_id }) => {
                    self.phase = ConnectionPhase::Streaming;
                    ConnectionAction::AssignJob { worker_id }
                },
                ConnectionEvent::Disconnected => {
                    self.phase = ConnectionPhase::Closed;
                    ConnectionAction::Fail(ProtocolError::DisconnectedBeforeHello)
                },
                ConnectionEvent::Frame(_) => {
                    self.phase = ConnectionPhase::Closed;
                    ConnectionAction::Fail(ProtocolError::ExpectedHello)
                },
            },
            _ => match event {
                ConnectionEvent::Disconnected => {
                    self.phase = ConnectionPhase::Closed;
                    ConnectionAction::Close
                },
                ConnectionEvent::Frame(message) => self.handle_frame(message),
            },
        }
    }

    fn handle_frame(&mut self, message: WireMessage) -> (action: ConnectionAction)
        requires
            old(self).phase == ConnectionPhase::Streaming,
        ensures
            (final(self)@, action) == step_spec(old(self)@, ConnectionEvent::Frame(message)),
    {
        match message {
            WireMessage::LogChunk { path } => {
                let register = !log_is_open(&self.open_logs, &path);
                if register {
                    self.open_logs.push(path.clone());
                }
                ConnectionAction::AppendLog { path, register }
            },
            WireMessage::ArtifactStart { artifact_id, path, kind } => {
                if self.upload.is_some() {
                    self.phase = ConnectionPhase::Closed;
                    ConnectionAction::Fail(ProtocolError::UploadInProgress)
                } else {
                    self.upload = Some(ArtifactUpload { artifact_id, relative_path: path.clone(), kind });
                    ConnectionAction::BeginArtifact(ArtifactUpload { artifact_id, relative_path: path, kind })
                }
            },
            WireMessage::ArtifactChunk => {
                if self.upload.is_some() {
                    ConnectionAction::WriteArtifactChunk
                } else {
                    self.phase = ConnectionPhase::Closed;
                    ConnectionAction::Fail(ProtocolError::ChunkWithoutStart)
                }
            },
            WireMessage::ArtifactComplete => match self.upload.take() {
                Some(upload) => ConnectionAction::FinalizeArtifact(upload),
                None => {
                    self.phase = ConnectionPhase::Closed;
                    ConnectionAction::Fail(ProtocolError::CompleteWithoutStart)
                },
            },
            WireMessage::Result => {
                self.phase = ConnectionPhase::Closed;
                ConnectionAction::Complete
            },
            WireMessage::Heartbeat => ConnectionAction::Ignore,
            WireMessage::Error { message } => {
                self.phase = ConnectionPhase::Closed;
                ConnectionAction::Fail(ProtocolError::WorkerReported(message))
            },
            WireMessage::Hello { .. } | WireMessage::JobAssignment => {
                self.phase = ConnectionPhase::Closed;
                ConnectionAction::Fail(ProtocolError::UnexpectedMessage)
            },
        }
    }
}

/// Each log path is opened once per connection: every step keeps the
/// opened paths free of repeats, and a chunk asks to open its log exactly
/// when no earlier chunk did.
pub proof fn lemma_logs_registered_once(c: ConnectionView, e: ConnectionEvent)
    requires
        logs_distinct(c.open_logs),
    ensures
        logs_distinct(step_spec(c, e).0.open_logs),
        c.phase == ConnectionPhase::Streaming ==> match e {
            ConnectionEvent::Frame(WireMessage::LogChunk { path }) => {
                &&& step_spec(c, e).1 == ConnectionAction::AppendLog { path, register: !has_log(c.open_logs, path@) }
                &&& has_log(step_spec(c, e).0.open_logs, path@)
            },
            _ => true,
        },
{
    if c.phase == ConnectionPhase::Streaming {
        if let ConnectionEvent::Frame(WireMessage::LogChunk { path }) = e {
            let logs = c.open_logs;
            if !has_log(logs, path@) {
                let next = logs.push(path);
                assert(next[logs.len() as int] == path);
                assert forall|i: int, j: int| 0 <= i < j < next.len() implies (#[trigger] next[i])@ != (#[trigger] next[j])@ by {
                    if j == logs.len() {
                        assert(next[i] == logs[i]);
                    } else {
                        assert(next[i] == logs[i] && next[j] == logs[j]);
                    }
                }
            }
        }
    }
}

/// At most one artifact is received at a time, and the artifact a worker
/// completes is the one it started: a second start fails the connection,
/// chunks, logs and heartbeats leave the upload as it was, and completion
/// hands back exactly the started upload.
pub proof fn lemma_one_upload_at_a_time(c: ConnectionView, e: ConnectionEvent)
    requires
        c.phase == ConnectionPhase::Streaming,
        c.upload is Some,
    ensures
        match e {
            ConnectionEvent::Frame(WireMessage::ArtifactStart { .. }) => step_spec(c, e).1
                == ConnectionAction::Fail(ProtocolError::UploadInProgress),
            ConnectionEvent::Frame(WireMessage::ArtifactComplete) => step_spec(c, e).1
                == ConnectionAction::FinalizeArtifact(c.upload->Some_0) && step_spec(c, e).0.upload is None,
            ConnectionEvent::Frame(WireMessage::ArtifactChunk) | ConnectionEvent::Frame(WireMessage::LogChunk { .. })
            | ConnectionEvent::Frame(WireMessage::Heartbeat) => step_spec(c, e).0.upload == c.upload
                && step_spec(c, e).0.phase == ConnectionPhase::Streaming,
            _ => step_spec(c, e).0.phase == ConnectionPhase::Closed,
        },
{
}

} // verus!
