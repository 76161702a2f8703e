//! The VST host worker's side of its control session: the reply owed to
//! each supervisor request once the engine operation it asks for has run,
//! and the warm-up wait after a load.

use vstd::prelude::*;

verus! {

/// A request the supervisor sends to the worker.
#[derive(Clone, Copy, Debug, PartialEq, Eq, Structural)]
pub enum ControlRequest {
    Load { request_id: u64, warmup_ms: u32 },
    OpenEditor { request_id: u64 },
    CloseEditor { request_id: u64 },
    ListParameters { request_id: u64 },
    SetParameter { request_id: u64 },
    SetGain { request_id: u64 },
    SetLimiter { request_id: u64 },
    Panic { request_id: u64 },
    Ping { sequence: u64 },
    SaveState { request_id: u64 },
    Stop { request_id: u64 },
    /// A message the supervisor does not send (a worker-to-supervisor one).
    NotACommand,
}

/// How the engine operation a request asked for went. `NotReady` is a load
/// that succeeded but whose status could not be read.
pub enum ControlOutcome {
    Succeeded,
    Failed(String),
    NotReady(String),
}

/// The error codes of the worker's replies.
#[derive(Clone, Copy, Debug, PartialEq, Eq, Structural)]
pub enum WorkerErrorCode {
    LoadFailed,
    ReadyFailed,
    EditorOpenFailed,
    EditorCloseFailed,
    ParametersFailed,
    ParameterSetFailed,
    PanicFailed,
    SaveRequiresStop,
    InvalidDirection,
}

impl WorkerErrorCode {
    /// The code as sent on the wire.
    pub fn as_str(&self) -> (r: &'static str)
        ensures
            r@ == match *self {
                WorkerErrorCode::LoadFailed => "worker.load-failed"@,
                WorkerErrorCode::ReadyFailed => "worker.ready-failed"@,
                WorkerErrorCode::EditorOpenFailed => "worker.editor-open-failed"@,
                WorkerErrorCode::EditorCloseFailed => "worker.editor-close-failed"@,
                WorkerErrorCode::ParametersFailed => "worker.parameters-failed"@,
                WorkerErrorCode::ParameterSetFailed => "worker.parameter-set-failed"@,
                WorkerErrorCode::PanicFailed => "worker.panic-failed"@,
                WorkerErrorCode::SaveRequiresStop => "worker.save-requires-stop"@,
                WorkerErrorCode::InvalidDirection => "worker.invalid-direction"@,
            },
    {
        match self {
            WorkerErrorCode::LoadFailed => "worker.load-failed",
            WorkerErrorCode::ReadyFailed => "worker.ready-failed",
            WorkerErrorCode::EditorOpenFailed => "worker.editor-open-failed",
            WorkerErrorCode::EditorCloseFailed => "worker.editor-close-failed",
            WorkerErrorCode::ParametersFailed => "worker.parameters-failed",
            WorkerErrorCode::ParameterSetFailed => "worker.parameter-set-failed",
            WorkerErrorCode::PanicFailed => "worker.panic-failed",
            WorkerErrorCode::SaveRequiresStop => "worker.save-requires-stop",
            WorkerErrorCode::InvalidDirection => "worker.invalid-direction",
        }
    }
}

/// The worker's reply to a request.
pub enum ControlReply {
    /// The plug-in is loaded; the worker's status follows.
    Ready { request_id: u64 },
    Ack { request_id: u64 },
    /// The parameter list follows.
    Parameters { request_id: u64 },
    Pong { sequence: u64 },
    /// The worker stopped and exits.
    Stopped { request_id: u64 },
    Error { request_id: Option<u64>, code: WorkerErrorCode, message: String },
}

pub open spec fn is_error_reply(r: ControlReply, request_id: Option<u64>, code: WorkerErrorCode, message: Seq<char>) -> bool {
    r matches ControlReply::Error { request_id: id, code: c, message: m } && id == request_id && c
        == code && m@ == message
}

/// An operation that acknowledges on success and reports `code` on
/// failure.
pub open spec fn ack_or_error(r: ControlReply, request_id: u64, outcome: ControlOutcome, code: WorkerErrorCode) -> bool {
    match outcome {
        ControlOutcome::Succeeded => r == ControlReply::Ack { request_id },
        ControlOutcome::Failed(m) => is_error_reply(r, Some(request_id), code, m@),
        ControlOutcome::NotReady(m) => is_error_reply(r, Some(request_id), code, m@),
    }
}

pub open spec fn save_requires_stop_message() -> Seq<char> {
    "State capture is performed during the serialized worker stop/reload transition"@
}

pub open spec fn not_a_command_message() -> Seq<char> {
    "Message is not a supervisor command"@
}

/// The reply owed to `request` given how its operation went (gain,
/// limiter, ping, save and stop run no fallible operation; their outcome is
/// not read).
pub open spec fn spec_control_reply(request: ControlRequest, outcome: ControlOutcome, r: ControlReply) -> bool {
    match request {
        ControlRequest::Load { request_id, .. } => match outcome {
            ControlOutcome::Succeeded => r == ControlReply::Ready { request_id },
            ControlOutcome::Failed(m) => is_error_reply(r, Some(request_id), WorkerErrorCode::LoadFailed, m@),
            ControlOutcome::NotReady(m) => is_error_reply(r, Some(request_id), WorkerErrorCode::ReadyFailed, m@),
        },
        ControlRequest::OpenEditor { request_id } => ack_or_error(r, request_id, outcome, WorkerErrorCode::EditorOpenFailed),
        ControlRequest::CloseEditor { request_id } => ack_or_error(r, request_id, outcome, WorkerErrorCode::EditorCloseFailed),
        ControlRequest::ListParameters { request_id } => match outcome {
            ControlOutcome::Succeeded => r == ControlReply::Parameters { request_id },
            ControlOutcome::Failed(m) => is_error_reply(r, Some(request_id), WorkerErrorCode::ParametersFailed, m@),
            ControlOutcome::NotReady(m) => is_error_reply(r, Some(request_id), WorkerErrorCode::ParametersFailed, m@),
        },
        ControlRequest::SetParameter { request_id } => ack_or_error(r, request_id, outcome, WorkerErrorCode::ParameterSetFailed),
        ControlRequest::SetGain { request_id } => r == ControlReply::Ack { request_id },
        ControlRequest::SetLimiter { request_id } => r == ControlReply::Ack { request_id },
        ControlRequest::Panic { request_id } => ack_or_error(r, request_id, outcome, WorkerErrorCode::PanicFailed),
        ControlRequest::Ping { sequence } => r == ControlReply::Pong { sequence },
        ControlRequest::SaveState { request_id } => is_error_reply(
            r,
            Some(request_id),
            WorkerErrorCode::SaveRequiresStop,
            save_requires_stop_message(),
        ),
        ControlRequest::Stop { request_id } => r == ControlReply::Stopped { request_id },
        ControlRequest::NotACommand => is_error_reply(r, None, WorkerErrorCode::InvalidDirection, not_a_command_message()),
    }
}

fn ack_or_error_reply(request_id: u64, outcome: ControlOutcome, code: WorkerErrorCode) -> (r: ControlReply)
    ensures
        ack_or_error(r, request_id, outcome, code),
{
    match outcome {
        ControlOutcome::Succeeded => ControlReply::Ack { request_id },
        ControlOutcome::Failed(message) => ControlReply::Error { request_id: Some(request_id), code, message },
        ControlOutcome::NotReady(message) => ControlReply::Error { request_id: Some(request_id), code, message },
    }
}

/// The worker's reply to a supervisor request (see `spec_control_reply`).
pub fn control_reply(request: ControlRequest, outcome: ControlOutcome) -> (r: ControlReply)
    ensures
        spec_control_reply(request, outcome, r),
{
    match request {
        ControlRequest::Load { request_id, .. } => match outcome {
            ControlOutcome::Succeeded => ControlReply::Ready { request_id },
            ControlOutcome::Failed(message) => ControlReply::Error {
                request_id: Some(request_id),
                code: WorkerErrorCode::LoadFailed,
                message,
            },
            ControlOutcome::NotReady(message) => ControlReply::Error {
                request_id: Some(request_id),
                code: WorkerErrorCode::ReadyFailed,
                message,
            },
        },
        ControlRequest::OpenEditor { request_id } => ack_or_error_reply(request_id, outcome, WorkerErrorCode::EditorOpenFailed),
        ControlRequest::CloseEditor { request_id } => ack_or_error_reply(request_id, outcome, WorkerErrorCode::EditorCloseFailed),
        ControlRequest::ListParameters { request_id } => match outcome {
            ControlOutcome::Succeeded => ControlReply::Parameters { request_id },
            ControlOutcome::Failed(message) => ControlReply::Error {
                request_id: Some(request_id),
                code: WorkerErrorCode::ParametersFailed,
                message,
            },
            ControlOutcome::NotReady(message) => ControlReply::Error {
                request_id: Some(request_id),
                code: WorkerErrorCode::ParametersFailed,
                message,
            },
        },
        ControlRequest::SetParameter { request_id } => ack_or_error_reply(request_id, outcome, WorkerErrorCode::ParameterSetFailed),
        ControlRequest::SetGain { request_id } => ControlReply::Ack { request_id },
        ControlRequest::SetLimiter { request_id } => ControlReply::Ack { request_id },
        ControlRequest::Panic { request_id } => ack_or_error_reply(request_id, outcome, WorkerErrorCode::PanicFailed),
        ControlRequest::Ping { sequence } => ControlReply::Pong { sequence },
        ControlRequest::SaveState { request_id } => ControlReply::Error {
            request_id: Some(request_id),
            code: WorkerErrorCode::SaveRequiresStop,
            message: "State capture is performed during the serialized worker stop/reload transition".to_string(),
        },
        ControlRequest::Stop { request_id } => ControlReply::Stopped { request_id },
        ControlRequest::NotACommand => ControlReply::Error {
            request_id: None,
            code: WorkerErrorCode::InvalidDirection,
            message: "Message is not a supervisor command".to_string(),
        },
    }
}

/// How long the worker lets a freshly loaded plug-in settle before it
/// reports ready: the requested time, kept within 500 to 2000 ms.
pub fn load_warmup_ms(warmup_ms: u32) -> (r: u32)
    ensures
        r == (if warmup_ms < 500 {
            500
        } else if warmup_ms > 2000 {
            2000
        } else {
            warmup_ms as int
        }),
{
    if warmup_ms < 500 {
        500
    } else if warmup_ms > 2000 {
        2000
    } else {
        warmup_ms
    }
}

} // verus!
