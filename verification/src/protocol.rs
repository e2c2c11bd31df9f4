//! The control protocol: the message vocabulary every component uses to talk
//! to the runtime controller, and the actions the controller answers with.
//!
//! Messages are consumed strictly in arrival order by the controller's single
//! logical thread. A query that expects a value carries a correlation
//! identifier (`req_id`), and the controller replies with at most one action
//! naming exactly that identifier, so concurrent requesters can never receive
//! one another's replies.

use vstd::prelude::*;
use crate::errors::UriError;

verus! {

/// Everything the controller can be asked or told. `StartAll`, `GetUri`,
/// `HeartbeatTimeout` and `FsChanged` come from the gateway and the
/// background monitors; the process events and the timer events come from the
/// shell observing the supervised children and the bounded waits.
pub enum ControlMessage {
    /// Spawn every runtime declared in the configuration.
    StartAll,
    /// Ask for the live endpoint of the named runtime; the reply carries
    /// `req_id`.
    GetUri { req_id: u64, name: String },
    /// The bounded wait of the pending query `req_id` elapsed before the
    /// runtime became ready.
    WaitExpired { req_id: u64 },
    /// The spawn of `generation` of the named runtime bound its endpoint and
    /// is serving.
    ProcessReady { name: String, generation: u64, endpoint: String },
    /// The process of `generation` of the named runtime exited.
    ProcessExited { name: String, generation: u64 },
    /// The restart backoff scheduled for `generation` of the named runtime
    /// elapsed.
    RestartDue { name: String, generation: u64 },
    /// The idle monitor detected the configured silence interval.
    HeartbeatTimeout,
    /// The filesystem watcher reported a change under the pipeline's backing
    /// directory.
    FsChanged,
}

/// What the shell must do on the controller's behalf; the controller itself
/// performs no I/O.
pub enum Action {
    /// Spawn the named runtime's process; readiness is to be reported back as
    /// `ProcessReady` carrying the same generation.
    Spawn { name: String, generation: u64 },
    /// Deliver the reply of the query correlated by `req_id`.
    Reply { req_id: u64, reply: Result<String, UriError> },
    /// After `delay` clock units, send `RestartDue` for the named runtime and
    /// generation.
    ScheduleRestart { name: String, generation: u64, delay: u64 },
    /// Stop every supervised runtime process.
    StopAllRuntimes,
    /// Stop accepting HTTP requests and let the process exit.
    StopAccepting,
}

/// `ControlMessage` with its strings abstracted to sequences.
pub enum MsgModel {
    StartAll,
    GetUri { req_id: u64, name: Seq<char> },
    WaitExpired { req_id: u64 },
    ProcessReady { name: Seq<char>, generation: u64, endpoint: Seq<char> },
    ProcessExited { name: Seq<char>, generation: u64 },
    RestartDue { name: Seq<char>, generation: u64 },
    HeartbeatTimeout,
    FsChanged,
}

/// `Action` with its strings abstracted to sequences.
pub enum ActionModel {
    Spawn { name: Seq<char>, generation: u64 },
    Reply { req_id: u64, reply: Result<Seq<char>, UriError> },
    ScheduleRestart { name: Seq<char>, generation: u64, delay: u64 },
    StopAllRuntimes,
    StopAccepting,
}

impl View for ControlMessage {
    type V = MsgModel;

    open spec fn view(&self) -> MsgModel {
        match self {
            ControlMessage::StartAll => MsgModel::StartAll,
            ControlMessage::GetUri { req_id, name } => MsgModel::GetUri {
                req_id: *req_id,
                name: name@,
            },
            ControlMessage::WaitExpired { req_id } => MsgModel::WaitExpired { req_id: *req_id },
            ControlMessage::ProcessReady { name, generation, endpoint } => MsgModel::ProcessReady {
                name: name@,
                generation: *generation,
                endpoint: endpoint@,
            },
            ControlMessage::ProcessExited { name, generation } => MsgModel::ProcessExited {
                name: name@,
                generation: *generation,
            },
            ControlMessage::RestartDue { name, generation } => MsgModel::RestartDue {
                name: name@,
                generation: *generation,
            },
            ControlMessage::HeartbeatTimeout => MsgModel::HeartbeatTimeout,
            ControlMessage::FsChanged => MsgModel::FsChanged,
        }
    }
}

impl View for Action {
    type V = ActionModel;

    open spec fn view(&self) -> ActionModel {
        match self {
            Action::Spawn { name, generation } => ActionModel::Spawn {
                name: name@,
                generation: *generation,
            },
            Action::Reply { req_id, reply } => ActionModel::Reply {
                req_id: *req_id,
                reply: match reply {
                    Ok(ep) => Ok(ep@),
                    Err(e) => Err(*e),
                },
            },
            Action::ScheduleRestart { name, generation, delay } => ActionModel::ScheduleRestart {
                name: name@,
                generation: *generation,
                delay: *delay,
            },
            Action::StopAllRuntimes => ActionModel::StopAllRuntimes,
            Action::StopAccepting => ActionModel::StopAccepting,
        }
    }
}

impl DeepView for Action {
    type V = ActionModel;

    open spec fn deep_view(&self) -> ActionModel {
        self.view()
    }
}

} // verus!
