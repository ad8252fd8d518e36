//! The control-plane command set: what clients send to the driver service
//! and what the service sends back, as plain values. The JSON wire form of
//! these types lives in the codec module.

use crate::monitor::{Monitor, MonitorView};
use vstd::prelude::*;

verus! {

/// A monitor id.
pub type Id = u32;

/// A pixel dimension.
pub type Dimen = u32;

/// A refresh rate in hertz.
pub type RefreshRate = u32;

/// Commands that change driver state.
#[non_exhaustive]
pub enum DriverCommand {
    /// Notify of monitor changes (adding, updating or removing).
    Notify(Vec<Monitor>),
    /// Remove the named monitors from the system.
    Remove(Vec<Id>),
    /// Remove all monitors from the system.
    RemoveAll,
    /// Start recording frames from the named monitors (empty means all).
    StartRecording { monitor_ids: Vec<Id>, output_path: Option<String>, fps: Option<u32> },
    /// Stop recording frames.
    StopRecording,
}

/// Requests for information, sent from client to server.
#[non_exhaustive]
pub enum RequestCommand {
    /// The current monitor state.
    State,
    /// The current recording state.
    RecordingState,
}

/// Replies sent from server to client.
#[non_exhaustive]
pub enum ReplyCommand {
    /// The command was carried out and has no data to report. (On the wire
    /// this reply appears as the string "Ok".)
    Okay,
    /// The current monitor state.
    State(Vec<Monitor>),
    /// The current recording state.
    RecordingState { active: bool, monitor_ids: Vec<Id>, shm_names: Vec<String> },
    /// Recording was started.
    RecordingStarted { active: bool, monitor_ids: Vec<Id>, has_session: bool },
    /// Recording finished, with statistics (zeros when no encoder ran).
    RecordingFinished { path: String, frames: u64, duration_ms: u64 },
    /// The command could not be carried out.
    Error(String),
}

/// An event pushed to connected clients.
#[non_exhaustive]
pub enum EventCommand {
    /// Monitor state changed while the client was connected.
    Changed(Vec<Monitor>),
}

/// Any command a server may receive.
#[non_exhaustive]
pub enum ServerCommand {
    Driver(DriverCommand),
    Request(RequestCommand),
}

/// Anything a client may receive.
#[non_exhaustive]
pub enum ClientCommand {
    Reply(ReplyCommand),
    Event(EventCommand),
}

/// The mathematical value of a server command.
pub enum CommandView {
    Notify(Seq<MonitorView>),
    Remove(Seq<u32>),
    RemoveAll,
    StartRecording { monitor_ids: Seq<u32>, output_path: Option<Seq<char>>, fps: Option<u32> },
    StopRecording,
    State,
    RecordingState,
}

/// The mathematical value of a reply.
pub enum ReplyView {
    Okay,
    State(Seq<MonitorView>),
    RecordingState { active: bool, monitor_ids: Seq<u32>, shm_names: Seq<Seq<char>> },
    RecordingStarted { active: bool, monitor_ids: Seq<u32>, has_session: bool },
    RecordingFinished { path: Seq<char>, frames: u64, duration_ms: u64 },
    Error(Seq<char>),
}

/// The mathematical value of an event.
pub enum EventView {
    Changed(Seq<MonitorView>),
}

impl View for ServerCommand {
    type V = CommandView;

    open spec fn view(&self) -> CommandView {
        match self {
            ServerCommand::Driver(DriverCommand::Notify(ms)) => CommandView::Notify(
                crate::monitor::monitor_views(ms@),
            ),
            ServerCommand::Driver(DriverCommand::Remove(ids)) => CommandView::Remove(ids@),
            ServerCommand::Driver(DriverCommand::RemoveAll) => CommandView::RemoveAll,
            ServerCommand::Driver(
                DriverCommand::StartRecording { monitor_ids, output_path, fps },
            ) => CommandView::StartRecording {
                monitor_ids: monitor_ids@,
                output_path: match output_path {
                    Some(p) => Some(p@),
                    None => None,
                },
                fps: *fps,
            },
            ServerCommand::Driver(DriverCommand::StopRecording) => CommandView::StopRecording,
            ServerCommand::Request(RequestCommand::State) => CommandView::State,
            ServerCommand::Request(RequestCommand::RecordingState) => CommandView::RecordingState,
        }
    }
}

impl View for ReplyCommand {
    type V = ReplyView;

    open spec fn view(&self) -> ReplyView {
        match self {
            ReplyCommand::Okay => ReplyView::Okay,
            ReplyCommand::State(ms) => ReplyView::State(crate::monitor::monitor_views(ms@)),
            ReplyCommand::RecordingState { active, monitor_ids, shm_names } => {
                ReplyView::RecordingState {
                    active: *active,
                    monitor_ids: monitor_ids@,
                    shm_names: Seq::new(shm_names@.len(), |i: int| shm_names@[i]@),
                }
            },
            ReplyCommand::RecordingStarted { active, monitor_ids, has_session } => {
                ReplyView::RecordingStarted {
                    active: *active,
                    monitor_ids: monitor_ids@,
                    has_session: *has_session,
                }
            },
            ReplyCommand::RecordingFinished { path, frames, duration_ms } => {
                ReplyView::RecordingFinished {
                    path: path@,
                    frames: *frames,
                    duration_ms: *duration_ms,
                }
            },
            ReplyCommand::Error(e) => ReplyView::Error(e@),
        }
    }
}

impl View for EventCommand {
    type V = EventView;

    open spec fn view(&self) -> EventView {
        match self {
            EventCommand::Changed(ms) => EventView::Changed(crate::monitor::monitor_views(ms@)),
        }
    }
}

} // verus!
