//! Commands, events, and the envelopes that carry them between the daemon
//! and its clients.
use vstd::prelude::*;
use crate::config::AppSettings;
use crate::json::JsonValue;
use crate::models::{PasteMode, Rule};
use crate::search::SearchFilters;
use crate::text::copy_str;

verus! {

/// Bulk-clear scope for `ClearHistory`.
#[derive(Debug, Clone, Copy, PartialEq, Eq, Hash, Structural)]
pub enum ClearScope {
    All,
    ExcludingPinned,
}

#[derive(Debug, Clone, PartialEq)]
pub enum Command {
    SearchClips { query: String, filters: SearchFilters, limit: u32, offset: u32 },
    GetClip { id: String },
    PasteClip { id: String, mode: PasteMode },
    CopyClip { id: String },
    PinClip { id: String, pinned: bool },
    AssignGroup { id: String, group_id: Option<String> },
    DeleteClip { id: String },
    ClearHistory { scope: ClearScope },
    ListGroups,
    ListRules,
    SaveRule { rule: Rule },
    DeleteRule { id: String },
    GetSettings,
    UpdateSettings { settings: AppSettings },
    GetDiagnostics,
    PauseCapture { paused: bool },
    TriggerHotkey,
}

#[derive(Debug, Clone, PartialEq, Eq)]
pub enum Event {
    ClipCaptured { clip_id: String },
    ClipUpdated { clip_id: String },
    ClipDeleted { clip_id: String },
    CapturePaused { paused: bool },
    DiagnosticsChanged,
    HotkeyPressed,
}

#[derive(Debug, Clone, PartialEq)]
pub struct Request {
    pub request_id: String,
    pub command: Command,
}

impl Request {
    pub fn new(request_id: &str, command: Command) -> (r: Self)
        ensures
            r.request_id@ == request_id@,
            r.command == command,
    {
        Request { request_id: copy_str(request_id), command }
    }
}

#[derive(Debug, Clone, PartialEq)]
pub enum Response {
    Success { request_id: String, payload: JsonValue },
    Failure { request_id: String, error: String },
}

impl Response {
    pub open spec fn id_of(&self) -> Seq<char> {
        match self {
            Response::Success { request_id, .. } => request_id@,
            Response::Failure { request_id, .. } => request_id@,
        }
    }

    pub fn ok(request_id: &str, payload: JsonValue) -> (r: Self)
        ensures
            r matches Response::Success { request_id: i, payload: p } && i@ == request_id@ && p == payload,
    {
        Response::Success { request_id: copy_str(request_id), payload }
    }

    pub fn err(request_id: &str, error: &str) -> (r: Self)
        ensures
            r matches Response::Failure { request_id: i, error: e } && i@ == request_id@ && e@ == error@,
    {
        Response::Failure { request_id: copy_str(request_id), error: copy_str(error) }
    }

    pub fn request_id(&self) -> (id: &str)
        ensures
            id@ == self.id_of(),
    {
        match self {
            Response::Success { request_id, .. } => request_id.as_str(),
            Response::Failure { request_id, .. } => request_id.as_str(),
        }
    }
}

/// Wire-level framing for server -> client lines: a command response or a
/// broadcast event.
#[derive(Debug, Clone, PartialEq)]
pub enum ServerMessage {
    Response(Response),
    Event(Event),
}

} // verus!
