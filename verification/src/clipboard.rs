//! The clipboard backend surface implemented by each display-server adapter.
use vstd::prelude::*;
use crate::models::{AppContext, ClipRepresentation, PasteMode};
use crate::text::copy_str;

verus! {

/// Error surface shared by every clipboard backend.
#[derive(Debug, Clone, PartialEq, Eq)]
pub enum PlatformError {
    NoFocusedWindow,
    Backend(String),
}

impl PlatformError {
    pub open spec fn text(&self) -> Seq<char> {
        match self {
            PlatformError::NoFocusedWindow => "no previously focused window is available to target"@,
            PlatformError::Backend(s) => "backend error: "@ + s@,
        }
    }

    /// Renders the error as text.
    pub fn message(&self) -> (m: String)
        ensures
            m@ == self.text(),
    {
        match self {
            PlatformError::NoFocusedWindow => copy_str(
                "no previously focused window is available to target",
            ),
            PlatformError::Backend(s) => {
                let mut m = copy_str("backend error: ");
                m.append(s.as_str());
                m
            },
        }
    }
}

/// A snapshot of the clipboard's content at read time. Zero representations
/// means "empty", not an error.
#[derive(Debug, Clone, PartialEq, Default)]
pub struct ClipboardSnapshot {
    pub representations: Vec<ClipRepresentation>,
}

impl ClipboardSnapshot {
    pub fn empty() -> (s: Self)
        ensures
            s.representations@.len() == 0,
    {
        ClipboardSnapshot { representations: Vec::new() }
    }

    pub fn is_empty(&self) -> (b: bool)
        ensures
            b == (self.representations@.len() == 0),
    {
        self.representations.len() == 0
    }
}

/// What a given backend actually supports; the default claims nothing.
#[derive(Debug, Clone, Copy, PartialEq, Eq, Default)]
pub struct BackendCapabilities {
    pub capture: bool,
    pub paste_simulation: bool,
    pub hotkeys: bool,
    pub focus_detection: bool,
}

impl BackendCapabilities {
    /// No capability at all.
    pub fn none() -> (c: Self)
        ensures
            !c.capture && !c.paste_simulation && !c.hotkeys && !c.focus_detection,
    {
        BackendCapabilities {
            capture: false,
            paste_simulation: false,
            hotkeys: false,
            focus_detection: false,
        }
    }
}

/// Uniform read/paste/diagnostics surface of a display-server adapter.
/// What a backend supports is fixed for the backend (`caps`).
pub trait ClipboardBackend {
    open spec fn caps(&self) -> BackendCapabilities {
        BackendCapabilities { capture: false, paste_simulation: false, hotkeys: false, focus_detection: false }
    }

    /// Reads the current clipboard content.
    fn read_current(&self) -> Result<ClipboardSnapshot, PlatformError>;

    /// Writes plain-text content onto the clipboard.
    fn set_current(&self, content: &str) -> Result<(), PlatformError>;

    /// The (previously) focused application, if there is one.
    fn focused_app(&self) -> Option<AppContext>;

    /// Pastes a clip's representations into the previously focused window.
    fn simulate_paste(&self, representations: &[ClipRepresentation], mode: PasteMode) -> Result<
        (),
        PlatformError,
    >;

    /// What this backend actually supports.
    fn capabilities(&self) -> (c: BackendCapabilities)
        ensures
            c == self.caps(),
    ;
}

} // verus!
