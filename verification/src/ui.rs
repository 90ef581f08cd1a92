//! The tray's state and the decisions behind its menu: which label the
//! pause item shows, which command each item issues, and how a daemon
//! response is reported back; plus HTML sanitization for previews.
use vstd::prelude::*;
use crate::config::{join_path, joined};
use crate::protocol::{ClearScope, Command, Response};

verus! {

/// Whether capture is currently paused, as last reported by a
/// `CapturePaused` event.
#[derive(Debug, Default)]
pub struct TrayState {
    pub paused: bool,
}

impl TrayState {
    pub fn new() -> (t: Self)
        ensures
            !t.paused,
    {
        TrayState { paused: false }
    }

    pub fn is_paused(&self) -> (b: bool)
        ensures
            b == self.paused,
    {
        self.paused
    }

    pub fn set_paused(&mut self, paused: bool)
        ensures
            final(self).paused == paused,
    {
        self.paused = paused;
    }
}

pub open spec fn pause_label_of(paused: bool) -> Seq<char> {
    if paused {
        "Resume capture"@
    } else {
        "Pause capture"@
    }
}

/// The tray menu label for the pause/resume action.
pub fn pause_menu_label(tray_state: &TrayState) -> (s: &'static str)
    ensures
        s@ == pause_label_of(tray_state.paused),
{
    if tray_state.is_paused() {
        "Resume capture"
    } else {
        "Pause capture"
    }
}

/// The command the pause/resume item issues: the opposite of the state the
/// tray knows.
pub fn pause_toggle_command(tray_state: &TrayState) -> (c: Command)
    ensures
        c == (Command::PauseCapture { paused: !tray_state.paused }),
{
    Command::PauseCapture { paused: !tray_state.is_paused() }
}

/// The command the clear-history item issues: pinned clips are kept.
pub fn clear_history_command() -> (c: Command)
    ensures
        c == (Command::ClearHistory { scope: ClearScope::ExcludingPinned }),
{
    Command::ClearHistory { scope: ClearScope::ExcludingPinned }
}

/// A daemon response as the outcome of a menu action: success, or the
/// daemon's error text.
pub fn response_outcome(response: Response) -> (r: Result<(), String>)
    ensures
        match response {
            Response::Success { .. } => r is Ok,
            Response::Failure { error, .. } => r == Err::<(), String>(error),
        },
{
    match response {
        Response::Success { .. } => Ok(()),
        Response::Failure { error, .. } => Err(error),
    }
}

/// Carries out the quit action through the given exit function.
pub fn handle_quit<F: Fn()>(exit: &F)
    requires
        call_requires(*exit, ()),
    ensures
        call_ensures(*exit, (), ()),
{
    exit();
}

/// Where the popup window's last position is kept: `popup_position.json`
/// in the configuration directory.
pub fn file_path(config_dir: &str) -> (p: String)
    ensures
        p@ == joined(config_dir@, "popup_position.json"@),
{
    join_path(config_dir, "popup_position.json")
}

/// What `ammonia::clean` makes of an HTML fragment.
pub uninterp spec fn ammonia_clean(html: Seq<char>) -> Seq<char>;

/// Sanitizes an HTML representation before it is rendered in the preview
/// pane: strips executable script and event-handler attributes while
/// preserving benign formatting tags (`ammonia::clean`, with its default
/// allow-list). Its result is named, not stated.
#[verifier::external_body]
pub fn sanitize_html(input: &str) -> (s: String)
    ensures
        s@ == ammonia_clean(input@),
{
    ammonia::clean(input)
}

} // verus!
