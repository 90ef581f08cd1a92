//! The daemon's display-server backends: what focus, paste and capability
//! requests do on an X11 session and on a Wayland session.
use vstd::prelude::*;
use crate::clipboard::{BackendCapabilities, PlatformError};
use crate::focus::{context_view, looked_up, FocusTracker};
use crate::models::{reprs_view, AppContext, ClipRepresentation, PasteMode, ReprView};
use crate::paste::{pasted_at_focus, resolved, ContentView, paste_text_of, pasted, plan_of, resolve_paste_text, write_call, BlobSource, PasteSimulator};
use crate::services::{Backend, BackendCall};
use crate::wayland::{WaylandBackend, WaylandCall, WaylandConnection};
use crate::x11::{followed_by, WindowId, X11Backend, X11Call, X11Connection};

verus! {

/// X11 backend of the daemon: a capture reader, a focus tracker and a paste
/// simulator, each over a connection of its own. `log` records the calls
/// made on it as a `Backend`.
pub struct X11DaemonBackend<C: X11Connection + BlobSource> {
    pub capture: X11Backend<C>,
    pub focus: FocusTracker<C>,
    pub paste: PasteSimulator<C>,
    pub log: Ghost<Seq<BackendCall>>,
}

impl<C: X11Connection + BlobSource> X11DaemonBackend<C> {
    /// Assembles the backend from three connections. Under a Wayland session
    /// (XWayland) pasting only places content on the clipboard: synthesizing
    /// keys there would make the compositor ask the user for consent on
    /// every paste.
    pub fn new(capture_conn: C, focus_conn: C, paste_conn: C, blob_dir: &str, is_wayland_session: bool) -> (b: Self)
        ensures
            b.capture.conn == capture_conn,
            b.capture.blob_dir@ == blob_dir@,
            b.focus.conn == focus_conn,
            b.paste.conn == paste_conn,
            b.paste.focus_detection_supported,
            b.paste.key_synthesis_supported == !is_wayland_session,
            b.log@ == Seq::<BackendCall>::empty(),
    {
        let paste = if is_wayland_session {
            PasteSimulator::clipboard_only(paste_conn)
        } else {
            PasteSimulator::new(paste_conn)
        };
        X11DaemonBackend {
            capture: X11Backend::new(capture_conn, blob_dir),
            focus: FocusTracker::new(focus_conn),
            paste,
            log: Ghost(Seq::empty()),
        }
    }
}

impl<C: X11Connection + BlobSource> Backend for X11DaemonBackend<C> {
    open spec fn calls(&self) -> Seq<BackendCall> {
        self.log@
    }

    /// The focus connection's focused application (see
    /// `FocusTracker::focused_app`).
    fn focused_app(&mut self) -> (c: Option<AppContext>)
        ensures
            exists|t: Seq<X11Call>|
                followed_by(old(self).focus.conn.calls(), final(self).focus.conn.calls(), t) && looked_up(
                    t,
                    context_view(c),
                ),
            final(self).paste == old(self).paste,
            final(self).capture == old(self).capture,
    {
        let c = self.focus.focused_app();
        proof {
            self.log@ = self.log@.push(BackendCall::FocusedApp { result: c });
        }
        c
    }

    /// Pastes into the window focused on the paste connection (see
    /// `PasteSimulator::paste_to_focused_window`).
    fn simulate_paste(&mut self, representations: &[ClipRepresentation], mode: PasteMode) -> (r: Result<(), PlatformError>)
        ensures
            pasted_at_focus(
                old(self).paste.conn.calls(),
                final(self).paste.conn.calls(),
                old(self).paste.focus_detection_supported,
                old(self).paste.key_synthesis_supported,
                reprs_view(representations@),
                mode,
                r,
            ),
            !old(self).paste.key_synthesis_supported ==> r is Ok,
            r == Err::<(), PlatformError>(PlatformError::NoFocusedWindow) ==> old(self).paste.focus_detection_supported
                && old(self).paste.key_synthesis_supported,
            r is Ok || r == Err::<(), PlatformError>(PlatformError::NoFocusedWindow) || r matches Err(
                PlatformError::Backend(_),
            ),
            final(self).focus == old(self).focus,
            final(self).capture == old(self).capture,
    {
        let r = self.paste.paste_to_focused_window(representations, mode);
        proof {
            self.log@ = self.log@.push(
                BackendCall::SimulatePaste { representations: representations@, mode, result: r },
            );
        }
        r
    }

    /// Places the clip's plain-text content on the paste connection's
    /// clipboard.
    fn copy_to_clipboard(&mut self, representations: &[ClipRepresentation]) -> (r: Result<(), PlatformError>)
        ensures
            r is Ok,
            exists|c: ContentView, rd: Seq<X11Call>|
                resolved(reprs_view(representations@), PasteMode::PlainText, rd, c)
                    && final(self).paste.conn.calls() == old(self).paste.conn.calls() + rd.push(write_call(c)),
            final(self).focus == old(self).focus,
            final(self).capture == old(self).capture,
    {
        self.paste.copy_to_clipboard(representations, PasteMode::PlainText);
        proof {
            self.log@ = self.log@.push(
                BackendCall::CopyToClipboard { representations: representations@, result: Ok(()) },
            );
        }
        Ok(())
    }

    fn capabilities(&mut self) -> (c: BackendCapabilities)
        ensures
            c.capture && c.paste_simulation && c.hotkeys && c.focus_detection,
    {
        let c = self.capture.capabilities();
        proof {
            self.log@ = self.log@.push(BackendCall::Capabilities { result: c });
        }
        c
    }
}

/// Wayland backend of the daemon: capture and clipboard writes over
/// data-control. The focused window is never known, and pasting places the
/// clip's text on the clipboard without any key synthesis. `log` records
/// the calls made on it as a `Backend`.
pub struct WaylandDaemonBackend<C: WaylandConnection> {
    pub capture: WaylandBackend<C>,
    pub log: Ghost<Seq<BackendCall>>,
}

/// The text a Wayland paste places on the clipboard: the paste text, or
/// nothing.
pub open spec fn placed_text(reprs: Seq<ReprView>, mode: PasteMode) -> Seq<char> {
    match paste_text_of(reprs, mode) {
        Some(t) => t,
        None => Seq::empty(),
    }
}

impl<C: WaylandConnection> WaylandDaemonBackend<C> {
    pub fn new(capture: WaylandBackend<C>) -> (b: Self)
        ensures
            b.capture == capture,
            b.log@ == Seq::<BackendCall>::empty(),
    {
        WaylandDaemonBackend { capture, log: Ghost(Seq::empty()) }
    }

    /// Places the text `mode` selects from the clip (or nothing) on the
    /// clipboard.
    pub fn place_text(&mut self, representations: &[ClipRepresentation], mode: PasteMode) -> (r: Result<(), PlatformError>)
        ensures
            r is Ok,
            final(self).capture.conn.calls() == old(self).capture.conn.calls().push(
                WaylandCall::WriteSelection { content: placed_text(reprs_view(representations@), mode) },
            ),
            final(self).log == old(self).log,
    {
        let text = match resolve_paste_text(representations, mode) {
            Some(t) => t,
            None => String::new(),
        };
        self.capture.set_current(text.as_str())
    }
}

impl<C: WaylandConnection> Backend for WaylandDaemonBackend<C> {
    open spec fn calls(&self) -> Seq<BackendCall> {
        self.log@
    }

    fn focused_app(&mut self) -> (c: Option<AppContext>)
        ensures
            c is None,
            final(self).capture == old(self).capture,
    {
        proof {
            self.log@ = self.log@.push(BackendCall::FocusedApp { result: None });
        }
        None
    }

    fn simulate_paste(&mut self, representations: &[ClipRepresentation], mode: PasteMode) -> (r: Result<(), PlatformError>)
        ensures
            r is Ok,
            final(self).capture.conn.calls() == old(self).capture.conn.calls().push(
                WaylandCall::WriteSelection { content: placed_text(reprs_view(representations@), mode) },
            ),
    {
        let r = self.place_text(representations, mode);
        proof {
            self.log@ = self.log@.push(
                BackendCall::SimulatePaste { representations: representations@, mode, result: r },
            );
        }
        r
    }

    fn copy_to_clipboard(&mut self, representations: &[ClipRepresentation]) -> (r: Result<(), PlatformError>)
        ensures
            r is Ok,
            final(self).capture.conn.calls() == old(self).capture.conn.calls().push(
                WaylandCall::WriteSelection { content: placed_text(reprs_view(representations@), PasteMode::PlainText) },
            ),
    {
        let r = self.place_text(representations, PasteMode::PlainText);
        proof {
            self.log@ = self.log@.push(BackendCall::CopyToClipboard { representations: representations@, result: r });
        }
        r
    }

    fn capabilities(&mut self) -> (c: BackendCapabilities)
        ensures
            c.capture && c.paste_simulation && !c.hotkeys && !c.focus_detection,
    {
        let c = self.capture.capabilities();
        proof {
            self.log@ = self.log@.push(BackendCall::Capabilities { result: c });
        }
        c
    }
}

} // verus!
