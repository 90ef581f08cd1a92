//! Wayland clipboard adapter over the `wlr-data-control` protocol:
//! text read/write and change detection. Hotkeys and focus detection are
//! unsupported there.
use vstd::prelude::*;
use crate::clipboard::{BackendCapabilities, ClipboardSnapshot, PlatformError};
use crate::hashing::hash_content;
use crate::models::{ClipRepresentation, ReprView, opt_view, reprs_view};
use crate::x11::{byte_len, hash_of_text, observe_step, same_identity, text_repr};

verus! {

/// One call made on a Wayland connection, with what it returned.
pub enum WaylandCall {
    ReadSelection { result: Option<Seq<char>> },
    WriteSelection { content: Seq<char> },
    PollChange { result: Option<()> },
}

/// Narrow seam over the Wayland data-control protocol. Whether the
/// compositor advertises data-control is fixed when the connection is made
/// (`data_control`); `calls` is the record of the calls made on the
/// connection so far, with what each returned.
pub trait WaylandConnection {
    open spec fn data_control(&self) -> bool {
        true
    }

    open spec fn calls(&self) -> Seq<WaylandCall> {
        Seq::empty()
    }

    /// Whether the compositor advertises the data-control manager at all.
    fn supports_data_control(&self) -> (b: bool)
        ensures
            b == self.data_control(),
    ;

    /// The current selection's text content, or `None` if unowned/empty.
    fn read_selection(&mut self) -> (r: Option<String>)
        ensures
            final(self).calls() == old(self).calls().push(WaylandCall::ReadSelection { result: opt_view(r) }),
    ;

    /// Takes ownership of the selection and sets its text content.
    fn write_selection(&mut self, content: &str)
        ensures
            final(self).calls() == old(self).calls().push(WaylandCall::WriteSelection { content: content@ }),
    ;

    /// Waits for one selection-change notification; `None` once the
    /// connection is gone.
    fn poll_selection_change(&mut self) -> (r: Option<()>)
        ensures
            final(self).calls() == old(self).calls().push(WaylandCall::PollChange { result: r }),
    ;
}

#[derive(Debug, Clone, Copy, PartialEq, Eq, Structural)]
pub enum WaylandError {
    DataControlUnsupported,
}

/// The snapshot of a text selection: one `text/plain` representation when
/// the text is non-empty, none otherwise.
pub open spec fn text_snapshot(text: Option<Seq<char>>) -> Seq<ReprView> {
    match text {
        Some(t) => if t.len() > 0 {
            seq![text_repr("text/plain"@, t, 0)]
        } else {
            Seq::empty()
        },
        None => Seq::empty(),
    }
}

/// Content placed with `set_current` reads back, on a connection whose
/// read returns the selection last written: a non-empty text comes back as
/// one plain-text representation holding it, an empty text as an empty
/// snapshot.
pub proof fn lemma_written_text_reads_back(calls: Seq<WaylandCall>, c: Seq<char>, text: Option<Seq<char>>)
    requires
        calls.len() >= 2,
        calls[calls.len() - 2] == (WaylandCall::WriteSelection { content: c }),
        calls[calls.len() - 1] == (WaylandCall::ReadSelection { result: text }),
        text == Some(c),
    ensures
        text_snapshot(text) == if c.len() > 0 {
            seq![text_repr("text/plain"@, c, 0)]
        } else {
            Seq::<ReprView>::empty()
        },
{
}

pub fn snapshot_from_text(text: Option<String>) -> (s: ClipboardSnapshot)
    ensures
        reprs_view(s.representations@) == text_snapshot(opt_view(text)),
{
    match text {
        Some(t) => {
            if !t.as_str().is_empty() {
                let size = t.as_str().len() as u64;
                let r = ClipRepresentation::new("text/plain", 0).with_byte_size(size).with_text_value(t.as_str());
                let mut reps: Vec<ClipRepresentation> = Vec::new();
                reps.push(r);
                assert(reprs_view(reps@) =~= text_snapshot(opt_view(Some(t))));
                ClipboardSnapshot { representations: reps }
            } else {
                let s = ClipboardSnapshot::empty();
                assert(reprs_view(s.representations@) =~= text_snapshot(opt_view(Some(t))));
                s
            }
        },
        None => {
            let s = ClipboardSnapshot::empty();
            assert(reprs_view(s.representations@) =~= Seq::<ReprView>::empty());
            s
        },
    }
}

/// The identity of Wayland content: the first representation's text.
pub open spec fn first_text(reprs: Seq<ReprView>) -> Option<Seq<char>> {
    if reprs.len() == 0 {
        None
    } else {
        reprs[0].text_value
    }
}

/// A turn of the capture loop that saw a selection change: the change
/// notification, then the read of a snapshot `s`, reported as `out` when
/// its identity differs from the last one seen (`observe_step`).
pub open spec fn captured_next(
    before: Seq<WaylandCall>,
    after: Seq<WaylandCall>,
    last_before: Option<Seq<char>>,
    last_after: Option<Seq<char>>,
    out: Option<ClipboardSnapshot>,
) -> bool {
    exists|s: ClipboardSnapshot, text: Option<Seq<char>>, polled: Option<()>|
        polled is Some && after == before.push(WaylandCall::PollChange { result: polled }).push(
            WaylandCall::ReadSelection { result: text },
        ) && reprs_view(s.representations@) == text_snapshot(text) && (out is Some, last_after) == observe_step(
            last_before,
            hash_of_text(first_text(reprs_view(s.representations@))),
        ) && (out matches Some(x) ==> x == s)
}

/// Wayland implementation of the clipboard read/write surface (text only).
pub struct WaylandBackend<C: WaylandConnection> {
    pub conn: C,
    pub last_hash: Option<String>,
}

impl<C: WaylandConnection> WaylandBackend<C> {
    /// Fails when the compositor doesn't advertise data-control.
    pub fn new(conn: C) -> (r: Result<Self, WaylandError>)
        ensures
            r is Err <==> !conn.data_control(),
            r matches Ok(b) ==> b.conn == conn && b.last_hash is None,
            r matches Err(e) ==> e == WaylandError::DataControlUnsupported,
    {
        if !conn.supports_data_control() {
            return Err(WaylandError::DataControlUnsupported);
        }
        Ok(WaylandBackend { conn, last_hash: None })
    }

    /// The current selection as a snapshot (see `snapshot_from_text`).
    pub fn read_current(&mut self) -> (r: Result<ClipboardSnapshot, PlatformError>)
        ensures
            final(self).last_hash == old(self).last_hash,
            r matches Ok(s) && exists|text: Option<Seq<char>>|
                final(self).conn.calls() == old(self).conn.calls().push(WaylandCall::ReadSelection { result: text })
                    && reprs_view(s.representations@) == text_snapshot(text),
    {
        let text = self.conn.read_selection();
        let ghost seen = opt_view(text);
        let s = snapshot_from_text(text);
        assert(reprs_view(s.representations@) == text_snapshot(seen));
        Ok(s)
    }

    /// Takes ownership of the selection with `content` as its text.
    pub fn set_current(&mut self, content: &str) -> (r: Result<(), PlatformError>)
        ensures
            r is Ok,
            final(self).conn.calls() == old(self).conn.calls().push(WaylandCall::WriteSelection { content: content@ }),
            final(self).last_hash == old(self).last_hash,
    {
        self.conn.write_selection(content);
        Ok(())
    }

    /// Records a freshly read snapshot and says whether it is new content
    /// to report: the hash of its first representation's text differs from
    /// the last one seen.
    pub fn observe(&mut self, snapshot: &ClipboardSnapshot) -> (report: bool)
        ensures
            (report, opt_view(final(self).last_hash)) == observe_step(
                opt_view(old(self).last_hash),
                hash_of_text(first_text(reprs_view(snapshot.representations@))),
            ),
            final(self).conn == old(self).conn,
    {
        let h = if snapshot.representations.len() == 0 {
            None
        } else {
            match &snapshot.representations[0].text_value {
                Some(t) => Some(hash_content(t.as_str().as_bytes())),
                None => None,
            }
        };
        let changed = !same_identity(&self.last_hash, &h);
        self.last_hash = h;
        changed
    }

    /// One turn of the capture loop: waits for a selection change, reads the
    /// selection and reports the snapshot when its content is new. `None`
    /// once the connection is gone; `Some(None)` for content already
    /// reported last.
    pub fn next_capture(&mut self) -> (r: Option<Option<ClipboardSnapshot>>)
        ensures
            r is None ==> final(self).conn.calls() == old(self).conn.calls().push(
                WaylandCall::PollChange { result: None },
            ) && final(self).last_hash == old(self).last_hash,
            r matches Some(out) ==> captured_next(
                old(self).conn.calls(),
                final(self).conn.calls(),
                opt_view(old(self).last_hash),
                opt_view(final(self).last_hash),
                out,
            ),
    {
        let polled = self.conn.poll_selection_change();
        if polled.is_none() {
            return None;
        }
        let snapshot = match self.read_current() {
            Ok(s) => s,
            Err(_) => {
                return None;
            },
        };
        let report = self.observe(&snapshot);
        let ghost seen = snapshot;
        let out = if report {
            Some(snapshot)
        } else {
            None
        };
        assert(out matches Some(x) ==> x == seen);
        assert(captured_next(
            old(self).conn.calls(),
            self.conn.calls(),
            opt_view(old(self).last_hash),
            opt_view(self.last_hash),
            out,
        ));
        Some(out)
    }

    /// Capture and paste work; hotkeys and focus detection do not.
    pub fn capabilities(&self) -> (c: BackendCapabilities)
        ensures
            c.capture && c.paste_simulation && !c.hotkeys && !c.focus_detection,
    {
        BackendCapabilities { capture: true, paste_simulation: true, hotkeys: false, focus_detection: false }
    }
}

/// The MIME types tried, in preference order, when reading a text
/// selection.
pub open spec fn text_mime_preference() -> Seq<Seq<char>> {
    seq!["text/plain;charset=utf-8"@, "text/plain"@, "UTF8_STRING"@, "STRING"@]
}

/// Whether the selection offer lists `mime`.
pub open spec fn is_offered(offered: Seq<String>, mime: Seq<char>) -> bool {
    exists|i: int| 0 <= i < offered.len() && (#[trigger] offered[i])@ == mime
}

fn offers(offered: &Vec<String>, mime: &str) -> (b: bool)
    ensures
        b == is_offered(offered@, mime@),
{
    let mut i: usize = 0;
    while i < offered.len()
        invariant
            i <= offered.len(),
            forall|j: int| 0 <= j < i ==> (#[trigger] offered@[j])@ != mime@,
        decreases offered.len() - i,
    {
        if crate::text::str_eq(offered[i].as_str(), mime) {
            return true;
        }
        i = i + 1;
    }
    false
}

/// The MIME type to receive a text selection in: the first of
/// `text_mime_preference` that the offer lists, or `None` when it lists
/// none of them.
pub fn preferred_text_mime(offered: &Vec<String>) -> (r: Option<String>)
    ensures
        match r {
            Some(m) => exists|k: int|
                0 <= k < text_mime_preference().len() && m@ == text_mime_preference()[k] && is_offered(
                    offered@,
                    text_mime_preference()[k],
                ) && forall|j: int| 0 <= j < k ==> !is_offered(offered@, #[trigger] text_mime_preference()[j]),
            None => forall|k: int|
                0 <= k < text_mime_preference().len() ==> !is_offered(offered@, #[trigger] text_mime_preference()[k]),
        },
{
    let ghost pref = text_mime_preference();
    if offers(offered, "text/plain;charset=utf-8") {
        assert(is_offered(offered@, pref[0]));
        return Some("text/plain;charset=utf-8".to_string());
    }
    if offers(offered, "text/plain") {
        assert(is_offered(offered@, pref[1]));
        return Some("text/plain".to_string());
    }
    if offers(offered, "UTF8_STRING") {
        assert(is_offered(offered@, pref[2]));
        return Some("UTF8_STRING".to_string());
    }
    if offers(offered, "STRING") {
        assert(is_offered(offered@, pref[3]));
        return Some("STRING".to_string());
    }
    assert(!is_offered(offered@, pref[0]));
    assert(!is_offered(offered@, pref[1]));
    assert(!is_offered(offered@, pref[2]));
    assert(!is_offered(offered@, pref[3]));
    None
}

} // verus!
