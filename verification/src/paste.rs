//! Synthetic paste and plain-text paste.
use vstd::prelude::*;
use crate::clipboard::PlatformError;
use crate::models::{ClipRepresentation, PasteMode, ReprView, opt_view, reprs_view};
use crate::text::{copy_opt, copy_str, str_eq};
use crate::x11::{bytes_view, followed_by, key_result_seen, WindowId, X11Call, X11Connection};

verus! {

/// The synthesized key combination for a paste.
pub const PASTE_KEY_BINDING: &'static str = "ctrl+v";

/// Where a paste reads stored clip blobs (image bytes) from, beside its
/// connection. Each read is kept in the connection's record of calls, with
/// what it returned.
pub trait BlobSource: X11Connection {
    /// The bytes stored at `path`, or `None` if they cannot be read.
    fn read_blob(&mut self, path: &str) -> (r: Option<Vec<u8>>)
        ensures
            final(self).calls() == old(self).calls().push(X11Call::ReadBlob { path: path@, result: bytes_view(r) }),
    ;
}

/// The first representation with the given MIME type.
pub open spec fn find_mime(reprs: Seq<ReprView>, mime: Seq<char>) -> Option<ReprView>
    decreases reprs.len(),
{
    if reprs.len() == 0 {
        None
    } else if reprs[0].mime_type == mime {
        Some(reprs[0])
    } else {
        find_mime(reprs.drop_first(), mime)
    }
}

/// The text a paste places on the clipboard. `PlainText` takes the first
/// `text/plain` representation's text; `Auto`/`Rich` the first `text/html`
/// one's. When that is missing, every mode falls back to the first
/// representation's plain rendering (`preview_text`, then `text_value`).
/// Nothing for no representations.
pub open spec fn paste_text_of(reprs: Seq<ReprView>, mode: PasteMode) -> Option<Seq<char>> {
    if reprs.len() == 0 {
        None
    } else {
        let first = reprs[0];
        let fallback = match first.preview_text {
            Some(p) => Some(p),
            None => first.text_value,
        };
        let wanted = match mode {
            PasteMode::PlainText => "text/plain"@,
            _ => "text/html"@,
        };
        match find_mime(reprs, wanted) {
            Some(r) => match r.text_value {
                Some(t) => Some(t),
                None => fallback,
            },
            None => fallback,
        }
    }
}

fn find_mime_index(reprs: &[ClipRepresentation], mime: &str) -> (r: Option<usize>)
    ensures
        match r {
            Some(i) => i < reprs@.len() && find_mime(reprs_view(reprs@), mime@) == Some(reprs@[i as int]@),
            None => find_mime(reprs_view(reprs@), mime@) is None,
        },
{
    let ghost rv = reprs_view(reprs@);
    assert(rv.subrange(0, rv.len() as int) =~= rv);
    let mut i: usize = 0;
    while i < reprs.len()
        invariant
            i <= reprs@.len(),
            rv == reprs_view(reprs@),
            find_mime(rv, mime@) == find_mime(rv.subrange(i as int, rv.len() as int), mime@),
        decreases reprs@.len() - i,
    {
        let ghost rest = rv.subrange(i as int, rv.len() as int);
        assert(rest[0] == reprs@[i as int]@);
        if str_eq(reprs[i].mime_type.as_str(), mime) {
            return Some(i);
        }
        assert(rest.drop_first() =~= rv.subrange(i + 1, rv.len() as int));
        i = i + 1;
    }
    None
}

/// Resolves which text to place on the clipboard before pasting.
pub fn resolve_paste_text(representations: &[ClipRepresentation], mode: PasteMode) -> (t: Option<String>)
    ensures
        opt_view(t) == paste_text_of(reprs_view(representations@), mode),
{
    if representations.len() == 0 {
        return None;
    }
    let first = &representations[0];
    let fallback = match &first.preview_text {
        Some(p) => Some(p.clone()),
        None => copy_opt(&first.text_value),
    };
    let wanted = match mode {
        PasteMode::PlainText => "text/plain",
        _ => "text/html",
    };
    match find_mime_index(representations, wanted) {
        Some(i) => match &representations[i].text_value {
            Some(t) => Some(t.clone()),
            None => fallback,
        },
        None => fallback,
    }
}

/// The image a paste falls back to: the first full-size image
/// representation, if it has a stored blob.
pub open spec fn image_source_of(reprs: Seq<ReprView>) -> Option<(Seq<char>, Seq<char>)>
    decreases reprs.len(),
{
    if reprs.len() == 0 {
        None
    } else if !reprs[0].is_preview && reprs[0].mime_type.len() >= 6 && reprs[0].mime_type.take(6)
        == "image/"@ {
        match reprs[0].blob_path {
            Some(p) => Some((reprs[0].mime_type, p)),
            None => None,
        }
    } else {
        image_source_of(reprs.drop_first())
    }
}

fn is_image_mime(mime: &str) -> (b: bool)
    ensures
        b == (mime@.len() >= 6 && mime@.take(6) == "image/"@),
{
    let v = crate::text::chars_of(mime);
    let p = crate::text::chars_of("image/");
    proof {
        reveal_strlit("image/");
    }
    if v.len() < 6 {
        return false;
    }
    let mut k: usize = 0;
    while k < 6
        invariant
            k <= 6,
            v@ == mime@,
            p@ == "image/"@,
            p@.len() == 6,
            v@.len() >= 6,
            forall|m: int| 0 <= m < k ==> v@[m] == p@[m],
        decreases 6 - k,
    {
        if v[k] != p[k] {
            assert(v@.take(6)[k as int] != "image/"@[k as int]);
            return false;
        }
        k = k + 1;
    }
    assert(v@.take(6) =~= "image/"@);
    true
}

/// The MIME type and blob path of the image a paste falls back to.
pub fn image_source(representations: &[ClipRepresentation]) -> (r: Option<(String, String)>)
    ensures
        match r {
            Some((m, p)) => image_source_of(reprs_view(representations@)) == Some((m@, p@)),
            None => image_source_of(reprs_view(representations@)) is None,
        },
{
    let ghost rv = reprs_view(representations@);
    assert(rv.subrange(0, rv.len() as int) =~= rv);
    let mut i: usize = 0;
    while i < representations.len()
        invariant
            i <= representations@.len(),
            rv == reprs_view(representations@),
            image_source_of(rv) == image_source_of(rv.subrange(i as int, rv.len() as int)),
        decreases representations@.len() - i,
    {
        let ghost rest = rv.subrange(i as int, rv.len() as int);
        assert(rest[0] == representations@[i as int]@);
        let r = &representations[i];
        if !r.is_preview && is_image_mime(r.mime_type.as_str()) {
            return match &r.blob_path {
                Some(p) => Some((r.mime_type.clone(), p.clone())),
                None => None,
            };
        }
        assert(rest.drop_first() =~= rv.subrange(i + 1, rv.len() as int));
        i = i + 1;
    }
    None
}

/// The resolved content a paste/copy places on the clipboard.
#[derive(Debug, Clone, PartialEq, Eq)]
pub enum PasteContent {
    Text(String),
    Image { mime: String, bytes: Vec<u8> },
}

pub enum ContentView {
    Text(Seq<char>),
    Image(Seq<char>, Seq<u8>),
}

pub open spec fn content_view(c: PasteContent) -> ContentView {
    match c {
        PasteContent::Text(t) => ContentView::Text(t@),
        PasteContent::Image { mime, bytes } => ContentView::Image(mime@, bytes@),
    }
}

/// The content of a paste, given the bytes read from the fallback image's
/// blob (if one was read): the paste text when there is some, else the
/// image, else empty text.
pub open spec fn paste_content_of(reprs: Seq<ReprView>, mode: PasteMode, blob: Option<Seq<u8>>) -> ContentView {
    match paste_text_of(reprs, mode) {
        Some(t) => ContentView::Text(t),
        None => match (image_source_of(reprs), blob) {
            (Some(src), Some(bytes)) => ContentView::Image(src.0, bytes),
            _ => ContentView::Text(Seq::empty()),
        },
    }
}

/// The call that places `content` on the clipboard.
pub open spec fn write_call(content: ContentView) -> X11Call {
    match content {
        ContentView::Text(t) => X11Call::WriteSelection { content: t },
        ContentView::Image(mime, bytes) => X11Call::WriteTarget { mime, bytes },
    }
}

/// The reads `rd` that resolve a paste of `reprs` in `mode` to the content
/// `c`: none when there is paste text, which is the content; otherwise,
/// when there is an image fallback, one read of its blob, and the content
/// is the image with the bytes that read returned (empty text when it
/// returned none); otherwise no read and empty text.
pub open spec fn resolved(reprs: Seq<ReprView>, mode: PasteMode, rd: Seq<X11Call>, c: ContentView) -> bool {
    match paste_text_of(reprs, mode) {
        Some(t) => rd.len() == 0 && c == ContentView::Text(t),
        None => match image_source_of(reprs) {
            Some(src) => rd.len() == 1 && match rd[0] {
                X11Call::ReadBlob { path, result } => path == src.1 && c == paste_content_of(reprs, mode, result),
                _ => false,
            },
            None => rd.len() == 0 && c == ContentView::Text(Seq::empty()),
        },
    }
}

/// Resolves the content to paste: the paste text when there is some;
/// otherwise the image fallback's bytes, read from its blob; otherwise
/// empty text.
fn resolve_paste_content<B: BlobSource>(
    blobs: &mut B,
    representations: &[ClipRepresentation],
    mode: PasteMode,
) -> (c: PasteContent)
    ensures
        exists|rd: Seq<X11Call>|
            followed_by(old(blobs).calls(), final(blobs).calls(), rd) && resolved(
                reprs_view(representations@),
                mode,
                rd,
                content_view(c),
            ),
{
    let ghost before = blobs.calls();
    if let Some(text) = resolve_paste_text(representations, mode) {
        assert(blobs.calls() =~= before + Seq::<X11Call>::empty());
        let c = PasteContent::Text(text);
        assert(resolved(reprs_view(representations@), mode, Seq::empty(), content_view(c)));
        return c;
    }
    match image_source(representations) {
        Some((mime, path)) => {
            let read = blobs.read_blob(path.as_str());
            let ghost rd = seq![X11Call::ReadBlob { path: path@, result: bytes_view(read) }];
            assert(blobs.calls() =~= before + rd);
            let c = match read {
                Some(bytes) => PasteContent::Image { mime, bytes },
                None => PasteContent::Text(String::new()),
            };
            assert(resolved(reprs_view(representations@), mode, rd, content_view(c)));
            c
        },
        None => {
            assert(blobs.calls() =~= before + Seq::<X11Call>::empty());
            let c = PasteContent::Text(String::new());
            assert(resolved(reprs_view(representations@), mode, Seq::empty(), content_view(c)));
            c
        },
    }
}

/// What a paste does: write the content and stop, write it and synthesize
/// the paste key at a window, or fail for want of a target window.
#[derive(Debug, Clone, Copy, PartialEq, Eq, Structural)]
pub enum PastePlan {
    WriteOnly,
    WriteThenKey(WindowId),
    NoTarget,
}

/// Without key synthesis every paste only writes the clipboard. With it, a
/// target window is pasted into; a missing target is an error when focus
/// detection is supported, and a clipboard-only paste when it is not.
pub open spec fn plan_of(focus_detection_supported: bool, key_synthesis_supported: bool, target: Option<WindowId>) -> PastePlan {
    if !key_synthesis_supported {
        PastePlan::WriteOnly
    } else {
        match target {
            Some(w) => PastePlan::WriteThenKey(w),
            None => if focus_detection_supported {
                PastePlan::NoTarget
            } else {
                PastePlan::WriteOnly
            },
        }
    }
}

pub fn paste_plan(focus_detection_supported: bool, key_synthesis_supported: bool, target: Option<WindowId>) -> (p: PastePlan)
    ensures
        p == plan_of(focus_detection_supported, key_synthesis_supported, target),
{
    if !key_synthesis_supported {
        return PastePlan::WriteOnly;
    }
    match target {
        Some(w) => PastePlan::WriteThenKey(w),
        None => if focus_detection_supported {
            PastePlan::NoTarget
        } else {
            PastePlan::WriteOnly
        },
    }
}

/// Simulates a paste into the previously focused window: places the
/// resolved content on the clipboard, then synthesizes the paste key
/// combination targeted at that window.
pub struct PasteSimulator<C: X11Connection + BlobSource> {
    pub conn: C,
    pub focus_detection_supported: bool,
    pub key_synthesis_supported: bool,
}

impl<C: X11Connection + BlobSource> PasteSimulator<C> {
    pub fn new(conn: C) -> (s: Self)
        ensures
            s.conn == conn,
            s.focus_detection_supported,
            s.key_synthesis_supported,
    {
        PasteSimulator { conn, focus_detection_supported: true, key_synthesis_supported: true }
    }

    /// For a backend with no focused-window information: a missing target
    /// window is not an error.
    pub fn without_focus_detection(conn: C) -> (s: Self)
        ensures
            s.conn == conn,
            !s.focus_detection_supported,
            s.key_synthesis_supported,
    {
        PasteSimulator { conn, focus_detection_supported: false, key_synthesis_supported: true }
    }

    /// For a session where synthetic keystrokes are gated behind a consent
    /// prompt: every paste places content on the clipboard only.
    pub fn clipboard_only(conn: C) -> (s: Self)
        ensures
            s.conn == conn,
            s.focus_detection_supported,
            !s.key_synthesis_supported,
    {
        PasteSimulator { conn, focus_detection_supported: true, key_synthesis_supported: false }
    }

    /// Writes `content` to the connection: text as the selection's text,
    /// an image's bytes under its own MIME type.
    fn write_content(&mut self, content: &PasteContent)
        ensures
            final(self).conn.calls() == old(self).conn.calls().push(write_call(content_view(*content))),
            final(self).focus_detection_supported == old(self).focus_detection_supported,
            final(self).key_synthesis_supported == old(self).key_synthesis_supported,
    {
        match content {
            PasteContent::Text(text) => {
                self.conn.write_selection(text.as_str());
            },
            PasteContent::Image { mime, bytes } => {
                self.conn.write_selection_target(mime.as_str(), bytes.as_slice());
            },
        }
    }

    /// Pastes into `target` according to `paste_plan`: places the clip's
    /// content on the clipboard and, with a target window, synthesizes the
    /// paste key there. The only failures are a missing target and the
    /// connection's key synthesis failing.
    pub fn simulate_paste(
        &mut self,
        target: Option<WindowId>,
        representations: &[ClipRepresentation],
        mode: PasteMode,
    ) -> (r: Result<(), PlatformError>)
        ensures
            final(self).focus_detection_supported == old(self).focus_detection_supported,
            final(self).key_synthesis_supported == old(self).key_synthesis_supported,
            pasted_at(
                old(self).conn.calls(),
                final(self).conn.calls(),
                old(self).focus_detection_supported,
                old(self).key_synthesis_supported,
                target,
                reprs_view(representations@),
                mode,
                r,
            ),
            match plan_of(old(self).focus_detection_supported, old(self).key_synthesis_supported, target) {
                PastePlan::NoTarget => r == Err::<(), PlatformError>(PlatformError::NoFocusedWindow),
                PastePlan::WriteOnly => r is Ok,
                PastePlan::WriteThenKey(_) => r is Ok || r matches Err(PlatformError::Backend(_)),
            },
    {
        let content = resolve_paste_content(&mut self.conn, representations, mode);
        let ghost cv = content_view(content);
        let ghost rd = choose|rd: Seq<X11Call>|
            followed_by(old(self).conn.calls(), self.conn.calls(), rd) && resolved(reprs_view(representations@), mode, rd, cv);
        let ghost before = self.conn.calls();
        let ghost mut tt: Seq<X11Call> = Seq::empty();
        let r = match paste_plan(self.focus_detection_supported, self.key_synthesis_supported, target) {
            PastePlan::NoTarget => {
                assert(self.conn.calls() =~= before + Seq::<X11Call>::empty());
                assert(followed_by(before, self.conn.calls(), Seq::<X11Call>::empty()));
                Err(PlatformError::NoFocusedWindow)
            },
            PastePlan::WriteOnly => {
                self.write_content(&content);
                let ghost t = seq![write_call(cv)];
                assert(self.conn.calls() =~= before + t);
                assert(followed_by(before, self.conn.calls(), t));
                proof {
                    tt = t;
                }
                Ok(())
            },
            PastePlan::WriteThenKey(window) => {
                self.write_content(&content);
                let keyed = self.conn.synthesize_key(window, PASTE_KEY_BINDING);
                let ghost t = seq![
                    write_call(cv),
                    X11Call::SynthesizeKey { window, binding: PASTE_KEY_BINDING@, result: key_result_seen(keyed) },
                ];
                assert(self.conn.calls() =~= before + t);
                assert(followed_by(before, self.conn.calls(), t));
                proof {
                    reveal_strlit("ctrl+v");
                    tt = t;
                }
                match keyed {
                    Ok(()) => Ok(()),
                    Err(e) => Err(PlatformError::Backend(e)),
                }
            },
        };
        assert(followed_by(before, self.conn.calls(), tt) && pasted(
            cv,
            plan_of(old(self).focus_detection_supported, old(self).key_synthesis_supported, target),
            tt,
            r,
        ));
        assert(self.conn.calls() =~= old(self).conn.calls() + (rd + tt));
        assert(followed_by(old(self).conn.calls(), self.conn.calls(), rd + tt) && resolved(
            reprs_view(representations@),
            mode,
            rd,
            cv,
        ));
        r
    }

    /// Places the clip's content on the clipboard only - no focused-window
    /// lookup, no key synthesis.
    pub fn copy_to_clipboard(&mut self, representations: &[ClipRepresentation], mode: PasteMode)
        ensures
            exists|c: ContentView, rd: Seq<X11Call>|
                resolved(reprs_view(representations@), mode, rd, c) && final(self).conn.calls() == old(
                    self,
                ).conn.calls() + rd.push(write_call(c)),
            final(self).focus_detection_supported == old(self).focus_detection_supported,
            final(self).key_synthesis_supported == old(self).key_synthesis_supported,
    {
        let content = resolve_paste_content(&mut self.conn, representations, mode);
        let ghost cv = content_view(content);
        let ghost rd = choose|rd: Seq<X11Call>|
            followed_by(old(self).conn.calls(), self.conn.calls(), rd) && resolved(reprs_view(representations@), mode, rd, cv);
        self.write_content(&content);
        assert(self.conn.calls() =~= old(self).conn.calls() + rd.push(write_call(cv)));
    }

    /// Like `simulate_paste`, targeting whichever window the connection
    /// reports as focused now.
    pub fn paste_to_focused_window(&mut self, representations: &[ClipRepresentation], mode: PasteMode) -> (r: Result<
        (),
        PlatformError,
    >)
        ensures
            final(self).focus_detection_supported == old(self).focus_detection_supported,
            final(self).key_synthesis_supported == old(self).key_synthesis_supported,
            pasted_at_focus(
                old(self).conn.calls(),
                final(self).conn.calls(),
                old(self).focus_detection_supported,
                old(self).key_synthesis_supported,
                reprs_view(representations@),
                mode,
                r,
            ),
            !old(self).key_synthesis_supported ==> r is Ok,
            r == Err::<(), PlatformError>(PlatformError::NoFocusedWindow) ==> old(self).focus_detection_supported
                && old(self).key_synthesis_supported,
            r is Ok || r == Err::<(), PlatformError>(PlatformError::NoFocusedWindow) || r matches Err(
                PlatformError::Backend(_),
            ),
    {
        let target = self.conn.focused_window();
        let r = self.simulate_paste(target, representations, mode);
        proof {
            reveal(pasted_at_focus);
        }
        r
    }
}

/// The calls from `before` to `after` and the result `r` of a paste at
/// `target`: the reads that resolve the content (`resolved`), then the
/// writes and key synthesis of the plan (`pasted`).
pub open spec fn pasted_at(
    before: Seq<X11Call>,
    after: Seq<X11Call>,
    focus_detection_supported: bool,
    key_synthesis_supported: bool,
    target: Option<WindowId>,
    reprs: Seq<ReprView>,
    mode: PasteMode,
    r: Result<(), PlatformError>,
) -> bool {
    exists|c: ContentView, rd: Seq<X11Call>, t: Seq<X11Call>|
        followed_by(before, after, rd + t) && resolved(reprs, mode, rd, c) && pasted(
            c,
            plan_of(focus_detection_supported, key_synthesis_supported, target),
            t,
            r,
        )
}

/// A paste at the focused window does exactly what `simulate_paste` does
/// at the window the connection reports: the focused-window query, then
/// the calls and result of a paste at that window (`pasted_at`).
#[verifier::opaque]
pub open spec fn pasted_at_focus(
    before: Seq<X11Call>,
    after: Seq<X11Call>,
    focus_detection_supported: bool,
    key_synthesis_supported: bool,
    reprs: Seq<ReprView>,
    mode: PasteMode,
    r: Result<(), PlatformError>,
) -> bool {
    exists|target: Option<WindowId>|
        pasted_at(
            before.push(X11Call::FocusedWindow { result: target }),
            after,
            focus_detection_supported,
            key_synthesis_supported,
            target,
            reprs,
            mode,
            r,
        )
}

/// The calls a paste makes under `plan` with `content` to place, and its
/// result: unless there is no target, the content is written to the
/// clipboard; then, for a target window, the paste key is synthesized at
/// that window, whose failure is the paste's.
pub open spec fn pasted(content: ContentView, plan: PastePlan, t: Seq<X11Call>, r: Result<(), PlatformError>) -> bool {
    match plan {
        PastePlan::NoTarget => t.len() == 0 && r == Err::<(), PlatformError>(PlatformError::NoFocusedWindow),
        PastePlan::WriteOnly => t == seq![write_call(content)] && r is Ok,
        PastePlan::WriteThenKey(w) => t.len() == 2 && t[0] == write_call(content) && match t[1] {
            X11Call::SynthesizeKey { window, binding, result } => window == w && binding == "ctrl+v"@ && match result {
                Ok(()) => r is Ok,
                Err(e) => r matches Err(PlatformError::Backend(m)) && m@ == e,
            },
            _ => false,
        },
    }
}

/// The paste key is synthesized only right after the content was written,
/// and only at the target window of the plan.
pub proof fn lemma_key_follows_write(content: ContentView, plan: PastePlan, t: Seq<X11Call>, r: Result<(), PlatformError>, i: int)
    requires
        pasted(content, plan, t, r),
        0 <= i < t.len(),
        t[i] is SynthesizeKey,
    ensures
        i == 1,
        t[0] == write_call(content),
        plan matches PastePlan::WriteThenKey(w) && t[i] matches X11Call::SynthesizeKey { window, .. } && window == w,
{
}

/// A paste without a target window makes no call on the connection.
pub proof fn lemma_no_target_writes_nothing(content: ContentView, t: Seq<X11Call>, r: Result<(), PlatformError>)
    requires
        pasted(content, PastePlan::NoTarget, t, r),
    ensures
        t.len() == 0,
{
}

/// A clipboard-only paste (a copy) makes exactly one write and never
/// synthesizes a key.
pub proof fn lemma_copy_never_synthesizes(content: ContentView, t: Seq<X11Call>, r: Result<(), PlatformError>)
    requires
        pasted(content, PastePlan::WriteOnly, t, r),
    ensures
        t.len() == 1,
        forall|i: int| 0 <= i < t.len() ==> !((#[trigger] t[i]) is SynthesizeKey),
{
}

/// When a clip has paste text, a paste with a target (or a copy) writes
/// exactly that text to the clipboard, as its first call.
pub proof fn lemma_text_content_is_written(
    reprs: Seq<ReprView>,
    mode: PasteMode,
    rd: Seq<X11Call>,
    c: ContentView,
    plan: PastePlan,
    t: Seq<X11Call>,
    r: Result<(), PlatformError>,
    text: Seq<char>,
)
    requires
        resolved(reprs, mode, rd, c),
        pasted(c, plan, t, r),
        paste_text_of(reprs, mode) == Some(text),
        plan != PastePlan::NoTarget,
    ensures
        rd.len() == 0,
        t[0] == (X11Call::WriteSelection { content: text }),
{
}

/// A clip without paste text but with an image is pasted as that image:
/// its blob is read once, and when the read returned bytes, exactly those
/// bytes are written under the image's MIME type, as the first write, and
/// the clipboard is never overwritten with empty text.
pub proof fn lemma_image_only_clip_pastes_its_bytes(
    reprs: Seq<ReprView>,
    mode: PasteMode,
    rd: Seq<X11Call>,
    c: ContentView,
    plan: PastePlan,
    t: Seq<X11Call>,
    r: Result<(), PlatformError>,
    mime: Seq<char>,
    path: Seq<char>,
    bytes: Seq<u8>,
)
    requires
        resolved(reprs, mode, rd, c),
        pasted(c, plan, t, r),
        paste_text_of(reprs, mode) is None,
        image_source_of(reprs) == Some((mime, path)),
        rd.len() > 0 && rd[0] == (X11Call::ReadBlob { path, result: Some(bytes) }),
        plan != PastePlan::NoTarget,
    ensures
        rd == seq![X11Call::ReadBlob { path, result: Some(bytes) }],
        t[0] == (X11Call::WriteTarget { mime, bytes }),
        forall|i: int| 0 <= i < t.len() ==> !((#[trigger] t[i]) is WriteSelection),
{
    assert(rd =~= seq![X11Call::ReadBlob { path, result: Some(bytes) }]);
}

} // verus!
