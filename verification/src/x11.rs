//! X11 clipboard adapter: the connection seam and the capture logic that
//! does not depend on the display server.
use vstd::prelude::*;
use crate::clipboard::{BackendCapabilities, ClipboardSnapshot, PlatformError};
use crate::config::joined;
use crate::hashing::{blake3_hex, hash_content};
use crate::models::{ClipRepresentation, ReprView, opt_view, reprs_view};
use vstd::utf8::{decode_utf8, encode_utf8, valid_utf8};

verus! {

/// X11 window identifier.
pub type WindowId = u32;

/// One call made on an X11 connection, with what it returned.
pub enum X11Call {
    ReadSelection { result: Option<Seq<char>> },
    ReadTarget { mime: Seq<char>, result: Option<Seq<u8>> },
    WriteSelection { content: Seq<char> },
    WriteTarget { mime: Seq<char>, bytes: Seq<u8> },
    PollChange { result: Option<()> },
    WindowProperty { window: WindowId, name: Seq<char>, result: Option<Seq<char>> },
    FocusedWindow { result: Option<WindowId> },
    SynthesizeKey { window: WindowId, binding: Seq<char>, result: Result<(), Seq<char>> },
    ReadBlob { path: Seq<char>, result: Option<Seq<u8>> },
}

/// What a byte read handed back, by its view.
pub open spec fn bytes_view(b: Option<Vec<u8>>) -> Option<Seq<u8>> {
    match b {
        Some(v) => Some(v@),
        None => None,
    }
}

/// What a key synthesis reported, by its view.
pub open spec fn key_result_seen(r: Result<(), String>) -> Result<(), Seq<char>> {
    match r {
        Ok(()) => Ok(()),
        Err(e) => Err(e@),
    }
}

/// `after` is `before` followed by the calls `t`.
pub open spec fn followed_by<T>(before: Seq<T>, after: Seq<T>, t: Seq<T>) -> bool {
    after == before + t
}

/// Narrow seam over the raw X11 protocol: selection read/write,
/// selection-change notification, window property lookup, and synthetic key
/// delivery. `calls` is the record of the calls made on the connection so
/// far, with what each returned; every method adds its own call to it.
pub trait X11Connection {
    open spec fn calls(&self) -> Seq<X11Call> {
        Seq::empty()
    }

    /// The current selection's text content, or `None` if unowned/empty.
    fn read_selection(&mut self) -> (r: Option<String>)
        ensures
            final(self).calls() == old(self).calls().push(X11Call::ReadSelection { result: opt_view(r) }),
    ;

    /// The current selection's raw content for a non-text target.
    fn read_selection_target(&mut self, mime: &str) -> (r: Option<Vec<u8>>)
        ensures
            final(self).calls() == old(self).calls().push(X11Call::ReadTarget { mime: mime@, result: bytes_view(r) }),
    ;

    /// Takes ownership of the selection and sets its text content.
    fn write_selection(&mut self, content: &str)
        ensures
            final(self).calls() == old(self).calls().push(X11Call::WriteSelection { content: content@ }),
    ;

    /// Takes ownership of the selection and sets its content for one target.
    fn write_selection_target(&mut self, mime: &str, bytes: &[u8])
        ensures
            final(self).calls() == old(self).calls().push(X11Call::WriteTarget { mime: mime@, bytes: bytes@ }),
    ;

    /// Waits for one selection-change notification; `None` once the
    /// connection is gone.
    fn poll_selection_change(&mut self) -> (r: Option<()>)
        ensures
            final(self).calls() == old(self).calls().push(X11Call::PollChange { result: r }),
    ;

    /// Reads a window property (e.g. `WM_CLASS`, `_NET_WM_NAME`) as a string.
    fn window_property(&mut self, window: WindowId, name: &str) -> (r: Option<String>)
        ensures
            final(self).calls() == old(self).calls().push(
                X11Call::WindowProperty { window, name: name@, result: opt_view(r) },
            ),
    ;

    /// The currently focused window, or `None` if focus is on the desktop.
    fn focused_window(&mut self) -> (r: Option<WindowId>)
        ensures
            final(self).calls() == old(self).calls().push(X11Call::FocusedWindow { result: r }),
    ;

    /// Synthesizes a key combination (e.g. `"ctrl+v"`) targeted at `window`.
    fn synthesize_key(&mut self, window: WindowId, binding: &str) -> (r: Result<(), String>)
        ensures
            final(self).calls() == old(self).calls().push(
                X11Call::SynthesizeKey { window, binding: binding@, result: key_result_seen(r) },
            ),
    ;
}

/// What `String::from_utf8_lossy` makes of `bytes`.
pub uninterp spec fn lossy_utf8(bytes: Seq<u8>) -> Seq<char>;

/// Decodes bytes as UTF-8, replacing invalid sequences
/// (`String::from_utf8_lossy`). Its documentation states that valid UTF-8
/// decodes as it is; the replacement of invalid input is not stated.
#[verifier::external_body]
fn utf8_lossy(bytes: &[u8]) -> (s: String)
    ensures
        s@ == lossy_utf8(bytes@),
        valid_utf8(bytes@) ==> s@ == decode_utf8(bytes@),
{
    String::from_utf8_lossy(bytes).into_owned()
}

/// HTML bytes that are valid UTF-8 are kept as the text they encode.
pub open spec fn decodes_as_is(html: Option<Seq<u8>>) -> bool {
    html matches Some(h) ==> (h.len() > 0 && valid_utf8(h) ==> lossy_utf8(h) == decode_utf8(h))
}

/// The byte length of text, as `str::len` reports it.
pub open spec fn byte_len(s: Seq<char>) -> u64 {
    (encode_utf8(s).len() as usize) as u64
}

/// A full-size image written to the blob store.
pub struct CapturedImage {
    pub blob_path: String,
    pub byte_size: u64,
    pub width: u32,
    pub height: u32,
    pub thumbnail: Option<CapturedThumbnail>,
}

/// A bounded-size preview of a captured image.
pub struct CapturedThumbnail {
    pub blob_path: String,
    pub byte_size: u64,
    pub width: u32,
    pub height: u32,
}

pub open spec fn text_repr(mime: Seq<char>, text: Seq<char>, ordinal: i64) -> ReprView {
    ReprView {
        mime_type: mime,
        text_value: Some(text),
        blob_path: None,
        preview_text: None,
        width: None,
        height: None,
        byte_size: byte_len(text),
        ordinal,
        is_preview: false,
    }
}

pub open spec fn image_repr(path: Seq<char>, size: u64, w: u32, h: u32, ordinal: i64, preview: bool) -> ReprView {
    ReprView {
        mime_type: "image/png"@,
        text_value: None,
        blob_path: Some(path),
        preview_text: None,
        width: Some(w),
        height: Some(h),
        byte_size: size,
        ordinal,
        is_preview: preview,
    }
}

/// The representations of a capture, in order: the plain text when there
/// is some, the HTML when there is some, then the image and its thumbnail;
/// each numbered by its position.
pub open spec fn assembled(
    text: Option<Seq<char>>,
    html: Option<Seq<u8>>,
    image: Option<(Seq<char>, u64, u32, u32)>,
    thumbnail: Option<(Seq<char>, u64, u32, u32)>,
) -> Seq<ReprView> {
    let a: Seq<ReprView> = match text {
        Some(t) => if t.len() > 0 {
            seq![text_repr("text/plain"@, t, 0)]
        } else {
            Seq::empty()
        },
        None => Seq::empty(),
    };
    let b: Seq<ReprView> = match html {
        Some(h) => if h.len() > 0 {
            a.push(text_repr("text/html"@, lossy_utf8(h), a.len() as i64))
        } else {
            a
        },
        None => a,
    };
    match image {
        Some(img) => {
            let c = b.push(image_repr(img.0, img.1, img.2, img.3, b.len() as i64, false));
            match thumbnail {
                Some(t) => c.push(image_repr(t.0, t.1, t.2, t.3, c.len() as i64, true)),
                None => c,
            }
        },
        None => b,
    }
}

/// The full-size image of a capture, by its view; its thumbnail is
/// `thumbnail_view`.
pub open spec fn image_view(image: Option<CapturedImage>) -> Option<(Seq<char>, u64, u32, u32)> {
    match image {
        Some(i) => Some((i.blob_path@, i.byte_size, i.width, i.height)),
        None => None,
    }
}

pub open spec fn thumbnail_view(image: Option<CapturedImage>) -> Option<(Seq<char>, u64, u32, u32)> {
    match image {
        Some(i) => match i.thumbnail {
            Some(t) => Some((t.blob_path@, t.byte_size, t.width, t.height)),
            None => None,
        },
        None => None,
    }
}

fn text_representation(mime: &str, text: String, ordinal: i64) -> (r: ClipRepresentation)
    ensures
        r@ == text_repr(mime@, text@, ordinal),
{
    let size = text.as_str().len() as u64;
    ClipRepresentation::new(mime, ordinal).with_byte_size(size).with_text_value(text.as_str())
}

fn image_representation(path: String, size: u64, w: u32, h: u32, ordinal: i64, preview: bool) -> (r: ClipRepresentation)
    ensures
        r@ == image_repr(path@, size, w, h, ordinal, preview),
{
    let mut r = ClipRepresentation::new("image/png", ordinal).with_byte_size(size);
    r.blob_path = Some(path);
    r.width = Some(w);
    r.height = Some(h);
    r.is_preview = preview;
    r
}

/// Builds the snapshot of one clipboard read from what was read: the
/// selection's text, its `text/html` target, and the stored image (with
/// its thumbnail) when a `image/png` target decoded.
pub fn assemble_snapshot(text: Option<String>, html: Option<Vec<u8>>, image: Option<CapturedImage>) -> (s: ClipboardSnapshot)
    ensures
        reprs_view(s.representations@) == assembled(
            opt_view(text),
            bytes_view(html),
            image_view(image),
            thumbnail_view(image),
        ),
        decodes_as_is(bytes_view(html)),
{
    let ghost tv = opt_view(text);
    let ghost hv = bytes_view(html);
    let ghost iv = image_view(image);
    let ghost thv = thumbnail_view(image);
    let mut reps: Vec<ClipRepresentation> = Vec::new();
    let mut ordinal: i64 = 0;
    if let Some(t) = text {
        if !t.as_str().is_empty() {
            reps.push(text_representation("text/plain", t, 0));
            ordinal = 1;
        }
    }
    assert(reprs_view(reps@) =~= match tv {
        Some(t) => if t.len() > 0 { seq![text_repr("text/plain"@, t, 0)] } else { Seq::<ReprView>::empty() },
        None => Seq::<ReprView>::empty(),
    });
    assert(ordinal == reps@.len());
    if let Some(h) = html {
        if h.len() > 0 {
            let decoded = utf8_lossy(h.as_slice());
            let ghost before = reps@;
            reps.push(text_representation("text/html", decoded, ordinal));
            assert(reprs_view(reps@) =~= reprs_view(before).push(text_repr("text/html"@, lossy_utf8(h@), ordinal)));
            ordinal = ordinal + 1;
        }
    }
    assert(ordinal == reps@.len());
    if let Some(img) = image {
        let ghost before = reps@;
        let ghost ipath = img.blob_path@;
        reps.push(image_representation(img.blob_path, img.byte_size, img.width, img.height, ordinal, false));
        assert(reprs_view(reps@) =~= reprs_view(before).push(image_repr(ipath, img.byte_size, img.width, img.height, ordinal, false)));
        ordinal = ordinal + 1;
        if let Some(th) = img.thumbnail {
            let ghost before2 = reps@;
            let ghost tpath = th.blob_path@;
            reps.push(image_representation(th.blob_path, th.byte_size, th.width, th.height, ordinal, true));
            assert(reprs_view(reps@) =~= reprs_view(before2).push(image_repr(tpath, th.byte_size, th.width, th.height, ordinal, true)));
        }
    }
    ClipboardSnapshot { representations: reps }
}

/// The width and height of the image that `bytes` encode, as
/// `image::load_from_memory` decodes it (format guessed from the bytes), or
/// `None` when it does not decode.
pub uninterp spec fn decoded_dimensions(bytes: Seq<u8>) -> Option<(u32, u32)>;

/// Decodes an encoded image (`image::load_from_memory`) and reports its
/// dimensions. No format-detection or decoding hooks are registered by
/// this crate, so the outcome depends on the bytes alone; it is named, not
/// stated.
#[verifier::external_body]
fn decode_dimensions(bytes: &[u8]) -> (r: Option<(u32, u32)>)
    ensures
        r == decoded_dimensions(bytes@),
{
    match image::load_from_memory(bytes) {
        Ok(img) => Some((img.width(), img.height())),
        Err(_) => None,
    }
}

/// A thumbnail by its view: path, byte count, width and height.
pub open spec fn thumb_view(t: Option<CapturedThumbnail>) -> Option<(Seq<char>, u64, u32, u32)> {
    match t {
        Some(t) => Some((t.blob_path@, t.byte_size, t.width, t.height)),
        None => None,
    }
}

/// One write asked of a blob sink, with what it handed back.
pub enum BlobWrite {
    Blob { hash: Seq<char>, bytes: Seq<u8>, result: Option<Seq<char>> },
    Thumbnail { hash: Seq<char>, bytes: Seq<u8>, result: Option<(Seq<char>, u64, u32, u32)> },
}

/// Where captured images go: the full image under its content hash, and a
/// bounded-size thumbnail of it. Either write may fail (`None`); a failed
/// thumbnail does not stop the full image from being kept. `writes` is the
/// record of the writes asked of the sink so far, with what each returned.
pub trait BlobSink {
    open spec fn writes(&self) -> Seq<BlobWrite> {
        Seq::empty()
    }

    /// The directory the blobs are stored in.
    open spec fn blob_dir(&self) -> Seq<char> {
        Seq::empty()
    }

    /// Stores encoded image bytes under `hash`; returns the stored path,
    /// `<blob_dir>/<hash>.png`.
    fn write_blob(&mut self, hash: &str, bytes: &[u8]) -> (r: Option<String>)
        ensures
            final(self).writes() == old(self).writes().push(
                BlobWrite::Blob { hash: hash@, bytes: bytes@, result: opt_view(r) },
            ),
            final(self).blob_dir() == old(self).blob_dir(),
            r matches Some(p) ==> p@ == blob_file(old(self).blob_dir(), hash@),
    ;

    /// Generates and stores a thumbnail of the encoded image under `hash`,
    /// at `<blob_dir>/thumbnails/<hash>.png`.
    fn write_thumbnail(&mut self, hash: &str, bytes: &[u8]) -> (r: Option<CapturedThumbnail>)
        ensures
            final(self).writes() == old(self).writes().push(
                BlobWrite::Thumbnail { hash: hash@, bytes: bytes@, result: thumb_view(r) },
            ),
            final(self).blob_dir() == old(self).blob_dir(),
            r matches Some(t) ==> t.blob_path@ == blob_file(joined(old(self).blob_dir(), "thumbnails"@), hash@),
    ;
}

/// Where a blob with content hash `hash` is stored under `dir`.
pub open spec fn blob_file(dir: Seq<char>, hash: Seq<char>) -> Seq<char> {
    joined(dir, hash + ".png"@)
}

/// The writes of an image capture and what it keeps: bytes that do not
/// decode are neither stored nor kept; otherwise they are stored under
/// their content hash, and, when that succeeded, a thumbnail is made under
/// the same hash and the image is kept at its stored path with its byte
/// count, decoded size and thumbnail.
pub open spec fn image_captured(dir: Seq<char>, bytes: Seq<u8>, w: Seq<BlobWrite>, r: Option<CapturedImage>) -> bool {
    match decoded_dimensions(bytes) {
        None => w.len() == 0 && r is None,
        Some((width, height)) => w.len() >= 1 && match w[0] {
            BlobWrite::Blob { hash, bytes: b, result } => hash == blake3_hex(bytes) && b == bytes && match result {
                None => w.len() == 1 && r is None,
                Some(path) => w.len() == 2 && match w[1] {
                    BlobWrite::Thumbnail { hash: h2, bytes: b2, result: thumb } => h2 == blake3_hex(bytes) && b2
                        == bytes && path == blob_file(dir, blake3_hex(bytes)) && image_view(r) == Some(
                        (path, bytes.len() as u64, width, height),
                    )
                        && thumbnail_view(r) == thumb,
                    _ => false,
                },
            },
            _ => false,
        },
    }
}

/// Decodes and stores an image offered on the clipboard. Nothing is kept
/// of bytes that do not decode; otherwise the image is kept at its decoded
/// size with its byte count, unless the sink fails to store it.
pub fn capture_image<W: BlobSink>(bytes: &[u8], sink: &mut W) -> (r: Option<CapturedImage>)
    ensures
        exists|w: Seq<BlobWrite>|
            followed_by(old(sink).writes(), final(sink).writes(), w) && image_captured(old(sink).blob_dir(), bytes@, w, r),
        final(sink).blob_dir() == old(sink).blob_dir(),
        decoded_dimensions(bytes@) is None ==> r is None,
        r matches Some(img) ==> decoded_dimensions(bytes@) == Some((img.width, img.height))
            && img.byte_size == bytes@.len(),
{
    let ghost w0 = sink.writes();
    let (width, height) = match decode_dimensions(bytes) {
        Some(d) => d,
        None => {
            assert(sink.writes() =~= w0 + Seq::<BlobWrite>::empty());
            assert(image_captured(old(sink).blob_dir(), bytes@, Seq::empty(), None));
            return None;
        },
    };
    let hash = hash_content(bytes);
    let stored = sink.write_blob(hash.as_str(), bytes);
    let ghost w1 = seq![BlobWrite::Blob { hash: hash@, bytes: bytes@, result: opt_view(stored) }];
    assert(sink.writes() =~= w0 + w1);
    let blob_path = match stored {
        Some(p) => p,
        None => {
            assert(image_captured(old(sink).blob_dir(), bytes@, w1, None));
            return None;
        },
    };
    let thumbnail = sink.write_thumbnail(hash.as_str(), bytes);
    let ghost w2 = w1.push(BlobWrite::Thumbnail { hash: hash@, bytes: bytes@, result: thumb_view(thumbnail) });
    assert(sink.writes() =~= w0 + w2);
    let r = Some(CapturedImage { blob_path, byte_size: bytes.len() as u64, width, height, thumbnail });
    assert(image_captured(old(sink).blob_dir(), bytes@, w2, r));
    r
}

/// The text that identifies a capture: the first full-size
/// representation's text, or else its (content-addressed) blob path.
pub open spec fn identity_source(reprs: Seq<ReprView>) -> Option<Seq<char>>
    decreases reprs.len(),
{
    if reprs.len() == 0 {
        None
    } else if !reprs[0].is_preview {
        match reprs[0].text_value {
            Some(t) => Some(t),
            None => reprs[0].blob_path,
        }
    } else {
        identity_source(reprs.drop_first())
    }
}

pub open spec fn hash_of_text(t: Option<Seq<char>>) -> Option<Seq<char>> {
    match t {
        Some(s) => Some(blake3_hex(encode_utf8(s))),
        None => None,
    }
}

/// Whether a change notification is reported: only when the content's
/// identity differs from the last one seen. Returns the decision and the
/// identity to remember.
pub open spec fn observe_step(last: Option<Seq<char>>, identity: Option<Seq<char>>) -> (bool, Option<Seq<char>>) {
    (last != identity, identity)
}

/// Observing the same content twice in a row reports it at most once.
pub proof fn lemma_unchanged_content_reported_once(last: Option<Seq<char>>, identity: Option<Seq<char>>)
    ensures
        !observe_step(observe_step(last, identity).1, identity).0,
{
}

fn hash_opt(t: Option<&String>) -> (h: Option<String>)
    ensures
        opt_view(h) == hash_of_text(match t { Some(s) => Some(s@), None => None }),
{
    match t {
        Some(s) => Some(hash_content(s.as_str().as_bytes())),
        None => None,
    }
}

/// What a capture keeps of the `image/png` bytes it read: nothing when
/// none were offered or they do not decode; otherwise, unless storing
/// failed, the image at its decoded size with its byte count.
pub open spec fn kept_image(dir: Seq<char>, png: Option<Seq<u8>>, w: Seq<BlobWrite>, image: Option<CapturedImage>) -> bool {
    match png {
        None => w.len() == 0 && image is None,
        Some(b) => image_captured(dir, b, w, image),
    }
}

/// The reads of a capture and the snapshot assembled from them: the
/// selection's text, then its `text/html` target, then its `image/png`
/// target, whose image (as kept) follows.
pub open spec fn read_back(
    dir: Seq<char>,
    t: Seq<X11Call>,
    w: Seq<BlobWrite>,
    image: Option<CapturedImage>,
    reprs: Seq<ReprView>,
) -> bool {
    t.len() == 3 && match (t[0], t[1], t[2]) {
        (
            X11Call::ReadSelection { result: text },
            X11Call::ReadTarget { mime: m1, result: html },
            X11Call::ReadTarget { mime: m2, result: png },
        ) => {
            &&& m1 == "text/html"@
            &&& m2 == "image/png"@
            &&& kept_image(dir, png, w, image)
            &&& decodes_as_is(html)
            &&& reprs == assembled(text, html, image_view(image), thumbnail_view(image))
        },
        _ => false,
    }
}

/// A capture that read no text and no HTML but kept the image it read is
/// identified by the image's content-addressed path, so image-only content
/// has an identity, and the same image read again has the same one.
pub proof fn lemma_image_only_identity(
    dir: Seq<char>,
    t: Seq<X11Call>,
    w: Seq<BlobWrite>,
    image: Option<CapturedImage>,
    reprs: Seq<ReprView>,
)
    requires
        read_back(dir, t, w, image, reprs),
        t[0] == (X11Call::ReadSelection { result: None }),
        t[1] matches X11Call::ReadTarget { result: None, .. },
        image is Some,
    ensures
        t[2] matches X11Call::ReadTarget { result: Some(png), .. } && identity_source(reprs) == Some(
            blob_file(dir, blake3_hex(png)),
        ),
{
    assert(reprs[0] == image_repr(image->0.blob_path@, image->0.byte_size, image->0.width, image->0.height, 0, false));
}

/// The connection calls from `before` to `after` and the sink writes from
/// `sink_before` to `sink_after` are those of a capture whose snapshot has
/// the representations `reprs` (see `read_back`).
pub open spec fn read_into(
    dir: Seq<char>,
    before: Seq<X11Call>,
    after: Seq<X11Call>,
    sink_before: Seq<BlobWrite>,
    sink_after: Seq<BlobWrite>,
    reprs: Seq<ReprView>,
) -> bool {
    exists|t: Seq<X11Call>, w: Seq<BlobWrite>, image: Option<CapturedImage>|
        followed_by(before, after, t) && followed_by(sink_before, sink_after, w) && read_back(dir, t, w, image, reprs)
}

/// A turn of the capture loop that saw a selection change: the change
/// notification, then the reads of a snapshot `s`, reported as `out` when
/// its identity differs from the last one seen (`observe_step`).
pub open spec fn captured_next(
    dir: Seq<char>,
    before: Seq<X11Call>,
    after: Seq<X11Call>,
    sink_before: Seq<BlobWrite>,
    sink_after: Seq<BlobWrite>,
    last_before: Option<Seq<char>>,
    last_after: Option<Seq<char>>,
    out: Option<ClipboardSnapshot>,
) -> bool {
    exists|s: ClipboardSnapshot, polled: Option<()>|
        polled is Some && read_into(
            dir,
            before.push(X11Call::PollChange { result: polled }),
            after,
            sink_before,
            sink_after,
            reprs_view(s.representations@),
        )
            && (out is Some, last_after) == observe_step(
            last_before,
            hash_of_text(identity_source(reprs_view(s.representations@))),
        ) && (out matches Some(x) ==> x == s)
}

/// X11 implementation of the capture surface, over any `X11Connection`.
/// Image blobs (and a `thumbnails/` subdirectory) go to `blob_dir`.
pub struct X11Backend<C: X11Connection> {
    pub conn: C,
    pub blob_dir: String,
    pub last_hash: Option<String>,
}

impl<C: X11Connection> X11Backend<C> {
    pub fn new(conn: C, blob_dir: &str) -> (b: Self)
        ensures
            b.conn == conn,
            b.blob_dir@ == blob_dir@,
            b.last_identity() is None,
    {
        X11Backend { conn, blob_dir: crate::text::copy_str(blob_dir), last_hash: None }
    }

    /// The identity hash of the last content reported.
    pub open spec fn last_identity(&self) -> Option<Seq<char>> {
        opt_view(self.last_hash)
    }

    /// Reads the clipboard: its text, its `text/html` target and its
    /// `image/png` target (decoded and stored through `sink`), assembled in
    /// that order. A read never fails; an empty clipboard reads as an empty
    /// snapshot.
    pub fn read_current<W: BlobSink>(&mut self, sink: &mut W) -> (r: Result<ClipboardSnapshot, PlatformError>)
        ensures
            final(self).blob_dir == old(self).blob_dir,
            final(self).last_hash == old(self).last_hash,
            final(sink).blob_dir() == old(sink).blob_dir(),
            r matches Ok(s) && read_into(
                old(sink).blob_dir(),
                old(self).conn.calls(),
                final(self).conn.calls(),
                old(sink).writes(),
                final(sink).writes(),
                reprs_view(s.representations@),
            ),
    {
        let ghost before = self.conn.calls();
        let ghost w0 = sink.writes();
        let text = self.conn.read_selection();
        let html = self.conn.read_selection_target("text/html");
        let png = self.conn.read_selection_target("image/png");
        let ghost t = seq![
            X11Call::ReadSelection { result: opt_view(text) },
            X11Call::ReadTarget { mime: "text/html"@, result: bytes_view(html) },
            X11Call::ReadTarget { mime: "image/png"@, result: bytes_view(png) },
        ];
        assert(self.conn.calls() =~= before + t);
        let image = match png {
            Some(bytes) => capture_image(bytes.as_slice(), sink),
            None => None,
        };
        let ghost img = image;
        let ghost w = sink.writes().subrange(w0.len() as int, sink.writes().len() as int);
        assert(sink.writes() =~= w0 + w);
        let s = assemble_snapshot(text, html, image);
        assert(followed_by(before, self.conn.calls(), t) && followed_by(w0, sink.writes(), w) && read_back(
            old(sink).blob_dir(),
            t,
            w,
            img,
            reprs_view(s.representations@),
        ));
        assert(read_into(old(sink).blob_dir(), before, self.conn.calls(), w0, sink.writes(), reprs_view(s.representations@)));
        let r: Result<ClipboardSnapshot, PlatformError> = Ok(s);
        r
    }

    /// Takes ownership of the selection with `content` as its text.
    pub fn set_current(&mut self, content: &str) -> (r: Result<(), PlatformError>)
        ensures
            r is Ok,
            final(self).conn.calls() == old(self).conn.calls().push(X11Call::WriteSelection { content: content@ }),
            final(self).blob_dir == old(self).blob_dir,
            final(self).last_hash == old(self).last_hash,
    {
        self.conn.write_selection(content);
        Ok(())
    }

    /// A stable identity hash for a snapshot's full-size content: of the
    /// first non-preview representation's text, else of its blob path.
    pub fn identity_hash(snapshot: &ClipboardSnapshot) -> (h: Option<String>)
        ensures
            opt_view(h) == hash_of_text(identity_source(reprs_view(snapshot.representations@))),
    {
        let reps = &snapshot.representations;
        let ghost rv = reprs_view(reps@);
        assert(rv.subrange(0, rv.len() as int) =~= rv);
        let mut i: usize = 0;
        while i < reps.len()
            invariant
                i <= reps.len(),
                rv == reprs_view(reps@),
                reps@ == snapshot.representations@,
                identity_source(rv) == identity_source(rv.subrange(i as int, rv.len() as int)),
            decreases reps.len() - i,
        {
            let ghost rest = rv.subrange(i as int, rv.len() as int);
            assert(rest[0] == reps@[i as int]@);
            if !reps[i].is_preview {
                let r = &reps[i];
                assert(rest.len() > 0);
                assert(identity_source(rest) == match rest[0].text_value {
                    Some(t) => Some(t),
                    None => rest[0].blob_path,
                });
                assert(rest[0].text_value == opt_view(r.text_value));
                assert(rest[0].blob_path == opt_view(r.blob_path));
                let h = match &r.text_value {
                    Some(t) => hash_opt(Some(t)),
                    None => match &r.blob_path {
                        Some(p) => hash_opt(Some(p)),
                        None => None,
                    },
                };
                assert(opt_view(h) == hash_of_text(identity_source(rest)));
                return h;
            }
            assert(rest.drop_first() =~= rv.subrange(i + 1, rv.len() as int));
            i = i + 1;
        }
        None
    }

    /// Records a freshly read snapshot and says whether it is new content
    /// to report (its identity differs from the last one seen).
    pub fn observe(&mut self, snapshot: &ClipboardSnapshot) -> (report: bool)
        ensures
            (report, final(self).last_identity()) == observe_step(
                old(self).last_identity(),
                hash_of_text(identity_source(reprs_view(snapshot.representations@))),
            ),
            final(self).conn == old(self).conn,
            final(self).blob_dir == old(self).blob_dir,
    {
        let h = Self::identity_hash(snapshot);
        let changed = !same_identity(&self.last_hash, &h);
        self.last_hash = h;
        changed
    }

    /// One turn of the capture loop: waits for a selection change, reads the
    /// clipboard and reports the snapshot when its content is new. `None`
    /// once the connection is gone; `Some(None)` for content already
    /// reported last.
    pub fn next_capture<W: BlobSink>(&mut self, sink: &mut W) -> (r: Option<Option<ClipboardSnapshot>>)
        ensures
            final(self).blob_dir == old(self).blob_dir,
            r is None ==> final(self).conn.calls() == old(self).conn.calls().push(X11Call::PollChange { result: None })
                && final(self).last_hash == old(self).last_hash && final(sink).writes() == old(sink).writes(),
            final(sink).blob_dir() == old(sink).blob_dir(),
            r matches Some(out) ==> captured_next(
                old(sink).blob_dir(),
                old(self).conn.calls(),
                final(self).conn.calls(),
                old(sink).writes(),
                final(sink).writes(),
                old(self).last_identity(),
                final(self).last_identity(),
                out,
            ),
    {
        let polled = self.conn.poll_selection_change();
        if polled.is_none() {
            return None;
        }
        let snapshot = match self.read_current(sink) {
            Ok(s) => s,
            Err(_) => {
                return None;
            },
        };
        let report = self.observe(&snapshot);
        let ghost seen = snapshot;
        let out = if report {
            Some(snapshot)
        } else {
            None
        };
        assert(out matches Some(x) ==> x == seen);
        assert(read_into(
            old(sink).blob_dir(),
            old(self).conn.calls().push(X11Call::PollChange { result: polled }),
            self.conn.calls(),
            old(sink).writes(),
            sink.writes(),
            reprs_view(seen.representations@),
        ));
        assert(captured_next(
            old(sink).blob_dir(),
            old(self).conn.calls(),
            self.conn.calls(),
            old(sink).writes(),
            sink.writes(),
            old(self).last_identity(),
            self.last_identity(),
            out,
        ));
        Some(out)
    }

    pub fn capabilities(&self) -> (c: BackendCapabilities)
        ensures
            c.capture && c.paste_simulation && c.hotkeys && c.focus_detection,
    {
        BackendCapabilities { capture: true, paste_simulation: true, hotkeys: true, focus_detection: true }
    }
}

/// Whether two optional identities are the same.
pub fn same_identity(a: &Option<String>, b: &Option<String>) -> (r: bool)
    ensures
        r == (opt_view(*a) == opt_view(*b)),
{
    match (a, b) {
        (Some(x), Some(y)) => crate::text::str_eq(x.as_str(), y.as_str()),
        (None, None) => true,
        _ => false,
    }
}

/// X11's `None` atom.
pub const X_NONE: u32 = 0;

/// What the selection owner writes in answer to a conversion request.
#[derive(Debug, Clone, PartialEq, Eq)]
pub enum SelectionAnswer {
    /// The atoms of the targets it can convert to.
    Targets(Vec<u32>),
    /// The owned text, as UTF-8.
    Text,
    /// The owned image's bytes, typed by the requested target.
    Image,
    /// Nothing is written: the target is not offered.
    Nothing,
}

/// The property a conversion is written to: the one the requestor named,
/// or the target itself for an obsolete requestor that named none.
pub open spec fn reply_property(target: u32, property: u32) -> u32 {
    if property == X_NONE {
        target
    } else {
        property
    }
}

/// The targets offered: `UTF8_STRING`, `TARGETS`, and the owned image's
/// target when an image is owned.
pub open spec fn offered_targets(utf8_string: u32, targets: u32, image_target: Option<u32>) -> Seq<u32> {
    match image_target {
        Some(a) => seq![utf8_string, targets, a],
        None => seq![utf8_string, targets],
    }
}

/// Decides the answer to a `SelectionRequest` for `target` into `property`,
/// given the `UTF8_STRING` and `TARGETS` atoms and the owned image's target
/// atom, if any: the property to write and what to write in it.
pub fn answer_selection_request(
    target: u32,
    property: u32,
    utf8_string: u32,
    targets: u32,
    image_target: Option<u32>,
) -> (r: (u32, SelectionAnswer))
    ensures
        r.0 == reply_property(target, property),
        target == targets ==> (r.1 matches SelectionAnswer::Targets(v) && v@ == offered_targets(
            utf8_string,
            targets,
            image_target,
        )),
        target != targets && target == utf8_string ==> r.1 == SelectionAnswer::Text,
        target != targets && target != utf8_string && image_target == Some(target) ==> r.1
            == SelectionAnswer::Image,
        target != targets && target != utf8_string && image_target != Some(target) ==> r.1
            == SelectionAnswer::Nothing,
{
    let prop = if property == X_NONE {
        target
    } else {
        property
    };
    if target == targets {
        let mut available: Vec<u32> = Vec::new();
        available.push(utf8_string);
        available.push(targets);
        match image_target {
            Some(a) => available.push(a),
            None => {},
        }
        assert(available@ =~= offered_targets(utf8_string, targets, image_target));
        (prop, SelectionAnswer::Targets(available))
    } else if target == utf8_string {
        (prop, SelectionAnswer::Text)
    } else {
        match image_target {
            Some(a) => {
                if a == target {
                    (prop, SelectionAnswer::Image)
                } else {
                    (prop, SelectionAnswer::Nothing)
                }
            },
            None => (prop, SelectionAnswer::Nothing),
        }
    }
}

} // verus!
