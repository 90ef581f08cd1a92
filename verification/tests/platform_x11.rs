use std::cell::RefCell;
use std::collections::{HashMap, VecDeque};

use clipdeck::clipboard::PlatformError;
use clipdeck::daemon::X11DaemonBackend;
use clipdeck::focus::{app_name_from_wm_class, FocusTracker};
use clipdeck::models::{ClipRepresentation, PasteMode};
use clipdeck::paste::{resolve_paste_text, BlobSource, PasteSimulator};
use clipdeck::services::Backend;
use clipdeck::keymap::{binding_keycodes, keycode_for_keysym, keysym_of_token, mapping_fits_len, KeymapError};
use clipdeck::x11::{
    answer_selection_request, BlobSink, CapturedThumbnail, SelectionAnswer, WindowId, X11Backend, X11Connection,
};

#[derive(Debug, Clone, PartialEq)]
enum RecordedOp {
    WriteSelection(String),
    WriteSelectionTarget(String, Vec<u8>),
    SynthesizeKey(WindowId, String),
}

#[derive(Default)]
struct State {
    selection: Option<String>,
    selection_targets: HashMap<String, Vec<u8>>,
    pending_changes: VecDeque<()>,
    window_properties: HashMap<(WindowId, String), String>,
    focused_window: Option<WindowId>,
    ops_log: Vec<RecordedOp>,
    blobs: HashMap<String, Vec<u8>>,
}

#[derive(Default)]
struct FakeX11Connection {
    state: RefCell<State>,
}

impl FakeX11Connection {
    fn new() -> Self {
        Self::default()
    }

    fn queue_selection_change(&self) {
        self.state.borrow_mut().pending_changes.push_back(());
    }

    fn set_window_property(&self, window: WindowId, name: &str, value: &str) {
        self.state.borrow_mut().window_properties.insert((window, name.to_string()), value.to_string());
    }

    fn set_focused_window(&self, window: Option<WindowId>) {
        self.state.borrow_mut().focused_window = window;
    }

    fn set_selection_target(&self, mime: &str, bytes: Vec<u8>) {
        self.state.borrow_mut().selection_targets.insert(mime.to_string(), bytes);
    }

    fn ops_log(&self) -> Vec<RecordedOp> {
        self.state.borrow().ops_log.clone()
    }

    fn store_blob(&self, path: &str, bytes: &[u8]) {
        self.state.borrow_mut().blobs.insert(path.to_string(), bytes.to_vec());
    }
}

impl X11Connection for FakeX11Connection {
    fn read_selection(&mut self) -> Option<String> {
        self.state.borrow().selection.clone()
    }

    fn read_selection_target(&mut self, mime: &str) -> Option<Vec<u8>> {
        self.state.borrow().selection_targets.get(mime).cloned()
    }

    fn write_selection(&mut self, content: &str) {
        let mut state = self.state.borrow_mut();
        state.selection = Some(content.to_string());
        state.ops_log.push(RecordedOp::WriteSelection(content.to_string()));
    }

    fn write_selection_target(&mut self, mime: &str, bytes: &[u8]) {
        let mut state = self.state.borrow_mut();
        state.selection_targets.insert(mime.to_string(), bytes.to_vec());
        state.ops_log.push(RecordedOp::WriteSelectionTarget(mime.to_string(), bytes.to_vec()));
    }

    fn poll_selection_change(&mut self) -> Option<()> {
        self.state.borrow_mut().pending_changes.pop_front()
    }

    fn window_property(&mut self, window: WindowId, name: &str) -> Option<String> {
        self.state.borrow().window_properties.get(&(window, name.to_string())).cloned()
    }

    fn focused_window(&mut self) -> Option<WindowId> {
        self.state.borrow().focused_window
    }

    fn synthesize_key(&mut self, window: WindowId, binding: &str) -> Result<(), String> {
        self.state.borrow_mut().ops_log.push(RecordedOp::SynthesizeKey(window, binding.to_string()));
        Ok(())
    }
}

impl BlobSource for FakeX11Connection {
    fn read_blob(&mut self, path: &str) -> Option<Vec<u8>> {
        self.state.borrow().blobs.get(path).cloned()
    }
}

/// Keeps blobs in memory under `<dir>/<hash>.png`, with thumbnails bounded
/// to 256 pixels on the long edge; thumbnail writes can be made to fail.
#[derive(Default)]
struct MemorySink {
    dir: String,
    blobs: RefCell<HashMap<String, Vec<u8>>>,
    fail_thumbnails: bool,
}

impl BlobSink for MemorySink {
    fn write_blob(&mut self, hash: &str, bytes: &[u8]) -> Option<String> {
        let path = format!("{}/{hash}.png", self.dir);
        self.blobs.borrow_mut().insert(path.clone(), bytes.to_vec());
        Some(path)
    }

    fn write_thumbnail(&mut self, hash: &str, bytes: &[u8]) -> Option<CapturedThumbnail> {
        if self.fail_thumbnails {
            return None;
        }
        let image = image::load_from_memory(bytes).ok()?;
        let (width, height) = (image.width().max(1), image.height().max(1));
        let scale = (256.0_f64 / width.max(height) as f64).min(1.0);
        let tw = ((width as f64 * scale).round() as u32).max(1);
        let th = ((height as f64 * scale).round() as u32).max(1);
        let thumb = image::DynamicImage::ImageRgba8(image::imageops::thumbnail(&image, tw, th));
        let mut encoded = Vec::new();
        thumb.write_to(&mut std::io::Cursor::new(&mut encoded), image::ImageFormat::Png).ok()?;
        let path = format!("{}/thumbnails/{hash}.png", self.dir);
        let byte_size = encoded.len() as u64;
        self.blobs.borrow_mut().insert(path.clone(), encoded);
        Some(CapturedThumbnail { blob_path: path, byte_size, width: thumb.width(), height: thumb.height() })
    }
}

fn test_backend(conn: FakeX11Connection) -> ((), X11Backend<FakeX11Connection>, MemorySink) {
    let mut backend = X11Backend::new(conn, "/blobs");
    let sink = MemorySink { dir: "/blobs".to_string(), ..Default::default() };
    ((), backend, sink)
}

fn encode_png(width: u32, height: u32) -> Vec<u8> {
    let image = image::DynamicImage::ImageRgb8(image::RgbImage::new(width, height));
    let mut bytes = Vec::new();
    image.write_to(&mut std::io::Cursor::new(&mut bytes), image::ImageFormat::Png).unwrap();
    bytes
}

/// Runs the capture loop over the connection's queued change
/// notifications, collecting the snapshots it reports.
fn drain_changes(backend: &mut X11Backend<FakeX11Connection>, sink: &mut MemorySink) -> Vec<clipdeck::clipboard::ClipboardSnapshot> {
    let mut captured = Vec::new();
    while backend.conn.poll_selection_change().is_some() {
        let snapshot = backend.read_current(sink).unwrap();
        if backend.observe(&snapshot) {
            captured.push(snapshot);
        }
    }
    captured
}

#[test]
fn fake_connection_satisfies_the_x11_connection_trait() {
    let mut conn: Box<dyn X11Connection> = Box::new(FakeX11Connection::new());
    assert_eq!(conn.read_selection(), None);
    assert_eq!(conn.focused_window(), None);
}

#[test]
fn mod_reading_a_populated_clipboard_returns_its_text() {
    let mut conn = FakeX11Connection::new();
    conn.write_selection("ssh user@host");
    let (_tmp, mut backend, mut sink) = test_backend(conn);
    let snapshot = backend.read_current(&mut sink).unwrap();
    assert_eq!(snapshot.representations.len(), 1);
    assert_eq!(snapshot.representations[0].text_value.as_deref(), Some("ssh user@host"));
}

#[test]
fn reading_rich_text_returns_both_plain_text_and_html_representations() {
    let mut conn = FakeX11Connection::new();
    conn.write_selection("ssh user@host");
    conn.set_selection_target("text/html", b"<b>ssh user@host</b>".to_vec());
    let (_tmp, mut backend, mut sink) = test_backend(conn);

    let snapshot = backend.read_current(&mut sink).unwrap();

    assert_eq!(snapshot.representations.len(), 2);
    assert_eq!(snapshot.representations[0].mime_type, "text/plain");
    assert_eq!(snapshot.representations[0].text_value.as_deref(), Some("ssh user@host"));
    assert_eq!(snapshot.representations[1].mime_type, "text/html");
    assert_eq!(snapshot.representations[1].text_value.as_deref(), Some("<b>ssh user@host</b>"));
    assert_eq!(snapshot.representations[1].ordinal, 1);
    assert_eq!(snapshot.representations[1].byte_size, 20);
}

#[test]
fn reading_an_image_target_produces_an_image_representation() {
    let conn = FakeX11Connection::new();
    conn.set_selection_target("image/png", encode_png(200, 100));
    let (_tmp, mut backend, mut sink) = test_backend(conn);

    let snapshot = backend.read_current(&mut sink).unwrap();

    let full = snapshot.representations.iter().find(|r| !r.is_preview).unwrap();
    assert_eq!(full.mime_type, "image/png");
}

#[test]
fn a_captured_image_representation_reports_its_dimensions() {
    let conn = FakeX11Connection::new();
    conn.set_selection_target("image/png", encode_png(200, 100));
    let (_tmp, mut backend, mut sink) = test_backend(conn);

    let snapshot = backend.read_current(&mut sink).unwrap();

    let full = snapshot.representations.iter().find(|r| !r.is_preview).unwrap();
    assert_eq!(full.width, Some(200));
    assert_eq!(full.height, Some(100));
}

#[test]
fn capturing_a_large_image_produces_a_bounded_thumbnail() {
    let conn = FakeX11Connection::new();
    conn.set_selection_target("image/png", encode_png(4000, 3000));
    let (_tmp, mut backend, mut sink) = test_backend(conn);

    let snapshot = backend.read_current(&mut sink).unwrap();

    let thumb = snapshot.representations.iter().find(|r| r.is_preview).unwrap();
    assert!(thumb.width.unwrap() <= 256);
    assert!(thumb.height.unwrap() <= 256);
}

#[test]
fn a_non_square_thumbnail_preserves_the_original_aspect_ratio() {
    let conn = FakeX11Connection::new();
    conn.set_selection_target("image/png", encode_png(4000, 2000));
    let (_tmp, mut backend, mut sink) = test_backend(conn);

    let snapshot = backend.read_current(&mut sink).unwrap();

    let thumb = snapshot.representations.iter().find(|r| r.is_preview).unwrap();
    let ratio = thumb.width.unwrap() as f64 / thumb.height.unwrap() as f64;
    assert!((ratio - 2.0).abs() < 0.05, "expected ~2:1 ratio, got {ratio}");
}

#[test]
fn a_captured_image_is_stored_under_its_content_hash() {
    let conn = FakeX11Connection::new();
    let png = encode_png(40, 30);
    conn.set_selection_target("image/png", png.clone());
    let mut backend = X11Backend::new(conn, "/blobs");
    let mut sink = MemorySink { dir: "/blobs".to_string(), ..Default::default() };

    let snapshot = backend.read_current(&mut sink).unwrap();

    let expected_path = format!("/blobs/{}.png", clipdeck::hashing::hash_content(&png));
    let image = snapshot.representations.iter().find(|r| !r.is_preview && r.mime_type == "image/png").unwrap();
    assert_eq!(image.blob_path.as_deref(), Some(expected_path.as_str()));
    assert_eq!((image.width, image.height, image.byte_size), (Some(40), Some(30), png.len() as u64));
    assert_eq!(sink.blobs.borrow().get(&expected_path), Some(&png));
}

#[test]
fn a_thumbnail_write_failure_still_persists_the_full_image_representation() {
    let conn = FakeX11Connection::new();
    conn.set_selection_target("image/png", encode_png(200, 100));
    let mut backend = X11Backend::new(conn, "/blobs");
    let mut sink = MemorySink { dir: "/blobs".to_string(), fail_thumbnails: true, ..Default::default() };

    let snapshot = backend.read_current(&mut sink).unwrap();

    assert!(snapshot.representations.iter().any(|r| !r.is_preview && r.mime_type == "image/png"));
    assert!(!snapshot.representations.iter().any(|r| r.is_preview));
}

#[test]
fn copying_a_new_image_emits_an_event_even_with_no_text_representation() {
    let conn = FakeX11Connection::new();
    conn.set_selection_target("image/png", encode_png(10, 10));
    conn.queue_selection_change();
    let (_tmp, mut backend, mut sink) = test_backend(conn);

    let captured = drain_changes(&mut backend, &mut sink);

    assert_eq!(captured.len(), 1);
}

#[test]
fn an_undecodable_image_target_is_skipped_but_plain_text_is_still_returned() {
    let mut conn = FakeX11Connection::new();
    conn.write_selection("ssh user@host");
    conn.set_selection_target("image/png", b"not a real png".to_vec());
    let (_tmp, mut backend, mut sink) = test_backend(conn);

    let snapshot = backend.read_current(&mut sink).unwrap();

    assert_eq!(snapshot.representations.len(), 1);
    assert_eq!(snapshot.representations[0].mime_type, "text/plain");
    assert_eq!(snapshot.representations[0].text_value.as_deref(), Some("ssh user@host"));
}

#[test]
fn reading_an_empty_clipboard_returns_an_empty_snapshot() {
    let conn = FakeX11Connection::new();
    let (_tmp, mut backend, mut sink) = test_backend(conn);
    let snapshot = backend.read_current(&mut sink).unwrap();
    assert!(snapshot.is_empty());
}

#[test]
fn mod_written_content_is_observable_on_next_read() {
    let mut conn = FakeX11Connection::new();
    let (_tmp, mut backend, mut sink) = test_backend(conn);
    backend.set_current("paste me").unwrap();
    let snapshot = backend.read_current(&mut sink).unwrap();
    assert_eq!(snapshot.representations[0].text_value.as_deref(), Some("paste me"));
}

#[test]
fn mod_copying_new_content_emits_one_event() {
    let mut conn = FakeX11Connection::new();
    conn.write_selection("first copy");
    conn.queue_selection_change();
    let (_tmp, mut backend, mut sink) = test_backend(conn);

    let captured = drain_changes(&mut backend, &mut sink);

    assert_eq!(captured.len(), 1);
    assert_eq!(captured[0].representations[0].text_value.as_deref(), Some("first copy"));
}

#[test]
fn mod_an_unchanged_content_notification_does_not_emit_a_duplicate_event() {
    let mut conn = FakeX11Connection::new();
    conn.write_selection("same text");
    conn.queue_selection_change();
    conn.queue_selection_change();
    let (_tmp, mut backend, mut sink) = test_backend(conn);

    let captured = drain_changes(&mut backend, &mut sink);

    assert_eq!(captured.len(), 1);
}

#[test]
fn new_content_after_a_capture_is_reported_again() {
    let mut conn = FakeX11Connection::new();
    conn.write_selection("one");
    conn.queue_selection_change();
    let (_tmp, mut backend, mut sink) = test_backend(conn);
    assert_eq!(drain_changes(&mut backend, &mut sink).len(), 1);
    backend.conn.write_selection("two");
    backend.conn.queue_selection_change();
    let captured = drain_changes(&mut backend, &mut sink);
    assert_eq!(captured.len(), 1);
    assert_eq!(captured[0].representations[0].text_value.as_deref(), Some("two"));
}

#[test]
fn x11_capabilities_report_every_baseline_flag_supported() {
    let (_tmp, backend, _sink) = test_backend(FakeX11Connection::new());
    let caps = backend.capabilities();
    assert!(caps.capture);
    assert!(caps.paste_simulation);
    assert!(caps.hotkeys);
    assert!(caps.focus_detection);
}

#[test]
fn the_identity_of_a_text_capture_is_the_hash_of_its_text() {
    let snapshot = clipdeck::clipboard::ClipboardSnapshot {
        representations: vec![ClipRepresentation::new("text/plain", 0).with_text_value("abc")],
    };
    assert_eq!(X11Backend::<FakeX11Connection>::identity_hash(&snapshot), Some(clipdeck::hashing::hash_content(b"abc")));
    assert_eq!(X11Backend::<FakeX11Connection>::identity_hash(&clipdeck::clipboard::ClipboardSnapshot::empty()), None);
}

#[test]
fn a_focused_terminal_window_is_reported_with_its_app_name() {
    let mut conn = FakeX11Connection::new();
    conn.set_focused_window(Some(1));
    conn.set_window_property(1, "WM_CLASS", "gnome-terminal\0Gnome-terminal\0");
    conn.set_window_property(1, "_NET_WM_NAME", "user@host: ~");
    let mut tracker = FocusTracker::new(conn);

    let ctx = tracker.focused_app().unwrap();
    assert_eq!(ctx.app, "gnome-terminal");
    assert_eq!(ctx.window.as_deref(), Some("user@host: ~"));
}

#[test]
fn desktop_focus_reports_no_application_context() {
    let mut conn = FakeX11Connection::new();
    conn.set_focused_window(None);
    let mut tracker = FocusTracker::new(conn);

    assert_eq!(tracker.focused_app(), None);
}

#[test]
fn paste_targets_the_window_focused_before_the_popup_opened() {
    let mut conn = FakeX11Connection::new();
    conn.set_focused_window(Some(1));
    conn.set_window_property(1, "WM_CLASS", "editor");
    let mut tracker = FocusTracker::new(conn);

    let captured = tracker.capture().unwrap();
    assert_eq!(captured.app, "editor");

    tracker.conn.set_focused_window(Some(2));

    let retained = tracker.retained().unwrap();
    assert_eq!(retained.app, "editor");
}

#[test]
fn wm_class_instance_name_is_the_app_name() {
    assert_eq!(app_name_from_wm_class("\0firefox\0Firefox"), "firefox");
    assert_eq!(app_name_from_wm_class("plain"), "plain");
    assert_eq!(app_name_from_wm_class("\0\0"), "\0\0");
}

#[test]
fn copy_to_clipboard_writes_the_given_text_without_synthesizing_any_key() {
    let mut conn = FakeX11Connection::new();
    let mut simulator = PasteSimulator::new(conn);
    let representations = vec![ClipRepresentation::new("text/plain", 0).with_text_value("hello")];

    simulator.copy_to_clipboard(&representations, PasteMode::PlainText);

    let ops = simulator.conn.ops_log();
    assert_eq!(ops, vec![RecordedOp::WriteSelection("hello".to_string())]);
}

fn image_representation(conn: &FakeX11Connection, bytes: &[u8]) -> ClipRepresentation {
    conn.store_blob("/blobs/clip.png", bytes);
    let mut repr = ClipRepresentation::new("image/png", 0);
    repr.blob_path = Some("/blobs/clip.png".to_string());
    repr.byte_size = bytes.len() as u64;
    repr
}

#[test]
fn pasting_an_image_only_clip_writes_its_bytes_to_the_image_target_before_synthesizing_the_key() {
    let mut conn = FakeX11Connection::new();
    let image = image_representation(&conn, b"fake png bytes");
    let mut simulator = PasteSimulator::new(conn);

    simulator.simulate_paste(Some(1), &[image], PasteMode::Auto).unwrap();

    assert_eq!(
        simulator.conn.ops_log(),
        vec![
            RecordedOp::WriteSelectionTarget("image/png".to_string(), b"fake png bytes".to_vec()),
            RecordedOp::SynthesizeKey(1, "ctrl+v".to_string()),
        ]
    );
}

#[test]
fn clipboard_only_mode_writes_image_bytes_for_an_image_only_clip_instead_of_empty_text() {
    let mut conn = FakeX11Connection::new();
    let image = image_representation(&conn, b"fake png bytes");
    let mut simulator = PasteSimulator::clipboard_only(conn);

    simulator.simulate_paste(Some(1), &[image], PasteMode::Auto).unwrap();

    assert_eq!(
        simulator.conn.ops_log(),
        vec![RecordedOp::WriteSelectionTarget("image/png".to_string(), b"fake png bytes".to_vec())]
    );
}

#[test]
fn copy_to_clipboard_with_an_image_only_clip_writes_its_bytes_to_the_image_target() {
    let mut conn = FakeX11Connection::new();
    let image = image_representation(&conn, b"fake png bytes");
    let mut simulator = PasteSimulator::new(conn);

    simulator.copy_to_clipboard(&[image], PasteMode::Auto);

    assert_eq!(
        simulator.conn.ops_log(),
        vec![RecordedOp::WriteSelectionTarget("image/png".to_string(), b"fake png bytes".to_vec())]
    );
}

#[test]
fn a_clip_with_both_text_and_image_representations_still_prefers_pasting_the_text() {
    let mut conn = FakeX11Connection::new();
    let mut image = image_representation(&conn, b"fake png bytes");
    image.ordinal = 1;
    let text = ClipRepresentation::new("text/plain", 0).with_text_value("hello");
    let mut simulator = PasteSimulator::new(conn);

    simulator.simulate_paste(Some(1), &[text, image], PasteMode::Auto).unwrap();

    assert_eq!(simulator.conn.ops_log()[0], RecordedOp::WriteSelection("hello".to_string()));
}

#[test]
fn content_is_placed_on_the_clipboard_before_the_key_combination_is_synthesized() {
    let mut simulator = PasteSimulator::new(FakeX11Connection::new());
    let representations = vec![ClipRepresentation::new("text/plain", 0).with_text_value("hello")];

    simulator.simulate_paste(Some(1), &representations, PasteMode::Auto).unwrap();

    assert_eq!(
        simulator.conn.ops_log(),
        vec![RecordedOp::WriteSelection("hello".to_string()), RecordedOp::SynthesizeKey(1, "ctrl+v".to_string())]
    );
}

#[test]
fn auto_mode_pastes_html_when_both_representations_are_present() {
    let mut simulator = PasteSimulator::new(FakeX11Connection::new());
    let text = ClipRepresentation::new("text/plain", 0).with_text_value("hi");
    let html = ClipRepresentation::new("text/html", 1).with_text_value("<b>hi</b>");

    simulator.simulate_paste(Some(1), &[text, html], PasteMode::Auto).unwrap();

    assert_eq!(simulator.conn.ops_log()[0], RecordedOp::WriteSelection("<b>hi</b>".to_string()));
}

#[test]
fn plain_text_mode_ignores_a_non_plain_text_representation() {
    let mut simulator = PasteSimulator::new(FakeX11Connection::new());
    let mut html = ClipRepresentation::new("text/html", 0).with_text_value("<b>hi</b>");
    html.preview_text = Some("hi".to_string());

    simulator.simulate_paste(Some(1), &[html], PasteMode::PlainText).unwrap();

    assert_eq!(simulator.conn.ops_log()[0], RecordedOp::WriteSelection("hi".to_string()));
}

#[test]
fn plain_text_mode_strips_html_down_to_its_plain_text_rendering_when_both_are_present() {
    let mut simulator = PasteSimulator::new(FakeX11Connection::new());
    let text = ClipRepresentation::new("text/plain", 0).with_text_value("hi");
    let html = ClipRepresentation::new("text/html", 1).with_text_value("<b>hi</b>");

    simulator.simulate_paste(Some(1), &[text, html], PasteMode::PlainText).unwrap();

    assert_eq!(simulator.conn.ops_log()[0], RecordedOp::WriteSelection("hi".to_string()));
}

#[test]
fn no_previously_focused_window_yields_an_error() {
    let mut simulator = PasteSimulator::new(FakeX11Connection::new());
    let representations = vec![ClipRepresentation::new("text/plain", 0).with_text_value("hello")];

    let result = simulator.simulate_paste(None, &representations, PasteMode::Auto);

    assert!(matches!(result, Err(PlatformError::NoFocusedWindow)));
}

#[test]
fn missing_focus_capture_still_errors_when_focus_detection_is_supported() {
    let mut simulator = PasteSimulator::new(FakeX11Connection::new());
    let representations = vec![ClipRepresentation::new("text/plain", 0).with_text_value("hello")];

    let result = simulator.simulate_paste(None, &representations, PasteMode::Auto);

    assert!(matches!(result, Err(PlatformError::NoFocusedWindow)));
}

#[test]
fn missing_focus_capture_degrades_to_clipboard_only_when_focus_detection_is_unsupported() {
    let mut simulator = PasteSimulator::without_focus_detection(FakeX11Connection::new());
    let representations = vec![ClipRepresentation::new("text/plain", 0).with_text_value("hello")];

    simulator.simulate_paste(None, &representations, PasteMode::Auto).unwrap();

    assert_eq!(simulator.conn.ops_log(), vec![RecordedOp::WriteSelection("hello".to_string())]);
}

#[test]
fn paste_to_focused_window_targets_whatever_is_currently_focused() {
    let mut conn = FakeX11Connection::new();
    conn.set_focused_window(Some(7));
    let mut simulator = PasteSimulator::new(conn);
    let representations = vec![ClipRepresentation::new("text/plain", 0).with_text_value("hello")];

    simulator.paste_to_focused_window(&representations, PasteMode::Auto).unwrap();

    assert_eq!(simulator.conn.ops_log()[1], RecordedOp::SynthesizeKey(7, "ctrl+v".to_string()));
}

#[test]
fn clipboard_only_mode_never_synthesizes_a_key_even_with_a_focused_window() {
    let mut conn = FakeX11Connection::new();
    conn.set_focused_window(Some(7));
    let mut simulator = PasteSimulator::clipboard_only(conn);
    let representations = vec![ClipRepresentation::new("text/plain", 0).with_text_value("hello")];

    simulator.simulate_paste(Some(7), &representations, PasteMode::Auto).unwrap();

    assert_eq!(simulator.conn.ops_log(), vec![RecordedOp::WriteSelection("hello".to_string())]);
}

#[test]
fn clipboard_only_mode_still_succeeds_with_no_focused_window() {
    let mut simulator = PasteSimulator::clipboard_only(FakeX11Connection::new());
    let representations = vec![ClipRepresentation::new("text/plain", 0).with_text_value("hello")];

    let result = simulator.simulate_paste(None, &representations, PasteMode::Auto);

    assert!(result.is_ok());
}

#[test]
fn paste_to_focused_window_errors_when_nothing_is_focused() {
    let mut simulator = PasteSimulator::new(FakeX11Connection::new());
    let representations = vec![ClipRepresentation::new("text/plain", 0).with_text_value("hello")];

    let result = simulator.paste_to_focused_window(&representations, PasteMode::Auto);

    assert!(matches!(result, Err(PlatformError::NoFocusedWindow)));
}

#[test]
fn paste_text_resolution_follows_the_mode() {
    let text = ClipRepresentation::new("text/plain", 0).with_text_value("hi");
    let html = ClipRepresentation::new("text/html", 1).with_text_value("<b>hi</b>");
    assert_eq!(resolve_paste_text(&[text.clone(), html.clone()], PasteMode::Auto).as_deref(), Some("<b>hi</b>"));
    assert_eq!(resolve_paste_text(&[text.clone(), html.clone()], PasteMode::Rich).as_deref(), Some("<b>hi</b>"));
    assert_eq!(resolve_paste_text(&[text, html], PasteMode::PlainText).as_deref(), Some("hi"));
    assert_eq!(resolve_paste_text(&[], PasteMode::Auto), None);
}

#[test]
fn every_mode_falls_back_to_the_first_representations_preview_then_its_text() {
    let mut text = ClipRepresentation::new("text/plain", 0).with_text_value("full text");
    text.preview_text = Some("preview".to_string());
    assert_eq!(resolve_paste_text(&[text.clone()], PasteMode::Auto).as_deref(), Some("preview"));
    assert_eq!(resolve_paste_text(&[text.clone()], PasteMode::Rich).as_deref(), Some("preview"));
    assert_eq!(resolve_paste_text(&[text], PasteMode::PlainText).as_deref(), Some("full text"));

    let mut image = ClipRepresentation::new("image/png", 0);
    image.preview_text = Some("[image]".to_string());
    assert_eq!(resolve_paste_text(&[image.clone()], PasteMode::PlainText).as_deref(), Some("[image]"));
    let bare = ClipRepresentation::new("text/html", 0).with_text_value("<i>x</i>");
    assert_eq!(resolve_paste_text(&[bare], PasteMode::PlainText).as_deref(), Some("<i>x</i>"));
}

#[test]
fn an_x11_daemon_backend_under_wayland_only_places_content_on_the_clipboard() {
    let focus = FakeX11Connection::new();
    let paste = FakeX11Connection::new();
    paste.set_focused_window(Some(3));
    let mut backend = X11DaemonBackend::new(FakeX11Connection::new(), focus, paste, "/tmp/blobs", true);
    let representations = vec![ClipRepresentation::new("text/plain", 0).with_text_value("hello")];

    backend.simulate_paste(&representations, PasteMode::Auto).unwrap();

    assert_eq!(backend.paste.conn.ops_log(), vec![RecordedOp::WriteSelection("hello".to_string())]);
}

#[test]
fn an_x11_daemon_backend_on_x11_pastes_with_a_key_press() {
    let paste = FakeX11Connection::new();
    paste.set_focused_window(Some(3));
    let mut backend =
        X11DaemonBackend::new(FakeX11Connection::new(), FakeX11Connection::new(), paste, "/tmp/blobs", false);
    let representations = vec![ClipRepresentation::new("text/plain", 0).with_text_value("hello")];

    backend.simulate_paste(&representations, PasteMode::Auto).unwrap();
    backend.copy_to_clipboard(&representations).unwrap();

    assert_eq!(
        backend.paste.conn.ops_log(),
        vec![
            RecordedOp::WriteSelection("hello".to_string()),
            RecordedOp::SynthesizeKey(3, "ctrl+v".to_string()),
            RecordedOp::WriteSelection("hello".to_string()),
        ]
    );
    assert!(backend.capabilities().hotkeys);
}

#[test]
fn binding_tokens_name_modifier_keysyms_in_any_case() {
    assert_eq!(keysym_of_token("Ctrl"), Some(0xffe3));
    assert_eq!(keysym_of_token("control"), Some(0xffe3));
    assert_eq!(keysym_of_token("SHIFT"), Some(0xffe1));
    assert_eq!(keysym_of_token("alt"), Some(0xffe9));
    assert_eq!(keysym_of_token("super"), Some(0xffeb));
    assert_eq!(keysym_of_token("Meta"), Some(0xffeb));
    assert_eq!(keysym_of_token("V"), Some('v' as u32));
    assert_eq!(keysym_of_token("é"), None);
    assert_eq!(keysym_of_token("f1"), None);
    assert_eq!(keysym_of_token(""), None);
}

fn sample_mapping() -> Vec<u32> {
    // Two keysyms per keycode, starting at keycode 8.
    vec![0x61, 0x41, 0x76, 0x56, 0xffe3, 0, 0x62, 0x76]
}

#[test]
fn a_keysym_maps_to_the_first_keycode_whose_row_holds_it() {
    let mapping = sample_mapping();
    assert!(mapping_fits_len(mapping.len(), 2, 8));
    assert_eq!(keycode_for_keysym(&mapping, 2, 8, 0x61), Some(8));
    assert_eq!(keycode_for_keysym(&mapping, 2, 8, 0x56), Some(9));
    assert_eq!(keycode_for_keysym(&mapping, 2, 8, 0x76), Some(9));
    assert_eq!(keycode_for_keysym(&mapping, 2, 8, 0xffe3), Some(10));
    assert_eq!(keycode_for_keysym(&mapping, 2, 8, 0x78), None);
}

#[test]
fn a_mapping_beyond_the_keycode_range_does_not_fit() {
    assert!(mapping_fits_len(248 * 2, 2, 8));
    assert!(!mapping_fits_len(248 * 2 + 1, 2, 8));
    assert!(!mapping_fits_len(4, 0, 8));
}

#[test]
fn a_binding_becomes_its_keycodes_in_token_order() {
    let mapping = sample_mapping();
    assert_eq!(binding_keycodes("ctrl+v", &mapping, 2, 8), Ok(vec![10, 9]));
    assert_eq!(binding_keycodes("Ctrl+Shift+A", &mapping, 2, 8), Err(KeymapError::Unmapped(0xffe1)));
}

#[test]
fn an_unknown_binding_token_is_reported_in_lower_case() {
    let mapping = sample_mapping();
    let err = binding_keycodes("ctrl+F1", &mapping, 2, 8).unwrap_err();
    assert_eq!(err, KeymapError::UnrecognizedToken("f1".to_string()));
    assert_eq!(err.message(), "unrecognized key token 'f1'");
}

#[test]
fn an_unmapped_keysym_is_reported_in_hex() {
    let mapping = sample_mapping();
    let err = binding_keycodes("ctrl+x", &mapping, 2, 8).unwrap_err();
    assert_eq!(err, KeymapError::Unmapped(0x78));
    assert_eq!(err.message(), "no keycode mapped for keysym 0x78");
    assert_eq!(KeymapError::Unmapped(0xffe1).message(), "no keycode mapped for keysym 0xffe1");
}

#[test]
fn a_targets_request_lists_text_targets_and_the_owned_image() {
    let (property, answer) = answer_selection_request(5, 40, 7, 5, Some(9));
    assert_eq!(property, 40);
    assert_eq!(answer, SelectionAnswer::Targets(vec![7, 5, 9]));
    let (_, answer) = answer_selection_request(5, 40, 7, 5, None);
    assert_eq!(answer, SelectionAnswer::Targets(vec![7, 5]));
}

#[test]
fn text_and_image_requests_are_answered_and_others_are_not() {
    assert_eq!(answer_selection_request(7, 40, 7, 5, Some(9)), (40, SelectionAnswer::Text));
    assert_eq!(answer_selection_request(9, 40, 7, 5, Some(9)), (40, SelectionAnswer::Image));
    assert_eq!(answer_selection_request(9, 40, 7, 5, None), (40, SelectionAnswer::Nothing));
    assert_eq!(answer_selection_request(11, 40, 7, 5, Some(9)), (40, SelectionAnswer::Nothing));
}

#[test]
fn a_request_naming_no_property_is_answered_in_the_target_property() {
    assert_eq!(answer_selection_request(7, 0, 7, 5, None), (7, SelectionAnswer::Text));
}

#[test]
fn a_paste_without_a_target_writes_nothing_to_the_clipboard() {
    let mut simulator = PasteSimulator::new(FakeX11Connection::new());
    let representations = vec![ClipRepresentation::new("text/plain", 0).with_text_value("hello")];

    let result = simulator.simulate_paste(None, &representations, PasteMode::Auto);

    assert!(matches!(result, Err(PlatformError::NoFocusedWindow)));
    assert!(simulator.conn.ops_log().is_empty());
}

#[test]
fn the_paste_key_follows_the_write_at_the_target_window() {
    let mut simulator = PasteSimulator::new(FakeX11Connection::new());
    let representations = vec![ClipRepresentation::new("text/plain", 0).with_text_value("hello")];

    let result = simulator.simulate_paste(Some(3), &representations, PasteMode::Auto);

    assert!(result.is_ok());
    assert_eq!(
        simulator.conn.ops_log(),
        vec![RecordedOp::WriteSelection("hello".to_string()), RecordedOp::SynthesizeKey(3, "ctrl+v".to_string())]
    );
}
