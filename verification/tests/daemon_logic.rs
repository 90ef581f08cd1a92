use std::cell::{Cell, RefCell};
use std::collections::BTreeMap;

use clipdeck::auth::{uid_allowed, CurrentUidCheck, PeerCredentialCheck};
use clipdeck::client::{connect_error, ClientError, ConnectErrorKind};
use clipdeck::clipboard::{BackendCapabilities, ClipboardSnapshot, PlatformError};
use clipdeck::commands::{
    deletions_announced, is_wayland_session, on_hotkey_press, register_persisted_hotkey, retention_pass, to_store_scope,
    CommandHandler, CommandOutput, HotkeyRegistration, WatchLoop,
};
use clipdeck::config::AppSettings;
use clipdeck::errors::CoreError;
use clipdeck::fts::{search as fts_search, ClipIndex};
use clipdeck::hotkeys::{HotkeyBackend, HotkeyBinding, HotkeyError};
use clipdeck::ingest::{ingest, is_excluded, normalize_representations, total_byte_size, IngestError};
use clipdeck::json::JsonValue;
use clipdeck::models::{AppContext, Clip, ClipRepresentation, Group, PasteMode, Rule, RuleAction};
use clipdeck::paste::resolve_paste_text;
use clipdeck::protocol::{ClearScope, Command, Event, Request, Response};
use clipdeck::retention::{clear_removes, prune_cutoff, ClearScope as StoreClearScope, NANOS_PER_DAY};
use clipdeck::search::SearchFilters;
use clipdeck::server::{classify_line, line_too_long_response, response_for, LineVerdict, MAX_LINE_LEN};
use clipdeck::services::{Backend, EventPublisher, Store};
use clipdeck::store::StoreError;
use clipdeck::ui::{clear_history_command, handle_quit, pause_menu_label, pause_toggle_command, response_outcome, sanitize_html, TrayState};

fn now_nanos() -> i128 {
    std::time::SystemTime::now().duration_since(std::time::UNIX_EPOCH).unwrap().as_nanos() as i128
}

#[derive(Default)]
struct FakeStore {
    clips: RefCell<BTreeMap<String, Clip>>,
    rules: RefCell<BTreeMap<String, Rule>>,
    groups: RefCell<Vec<Group>>,
    settings: RefCell<AppSettings>,
    prune_calls: Cell<usize>,
    fail_next_prune: Cell<bool>,
    fail_settings: Cell<bool>,
}

impl FakeStore {
    fn new() -> Self {
        Self::default()
    }

    fn seed_group(&self, group: Group) {
        self.groups.borrow_mut().push(group);
    }
}

impl Store for FakeStore {
    fn insert_clip(&mut self, clip: &Clip) -> Result<(), StoreError> {
        let mut clips = self.clips.borrow_mut();
        let dedup_key = clip.dedup_key();
        if clips.values().any(|c| !c.is_deleted && c.dedup_key() == dedup_key) {
            return Err(StoreError::DedupConflict);
        }
        clips.insert(clip.id.clone(), clip.clone());
        Ok(())
    }

    fn get_clip(&mut self, id: &str) -> Result<Option<Clip>, StoreError> {
        Ok(self.clips.borrow().get(id).cloned())
    }

    fn find_active_by_hash(&mut self, content_hash: &str, primary_mime: &str) -> Result<Option<Clip>, StoreError> {
        Ok(self
            .clips
            .borrow()
            .values()
            .find(|c| !c.is_deleted && c.content_hash == content_hash && c.primary_mime == primary_mime)
            .cloned())
    }

    fn touch_last_used(&mut self, id: &str) -> Result<(), StoreError> {
        if let Some(clip) = self.clips.borrow_mut().get_mut(id) {
            clip.last_used_at = Some(now_nanos());
        }
        Ok(())
    }

    fn search(&mut self, query: &str, filters: &SearchFilters) -> Result<Vec<Clip>, StoreError> {
        let clips = self.clips.borrow();
        let mut results: Vec<Clip> = clips
            .values()
            .filter(|c| !c.is_deleted)
            .filter(|c| query.is_empty() || c.display_text.as_deref().unwrap_or("").contains(query))
            .filter(|c| !filters.pinned_only || c.is_pinned)
            .filter(|c| !filters.favorite_only || c.is_favorite)
            .filter(|c| filters.source_app.is_none() || c.source_app == filters.source_app)
            .cloned()
            .collect();
        results.sort_by_key(|c| std::cmp::Reverse(c.created_at));
        Ok(results)
    }

    fn set_pinned(&mut self, id: &str, pinned: bool) -> Result<(), StoreError> {
        if let Some(clip) = self.clips.borrow_mut().get_mut(id) {
            clip.is_pinned = pinned;
        }
        Ok(())
    }

    fn set_group(&mut self, id: &str, group_id: Option<&str>) -> Result<(), StoreError> {
        if let Some(clip) = self.clips.borrow_mut().get_mut(id) {
            clip.group_id = group_id.map(|g| g.to_string());
        }
        Ok(())
    }

    fn delete_clip(&mut self, id: &str) -> Result<(), StoreError> {
        if let Some(clip) = self.clips.borrow_mut().get_mut(id) {
            clip.is_deleted = true;
        }
        Ok(())
    }

    fn clear_history(&mut self, scope: StoreClearScope) -> Result<Vec<String>, StoreError> {
        let mut clips = self.clips.borrow_mut();
        let ids: Vec<String> = clips
            .values()
            .filter(|c| !c.is_deleted)
            .filter(|c| scope == StoreClearScope::All || !c.is_pinned)
            .map(|c| c.id.clone())
            .collect();
        for id in &ids {
            clips.get_mut(id).unwrap().is_deleted = true;
        }
        Ok(ids)
    }

    fn list_enabled_rules(&mut self) -> Result<Vec<Rule>, StoreError> {
        Ok(self.rules.borrow().values().filter(|r| r.enabled).cloned().collect())
    }

    fn list_rules(&mut self) -> Result<Vec<Rule>, StoreError> {
        Ok(self.rules.borrow().values().cloned().collect())
    }

    fn list_groups(&mut self) -> Result<Vec<Group>, StoreError> {
        Ok(self.groups.borrow().clone())
    }

    fn save_rule(&mut self, rule: &Rule) -> Result<(), StoreError> {
        self.rules.borrow_mut().insert(rule.id.clone(), rule.clone());
        Ok(())
    }

    fn delete_rule(&mut self, id: &str) -> Result<(), StoreError> {
        self.rules.borrow_mut().remove(id);
        Ok(())
    }

    fn get_settings(&mut self) -> Result<AppSettings, StoreError> {
        if self.fail_settings.get() {
            return Err(StoreError::Sqlite("disk I/O error".to_string()));
        }
        Ok(self.settings.borrow().clone())
    }

    fn update_settings(&mut self, settings: &AppSettings) -> Result<(), StoreError> {
        *self.settings.borrow_mut() = settings.clone();
        Ok(())
    }

    fn prune(&mut self, retention_days: Option<u32>) -> Result<usize, StoreError> {
        self.prune_calls.set(self.prune_calls.get() + 1);
        if self.fail_next_prune.replace(false) {
            return Err(StoreError::NotFound);
        }
        let Some(days) = retention_days else {
            return Ok(0);
        };
        let cutoff = now_nanos() - days as i128 * 86_400_000_000_000;
        let mut clips = self.clips.borrow_mut();
        let to_remove: Vec<String> =
            clips.values().filter(|c| !c.is_pinned && c.created_at < cutoff).map(|c| c.id.clone()).collect();
        for id in &to_remove {
            clips.remove(id);
        }
        Ok(to_remove.len())
    }
}

#[derive(Default)]
struct FakeBackend {
    focused_app: RefCell<Option<AppContext>>,
    fail_paste: Cell<bool>,
    capabilities: Cell<BackendCapabilities>,
    copied_text: RefCell<Option<String>>,
}

impl FakeBackend {
    fn new() -> Self {
        Self::default()
    }
}

impl Backend for FakeBackend {
    fn focused_app(&mut self) -> Option<AppContext> {
        self.focused_app.borrow().clone()
    }

    fn simulate_paste(&mut self, _representations: &[ClipRepresentation], _mode: PasteMode) -> Result<(), PlatformError> {
        if self.fail_paste.get() {
            Err(PlatformError::NoFocusedWindow)
        } else {
            Ok(())
        }
    }

    fn copy_to_clipboard(&mut self, representations: &[ClipRepresentation]) -> Result<(), PlatformError> {
        let text = resolve_paste_text(representations, PasteMode::PlainText).unwrap_or_default();
        *self.copied_text.borrow_mut() = Some(text);
        Ok(())
    }

    fn capabilities(&mut self) -> BackendCapabilities {
        self.capabilities.get()
    }
}

#[derive(Default)]
struct FakeEventPublisher {
    events: RefCell<Vec<Event>>,
}

impl FakeEventPublisher {
    fn new() -> Self {
        Self::default()
    }

    fn events(&self) -> Vec<Event> {
        self.events.borrow().clone()
    }
}

impl EventPublisher for FakeEventPublisher {
    fn publish(&mut self, event: Event) {
        self.events.borrow_mut().push(event);
    }
}

fn snapshot_with(mime: &str, text: &str) -> ClipboardSnapshot {
    ClipboardSnapshot {
        representations: vec![ClipRepresentation::new(mime, 0).with_text_value(text).with_byte_size(text.len() as u64)],
    }
}

#[test]
fn mixed_case_mime_type_is_normalized_before_storage() {
    let mut store = FakeStore::new();
    let mut events = FakeEventPublisher::new();

    ingest(&mut store, &mut events, snapshot_with("TEXT/PLAIN", "hello"), None).unwrap();

    let clips = store.search("", &Default::default()).unwrap();
    assert_eq!(clips.len(), 1);
    assert_eq!(clips[0].primary_mime, "text/plain");
    assert_eq!(clips[0].representations[0].mime_type, "text/plain");
}

#[test]
fn excluded_apps_copy_is_not_persisted() {
    let mut store = FakeStore::new();
    let mut events = FakeEventPublisher::new();
    store.save_rule(&Rule::new("r1", "1Password", None, None, RuleAction::Exclude)).unwrap();

    ingest(&mut store, &mut events, snapshot_with("text/plain", "secret"), Some(AppContext::new("1Password"))).unwrap();

    assert!(store.search("", &Default::default()).unwrap().is_empty());
    assert!(events.events().is_empty());
}

#[test]
fn non_matching_apps_copy_persists_normally() {
    let mut store = FakeStore::new();
    let mut events = FakeEventPublisher::new();
    store.save_rule(&Rule::new("r1", "1Password", None, None, RuleAction::Exclude)).unwrap();

    ingest(&mut store, &mut events, snapshot_with("text/plain", "ssh cmd"), Some(AppContext::new("gnome-terminal"))).unwrap();

    assert_eq!(store.search("", &Default::default()).unwrap().len(), 1);
}

#[test]
fn recopying_identical_content_updates_last_used_at_instead_of_erroring() {
    let mut store = FakeStore::new();
    let mut events = FakeEventPublisher::new();

    ingest(&mut store, &mut events, snapshot_with("text/plain", "same"), None).unwrap();
    let first = store.search("", &Default::default()).unwrap();
    assert_eq!(first.len(), 1);
    assert!(first[0].last_used_at.is_none());

    let result = ingest(&mut store, &mut events, snapshot_with("text/plain", "same"), None);

    assert!(result.is_ok());
    let after = store.search("", &Default::default()).unwrap();
    assert_eq!(after.len(), 1, "no duplicate clip should be created");
    assert!(after[0].last_used_at.is_some());
}

#[test]
fn a_captured_clip_gets_a_random_uuid_as_its_id() {
    let mut store = FakeStore::new();
    let mut events = FakeEventPublisher::new();
    ingest(&mut store, &mut events, snapshot_with("text/plain", "fresh"), None).unwrap();
    let id = store.search("", &Default::default()).unwrap()[0].id.clone();
    let chars: Vec<char> = id.chars().collect();
    assert_eq!(chars.len(), 36);
    for (i, c) in chars.iter().enumerate() {
        if [8, 13, 18, 23].contains(&i) {
            assert_eq!(*c, '-');
        } else {
            assert!(c.is_ascii_hexdigit() && !c.is_ascii_uppercase());
        }
    }
    assert_eq!(chars[14], '4');
    assert!(['8', '9', 'a', 'b'].contains(&chars[19]));
}

#[test]
fn a_duplicate_capture_is_not_announced_again() {
    let mut store = FakeStore::new();
    let mut events = FakeEventPublisher::new();

    let first = ingest(&mut store, &mut events, snapshot_with("text/plain", "twice"), None);
    assert!(first.is_ok());
    assert_eq!(events.events().len(), 1);

    let second = ingest(&mut store, &mut events, snapshot_with("text/plain", "twice"), None);
    assert!(second.is_ok());
    assert_eq!(events.events().len(), 1);
    assert!(store.search("", &Default::default()).unwrap()[0].last_used_at.is_some());
}

#[test]
fn plain_text_and_html_from_one_copy_become_one_clip() {
    let mut store = FakeStore::new();
    let mut events = FakeEventPublisher::new();
    let snapshot = ClipboardSnapshot {
        representations: vec![
            ClipRepresentation::new("text/plain", 0).with_text_value("hi"),
            ClipRepresentation::new("text/html", 1).with_text_value("<b>hi</b>"),
        ],
    };

    ingest(&mut store, &mut events, snapshot, None).unwrap();

    let clips = store.search("", &Default::default()).unwrap();
    assert_eq!(clips.len(), 1);
    assert_eq!(clips[0].representations.len(), 2);
}

#[test]
fn persisting_a_new_clip_publishes_clip_captured() {
    let mut store = FakeStore::new();
    let mut events = FakeEventPublisher::new();

    ingest(&mut store, &mut events, snapshot_with("text/plain", "new content"), None).unwrap();

    let clip_id = store.search("", &Default::default()).unwrap()[0].id.clone();
    assert_eq!(events.events(), vec![Event::ClipCaptured { clip_id }]);
}

#[test]
fn an_ingested_clip_carries_its_hash_size_and_source() {
    let mut store = FakeStore::new();
    let mut events = FakeEventPublisher::new();
    let snapshot = ClipboardSnapshot {
        representations: vec![
            ClipRepresentation::new("text/plain", 5).with_text_value("hi").with_byte_size(2),
            ClipRepresentation::new("Text/HTML; charset=utf-8", 9).with_text_value("<b>hi</b>").with_byte_size(9),
        ],
    };

    ingest(&mut store, &mut events, snapshot, Some(AppContext::with_window("editor", "notes.txt"))).unwrap();

    let clip = &store.search("", &Default::default()).unwrap()[0];
    assert_eq!(clip.content_hash, clipdeck::hashing::hash_content(b"hi"));
    assert_eq!(clip.byte_size, 11);
    assert_eq!(clip.display_text.as_deref(), Some("hi"));
    assert_eq!(clip.source_app.as_deref(), Some("editor"));
    assert_eq!(clip.source_window.as_deref(), Some("notes.txt"));
    assert_eq!(clip.representations[0].ordinal, 0);
    assert_eq!(clip.representations[1].ordinal, 1);
    assert_eq!(clip.representations[1].mime_type, "text/html");
    assert_eq!(clip.id.len(), 36);
}

#[test]
fn an_empty_capture_is_ignored() {
    let mut store = FakeStore::new();
    let mut events = FakeEventPublisher::new();
    assert!(ingest(&mut store, &mut events, ClipboardSnapshot::empty(), None).is_ok());
    assert!(store.search("", &Default::default()).unwrap().is_empty());
}

#[test]
fn an_invalid_mime_type_fails_ingest_naming_it() {
    let mut store = FakeStore::new();
    let mut events = FakeEventPublisher::new();
    let result = ingest(&mut store, &mut events, snapshot_with("not-a-mime-type", "bad"), None);
    assert_eq!(result, Err(IngestError::Core(CoreError::InvalidMime("not-a-mime-type".to_string()))));
    assert_eq!(result.unwrap_err().message(), "invalid MIME type: not-a-mime-type");
}

#[test]
fn normalization_renumbers_and_lowercases() {
    let reps = vec![
        ClipRepresentation::new("TEXT/plain", 7).with_text_value("a"),
        ClipRepresentation::new("image/PNG", 7),
    ];
    let out = normalize_representations(&reps).unwrap();
    assert_eq!(out[0].mime_type, "text/plain");
    assert_eq!(out[1].mime_type, "image/png");
    assert_eq!((out[0].ordinal, out[1].ordinal), (0, 1));
    assert_eq!(out[0].text_value.as_deref(), Some("a"));
}

#[test]
fn an_exclusion_rule_on_any_representation_excludes_the_capture() {
    let reps = vec![ClipRepresentation::new("text/plain", 0), ClipRepresentation::new("text/html", 1)];
    let html_only = Rule::new("r", "app", None, Some("text/html".to_string()), RuleAction::Exclude);
    let ephemeral = Rule::new("e", "app", None, None, RuleAction::Ephemeral);
    let ctx = Some(AppContext::new("app"));
    assert!(is_excluded(&reps, &vec![html_only.clone()], &ctx));
    assert!(!is_excluded(&reps, &vec![ephemeral], &ctx));
    assert!(!is_excluded(&reps, &vec![html_only], &None));
}

#[test]
fn total_byte_size_detects_overflow() {
    let a = ClipRepresentation::new("text/plain", 0).with_byte_size(u64::MAX);
    let b = ClipRepresentation::new("text/plain", 1).with_byte_size(1);
    assert_eq!(total_byte_size(&vec![a.clone()]), Some(u64::MAX));
    assert_eq!(total_byte_size(&vec![a, b]), None);
    assert_eq!(total_byte_size(&vec![]), Some(0));
}

fn handler() -> CommandHandler<FakeStore, FakeBackend, FakeEventPublisher> {
    CommandHandler::new(FakeStore::new(), FakeBackend::new(), FakeEventPublisher::new(), WatchLoop::new(), "x11")
}

fn clip_with_text(id: &str, text: &str) -> Clip {
    let mut clip = Clip::new(id, &format!("hash-{id}"), "text/plain", vec![]);
    clip.display_text = Some(text.to_string());
    clip
}

#[test]
fn search_clips_reflects_a_just_ingested_clip() {
    let mut handler = handler();
    handler.store.insert_clip(&clip_with_text("c1", "deploy staging")).unwrap();

    let response = handler
        .handle(Command::SearchClips { query: "deploy".to_string(), filters: Default::default(), limit: 20, offset: 0 })
        .unwrap();

    let CommandOutput::Clips(clips) = response else { panic!("expected clips") };
    assert_eq!(clips.len(), 1);
    assert_eq!(clips[0].id, "c1");
}

#[test]
fn get_clip_does_not_mutate_last_used_at() {
    let mut handler = handler();
    handler.store.insert_clip(&clip_with_text("c1", "hello")).unwrap();

    handler.handle(Command::GetClip { id: "c1".to_string() }).unwrap();

    assert!(handler.store.get_clip("c1").unwrap().unwrap().last_used_at.is_none());
}

#[test]
fn successful_paste_updates_last_used_at() {
    let mut handler = handler();
    handler.store.insert_clip(&clip_with_text("c1", "hello")).unwrap();

    let response = handler.handle(Command::PasteClip { id: "c1".to_string(), mode: PasteMode::Auto }).unwrap();

    assert_eq!(response, CommandOutput::Ack);
    assert!(handler.store.get_clip("c1").unwrap().unwrap().last_used_at.is_some());
}

#[test]
fn failed_paste_does_not_update_last_used_at_and_returns_an_error() {
    let mut handler = handler();
    handler.store.insert_clip(&clip_with_text("c1", "hello")).unwrap();
    handler.backend.fail_paste.set(true);

    let result = handler.handle(Command::PasteClip { id: "c1".to_string(), mode: PasteMode::Auto });

    assert_eq!(result, Err("no previously focused window is available to target".to_string()));
    assert!(handler.store.get_clip("c1").unwrap().unwrap().last_used_at.is_none());
}

#[test]
fn pasting_a_missing_clip_reports_it_not_found() {
    let mut handler = handler();
    assert_eq!(
        handler.handle(Command::PasteClip { id: "nope".to_string(), mode: PasteMode::Auto }),
        Err("clip not found".to_string())
    );
    assert_eq!(handler.handle(Command::CopyClip { id: "nope".to_string() }), Err("clip not found".to_string()));
}

#[test]
fn copy_clip_places_its_plain_text_on_the_clipboard() {
    let mut handler = handler();
    let mut clip = clip_with_text("c1", "hello");
    clip.representations = vec![ClipRepresentation::new("text/plain", 0).with_text_value("hello")];
    handler.store.insert_clip(&clip).unwrap();

    assert_eq!(handler.handle(Command::CopyClip { id: "c1".to_string() }), Ok(CommandOutput::Ack));
    assert_eq!(handler.backend.copied_text.borrow().as_deref(), Some("hello"));
    assert!(handler.store.get_clip("c1").unwrap().unwrap().last_used_at.is_none());
}

#[test]
fn pin_clip_publishes_clip_updated() {
    let mut handler = handler();
    handler.store.insert_clip(&clip_with_text("c1", "hello")).unwrap();

    handler.handle(Command::PinClip { id: "c1".to_string(), pinned: true }).unwrap();

    assert!(handler.store.get_clip("c1").unwrap().unwrap().is_pinned);
    assert_eq!(handler.events.events(), vec![Event::ClipUpdated { clip_id: "c1".to_string() }]);
}

#[test]
fn delete_clip_publishes_clip_deleted() {
    let mut handler = handler();
    handler.store.insert_clip(&clip_with_text("c1", "hello")).unwrap();

    handler.handle(Command::DeleteClip { id: "c1".to_string() }).unwrap();

    assert!(handler.store.get_clip("c1").unwrap().unwrap().is_deleted);
    assert_eq!(handler.events.events(), vec![Event::ClipDeleted { clip_id: "c1".to_string() }]);
}

#[test]
fn assign_group_publishes_clip_updated() {
    let mut handler = handler();
    handler.store.insert_clip(&clip_with_text("c1", "hello")).unwrap();

    handler.handle(Command::AssignGroup { id: "c1".to_string(), group_id: Some("g1".to_string()) }).unwrap();

    assert_eq!(handler.store.get_clip("c1").unwrap().unwrap().group_id, Some("g1".to_string()));
    assert_eq!(handler.events.events(), vec![Event::ClipUpdated { clip_id: "c1".to_string() }]);
}

#[test]
fn clear_history_excluding_pinned_leaves_pinned_clip_and_its_event_unpublished() {
    let mut handler = handler();
    let mut pinned = clip_with_text("pinned", "keep");
    pinned.is_pinned = true;
    handler.store.insert_clip(&pinned).unwrap();
    handler.store.insert_clip(&clip_with_text("unpinned", "drop")).unwrap();

    handler.handle(Command::ClearHistory { scope: ClearScope::ExcludingPinned }).unwrap();

    assert!(!handler.store.get_clip("pinned").unwrap().unwrap().is_deleted);
    assert!(handler.store.get_clip("unpinned").unwrap().unwrap().is_deleted);
    assert_eq!(handler.events.events(), vec![Event::ClipDeleted { clip_id: "unpinned".to_string() }]);
}

#[test]
fn clearing_announces_each_removed_clip_in_order() {
    let removed = vec!["a".to_string(), "b".to_string()];
    assert_eq!(
        deletions_announced(removed),
        vec![Event::ClipDeleted { clip_id: "a".to_string() }, Event::ClipDeleted { clip_id: "b".to_string() }]
    );
    assert_eq!(to_store_scope(ClearScope::All), StoreClearScope::All);
    assert_eq!(to_store_scope(ClearScope::ExcludingPinned), StoreClearScope::ExcludingPinned);
}

#[test]
fn a_newly_saved_exclusion_rule_applies_to_the_next_capture() {
    let mut handler = handler();

    handler.handle(Command::SaveRule { rule: Rule::new("r1", "1Password", None, None, RuleAction::Exclude) }).unwrap();

    let mut events = FakeEventPublisher::new();
    ingest(
        &mut handler.store,
        &mut events,
        ClipboardSnapshot { representations: vec![ClipRepresentation::new("text/plain", 0).with_text_value("secret")] },
        Some(AppContext::new("1Password")),
    )
    .unwrap();

    assert!(handler.store.search("", &Default::default()).unwrap().is_empty());
}

#[test]
fn delete_rule_removes_it_from_enabled_rules() {
    let mut handler = handler();
    handler.handle(Command::SaveRule { rule: Rule::new("r1", "1Password", None, None, RuleAction::Exclude) }).unwrap();

    handler.handle(Command::DeleteRule { id: "r1".to_string() }).unwrap();

    assert!(handler.store.list_enabled_rules().unwrap().is_empty());
}

#[test]
fn pause_capture_publishes_capture_paused_and_stops_the_watch_loop() {
    let mut handler = handler();

    handler.handle(Command::PauseCapture { paused: true }).unwrap();

    assert!(handler.watch_loop.is_paused());
    assert_eq!(handler.events.events(), vec![Event::CapturePaused { paused: true }]);
}

#[test]
fn trigger_hotkey_announces_the_press() {
    let mut handler = handler();
    assert_eq!(handler.handle(Command::TriggerHotkey), Ok(CommandOutput::Ack));
    assert_eq!(handler.events.events(), vec![Event::HotkeyPressed]);
}

#[test]
fn update_settings_then_get_settings_round_trips() {
    let mut handler = handler();
    let settings = AppSettings { retention_window_days: Some(45), ..AppSettings::default() };

    handler.handle(Command::UpdateSettings { settings: settings.clone() }).unwrap();
    let response = handler.handle(Command::GetSettings).unwrap();

    let CommandOutput::Settings(fetched) = response else { panic!("expected settings") };
    assert_eq!(fetched.retention_window_days, Some(45));
}

#[test]
fn update_settings_persists_a_valid_hotkey_binding() {
    let mut handler = handler();
    let settings = AppSettings { hotkey_binding: "Ctrl+Shift+V".to_string(), ..AppSettings::default() };

    handler.handle(Command::UpdateSettings { settings }).unwrap();

    let CommandOutput::Settings(fetched) = handler.handle(Command::GetSettings).unwrap() else { panic!() };
    assert_eq!(fetched.hotkey_binding, "Ctrl+Shift+V");
}

#[test]
fn update_settings_rejects_an_invalid_hotkey_binding_without_persisting_it() {
    let mut handler = handler();
    let settings = AppSettings { hotkey_binding: "NotAKey+++".to_string(), ..AppSettings::default() };

    let result = handler.handle(Command::UpdateSettings { settings });

    assert_eq!(result, Err("invalid hotkey binding: 'NotAKey+++'".to_string()));
    let CommandOutput::Settings(fetched) = handler.handle(Command::GetSettings).unwrap() else { panic!() };
    assert_eq!(fetched.hotkey_binding, AppSettings::default().hotkey_binding);
}

#[test]
fn get_diagnostics_mirrors_the_fake_backends_capabilities() {
    let mut handler = handler();
    handler.backend.capabilities.set(BackendCapabilities { paste_simulation: true, hotkeys: false, ..Default::default() });

    let response = handler.handle(Command::GetDiagnostics).unwrap();

    let CommandOutput::Diagnostics { backend, capabilities } = response else { panic!("expected diagnostics") };
    assert_eq!(backend, "x11");
    assert!(capabilities.paste_simulation);
    assert!(!capabilities.hotkeys);
}

#[test]
fn list_groups_returns_seeded_groups() {
    let mut handler = handler();
    handler.store.seed_group(Group::new("g1", "Work", None).unwrap());

    let CommandOutput::Groups(groups) = handler.handle(Command::ListGroups).unwrap() else { panic!() };
    assert_eq!(groups.len(), 1);
    assert_eq!(groups[0].id, "g1");
}

#[test]
fn list_rules_returns_every_rule_regardless_of_enabled_state() {
    let mut handler = handler();
    handler.store.save_rule(&Rule::new("r1", "1Password", None, None, RuleAction::Exclude)).unwrap();
    handler.store.save_rule(&Rule { enabled: false, ..Rule::new("r2", "Bitwarden", None, None, RuleAction::Exclude) }).unwrap();

    let CommandOutput::Rules(rules) = handler.handle(Command::ListRules).unwrap() else { panic!() };
    assert_eq!(rules.len(), 2);
    assert!(rules.iter().any(|r| r.id == "r1" && r.enabled));
    assert!(rules.iter().any(|r| r.id == "r2" && !r.enabled));
}

#[test]
fn a_store_failure_is_reported_with_its_text() {
    let mut handler = handler();
    handler.store.fail_settings.set(true);
    assert_eq!(handler.handle(Command::GetSettings), Err("disk I/O error".to_string()));
    assert_eq!(StoreError::DedupConflict.message(), "a non-deleted clip with this content hash and MIME type already exists");
    assert_eq!(StoreError::NotFound.message(), "not found");
}

#[test]
fn two_sequential_capture_events_are_both_forwarded_in_order() {
    let mut backend = FakeBackend::new();
    let mut store = FakeStore::new();
    let mut events = FakeEventPublisher::new();
    let watch_loop = WatchLoop::new();

    watch_loop.on_capture(&mut backend, &mut store, &mut events, snapshot_with("text/plain", "first"));
    watch_loop.on_capture(&mut backend, &mut store, &mut events, snapshot_with("text/plain", "second"));

    let clips = store.search("", &Default::default()).unwrap();
    assert_eq!(clips.len(), 2);
    let mut texts: Vec<_> = clips.iter().map(|c| c.display_text.clone().unwrap()).collect();
    texts.sort();
    assert_eq!(texts, vec!["first".to_string(), "second".to_string()]);
}

#[test]
fn watch_loop_survives_one_ingest_failure() {
    let mut backend = FakeBackend::new();
    let mut store = FakeStore::new();
    let mut events = FakeEventPublisher::new();
    let watch_loop = WatchLoop::new();

    let first = watch_loop.on_capture(&mut backend, &mut store, &mut events, snapshot_with("not-a-mime-type", "bad"));
    watch_loop.on_capture(&mut backend, &mut store, &mut events, snapshot_with("text/plain", "good"));

    assert!(matches!(first, Some(Err(_))));
    let clips = store.search("", &Default::default()).unwrap();
    assert_eq!(clips.len(), 1);
    assert_eq!(clips[0].display_text.as_deref(), Some("good"));
}

#[test]
fn capture_events_are_ignored_while_paused() {
    let mut backend = FakeBackend::new();
    let mut store = FakeStore::new();
    let mut events = FakeEventPublisher::new();
    let mut watch_loop = WatchLoop::new();

    watch_loop.set_paused(true);
    let outcome = watch_loop.on_capture(&mut backend, &mut store, &mut events, snapshot_with("text/plain", "while paused"));

    assert!(outcome.is_none());
    assert!(store.search("", &Default::default()).unwrap().is_empty());
}

#[test]
fn capture_resumes_forwarding_once_unpaused() {
    let mut backend = FakeBackend::new();
    let mut store = FakeStore::new();
    let mut events = FakeEventPublisher::new();
    let mut watch_loop = WatchLoop::new();

    watch_loop.set_paused(true);
    watch_loop.on_capture(&mut backend, &mut store, &mut events, snapshot_with("text/plain", "while paused"));
    watch_loop.set_paused(false);
    watch_loop.on_capture(&mut backend, &mut store, &mut events, snapshot_with("text/plain", "after unpause"));

    let clips = store.search("", &Default::default()).unwrap();
    assert_eq!(clips.len(), 1);
    assert_eq!(clips[0].display_text.as_deref(), Some("after unpause"));
}

#[test]
fn captures_are_attributed_to_the_focused_app() {
    let mut backend = FakeBackend::new();
    *backend.focused_app.borrow_mut() = Some(AppContext::new("1Password"));
    let mut store = FakeStore::new();
    store.save_rule(&Rule::new("r1", "1Password", None, None, RuleAction::Exclude)).unwrap();
    let mut events = FakeEventPublisher::new();
    let watch_loop = WatchLoop::new();

    watch_loop.on_capture(&mut backend, &mut store, &mut events, snapshot_with("text/plain", "secret"));

    assert!(store.search("", &Default::default()).unwrap().is_empty());
}

#[test]
fn a_retention_pass_prunes_with_the_stored_window() {
    let mut store = FakeStore::new();
    let mut old = clip_with_text("old", "old");
    old.created_at = now_nanos() - 10 * 86_400_000_000_000;
    store.insert_clip(&old).unwrap();
    store.insert_clip(&clip_with_text("new", "new")).unwrap();

    assert_eq!(retention_pass(&mut store), Ok(0));
    store.update_settings(&AppSettings { retention_window_days: Some(5), ..AppSettings::default() }).unwrap();
    assert_eq!(retention_pass(&mut store), Ok(1));
    assert!(store.get_clip("old").unwrap().is_none());
    store.fail_next_prune.set(true);
    assert_eq!(retention_pass(&mut store), Err(StoreError::NotFound));
    assert_eq!(store.prune_calls.get(), 3);
}

#[test]
fn a_scheduled_run_with_no_retention_window_deletes_nothing() {
    let mut store = FakeStore::new();
    store.insert_clip(&clip_with_text("c1", "x")).unwrap();
    assert_eq!(retention_pass(&mut store), Ok(0));
    assert_eq!(store.search("", &Default::default()).unwrap().len(), 1);
}

#[derive(Default)]
struct FakeHotkeyBackend {
    registered: RefCell<Option<HotkeyBinding>>,
    callback: RefCell<Option<Box<dyn Fn() + Send + Sync>>>,
    fail_registration: Cell<bool>,
}

impl FakeHotkeyBackend {
    /// Simulates the registered hotkey firing.
    fn trigger(&self) {
        if let Some(callback) = self.callback.borrow().as_ref() {
            callback();
        }
    }
}

impl HotkeyBackend for FakeHotkeyBackend {
    fn register<F: Fn() + Send + Sync + 'static>(&mut self, binding: HotkeyBinding, callback: F) -> Result<(), HotkeyError> {
        if self.fail_registration.get() {
            return Err(HotkeyError::Unsupported);
        }
        *self.registered.borrow_mut() = Some(binding);
        *self.callback.borrow_mut() = Some(Box::new(callback));
        Ok(())
    }
}

/// A press callback that publishes `HotkeyPressed` to a shared event list,
/// with that list.
fn press_publisher() -> (impl Fn() + Send + Sync + 'static, std::sync::Arc<std::sync::Mutex<FakeEventPublisher>>) {
    let published = std::sync::Arc::new(std::sync::Mutex::new(FakeEventPublisher::new()));
    let sink = published.clone();
    (move || on_hotkey_press(&mut *sink.lock().unwrap()), published)
}

#[test]
fn a_hotkey_press_announces_hotkey_pressed_once() {
    let mut events = FakeEventPublisher::new();
    on_hotkey_press(&mut events);
    assert_eq!(events.events(), vec![Event::HotkeyPressed]);
    on_hotkey_press(&mut events);
    assert_eq!(events.events(), vec![Event::HotkeyPressed, Event::HotkeyPressed]);
}

#[test]
fn fake_store_backend_and_event_publisher_satisfy_their_traits() {
    let mut store: Box<dyn Store> = Box::new(FakeStore::new());
    let mut backend: Box<dyn Backend> = Box::new(FakeBackend::new());
    let mut events: Box<dyn EventPublisher> = Box::new(FakeEventPublisher::new());

    store.insert_clip(&Clip::new("c1", "hash1", "text/plain", vec![])).unwrap();
    assert!(store.get_clip("c1").unwrap().is_some());
    assert!(!backend.capabilities().capture);
    events.publish(Event::HotkeyPressed);
}

#[test]
fn hotkey_registration_publishes_hotkey_pressed_when_triggered() {
    let mut store = FakeStore::new();
    let mut hotkeys = FakeHotkeyBackend::default();

    let (on_press, published) = press_publisher();

    let outcome = register_persisted_hotkey(&mut store, &mut hotkeys, on_press);
    hotkeys.trigger();

    let expected = clipdeck::hotkeys::parse_binding("Ctrl+Shift+V").unwrap();
    assert_eq!(outcome, HotkeyRegistration::Registered(expected));
    assert_eq!(*hotkeys.registered.borrow(), Some(expected));
    assert_eq!(published.lock().unwrap().events(), vec![Event::HotkeyPressed]);
}

#[test]
fn an_invalid_persisted_binding_is_skipped_without_publishing_or_panicking() {
    let mut store = FakeStore::new();
    store.update_settings(&AppSettings { hotkey_binding: "NotAKey+++".to_string(), ..AppSettings::default() }).unwrap();
    let mut hotkeys = FakeHotkeyBackend::default();

    let (on_press, published) = press_publisher();

    let outcome = register_persisted_hotkey(&mut store, &mut hotkeys, on_press);
    hotkeys.trigger();

    assert_eq!(outcome, HotkeyRegistration::InvalidBinding(HotkeyError::InvalidBinding("NotAKey+++".to_string())));
    assert!(hotkeys.registered.borrow().is_none());
    assert!(published.lock().unwrap().events().is_empty());
}

#[test]
fn a_hotkey_registration_failure_is_swallowed_without_publishing_or_panicking() {
    let mut store = FakeStore::new();
    let mut hotkeys = FakeHotkeyBackend::default();
    hotkeys.fail_registration.set(true);

    let (on_press, published) = press_publisher();

    let outcome = register_persisted_hotkey(&mut store, &mut hotkeys, on_press);

    assert_eq!(outcome, HotkeyRegistration::Refused(HotkeyError::Unsupported));
    assert!(published.lock().unwrap().events().is_empty());
}

#[test]
fn unreadable_settings_skip_hotkey_registration() {
    let mut store = FakeStore::new();
    store.fail_settings.set(true);
    let mut hotkeys = FakeHotkeyBackend::default();
    assert!(matches!(register_persisted_hotkey(&mut store, &mut hotkeys, || {}), HotkeyRegistration::SettingsUnavailable(_)));
    assert!(hotkeys.registered.borrow().is_none());
}

#[test]
fn a_wayland_display_value_selects_the_wayland_session() {
    assert!(is_wayland_session(Some("wayland-0")));
}

#[test]
fn no_wayland_display_selects_the_x11_session() {
    assert!(!is_wayland_session(None));
}

#[test]
fn two_concurrent_requests_get_distinguishable_responses() {
    let r1 = Request::new("r1", Command::ListGroups);
    let r2 = Request::new("r2", Command::GetSettings);
    assert_ne!(r1.request_id, r2.request_id);
    assert_eq!(r1.command, Command::ListGroups);
    assert_eq!(r2.command, Command::GetSettings);
}

#[test]
fn response_envelope_carries_the_original_request_id() {
    let ok = response_for("r7", Ok(JsonValue::Bool(true)));
    assert_eq!(ok, Response::Success { request_id: "r7".to_string(), payload: JsonValue::Bool(true) });
    assert_eq!(ok.request_id(), "r7");
    let err = response_for("r8", Err("unsupported in test".to_string()));
    assert_eq!(err, Response::Failure { request_id: "r8".to_string(), error: "unsupported in test".to_string() });
}

#[test]
fn an_over_long_line_is_rejected_and_the_connection_is_closed() {
    let long = "x".repeat(MAX_LINE_LEN + 1);
    assert_eq!(classify_line(&long), LineVerdict::TooLong);
    assert_eq!(classify_line(&"x".repeat(MAX_LINE_LEN)), LineVerdict::Request("x".repeat(MAX_LINE_LEN)));
    assert_eq!(
        line_too_long_response(),
        Response::Failure { request_id: String::new(), error: "line too long".to_string() }
    );
}

#[test]
fn blank_lines_are_skipped_and_requests_lose_trailing_whitespace() {
    assert_eq!(classify_line("\n"), LineVerdict::Blank);
    assert_eq!(classify_line("  \t\r\n"), LineVerdict::Blank);
    assert_eq!(classify_line(" {\"a\":1} \r\n"), LineVerdict::Request(" {\"a\":1}".to_string()));
}

#[test]
fn capture_paused_event_updates_the_trays_displayed_state() {
    let mut tray_state = TrayState::new();
    assert!(!tray_state.is_paused());

    tray_state.set_paused(true);

    assert!(tray_state.is_paused());
}

#[test]
fn menu_label_toggles_between_pause_and_resume() {
    let mut tray_state = TrayState::new();
    assert_eq!(pause_menu_label(&tray_state), "Pause capture");

    tray_state.set_paused(true);

    assert_eq!(pause_menu_label(&tray_state), "Resume capture");
}

#[test]
fn selecting_pause_capture_issues_pause_capture_true() {
    let tray_state = TrayState::new();
    assert_eq!(pause_toggle_command(&tray_state), Command::PauseCapture { paused: true });
}

#[test]
fn selecting_resume_capture_issues_pause_capture_false() {
    let mut tray_state = TrayState::new();
    tray_state.set_paused(true);
    assert_eq!(pause_toggle_command(&tray_state), Command::PauseCapture { paused: false });
}

#[test]
fn selecting_clear_history_issues_clear_history_excluding_pinned() {
    assert_eq!(clear_history_command(), Command::ClearHistory { scope: ClearScope::ExcludingPinned });
}

#[test]
fn a_daemon_error_response_is_surfaced_as_an_error_not_swallowed() {
    assert_eq!(
        response_outcome(Response::Failure { request_id: "r".to_string(), error: "boom".to_string() }),
        Err("boom".to_string())
    );
    assert_eq!(response_outcome(Response::Success { request_id: "r".to_string(), payload: JsonValue::Null }), Ok(()));
}

#[test]
fn selecting_quit_invokes_the_exit_function() {
    let called = Cell::new(0);
    handle_quit(&|| {
        called.set(called.get() + 1);
    });
    assert_eq!(called.get(), 1);
}

#[test]
fn script_tags_are_stripped() {
    let sanitized = sanitize_html("<script>alert('x')</script><p>hi</p>");
    assert!(!sanitized.to_lowercase().contains("<script"));
    assert!(sanitized.contains("<p>hi</p>"));
}

#[test]
fn benign_formatting_tags_survive() {
    let sanitized = sanitize_html(r#"<b>bold</b> <a href="https://example.com">link</a>"#);
    assert!(sanitized.contains("<b>bold</b>"));
    assert!(sanitized.contains("href=\"https://example.com/\"") || sanitized.contains("href=\"https://example.com\""));
}

#[test]
fn connection_from_the_same_uid_is_accepted() {
    assert!(uid_allowed(1000, 1000));
    assert!(CurrentUidCheck::new(1000).is_allowed(1000));
}

#[test]
fn connection_from_a_different_uid_is_rejected() {
    assert!(!uid_allowed(1001, 1000));
    assert!(!CurrentUidCheck::new(1000).is_allowed(1001));
}

#[test]
fn the_popup_position_lives_in_the_config_directory() {
    assert_eq!(clipdeck::ui::file_path("/home/u/.config/clipdeck"), "/home/u/.config/clipdeck/popup_position.json");
    assert_eq!(clipdeck::ui::file_path("/cfg/"), "/cfg/popup_position.json");
}

#[test]
fn connecting_to_a_nonexistent_socket_returns_a_distinguishable_error() {
    assert_eq!(connect_error(ConnectErrorKind::NotFound, "no such file"), ClientError::DaemonNotRunning);
    assert_eq!(connect_error(ConnectErrorKind::ConnectionRefused, "refused"), ClientError::DaemonNotRunning);
    assert_eq!(connect_error(ConnectErrorKind::Other, "denied"), ClientError::Io("denied".to_string()));
    assert_eq!(ClientError::DaemonNotRunning.message(), "daemon not running");
}

#[test]
fn a_clear_excluding_pinned_spares_only_pinned_clips() {
    assert!(clear_removes(StoreClearScope::All, true));
    assert!(clear_removes(StoreClearScope::All, false));
    assert!(!clear_removes(StoreClearScope::ExcludingPinned, true));
    assert!(clear_removes(StoreClearScope::ExcludingPinned, false));
}

#[test]
fn the_prune_cutoff_lies_the_retention_window_before_now() {
    assert_eq!(prune_cutoff(10 * NANOS_PER_DAY, Some(3)), Some(7 * NANOS_PER_DAY));
    assert_eq!(prune_cutoff(0, Some(1)), Some(-NANOS_PER_DAY));
    assert_eq!(prune_cutoff(5, None), None);
}

struct FakeIndex {
    recent: Vec<Clip>,
    matching: Vec<Clip>,
    fail: bool,
    asked: RefCell<Vec<String>>,
}

impl FakeIndex {
    fn new(recent: Vec<Clip>, matching: Vec<Clip>) -> Self {
        FakeIndex { recent, matching, fail: false, asked: RefCell::new(Vec::new()) }
    }
}

impl ClipIndex for FakeIndex {
    fn recent_clips(&mut self) -> Result<Vec<Clip>, StoreError> {
        self.asked.borrow_mut().push("<recent>".to_string());
        if self.fail {
            return Err(StoreError::Sqlite("index unavailable".to_string()));
        }
        Ok(self.recent.clone())
    }

    fn matching_clips(&mut self, match_query: &str) -> Result<Vec<Clip>, StoreError> {
        self.asked.borrow_mut().push(match_query.to_string());
        if self.fail {
            return Err(StoreError::Sqlite("index unavailable".to_string()));
        }
        Ok(self.matching.clone())
    }
}

#[test]
fn a_blank_query_lists_recent_clips_through_the_filters() {
    let mut pinned = clip_with_text("p", "pinned");
    pinned.is_pinned = true;
    let plain = clip_with_text("u", "plain");
    let mut index = FakeIndex::new(vec![pinned.clone(), plain.clone()], vec![]);

    let all = fts_search(&mut index, "   ", &SearchFilters::default()).unwrap();
    assert_eq!(all, vec![pinned.clone(), plain]);

    let filters = SearchFilters { pinned_only: true, ..SearchFilters::default() };
    let only_pinned = fts_search(&mut index, "", &filters).unwrap();
    assert_eq!(only_pinned, vec![pinned]);
    assert_eq!(index.asked.borrow().clone(), vec!["<recent>".to_string(), "<recent>".to_string()]);
}

#[test]
fn a_word_query_asks_the_index_with_the_last_word_as_a_prefix() {
    let hit = clip_with_text("h", "foo barrel");
    let mut index = FakeIndex::new(vec![], vec![hit.clone()]);

    let found = fts_search(&mut index, " foo  bar ", &SearchFilters::default()).unwrap();

    assert_eq!(found, vec![hit]);
    assert_eq!(index.asked.borrow().clone(), vec!["foo bar*".to_string()]);
}

#[test]
fn an_index_failure_is_the_searchs_failure() {
    let mut index = FakeIndex::new(vec![], vec![]);
    index.fail = true;

    assert_eq!(
        fts_search(&mut index, "foo", &SearchFilters::default()),
        Err(StoreError::Sqlite("index unavailable".to_string()))
    );
}
