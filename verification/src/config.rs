//! Settings model and defaults, and how settings are stored as key/value
//! entries.
use vstd::prelude::*;
use crate::json::{JsonValue, JsonView};
use crate::models::PasteMode;
use crate::text::{copy_str, str_eq};

verus! {

#[derive(Debug, Clone, Copy, PartialEq, Eq, Hash, Structural)]
pub enum SettingsKey {
    HotkeyBinding,
    RetentionWindowDays,
    CapturePaused,
    DefaultPasteMode,
}

impl SettingsKey {
    pub open spec fn key_name(self) -> Seq<char> {
        match self {
            SettingsKey::HotkeyBinding => "hotkey_binding"@,
            SettingsKey::RetentionWindowDays => "retention_window_days"@,
            SettingsKey::CapturePaused => "capture_paused"@,
            SettingsKey::DefaultPasteMode => "default_paste_mode"@,
        }
    }

    pub fn as_str(&self) -> (s: &'static str)
        ensures
            s@ == self.key_name(),
    {
        match self {
            SettingsKey::HotkeyBinding => "hotkey_binding",
            SettingsKey::RetentionWindowDays => "retention_window_days",
            SettingsKey::CapturePaused => "capture_paused",
            SettingsKey::DefaultPasteMode => "default_paste_mode",
        }
    }
}

#[derive(Debug, Clone, PartialEq)]
pub struct AppSettings {
    pub hotkey_binding: String,
    pub retention_window_days: Option<u32>,
    pub capture_paused: bool,
    pub default_paste_mode: PasteMode,
}

/// The content of `AppSettings`.
pub struct SettingsView {
    pub hotkey_binding: Seq<char>,
    pub retention_window_days: Option<u32>,
    pub capture_paused: bool,
    pub default_paste_mode: PasteMode,
}

impl View for AppSettings {
    type V = SettingsView;

    open spec fn view(&self) -> SettingsView {
        SettingsView {
            hotkey_binding: self.hotkey_binding@,
            retention_window_days: self.retention_window_days,
            capture_paused: self.capture_paused,
            default_paste_mode: self.default_paste_mode,
        }
    }
}

/// Ctrl+Shift+V, no retention window, capture running, `Auto` paste.
pub open spec fn default_settings() -> SettingsView {
    SettingsView {
        hotkey_binding: "Ctrl+Shift+V"@,
        retention_window_days: None,
        capture_paused: false,
        default_paste_mode: PasteMode::Auto,
    }
}

impl Default for AppSettings {
    fn default() -> (s: Self)
        ensures
            s@ == default_settings(),
    {
        AppSettings {
            hotkey_binding: copy_str("Ctrl+Shift+V"),
            retention_window_days: None,
            capture_paused: false,
            default_paste_mode: PasteMode::Auto,
        }
    }
}

/// The stored form of one setting.
pub open spec fn value_of(s: SettingsView, key: SettingsKey) -> JsonView {
    match key {
        SettingsKey::HotkeyBinding => JsonView::Str(s.hotkey_binding),
        SettingsKey::RetentionWindowDays => match s.retention_window_days {
            Some(d) => JsonView::Int(d as int),
            None => JsonView::Null,
        },
        SettingsKey::CapturePaused => JsonView::Bool(s.capture_paused),
        SettingsKey::DefaultPasteMode => JsonView::Str(s.default_paste_mode.name()),
    }
}

/// The value stored under `key` in `entries`: that of the first entry with
/// that key.
pub open spec fn lookup(entries: Seq<(Seq<char>, JsonView)>, key: Seq<char>) -> Option<JsonView>
    decreases entries.len(),
{
    if entries.len() == 0 {
        None
    } else if entries[0].0 == key {
        Some(entries[0].1)
    } else {
        lookup(entries.drop_first(), key)
    }
}

pub open spec fn entries_view(entries: Seq<(String, JsonValue)>) -> Seq<(Seq<char>, JsonView)> {
    entries.map_values(|e: (String, JsonValue)| (e.0@, e.1@))
}

/// A string setting reads only from a JSON string.
pub open spec fn decode_string(v: JsonView) -> Option<Seq<char>> {
    match v {
        JsonView::Str(s) => Some(s),
        _ => None,
    }
}

/// An optional day count reads from `null` or from an integer in `u32`'s
/// range.
pub open spec fn decode_days(v: JsonView) -> Option<Option<u32>> {
    match v {
        JsonView::Null => Some(None),
        JsonView::Int(n) => if 0 <= n <= u32::MAX {
            Some(Some(n as u32))
        } else {
            None
        },
        _ => None,
    }
}

pub open spec fn decode_bool(v: JsonView) -> Option<bool> {
    match v {
        JsonView::Bool(b) => Some(b),
        _ => None,
    }
}

/// A paste mode reads from a JSON string holding its name.
pub open spec fn decode_mode(v: JsonView) -> Option<PasteMode> {
    match v {
        JsonView::Str(s) => PasteMode::named(s),
        _ => None,
    }
}

/// Settings built from stored entries: each field takes the value stored
/// under its key when there is one of the right shape, and its default
/// otherwise.
pub open spec fn settings_from(entries: Seq<(Seq<char>, JsonView)>) -> SettingsView {
    let d = default_settings();
    SettingsView {
        hotkey_binding: match lookup(entries, SettingsKey::HotkeyBinding.key_name()) {
            Some(v) => match decode_string(v) {
                Some(t) => t,
                None => d.hotkey_binding,
            },
            None => d.hotkey_binding,
        },
        retention_window_days: match lookup(entries, SettingsKey::RetentionWindowDays.key_name()) {
            Some(v) => match decode_days(v) {
                Some(t) => t,
                None => d.retention_window_days,
            },
            None => d.retention_window_days,
        },
        capture_paused: match lookup(entries, SettingsKey::CapturePaused.key_name()) {
            Some(v) => match decode_bool(v) {
                Some(t) => t,
                None => d.capture_paused,
            },
            None => d.capture_paused,
        },
        default_paste_mode: match lookup(entries, SettingsKey::DefaultPasteMode.key_name()) {
            Some(v) => match decode_mode(v) {
                Some(t) => t,
                None => d.default_paste_mode,
            },
            None => d.default_paste_mode,
        },
    }
}

/// The entries that store `s`, one per key, in key order.
pub open spec fn entries_of(s: SettingsView) -> Seq<(Seq<char>, JsonView)> {
    seq![
        (SettingsKey::HotkeyBinding.key_name(), value_of(s, SettingsKey::HotkeyBinding)),
        (SettingsKey::RetentionWindowDays.key_name(), value_of(s, SettingsKey::RetentionWindowDays)),
        (SettingsKey::CapturePaused.key_name(), value_of(s, SettingsKey::CapturePaused)),
        (SettingsKey::DefaultPasteMode.key_name(), value_of(s, SettingsKey::DefaultPasteMode)),
    ]
}

fn find_entry<'a>(entries: &'a Vec<(String, JsonValue)>, key: &str) -> (r: Option<&'a JsonValue>)
    ensures
        match r {
            Some(v) => lookup(entries_view(entries@), key@) == Some(v@),
            None => lookup(entries_view(entries@), key@) is None,
        },
{
    let ghost ev = entries_view(entries@);
    assert(ev.subrange(0, ev.len() as int) =~= ev);
    let mut i: usize = 0;
    while i < entries.len()
        invariant
            i <= entries.len(),
            ev == entries_view(entries@),
            lookup(ev, key@) == lookup(ev.subrange(i as int, ev.len() as int), key@),
        decreases entries.len() - i,
    {
        let ghost rest = ev.subrange(i as int, ev.len() as int);
        assert(rest.drop_first() =~= ev.subrange(i + 1, ev.len() as int));
        if str_eq(entries[i].0.as_str(), key) {
            return Some(&entries[i].1);
        }
        i = i + 1;
    }
    assert(ev.subrange(i as int, ev.len() as int) =~= Seq::<(Seq<char>, JsonView)>::empty());
    None
}

impl AppSettings {
    /// A single field, in the JSON form it is stored under its `SettingsKey`.
    pub fn get_value(&self, key: SettingsKey) -> (v: JsonValue)
        ensures
            v@ == value_of(self@, key),
    {
        match key {
            SettingsKey::HotkeyBinding => JsonValue::Str(self.hotkey_binding.clone()),
            SettingsKey::RetentionWindowDays => match self.retention_window_days {
                Some(d) => JsonValue::Int(d as i128),
                None => JsonValue::Null,
            },
            SettingsKey::CapturePaused => JsonValue::Bool(self.capture_paused),
            SettingsKey::DefaultPasteMode => JsonValue::Str(copy_str(self.default_paste_mode.as_str())),
        }
    }

    /// Builds settings from stored key/value entries, falling back to the
    /// default for any key that is absent or holds a value of the wrong
    /// shape.
    pub fn from_entries(entries: &Vec<(String, JsonValue)>) -> (s: Self)
        ensures
            s@ == settings_from(entries_view(entries@)),
    {
        let mut settings = AppSettings::default();
        if let Some(v) = find_entry(entries, SettingsKey::HotkeyBinding.as_str()) {
            if let JsonValue::Str(t) = v {
                settings.hotkey_binding = t.clone();
            }
        }
        if let Some(v) = find_entry(entries, SettingsKey::RetentionWindowDays.as_str()) {
            match v {
                JsonValue::Null => {
                    settings.retention_window_days = None;
                },
                JsonValue::Int(n) => {
                    if 0 <= *n && *n <= 4294967295 {
                        settings.retention_window_days = Some(*n as u32);
                    }
                },
                _ => {},
            }
        }
        if let Some(v) = find_entry(entries, SettingsKey::CapturePaused.as_str()) {
            if let JsonValue::Bool(b) = v {
                settings.capture_paused = *b;
            }
        }
        if let Some(v) = find_entry(entries, SettingsKey::DefaultPasteMode.as_str()) {
            if let JsonValue::Str(t) = v {
                if let Some(m) = PasteMode::from_name(t.as_str()) {
                    settings.default_paste_mode = m;
                }
            }
        }
        settings
    }

    /// The entries that store these settings: one per key, in key order.
    pub fn to_entries(&self) -> (entries: Vec<(String, JsonValue)>)
        ensures
            entries_view(entries@) == entries_of(self@),
    {
        let mut entries: Vec<(String, JsonValue)> = Vec::new();
        entries.push((copy_str(SettingsKey::HotkeyBinding.as_str()), self.get_value(SettingsKey::HotkeyBinding)));
        entries.push((copy_str(SettingsKey::RetentionWindowDays.as_str()), self.get_value(SettingsKey::RetentionWindowDays)));
        entries.push((copy_str(SettingsKey::CapturePaused.as_str()), self.get_value(SettingsKey::CapturePaused)));
        entries.push((copy_str(SettingsKey::DefaultPasteMode.as_str()), self.get_value(SettingsKey::DefaultPasteMode)));
        assert(entries_view(entries@) =~= entries_of(self@));
        entries
    }
}

/// Settings written as their entries read back unchanged: storing settings
/// and loading them again is the identity.
pub proof fn lemma_settings_round_trip(s: SettingsView)
    ensures
        settings_from(entries_of(s)) == s,
{
    reveal_strlit("hotkey_binding");
    reveal_strlit("retention_window_days");
    reveal_strlit("capture_paused");
    reveal_strlit("default_paste_mode");
    crate::models::lemma_paste_mode_name_round_trip(s.default_paste_mode);
    let e = entries_of(s);
    reveal_with_fuel(lookup, 5);
    assert(SettingsKey::RetentionWindowDays.key_name()[0] != SettingsKey::HotkeyBinding.key_name()[0]);
    assert(SettingsKey::CapturePaused.key_name()[0] != SettingsKey::HotkeyBinding.key_name()[0]);
    assert(SettingsKey::CapturePaused.key_name()[0] != SettingsKey::RetentionWindowDays.key_name()[0]);
    assert(SettingsKey::DefaultPasteMode.key_name()[0] != SettingsKey::HotkeyBinding.key_name()[0]);
    assert(SettingsKey::DefaultPasteMode.key_name()[0] != SettingsKey::RetentionWindowDays.key_name()[0]);
    assert(SettingsKey::DefaultPasteMode.key_name()[0] != SettingsKey::CapturePaused.key_name()[0]);
    assert(e.drop_first()[0] == e[1]);
    assert(e.drop_first().drop_first()[0] == e[2]);
    assert(e.drop_first().drop_first().drop_first()[0] == e[3]);
}

/// The entries that store `s` under the keys `keys` only, in that order.
pub open spec fn entries_for(s: SettingsView, keys: Seq<SettingsKey>) -> Seq<(Seq<char>, JsonView)> {
    keys.map_values(|k: SettingsKey| (k.key_name(), value_of(s, k)))
}

/// `s` where `keys` holds the field's key, the default elsewhere.
pub open spec fn kept_or_default(s: SettingsView, keys: Seq<SettingsKey>) -> SettingsView {
    let d = default_settings();
    SettingsView {
        hotkey_binding: if keys.contains(SettingsKey::HotkeyBinding) {
            s.hotkey_binding
        } else {
            d.hotkey_binding
        },
        retention_window_days: if keys.contains(SettingsKey::RetentionWindowDays) {
            s.retention_window_days
        } else {
            d.retention_window_days
        },
        capture_paused: if keys.contains(SettingsKey::CapturePaused) {
            s.capture_paused
        } else {
            d.capture_paused
        },
        default_paste_mode: if keys.contains(SettingsKey::DefaultPasteMode) {
            s.default_paste_mode
        } else {
            d.default_paste_mode
        },
    }
}

proof fn lemma_key_names_distinct(a: SettingsKey, b: SettingsKey)
    ensures
        a.key_name() == b.key_name() ==> a == b,
{
    reveal_strlit("hotkey_binding");
    reveal_strlit("retention_window_days");
    reveal_strlit("capture_paused");
    reveal_strlit("default_paste_mode");
    if a != b {
        assert(a.key_name()[0] != b.key_name()[0]);
    }
}

proof fn lemma_lookup_entries_for(s: SettingsView, keys: Seq<SettingsKey>, k: SettingsKey)
    ensures
        lookup(entries_for(s, keys), k.key_name()) == if keys.contains(k) {
            Some(value_of(s, k))
        } else {
            None
        },
    decreases keys.len(),
{
    if keys.len() > 0 {
        let rest = keys.drop_first();
        assert(entries_for(s, keys).drop_first() =~= entries_for(s, rest));
        lemma_lookup_entries_for(s, rest, k);
        lemma_key_names_distinct(keys[0], k);
        assert(keys.contains(k) <==> keys[0] == k || rest.contains(k)) by {
            if rest.contains(k) {
                let j = choose|j: int| 0 <= j < rest.len() && rest[j] == k;
                assert(keys[j + 1] == k);
            }
            if keys.contains(k) && keys[0] != k {
                let j = choose|j: int| 0 <= j < keys.len() && keys[j] == k;
                assert(rest[j - 1] == k);
            }
        }
    }
}

/// Settings loaded from the entries of only some of their keys, in any
/// order, keep the stored value of each key given and take the default for
/// every other field.
pub proof fn lemma_partial_entries_fall_back_to_defaults(s: SettingsView, keys: Seq<SettingsKey>)
    ensures
        settings_from(entries_for(s, keys)) == kept_or_default(s, keys),
{
    lemma_lookup_entries_for(s, keys, SettingsKey::HotkeyBinding);
    lemma_lookup_entries_for(s, keys, SettingsKey::RetentionWindowDays);
    lemma_lookup_entries_for(s, keys, SettingsKey::CapturePaused);
    lemma_lookup_entries_for(s, keys, SettingsKey::DefaultPasteMode);
    crate::models::lemma_paste_mode_name_round_trip(s.default_paste_mode);
}

/// `part` appended to the directory `root` as `Path::join` appends a
/// relative component: with a `/` between them unless `root` is empty or
/// already ends with one.
pub open spec fn joined(root: Seq<char>, part: Seq<char>) -> Seq<char> {
    if root.len() > 0 && root.last() != '/' {
        root + "/"@ + part
    } else {
        root + part
    }
}

pub fn join_path(root: &str, part: &str) -> (p: String)
    ensures
        p@ == joined(root@, part@),
{
    let mut p = copy_str(root);
    let chars = crate::text::chars_of(root);
    if chars.len() > 0 && chars[chars.len() - 1] != '/' {
        p.append("/");
    }
    p.append(part);
    p
}

/// The application's standard directories.
#[derive(Debug, Clone, PartialEq, Eq)]
pub struct AppPaths {
    pub config_dir: String,
    pub data_dir: String,
    pub cache_dir: String,
}

/// A directory whose last component is `clipdeck`.
pub open spec fn in_project_dir(p: Seq<char>) -> bool {
    p.len() >= 9 && p.subrange(p.len() - 9, p.len() as int) == "/clipdeck"@
}

/// The per-user directories of the `dev.ClipDeck.clipdeck` project
/// (`directories::ProjectDirs::from("dev", "ClipDeck", "clipdeck")`): its
/// config, data and cache directories, or `None` when no home directory can
/// be found. Which base directories they sit in depends on the environment
/// (`$XDG_CONFIG_HOME` or `$HOME/.config`, `$XDG_DATA_HOME` or
/// `$HOME/.local/share`, `$XDG_CACHE_HOME` or `$HOME/.cache`), so the
/// bases are not stated. What holds in every environment on Linux, where
/// the daemon runs, is stated: each is its base joined with the project
/// path `clipdeck`.
#[verifier::external_body]
fn project_dirs() -> (r: Option<(String, String, String)>)
    ensures
        r matches Some((config, data, cache)) ==> in_project_dir(config@) && in_project_dir(data@)
            && in_project_dir(cache@),
{
    let dirs = directories::ProjectDirs::from("dev", "ClipDeck", "clipdeck")?;
    Some((
        dirs.config_dir().to_string_lossy().into_owned(),
        dirs.data_dir().to_string_lossy().into_owned(),
        dirs.cache_dir().to_string_lossy().into_owned(),
    ))
}

impl AppPaths {
    /// The directories under one root: `config`, `data` and `cache`.
    pub fn under_root(root: &str) -> (p: Self)
        ensures
            p.config_dir@ == joined(root@, "config"@),
            p.data_dir@ == joined(root@, "data"@),
            p.cache_dir@ == joined(root@, "cache"@),
    {
        AppPaths {
            config_dir: join_path(root, "config"),
            data_dir: join_path(root, "data"),
            cache_dir: join_path(root, "cache"),
        }
    }

    /// Resolves the application's directories: under `test_home` (the value
    /// of `CLIPDECK_TEST_HOME`) when it is set, else the per-user project
    /// directories; `None` when neither is available.
    pub fn resolve(test_home: Option<&str>) -> (p: Option<Self>)
        ensures
            test_home matches Some(root) ==> (p matches Some(paths) && paths.config_dir@ == joined(
                root@,
                "config"@,
            ) && paths.data_dir@ == joined(root@, "data"@) && paths.cache_dir@ == joined(root@, "cache"@)),
            test_home is None ==> (p matches Some(paths) ==> in_project_dir(paths.config_dir@) && in_project_dir(
                paths.data_dir@,
            ) && in_project_dir(paths.cache_dir@)),
    {
        match test_home {
            Some(root) => Some(AppPaths::under_root(root)),
            None => match project_dirs() {
                Some((config_dir, data_dir, cache_dir)) => Some(AppPaths { config_dir, data_dir, cache_dir }),
                None => None,
            },
        }
    }
}

} // verus!
