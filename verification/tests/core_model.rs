use clipdeck::config::{AppPaths, AppSettings, SettingsKey};
use clipdeck::errors::CoreError;
use clipdeck::hashing::{dedup_key, hash_content};
use clipdeck::json::JsonValue;
use clipdeck::mime::{mime_family, normalize_mime, MimeFamily};
use clipdeck::models::{AppContext, Clip, ClipRepresentation, Group, PasteMode, Rule, RuleAction};
use clipdeck::search::{parse_query, SearchFilters};

#[test]
fn default_settings_have_capture_enabled() {
    assert!(!AppSettings::default().capture_paused);
}

#[test]
fn default_settings_have_no_retention_window() {
    assert_eq!(AppSettings::default().retention_window_days, None);
}

#[test]
fn a_single_setting_serializes_to_a_json_value_under_its_key() {
    let settings = AppSettings { retention_window_days: Some(30), ..AppSettings::default() };
    let value = settings.get_value(SettingsKey::RetentionWindowDays);
    assert_eq!(value, JsonValue::Int(30));
    let entries = settings.to_entries();
    let round_tripped = AppSettings::from_entries(&entries);
    assert_eq!(round_tripped.retention_window_days, settings.retention_window_days);
}

#[test]
fn missing_key_falls_back_to_the_fields_default() {
    let entries: Vec<(String, JsonValue)> = Vec::new();
    let settings = AppSettings::from_entries(&entries);
    assert_eq!(settings.hotkey_binding, AppSettings::default().hotkey_binding);
}

#[test]
fn settings_stored_as_entries_load_back_unchanged() {
    let settings = AppSettings {
        hotkey_binding: "Alt+Super+K".to_string(),
        retention_window_days: Some(7),
        capture_paused: true,
        default_paste_mode: PasteMode::PlainText,
    };
    let entries = settings.to_entries();
    assert_eq!(entries.len(), 4);
    assert_eq!(entries[0].0, "hotkey_binding");
    assert_eq!(entries[0].1, JsonValue::Str("Alt+Super+K".to_string()));
    assert_eq!(entries[2].1, JsonValue::Bool(true));
    assert_eq!(entries[3].1, JsonValue::Str("plain_text".to_string()));
    assert_eq!(AppSettings::from_entries(&entries), settings);
}

#[test]
fn settings_from_some_keys_keep_those_and_default_the_rest() {
    let settings = AppSettings {
        hotkey_binding: "Alt+Super+K".to_string(),
        retention_window_days: Some(7),
        capture_paused: true,
        default_paste_mode: PasteMode::PlainText,
    };
    let entries = settings.to_entries();
    let partial = vec![entries[3].clone(), entries[1].clone()];
    let loaded = AppSettings::from_entries(&partial);
    assert_eq!(
        loaded,
        AppSettings {
            hotkey_binding: AppSettings::default().hotkey_binding,
            retention_window_days: Some(7),
            capture_paused: false,
            default_paste_mode: PasteMode::PlainText,
        }
    );
}

#[test]
fn normalizing_a_normalized_mime_type_gives_it_back() {
    for input in ["TEXT/HTML", "text/plain; charset=utf-8", "Image/SVG+XML;q=1", "*/*"] {
        let once = normalize_mime(input).unwrap();
        assert_eq!(normalize_mime(&once).unwrap(), once);
    }
}

#[test]
fn per_user_directories_end_in_the_project_directory() {
    if let Some(paths) = AppPaths::resolve(None) {
        assert!(paths.config_dir.ends_with("/clipdeck"));
        assert!(paths.data_dir.ends_with("/clipdeck"));
        assert!(paths.cache_dir.ends_with("/clipdeck"));
    }
}

#[test]
fn settings_key_names_match_their_storage_keys() {
    assert_eq!(SettingsKey::HotkeyBinding.as_str(), "hotkey_binding");
    assert_eq!(SettingsKey::RetentionWindowDays.as_str(), "retention_window_days");
    assert_eq!(SettingsKey::CapturePaused.as_str(), "capture_paused");
    assert_eq!(SettingsKey::DefaultPasteMode.as_str(), "default_paste_mode");
}

#[test]
fn app_paths_resolve_is_overridable_for_tests() {
    let paths = AppPaths::resolve(Some("/tmp/clipdeck-test-home-override")).unwrap();
    assert!(paths.config_dir.starts_with("/tmp/clipdeck-test-home-override"));
    assert!(paths.data_dir.starts_with("/tmp/clipdeck-test-home-override"));
    assert!(paths.cache_dir.starts_with("/tmp/clipdeck-test-home-override"));
    assert_eq!(paths.config_dir, "/tmp/clipdeck-test-home-override/config");
    assert_eq!(paths.data_dir, "/tmp/clipdeck-test-home-override/data");
    assert_eq!(paths.cache_dir, "/tmp/clipdeck-test-home-override/cache");
}

#[test]
fn app_paths_under_a_root_with_a_trailing_slash_add_no_second_slash() {
    let trailing = AppPaths::under_root("/home/u/");
    assert_eq!(trailing.config_dir, "/home/u/config");
}

#[test]
fn app_paths_resolve_exposes_distinct_config_data_and_cache_directories() {
    let paths = AppPaths::resolve(None).unwrap();
    assert!(!paths.config_dir.is_empty());
    assert!(!paths.data_dir.is_empty());
    assert!(!paths.cache_dir.is_empty());
    assert_ne!(paths.config_dir, paths.data_dir);
    assert_ne!(paths.data_dir, paths.cache_dir);
}

#[test]
fn invalid_mime_has_non_empty_display() {
    let err = CoreError::InvalidMime("not-a-mime".into());
    assert!(!err.message().is_empty());
}

#[test]
fn invalid_rule_has_non_empty_display() {
    let err = CoreError::InvalidRule("bad rule".into());
    assert!(!err.message().is_empty());
}

#[test]
fn core_error_messages_name_the_offending_value() {
    assert_eq!(CoreError::InvalidMime("x".into()).message(), "invalid MIME type: x");
    assert_eq!(CoreError::InvalidRule("y".into()).message(), "invalid rule: y");
    assert_eq!(CoreError::InvalidGroupParent("g".into()).message(), "a group cannot be its own parent: g");
}

#[test]
fn hashing_same_bytes_twice_yields_same_hash() {
    assert_eq!(hash_content(b"hello world"), hash_content(b"hello world"));
}

#[test]
fn hashing_different_bytes_yields_different_hashes() {
    assert_ne!(hash_content(b"hello"), hash_content(b"world"));
}

#[test]
fn hash_string_has_fixed_length_regardless_of_input_size() {
    let small = hash_content(b"abc");
    let large = hash_content(&vec![0u8; 300_000]);
    assert_eq!(small.len(), large.len());
}

#[test]
fn hash_of_known_input_is_the_blake3_digest() {
    assert_eq!(hash_content(b""), "af1349b9f5f9a1a6a0404dea36dcc9499bcb25c9adc112b7cc9a93cae41f3262");
    assert!(hash_content(b"abc").chars().all(|c| c.is_ascii_hexdigit() && !c.is_ascii_uppercase()));
}

#[test]
fn same_bytes_different_mime_produce_different_dedup_keys() {
    let bytes = b"same content";
    let key_text = dedup_key(&hash_content(bytes), "text/plain");
    let key_html = dedup_key(&hash_content(bytes), "text/html");
    assert_ne!(key_text, key_html);
}

#[test]
fn dedup_key_joins_hash_and_mime_with_a_colon() {
    assert_eq!(dedup_key("abc", "text/plain"), "abc:text/plain");
}

#[test]
fn mixed_case_mime_type_normalizes_to_lowercase() {
    assert_eq!(normalize_mime("TEXT/HTML").unwrap(), "text/html");
}

#[test]
fn mime_parameters_are_stripped() {
    assert_eq!(normalize_mime("text/plain; charset=utf-8").unwrap(), "text/plain");
}

#[test]
fn text_plain_classifies_as_text() {
    assert_eq!(mime_family("text/plain").unwrap(), MimeFamily::Text);
}

#[test]
fn image_png_classifies_as_image() {
    assert_eq!(mime_family("image/png").unwrap(), MimeFamily::Image);
}

#[test]
fn unrecognized_mime_type_classifies_as_other() {
    assert_eq!(mime_family("application/x-custom-blob").unwrap(), MimeFamily::Other);
}

#[test]
fn text_html_classifies_as_html() {
    assert_eq!(mime_family("text/html").unwrap(), MimeFamily::Html);
}

#[test]
fn string_without_slash_is_rejected() {
    assert!(normalize_mime("not-a-mime-type").is_err());
}

#[test]
fn an_invalid_mime_type_is_named_in_its_error() {
    assert_eq!(normalize_mime("nope"), Err(CoreError::InvalidMime("nope".to_string())));
    assert_eq!(mime_family("nope"), Err(CoreError::InvalidMime("nope".to_string())));
}

#[test]
fn default_paste_mode_is_auto() {
    assert_eq!(PasteMode::default(), PasteMode::Auto);
}

#[test]
fn paste_mode_names_round_trip() {
    for mode in [PasteMode::Auto, PasteMode::PlainText, PasteMode::Rich] {
        assert_eq!(PasteMode::from_name(mode.as_str()), Some(mode));
    }
    assert_eq!(PasteMode::PlainText.as_str(), "plain_text");
    assert_eq!(PasteMode::from_name("loud"), None);
}

#[test]
fn rule_action_names_round_trip() {
    for action in [RuleAction::Exclude, RuleAction::Ephemeral] {
        assert_eq!(RuleAction::from_name(action.as_str()), Some(action));
    }
    assert_eq!(RuleAction::from_name("keep"), None);
}

#[test]
fn app_context_with_only_app_name_is_valid() {
    let ctx = AppContext::new("gnome-terminal");
    assert_eq!(ctx.app, "gnome-terminal");
    assert!(ctx.window.is_none());
}

#[test]
fn group_can_reference_a_different_group_as_parent() {
    let group = Group::new("child", "Child", Some("parent".to_string())).unwrap();
    assert_eq!(group.parent_group_id, Some("parent".to_string()));
}

#[test]
fn group_cannot_be_its_own_parent() {
    let result = Group::new("g1", "G1", Some("g1".to_string()));
    assert!(result.is_err());
}

#[test]
fn rule_matches_by_app_name_alone() {
    let rule = Rule::new("r1", "1Password", None, None, RuleAction::Exclude);
    let ctx = AppContext::new("1Password");
    assert!(rule.matches(&ctx, "text/plain"));
}

#[test]
fn disabled_rule_never_matches() {
    let mut rule = Rule::new("r1", "1Password", None, None, RuleAction::Exclude);
    rule.enabled = false;
    let ctx = AppContext::new("1Password");
    assert!(!rule.matches(&ctx, "text/plain"));
}

#[test]
fn a_rule_with_window_and_mime_conditions_needs_both() {
    let rule = Rule::new("r1", "firefox", Some("Bank".to_string()), Some("text/html".to_string()), RuleAction::Exclude);
    assert!(rule.matches(&AppContext::with_window("firefox", "Bank"), "text/html"));
    assert!(!rule.matches(&AppContext::with_window("firefox", "Bank"), "text/plain"));
    assert!(!rule.matches(&AppContext::with_window("firefox", "News"), "text/html"));
    assert!(!rule.matches(&AppContext::new("firefox"), "text/html"));
}

#[test]
fn representation_reports_its_own_byte_size_and_mime_type() {
    let html = ClipRepresentation::new("text/html", 0).with_text_value("<b>hi</b>").with_byte_size(9);
    let text = ClipRepresentation::new("text/plain", 1).with_text_value("hi").with_byte_size(2);
    assert_eq!(html.mime_type, "text/html");
    assert_eq!(html.byte_size, 9);
    assert_eq!(text.mime_type, "text/plain");
    assert_eq!(text.byte_size, 2);
}

#[test]
fn clip_with_two_representations_preserves_both_in_order() {
    let text = ClipRepresentation::new("text/plain", 0).with_text_value("hi");
    let html = ClipRepresentation::new("text/html", 1).with_text_value("<b>hi</b>");
    let clip = Clip::new("c1", "hash1", "text/plain", vec![text.clone(), html.clone()]);
    assert_eq!(clip.representations, vec![text, html]);
}

#[test]
fn new_clip_defaults_to_not_pinned_not_favorite_not_deleted() {
    let clip = Clip::new("c1", "hash1", "text/plain", vec![]);
    assert!(!clip.is_pinned);
    assert!(!clip.is_favorite);
    assert!(!clip.is_deleted);
}

#[test]
fn a_clip_stamped_at_a_time_is_created_and_updated_then() {
    let clip = Clip::new_at("c1", "hash1", "text/plain", vec![], 42);
    assert_eq!(clip.created_at, 42);
    assert_eq!(clip.updated_at, 42);
    assert_eq!(clip.last_used_at, None);
    assert_eq!(clip.paste_mode_default, PasteMode::Auto);
}

#[test]
fn two_clips_with_identical_hash_and_mime_produce_same_dedup_key() {
    let a = Clip::new("a", "hash1", "text/plain", vec![]);
    let b = Clip::new("b", "hash1", "text/plain", vec![]);
    assert_eq!(a.dedup_key(), b.dedup_key());
}

#[test]
fn same_hash_different_mime_produce_different_dedup_keys() {
    let a = Clip::new("a", "hash1", "text/plain", vec![]);
    let b = Clip::new("b", "hash1", "text/html", vec![]);
    assert_ne!(a.dedup_key(), b.dedup_key());
}

#[test]
fn simple_query_splits_into_terms() {
    let query = parse_query("ssh deploy");
    assert_eq!(query.terms(), vec!["ssh", "deploy"]);
}

#[test]
fn extra_whitespace_does_not_produce_empty_terms() {
    let query = parse_query("  ssh   deploy  ");
    assert_eq!(query.terms(), vec!["ssh", "deploy"]);
}

#[test]
fn final_term_is_flagged_as_a_prefix_term() {
    let query = parse_query("ssh depl");
    assert!(!query.terms[0].is_prefix);
    assert!(query.terms[1].is_prefix);
}

#[test]
fn blank_string_produces_an_explicit_empty_query() {
    assert!(parse_query("").is_empty());
}

#[test]
fn whitespace_only_string_produces_an_explicit_empty_query() {
    assert!(parse_query("   ").is_empty());
}

#[test]
fn filters_can_be_constructed_without_any_text_query() {
    let filters = SearchFilters { pinned_only: true, ..Default::default() };
    assert!(filters.pinned_only);
}

#[test]
fn ranking_inputs_default_to_boosting_pinned_results() {
    let query = parse_query("ssh");
    assert!(query.ranking.boost_pinned);
}
