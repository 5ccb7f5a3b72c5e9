use limux_host::app_config::{
    backup_failure, backup_notice, default_settings_document, file_contents, first_file,
    first_write_step, invalid_config_backup_path, load, load_from_path, load_from_text,
    next_write_step, read_existing_config_root_for_save, save, save_over_text, save_to_path,
    settings_file, settings_in_text, settings_path, settings_path_in, temp_config_path, AppConfig,
    ColorScheme, ExistingRoot, LoadedAppConfig, NotificationSound, SavePlan, SettingsFile,
    SettingsSource, StoredSettings, UiScale, WriteStep, DEFAULT_UI_SCALE, MAX_UI_SCALE,
    MIN_UI_SCALE,
};
use limux_host::json::{Json, JsonNumber};
use limux_host::paths::{path_name, rename_path};
use serde_json::{Number, Value};

fn value_of(json: &Json) -> Value {
    match json {
        Json::Null => Value::Null,
        Json::Bool(b) => Value::Bool(*b),
        Json::Number(JsonNumber::Unsigned(n)) => Value::from(*n),
        Json::Number(JsonNumber::Negative(n)) => Value::from(*n),
        Json::Number(JsonNumber::Float(bits)) => {
            Number::from_f64(f64::from_bits(*bits)).map_or(Value::Null, Value::Number)
        }
        Json::Text(s) => Value::String(s.clone()),
        Json::Array(items) => Value::Array(items.iter().map(value_of).collect()),
        Json::Object(entries) => {
            let mut map = serde_json::Map::new();
            for (key, value) in entries {
                map.insert(key.clone(), value_of(value));
            }
            Value::Object(map)
        }
    }
}

fn load_text(text: &str) -> LoadedAppConfig {
    load_from_text("/tmp/example/limux/settings.json", text)
}

/// What a save of a document leaves in the file.
fn text_of(document: &Json) -> String {
    file_contents(&serde_json::to_string_pretty(&value_of(document)).unwrap())
}

/// What a save leaves in the file with a given text.
fn text_saved_over(raw: &str, config: &AppConfig) -> String {
    match save_over_text(raw, config) {
        SavePlan::Write { document, .. } => text_of(&document),
        SavePlan::Refused(message) => panic!("refused: {message}"),
    }
}

/// The text that a save leaves in the file, read again.
fn saved_over(stored: StoredSettings, config: &AppConfig) -> Value {
    match save_to_path(settings_file(stored), config) {
        SavePlan::Write { document, .. } => {
            let raw = text_of(&document);
            assert!(raw.ends_with("}\n"));
            serde_json::from_str(&raw).expect("parse config")
        }
        SavePlan::Refused(message) => panic!("refused: {message}"),
    }
}

#[test]
fn load_from_path_uses_defaults_when_file_is_missing() {
    let loaded = load_from_path("/tmp/example/limux/settings.json", &SettingsFile::Missing);

    assert_eq!(loaded, LoadedAppConfig::default());
}

#[test]
fn settings_path_in_uses_limux_settings_json() {
    let path = settings_path_in(b"/tmp/example");

    assert_eq!(path, b"/tmp/example/limux/settings.json");
}

#[test]
fn settings_path_joins_with_one_separator() {
    assert_eq!(
        settings_path(Some(b"/c/limux".to_vec())),
        Some(b"/c/limux/settings.json".to_vec())
    );
    assert_eq!(
        settings_path(Some(b"/c/limux/".to_vec())),
        Some(b"/c/limux/settings.json".to_vec())
    );
    assert_eq!(settings_path(Some(Vec::new())), Some(b"settings.json".to_vec()));
    assert_eq!(settings_path(None), None);
    assert_eq!(settings_path_in(b"/"), b"/limux/settings.json");
}

#[test]
fn ensure_default_config_file_writes_default_sections() {
    let document = first_file(false, true).expect("a first file");
    let raw = text_of(&document);
    let parsed: Value = serde_json::from_str(&raw).expect("parse config");
    assert_eq!(parsed["focus"]["hover_terminal_focus"], Value::Bool(false));
    assert_eq!(
        parsed["appearance"]["color_scheme"],
        Value::String("dark".to_string())
    );
    assert_eq!(
        parsed["appearance"]["ghostty_color_scheme"],
        Value::String("dark".to_string())
    );
    assert_eq!(
        parsed["appearance"]["show_workspace_path"],
        Value::Bool(true)
    );
    assert_eq!(
        parsed["workspace"]["keep_open_after_last_terminal_closes"],
        Value::Bool(false)
    );
    assert_eq!(parsed["notifications"]["enabled"], Value::Bool(true));
    assert_eq!(
        parsed["notifications"]["sound"],
        Value::String("default".to_string())
    );
    assert_eq!(
        parsed["clipboard"]["copy_selection_to_clipboard"],
        Value::Bool(true)
    );
}

#[test]
fn load_from_path_reads_focus_settings_and_ignores_other_sections() {
    let loaded = load_text(
        r#"{
  "focus": {
    "hover_terminal_focus": true
  }
}
"#,
    );

    assert!(loaded.warnings.is_empty());
    assert!(loaded.config.focus.hover_terminal_focus);
}

#[test]
fn load_from_path_defaults_ghostty_scheme_to_gtk_scheme_for_legacy_configs() {
    let loaded = load_text(
        r#"{
  "appearance": {
    "color_scheme": "dark"
  }
}
"#,
    );

    assert!(loaded.warnings.is_empty());
    assert_eq!(loaded.config.appearance.color_scheme, ColorScheme::Dark);
    assert_eq!(
        loaded.config.appearance.ghostty_color_scheme,
        ColorScheme::Dark
    );
    assert_eq!(loaded.config.appearance.ui_scale.get(), DEFAULT_UI_SCALE);
}

#[test]
fn load_from_path_reads_and_clamps_ui_scale() {
    let loaded = load_text(
        r#"{
  "appearance": {
    "ui_scale": 3.0
  }
}
"#,
    );

    assert!(loaded.warnings.is_empty());
    assert_eq!(loaded.config.appearance.ui_scale.get(), MAX_UI_SCALE);
}

#[test]
fn load_from_path_reads_font_size_when_valid() {
    let loaded = load_text(
        r#"{
  "font_size": 18.5
}
"#,
    );

    assert!(loaded.warnings.is_empty());
    assert_eq!(loaded.config.font_size, Some(18.5f32.to_bits()));
}

#[test]
fn load_from_path_reads_notification_preferences() {
    let loaded = load_text(
        r#"{
  "notifications": {
    "enabled": false,
    "sound": "bell"
  }
}
"#,
    );

    assert!(loaded.warnings.is_empty());
    assert!(!loaded.config.notifications.enabled);
    assert_eq!(loaded.config.notifications.sound, NotificationSound::Bell);
}

#[test]
fn load_from_path_reads_clipboard_preferences() {
    let loaded = load_text(
        r#"{
  "clipboard": {
    "copy_selection_to_clipboard": false
  }
}
"#,
    );

    assert!(loaded.warnings.is_empty());
    assert!(!loaded.config.clipboard.copy_selection_to_clipboard);
}

#[test]
fn load_from_path_reads_workspace_path_visibility() {
    let loaded = load_text(
        r#"{
  "appearance": {
    "show_workspace_path": false
  }
}
"#,
    );

    assert!(loaded.warnings.is_empty());
    assert!(!loaded.config.appearance.show_workspace_path);
}

#[test]
fn load_from_path_reads_workspace_lifecycle_preference() {
    let loaded = load_text(
        r#"{
  "workspace": {
    "keep_open_after_last_terminal_closes": true
  }
}
"#,
    );

    assert!(loaded.warnings.is_empty());
    assert!(loaded.config.workspace.keep_open_after_last_terminal_closes);
}

#[test]
fn save_writes_gtk_and_ghostty_color_schemes() {
    let mut config = AppConfig::default();
    config.appearance.color_scheme = ColorScheme::Light;
    config.appearance.ghostty_color_scheme = ColorScheme::Dark;

    let parsed = saved_over(StoredSettings::Missing, &config);
    assert_eq!(
        parsed["appearance"]["color_scheme"],
        Value::String("light".to_string())
    );
    assert_eq!(
        parsed["appearance"]["ghostty_color_scheme"],
        Value::String("dark".to_string())
    );
    assert!(parsed["appearance"].get("ui_scale").is_none());
}

#[test]
fn save_to_path_writes_non_default_ui_scale() {
    let mut config = AppConfig::default();
    config.appearance.ui_scale = UiScale::new(1.5f32.to_bits()).expect("valid scale");

    let parsed = saved_over(StoredSettings::Missing, &config);
    assert_eq!(parsed["appearance"]["ui_scale"], Value::from(1.5));
}

#[test]
fn save_to_path_writes_workspace_path_visibility() {
    let mut config = AppConfig::default();
    config.appearance.show_workspace_path = false;

    let parsed = saved_over(StoredSettings::Missing, &config);
    assert_eq!(
        parsed["appearance"]["show_workspace_path"],
        Value::Bool(false)
    );
}

#[test]
fn save_to_path_writes_workspace_lifecycle_preference() {
    let mut config = AppConfig::default();
    config.workspace.keep_open_after_last_terminal_closes = true;

    let parsed = saved_over(StoredSettings::Missing, &config);
    assert_eq!(
        parsed["workspace"]["keep_open_after_last_terminal_closes"],
        Value::Bool(true)
    );
}

#[test]
fn save_preserves_unrelated_top_level_keys() {
    let stored = StoredSettings::Text(
        r#"{
  "custom": {
    "keep": true
  },
  "focus": {
    "hover_terminal_focus": false
  }
}
"#
        .to_string(),
    );

    let mut config = AppConfig::default();
    config.appearance.color_scheme = ColorScheme::Dark;

    let parsed = saved_over(stored, &config);
    assert_eq!(parsed["custom"]["keep"], Value::Bool(true));
    assert_eq!(
        parsed["appearance"]["color_scheme"],
        Value::String("dark".to_string())
    );
}

#[test]
fn save_to_path_writes_and_clears_font_size() {
    let mut config = AppConfig {
        font_size: Some(16.25f32.to_bits()),
        ..AppConfig::default()
    };
    let parsed = saved_over(StoredSettings::Missing, &config);
    assert_eq!(parsed["font_size"], Value::from(16.25));

    config.font_size = None;
    let parsed = saved_over(StoredSettings::Text(parsed.to_string()), &config);
    assert!(parsed.get("font_size").is_none());
}

#[test]
fn save_to_path_writes_notification_preferences() {
    let mut config = AppConfig::default();
    config.notifications.enabled = false;
    config.notifications.sound = NotificationSound::Alert;

    let parsed = saved_over(StoredSettings::Missing, &config);
    assert_eq!(parsed["notifications"]["enabled"], Value::Bool(false));
    assert_eq!(
        parsed["notifications"]["sound"],
        Value::String("alert".to_string())
    );
}

#[test]
fn save_to_path_writes_clipboard_preferences() {
    let mut config = AppConfig::default();
    config.clipboard.copy_selection_to_clipboard = false;

    let parsed = saved_over(StoredSettings::Missing, &config);
    assert_eq!(
        parsed["clipboard"]["copy_selection_to_clipboard"],
        Value::Bool(false)
    );
}

#[test]
fn notification_sound_maps_supported_freedesktop_events() {
    assert_eq!(
        NotificationSound::Message.freedesktop_sound_name(),
        Some("message-new-instant")
    );
    assert_eq!(
        NotificationSound::Bell.freedesktop_sound_name(),
        Some("bell-terminal")
    );
    assert_eq!(
        NotificationSound::Complete.freedesktop_sound_name(),
        Some("complete")
    );
    assert_eq!(
        NotificationSound::Alert.freedesktop_sound_name(),
        Some("dialog-warning")
    );
    assert_eq!(NotificationSound::Default.freedesktop_sound_name(), None);
    assert_eq!(NotificationSound::Silent.freedesktop_sound_name(), None);
}

#[test]
fn save_to_path_recovers_invalid_existing_json_by_backing_it_up() {
    let config = AppConfig::default();
    match save_over_text("not json", &config) {
        SavePlan::Write {
            backup: Some(detail),
            document,
        } => {
            assert!(detail.starts_with("existing app config is invalid JSON: "));
            let parsed = value_of(&document);
            assert_eq!(
                parsed["appearance"]["color_scheme"],
                Value::String("system".to_string())
            );
        }
        _ => panic!("save should recover"),
    }
    let backup = String::from_utf8(invalid_config_backup_path(b"settings.json", 7, 42)).unwrap();
    assert!(backup.contains(".settings.json.bak-"));
}

#[test]
fn load_from_path_falls_back_to_defaults_on_invalid_json() {
    let loaded = load_text("not json");

    assert_eq!(loaded.config, AppConfig::default());
    assert_eq!(loaded.warnings.len(), 1);
    assert!(loaded.warnings[0].contains("failed to load app config"));
}

#[test]
fn unusable_sources_load_defaults_with_one_warning() {
    let loaded = load(&SettingsSource::NoConfigDir);
    assert_eq!(loaded.config, AppConfig::default());
    assert_eq!(
        loaded.warnings,
        vec!["config_dir unavailable; using default app settings".to_string()]
    );

    let loaded = load(&SettingsSource::NotCreated {
        path: "/c/settings.json".to_string(),
        cause: "denied".to_string(),
    });
    assert_eq!(
        loaded.warnings,
        vec!["failed to create default app config `/c/settings.json`: denied".to_string()]
    );

    let loaded = load(&SettingsSource::Found {
        path: "/c/settings.json".to_string(),
        file: SettingsFile::Unreadable("denied".to_string()),
    });
    assert_eq!(
        loaded.warnings,
        vec!["failed to read app config `/c/settings.json`: denied".to_string()]
    );
}

#[test]
fn settings_of_other_types_take_their_defaults() {
    let loaded = load_text(
        r#"{
  "focus": true,
  "appearance": { "color_scheme": "blue", "ui_scale": "2", "show_workspace_path": 0 },
  "notifications": { "sound": "gong", "enabled": "no" },
  "font_size": 256
}"#,
    );
    assert_eq!(loaded.config, AppConfig::default());

    assert_eq!(load_text("[1, 2]").config, AppConfig::default());
}

#[test]
fn numbers_are_read_in_single_precision() {
    let scale_of = |text: &str| {
        let document = format!("{{ \"appearance\": {{ \"ui_scale\": {text} }} }}");
        f32::from_bits(load_text(&document).config.appearance.ui_scale.get())
    };
    assert_eq!(scale_of("1.1"), 1.1f32);
    assert_eq!(scale_of("1"), 1.0);
    assert_eq!(scale_of("2"), 2.0);
    assert_eq!(scale_of("0"), 0.8);
    assert_eq!(scale_of("-3"), 0.8);
    assert_eq!(scale_of("18446744073709551615"), 2.0);
    assert_eq!(scale_of("-9223372036854775808"), 0.8);
    assert_eq!(scale_of("1e300"), 1.0);
    assert_eq!(scale_of("1.00000005960464477539"), 1.0);

    let font_of = |text: &str| {
        load_text(&format!("{{ \"font_size\": {text} }}"))
            .config
            .font_size
            .map(f32::from_bits)
    };
    assert_eq!(font_of("1"), Some(1.0));
    assert_eq!(font_of("255"), Some(255.0));
    assert_eq!(font_of("255.000001"), Some(255.0));
    assert_eq!(font_of("255.1"), None);
    assert_eq!(font_of("0.99"), None);
    assert_eq!(font_of("-12"), None);
    assert_eq!(font_of("12.345"), Some(12.345));
}

#[test]
fn ui_scale_is_finite_and_bounded() {
    assert_eq!(UiScale::new(f32::NAN.to_bits()), None);
    assert_eq!(UiScale::new(f32::INFINITY.to_bits()), None);
    assert_eq!(UiScale::new(f32::NEG_INFINITY.to_bits()), None);
    let scale = |x: f32| UiScale::new(x.to_bits()).unwrap().get();
    assert_eq!(scale(0.1), MIN_UI_SCALE);
    assert_eq!(scale(-5.0), MIN_UI_SCALE);
    assert_eq!(scale(-0.0), MIN_UI_SCALE);
    assert_eq!(scale(7.0), MAX_UI_SCALE);
    assert_eq!(scale(1.25), 1.25f32.to_bits());
    assert_eq!(f32::from_bits(MIN_UI_SCALE), 0.8);
    assert_eq!(f32::from_bits(MAX_UI_SCALE), 2.0);
    assert_eq!(f32::from_bits(DEFAULT_UI_SCALE), 1.0);
}

#[test]
fn ui_scale_default_agrees_with_the_distance_from_one() {
    let first = 1.0f32.to_bits() - 5;
    for bits in first..first + 10 {
        let scale = UiScale::new(bits).unwrap();
        let expected = (f32::from_bits(bits) - 1.0).abs() < f32::EPSILON;
        assert_eq!(scale.is_default(), expected, "{bits:#x}");
    }
}

#[test]
fn saved_settings_are_loaded_again() {
    let mut config = AppConfig::default();
    config.focus.hover_terminal_focus = true;
    config.appearance.color_scheme = ColorScheme::Light;
    config.appearance.ghostty_color_scheme = ColorScheme::System;
    config.appearance.ui_scale = UiScale::new(1.35f32.to_bits()).unwrap();
    config.appearance.show_workspace_path = false;
    config.workspace.keep_open_after_last_terminal_closes = true;
    config.notifications.enabled = false;
    config.notifications.sound = NotificationSound::Silent;
    config.clipboard.copy_selection_to_clipboard = false;
    config.font_size = Some(13.7f32.to_bits());

    let parsed = saved_over(
        StoredSettings::Text("{ \"font_size\": 3, \"x\": [1, null] }".to_string()),
        &config,
    );
    let loaded = load_from_text("p", &parsed.to_string());
    assert_eq!(loaded.config, config);
    assert_eq!(parsed["x"], serde_json::from_str::<Value>("[1, null]").unwrap());

    let again = saved_over(StoredSettings::Text(parsed.to_string()), &config);
    assert_eq!(again, parsed);
}

#[test]
fn a_scale_just_below_one_is_not_kept() {
    let mut config = AppConfig::default();
    config.appearance.ui_scale = UiScale::new(0x3F7F_FFFF).unwrap();
    let parsed = saved_over(StoredSettings::Missing, &config);
    let loaded = load_from_text("p", &parsed.to_string());
    assert_eq!(loaded.config.appearance.ui_scale.get(), DEFAULT_UI_SCALE);
}

#[test]
fn a_font_size_that_is_no_number_is_saved_as_null() {
    let config = AppConfig {
        font_size: Some(f32::NAN.to_bits()),
        ..AppConfig::default()
    };
    let parsed = saved_over(StoredSettings::Missing, &config);
    assert_eq!(parsed["font_size"], Value::Null);
}

#[test]
fn a_save_backs_up_what_is_no_object_and_stops_at_what_cannot_be_read() {
    match save_over_text("[]", &AppConfig::default()) {
        SavePlan::Write {
            backup: Some(detail),
            ..
        } => assert_eq!(detail, "existing app config root must be a JSON object"),
        _ => panic!("expected a backup"),
    }
    match save_to_path(
        SettingsFile::Unreadable("denied".to_string()),
        &AppConfig::default(),
    ) {
        SavePlan::Refused(message) => assert_eq!(message, "denied"),
        _ => panic!("expected a refusal"),
    }
    match read_existing_config_root_for_save(SettingsFile::Missing) {
        ExistingRoot::Fields(fields) => assert!(fields.is_empty()),
        _ => panic!("expected no fields"),
    }
    assert_eq!(
        backup_failure("bad", "/a", "/b", "denied"),
        "bad; failed to back up `/a` to `/b`: denied"
    );
    assert_eq!(
        backup_notice("bad", "/a", "/b"),
        "limux: bad; backed up `/a` to `/b` before rewriting settings"
    );
}

#[test]
fn sibling_files_are_named_after_process_and_time() {
    assert_eq!(
        temp_config_path(b"/c/limux/settings.json", 17, 1_700_000_000_123_456_789_000),
        b"/c/limux/.settings.json.tmp-17-1700000000123456789000"
    );
    assert_eq!(
        invalid_config_backup_path(b"/c/\xff\xfe", 0, 5),
        b"/c/.settings.json.bak-0-5"
    );
    assert_eq!(temp_config_path(b"x", 1, 2), b".x.tmp-1-2");
    let path = std::path::Path::new("/c/limux/settings.json");
    assert_eq!(
        temp_config_path(b"/c/limux/settings.json", 1, 2),
        path.with_file_name(".settings.json.tmp-1-2").to_str().unwrap().as_bytes()
    );
}

#[test]
fn sibling_files_stand_beside_any_path() {
    let paths = [
        "", "/", "//", ".", "..", "./", "../", "a", "a/", "a//", "a/.", "a/./", "a/..", "a/../",
        "/a", "//a", "/./a", "./a", "././a", "../a", "a/b", "a//b", "a/./b", "a/././/b//.//",
        "/c/limux/settings.json", "/c/limux/settings.json/", "...", "a/...", ".a", "a/.b",
        "\u{e9}/\u{20ac}", "/a/../b", "a/..//", "./.",
    ];
    for text in paths {
        let path = std::path::Path::new(text);
        let name = path.file_name().and_then(|name| name.to_str()).unwrap_or("settings.json");
        let temp = temp_config_path(text.as_bytes(), 3, 9);
        let expected = path.with_file_name(format!(".{name}.tmp-3-9"));
        assert_eq!(temp, expected.to_str().unwrap().as_bytes(), "{text}");
        assert_ne!(temp, text.as_bytes());
        assert_ne!(temp, invalid_config_backup_path(text.as_bytes(), 3, 9));
        if path.file_name().is_some() {
            assert_eq!(expected.parent(), path.parent());
        }
        assert_eq!(
            path_name(text.as_bytes()),
            path.file_name().map(|name| name.to_str().unwrap().as_bytes().to_vec())
        );
        assert_eq!(
            rename_path(text.as_bytes(), b"x"),
            path.with_file_name("x").to_str().unwrap().as_bytes()
        );
    }
    assert_eq!(temp_config_path(b"a/", 1, 2), b".a.tmp-1-2");
    assert_eq!(temp_config_path(b"..", 1, 2), b"../.settings.json.tmp-1-2");
    assert_eq!(temp_config_path(b"a//b", 1, 2), b"a/.b.tmp-1-2");
}

#[test]
fn a_write_replaces_the_file_step_by_step() {
    let step = first_write_step(true);
    assert!(matches!(step, WriteStep::CreateParent));
    let step = next_write_step(step, Ok(()));
    assert!(matches!(step, WriteStep::WriteTemp));
    let step = next_write_step(step, Ok(()));
    assert!(matches!(step, WriteStep::RenameTemp));
    assert!(matches!(next_write_step(step, Ok(())), WriteStep::Done));

    let step = next_write_step(WriteStep::RenameTemp, Err("busy".to_string()));
    assert!(matches!(&step, WriteStep::RemoveTemp(cause) if cause == "busy"));
    let step = next_write_step(step, Ok(()));
    assert!(matches!(&step, WriteStep::Failed(cause) if cause == "busy"));

    let step = next_write_step(WriteStep::WriteTemp, Err("full".to_string()));
    assert!(matches!(&step, WriteStep::Failed(cause) if cause == "full"));

    let step = first_write_step(false);
    assert!(
        matches!(&step, WriteStep::Failed(cause) if cause == "config path has no parent directory")
    );
}

#[test]
fn a_failed_save_says_where() {
    assert_eq!(save(Some("/c/settings.json"), Ok(())), Ok(()));
    assert_eq!(
        save(Some("/c/settings.json"), Err("full".to_string())),
        Err("failed to save app config `/c/settings.json`: full".to_string())
    );
    assert_eq!(
        save(None, Ok(())),
        Err("config_dir unavailable; cannot save app settings".to_string())
    );
}

#[test]
fn names_and_positions_lead_back() {
    for scheme in [ColorScheme::System, ColorScheme::Dark, ColorScheme::Light] {
        assert_eq!(ColorScheme::from_str(scheme.as_str()), Some(scheme));
    }
    assert_eq!(ColorScheme::from_str("Dark"), None);
    let sounds = [
        NotificationSound::Default,
        NotificationSound::Message,
        NotificationSound::Bell,
        NotificationSound::Complete,
        NotificationSound::Alert,
        NotificationSound::Silent,
    ];
    let labels = NotificationSound::labels();
    assert_eq!(labels, ["Default", "Message", "Bell", "Complete", "Alert", "None"]);
    for sound in sounds {
        assert_eq!(NotificationSound::from_str(sound.as_str()), Some(sound));
        assert_eq!(
            NotificationSound::from_dropdown_index(sound.dropdown_index()),
            sound
        );
    }
    assert_eq!(NotificationSound::Silent.as_str(), "none");
    assert_eq!(NotificationSound::from_dropdown_index(99), NotificationSound::Default);
    assert_eq!(NotificationSound::from_str("gong"), None);
}

#[test]
fn a_first_file_is_made_only_where_there_is_none() {
    assert_eq!(first_file(false, true), Some(default_settings_document()));
    assert_eq!(first_file(true, true), None);
    assert_eq!(first_file(false, false), None);
    assert_eq!(first_file(true, false), None);
}

#[test]
fn texts_are_read_as_documents() {
    let document = |text: &str| match settings_in_text(text) {
        SettingsFile::Document(document) => document,
        _ => panic!("no document: {text}"),
    };
    let number = |n| Json::Number(n);
    assert_eq!(document("null"), Json::Null);
    assert_eq!(document(" true "), Json::Bool(true));
    assert_eq!(document("18446744073709551615"), number(JsonNumber::Unsigned(u64::MAX)));
    assert_eq!(document("0"), number(JsonNumber::Unsigned(0)));
    assert_eq!(document("-5"), number(JsonNumber::Negative(-5)));
    assert_eq!(document("1.5"), number(JsonNumber::Float(1.5f64.to_bits())));
    assert_eq!(document("-0.0"), number(JsonNumber::Float((-0.0f64).to_bits())));
    assert_eq!(document("1e3"), number(JsonNumber::Float(1000f64.to_bits())));
    assert_eq!(document("\"a\\u0062\""), Json::Text("ab".to_string()));
    assert_eq!(document("[1, []]"), Json::Array(vec![Json::unsigned(1), Json::Array(vec![])]));
    let object = document("{ \"a\": 1, \"b\": { \"c\": null }, \"a\": 2 }");
    assert_eq!(object.get("a"), Some(&Json::unsigned(2)));
    assert_eq!(object.get("b").unwrap().get("c"), Some(&Json::Null));
    for bad in ["", "{", "[1,]", "nul", "{\"a\" 1}", "1 2", "'x'"] {
        let cause = serde_json::from_str::<Value>(bad).unwrap_err().to_string();
        match settings_in_text(bad) {
            SettingsFile::Malformed(message) => assert_eq!(message, cause),
            _ => panic!("read {bad:?}"),
        }
        let loaded = load_from_text("/p", bad);
        assert_eq!(loaded.config, AppConfig::default());
        assert_eq!(loaded.warnings, vec![format!("failed to load app config `/p`: {cause}")]);
    }
}

#[test]
fn what_is_stored_is_told_apart() {
    assert!(matches!(settings_file(StoredSettings::Missing), SettingsFile::Missing));
    match settings_file(StoredSettings::Unreadable("denied".to_string())) {
        SettingsFile::Unreadable(cause) => assert_eq!(cause, "denied"),
        _ => panic!("read"),
    }
    match settings_file(StoredSettings::Text("7".to_string())) {
        SettingsFile::Document(document) => assert_eq!(document, Json::unsigned(7)),
        _ => panic!("not read"),
    }
}

#[test]
fn settings_come_back_from_the_text_that_a_save_leaves() {
    let first = 0.8f32.to_bits();
    let last = 2.0f32.to_bits();
    for i in 0..3000u32 {
        let mut config = AppConfig::default();
        let scale = first + ((last - first) as u64 * i as u64 / 2999) as u32;
        if scale == 0x3F7F_FFFF {
            continue;
        }
        config.appearance.ui_scale = UiScale::new(scale).unwrap();
        config.font_size = Some((1.0 + i as f32 * 0.0837).to_bits());
        config.notifications.sound = NotificationSound::Bell;
        config.focus.hover_terminal_focus = i % 2 == 0;
        let raw = text_saved_over("{ \"other\": 0.1 }", &config);
        let loaded = load_from_text("/p", &raw);
        assert_eq!(loaded.config, config, "{raw}");
        assert!(loaded.warnings.is_empty());
        assert_eq!(text_saved_over(&raw, &config), raw);
    }
}
