use lumaway::env_file::{migrate_lumaway_env_v1, parse_env_text, upsert_env_text, EnvValues};
use lumaway::error::CoreError;
use lumaway::portal::normalize_restore_token;
use lumaway::sync_mode::{
    config_v1_updates, resolve_sync_mode, SyncMode, CONFIG_VERSION_KEY, CURRENT_CONFIG_VERSION,
    LEGACY_PRESET_KEY, SYNC_MODE_KEY,
};

#[test]
fn parses_public_sync_modes() {
    assert_eq!("video".parse::<SyncMode>().unwrap(), SyncMode::Video);
    assert_eq!("game".parse::<SyncMode>().unwrap(), SyncMode::Game);
    assert_eq!("desktop".parse::<SyncMode>().unwrap(), SyncMode::Desktop);
    assert_eq!("music".parse::<SyncMode>().unwrap(), SyncMode::Music);
    assert!("scene".parse::<SyncMode>().is_err());
}

#[test]
fn sync_mode_parse_normalizes_and_explains() {
    assert_eq!(SyncMode::parse("  GAME ").unwrap(), SyncMode::Game);
    assert_eq!(
        SyncMode::parse(" Scene_X ").unwrap_err(),
        "unsupported sync mode `scene-x`; expected video, game, desktop, or music"
    );
}

#[test]
fn maps_legacy_presets_to_modes() {
    assert_eq!(SyncMode::from_preset_alias("tv-wayland"), Some(SyncMode::Video));
    assert_eq!(SyncMode::from_preset_alias("video-wayland"), Some(SyncMode::Video));
    assert_eq!(SyncMode::from_preset_alias("game-wayland"), Some(SyncMode::Game));
    assert_eq!(SyncMode::from_preset_alias("desktop-wayland"), Some(SyncMode::Desktop));
}

#[test]
fn preset_aliases_accept_underscores_and_case() {
    assert_eq!(SyncMode::from_preset_alias(" Desktop_Wayland "), Some(SyncMode::Desktop));
    assert_eq!(SyncMode::from_preset_alias("music-wayland"), None);
}

#[test]
fn mode_names_presets_and_profiles() {
    assert_eq!(SyncMode::Video.as_env_value(), "video");
    assert_eq!(SyncMode::Music.as_env_value(), "music");
    assert_eq!(SyncMode::Game.default_preset(), Some("game-wayland"));
    assert_eq!(SyncMode::Music.default_preset(), None);
    assert_eq!(SyncMode::Video.default_color_profile(), "vivid");
    assert_eq!(SyncMode::Desktop.default_color_profile(), "desktop");
}

#[test]
fn resolves_mode_from_mode_then_preset() {
    assert_eq!(resolve_sync_mode(Some("music"), Some("game-wayland")), SyncMode::Music);
    assert_eq!(resolve_sync_mode(Some("bogus"), Some("game-wayland")), SyncMode::Game);
    assert_eq!(resolve_sync_mode(None, Some("bogus")), SyncMode::Video);
    assert_eq!(resolve_sync_mode(None, None), SyncMode::Video);
}

#[test]
fn migration_adds_config_version_and_mode_from_legacy_preset() {
    let mut values = EnvValues::new();
    values.insert(LEGACY_PRESET_KEY.to_string(), "game-wayland".to_string());
    let updates = config_v1_updates(&values);
    assert!(updates.contains(&(CONFIG_VERSION_KEY, CURRENT_CONFIG_VERSION.to_string())));
    assert!(updates.contains(&(SYNC_MODE_KEY, "game".to_string())));
}

#[test]
fn migration_is_empty_for_current_config() {
    let mut values = EnvValues::new();
    values.insert(CONFIG_VERSION_KEY.to_string(), " 1 ".to_string());
    values.insert(SYNC_MODE_KEY.to_string(), "music".to_string());
    assert!(config_v1_updates(&values).is_empty());
}

#[test]
fn env_values_later_entries_win() {
    let mut values = EnvValues::new();
    values.insert("A".to_string(), "1".to_string());
    values.insert("B".to_string(), "2".to_string());
    values.insert("A".to_string(), "3".to_string());
    assert_eq!(values.get("A"), Some("3".to_string()));
    assert_eq!(values.get("B"), Some("2".to_string()));
    assert_eq!(values.get("C"), None);
    assert!(values.contains_key("B"));
}

#[test]
fn parses_env_text_lines() {
    let values = parse_env_text("# comment\n  KEY = value  \r\nEMPTY=\nnoequals\n=x\nKEY=second\n");
    assert_eq!(values.get("KEY"), Some("second".to_string()));
    assert_eq!(values.get("EMPTY"), Some(String::new()));
    assert_eq!(values.get(""), Some("x".to_string()));
    assert!(!values.contains_key("noequals"));
    assert!(!values.contains_key("# comment"));
}

#[test]
fn upsert_preserves_comments_and_patches_keys() {
    let text = upsert_env_text(
        Some("# comment\nLUMAWAY_BRIDGE=1.2.3.4\n"),
        &[("LUMAWAY_BRIDGE", "10.0.0.2"), ("LUMAWAY_BRIDGE_ID", "abc")],
    );
    assert!(text.contains("# comment"));
    assert!(text.contains("LUMAWAY_BRIDGE=10.0.0.2"));
    assert!(text.contains("LUMAWAY_BRIDGE_ID=abc"));
    assert_eq!(text, "# comment\nLUMAWAY_BRIDGE=10.0.0.2\nLUMAWAY_BRIDGE_ID=abc\n");
}

#[test]
fn upsert_trims_keys_and_skips_blank_ones() {
    assert_eq!(upsert_env_text(None, &[(" K ", " v"), ("  ", "x")]), "K= v\n");
    assert_eq!(upsert_env_text(None, &[]), "");
    assert_eq!(upsert_env_text(Some("K=1\nK=2\n"), &[("K", "3")]), "K=3\nK=2\n");
}

#[test]
fn upsert_then_read_gives_value() {
    let text = upsert_env_text(Some("A=1\n# c\nB=2"), &[("B", "  new  ")]);
    let values = parse_env_text(&text);
    assert_eq!(values.get("B"), Some("new".to_string()));
    assert_eq!(values.get("A"), Some("1".to_string()));
}

#[test]
fn migrate_adds_config_version_and_sync_mode_without_dropping_existing_keys() {
    let text = migrate_lumaway_env_v1(
        "# comment\nLUMAWAY_BRIDGE=1.2.3.4\nLUMAWAY_PRESET=desktop-wayland\n",
    )
    .unwrap();
    assert!(text.contains("# comment"));
    assert!(text.contains("LUMAWAY_BRIDGE=1.2.3.4"));
    assert!(text.contains("LUMAWAY_CONFIG_VERSION=1"));
    assert!(text.contains("LUMAWAY_SYNC_MODE=desktop"));
    assert_eq!(migrate_lumaway_env_v1(&text), None);
}

#[test]
fn normalizes_restore_token() {
    assert_eq!(normalize_restore_token(Some(" token ")).as_deref(), Some("token"));
    assert_eq!(normalize_restore_token(Some("   ")), None);
    assert_eq!(normalize_restore_token(None), None);
}

#[test]
fn core_error_messages() {
    assert_eq!(CoreError::CaptureTimeout.message(), "capture timed out waiting for a frame");
    assert_eq!(
        CoreError::Io { path: "/x".into(), source: "denied".into() }.message(),
        "failed to access /x: denied"
    );
    assert_eq!(CoreError::MissingElement("appsink").message(), "GStreamer element not found: appsink");
}
