use lumaway::presets::{
    deadline_reached, effective_capture_poll_timeout, effective_pipewire_fps, ensure_screen_mode,
    expected_frames, frame_delay_for_fps, resolve_color_profile, resolve_preset_for_mode,
    CaptureBackend, ColorProfile, SamplingMode, SyncPreset, SyncPresetConfig,
};
use lumaway::profile_env::{
    default_profile_text, is_main_env_key, is_profile_key, lumaway_main_env_path, main_env_path,
    persist_bridge_identity, profile_path,
};
use lumaway::sync_mode::SyncMode;
use lumaway::sync_stats::{capture_quality_hint, StageStats};
use lumaway::validation::{parse_capture_poll_ms_list, validate_capture_poll_ms, validate_fps};
use std::time::Duration;

#[test]
fn profile_path_rejects_path_traversal_names() {
    let home = "/home/user/.config";
    assert!(profile_path(home, "").is_err());
    assert!(profile_path(home, "../tv").is_err());
    assert!(profile_path(home, "room/tv").is_err());
    assert!(profile_path(home, "..").is_err());
    assert!(profile_path(home, "tv").unwrap().ends_with("lumaway/profiles/tv.env"));
}

#[test]
fn profile_path_trims_and_reports_names() {
    assert_eq!(profile_path("/cfg", " tv ").unwrap(), "/cfg/lumaway/profiles/tv.env");
    assert_eq!(profile_path("/cfg/", "tv").unwrap(), "/cfg/lumaway/profiles/tv.env");
    assert_eq!(profile_path("/cfg", " a\\b ").unwrap_err(), "invalid profile name: a\\b");
    assert_eq!(profile_path("/cfg", ".").unwrap_err(), "invalid profile name: .");
}

#[test]
fn profile_keys_are_limited_to_non_secret_capture_settings() {
    assert!(is_profile_key("LUMAWAY_CAPTURE_BACKEND"));
    assert!(is_profile_key("LUMAWAY_COLOR_PROFILE"));
    assert!(!is_profile_key("LUMAWAY_APP_KEY"));
    assert!(!is_profile_key("LUMAWAY_CLIENT_KEY"));
}

#[test]
fn main_env_keys() {
    assert!(is_main_env_key("LUMAWAY_BRIDGE"));
    assert!(is_main_env_key("RUST_LOG"));
    assert!(!is_main_env_key("IGNORED"));
    assert_eq!(main_env_path(), "lumaway/lumaway.env");
    assert_eq!(lumaway_main_env_path(), "lumaway/lumaway.env");
}

#[test]
fn default_profile_text_writes_sample_size() {
    let text = default_profile_text("auto", 120, -68);
    assert!(text.starts_with("LUMAWAY_SYNC_MODE=video\nLUMAWAY_CAPTURE_BACKEND=auto\n"));
    assert!(text.contains("LUMAWAY_SAMPLE_WIDTH=120\nLUMAWAY_SAMPLE_HEIGHT=-68\n"));
    assert!(text.ends_with("LUMAWAY_NOISE_THRESHOLD=3\n"));
}

#[test]
fn persist_bridge_identity_writes_env_key() {
    let text = persist_bridge_identity(None, "192.168.0.42", "001788fffeabc123").unwrap();
    assert_eq!(text, "LUMAWAY_BRIDGE_ID=001788fffeabc123\n");
    let values = lumaway::env_file::parse_env_text(&text);
    assert_eq!(values.get("LUMAWAY_BRIDGE_ID"), Some("001788fffeabc123".to_string()));
    assert_eq!(persist_bridge_identity(Some("A=1\n"), " ", "id"), None);
    assert_eq!(
        persist_bridge_identity(Some("LUMAWAY_BRIDGE_ID=old\nA=1\n"), "ip", " new "),
        Some("LUMAWAY_BRIDGE_ID=new\nA=1\n".to_string())
    );
}

#[test]
fn capture_quality_hints_match_recommendations() {
    assert_eq!(
        capture_quality_hint("single_channel_area"),
        "choose_multi_channel_area_for_correlation_test"
    );
    assert_eq!(
        capture_quality_hint("low_spatial_separation"),
        "use_region_sampling_or_adjust_channel_regions"
    );
    assert_eq!(
        capture_quality_hint("usable"),
        "capture_is_usable_tune_color_profile_if_needed"
    );
    assert_eq!(capture_quality_hint("other"), "inspect_sample_debug");
}

#[test]
fn stage_stats_tracks_total_and_max() {
    let mut stats = StageStats::default();
    stats.record(Duration::from_millis(2).as_nanos());
    stats.record(Duration::from_millis(6).as_nanos());
    stats.record(Duration::from_millis(1).as_nanos());
    assert_eq!(stats.samples(), 3);
    assert_eq!(stats.total_nanos(), 9_000_000);
    assert_eq!(stats.max_nanos(), 6_000_000);
}

#[test]
fn frame_delay_uses_sub_millisecond_precision() {
    assert_eq!(
        Duration::from_micros(frame_delay_for_fps(50)),
        Duration::from_millis(20)
    );
    assert_eq!(
        Duration::from_micros(frame_delay_for_fps(60)),
        Duration::from_micros(16_666)
    );
}

#[test]
fn validate_fps_rejects_zero() {
    assert!(validate_fps("fps", 0).is_err());
    assert!(validate_fps("fps", 1).is_ok());
    assert_eq!(validate_fps("stream-fps", 0).unwrap_err(), "stream-fps must be greater than zero");
}

#[test]
fn validate_capture_poll_ms_rejects_invalid_values() {
    assert!(validate_capture_poll_ms(0).is_err());
    assert!(validate_capture_poll_ms(101).is_err());
    assert!(validate_capture_poll_ms(5).is_ok());
    assert!(validate_capture_poll_ms(100).is_ok());
}

#[test]
fn effective_pipewire_fps_defaults_to_highest_cadence() {
    assert_eq!(effective_pipewire_fps(None, 10, 25).unwrap(), 25);
    assert_eq!(effective_pipewire_fps(None, 30, 25).unwrap(), 30);
    assert_eq!(effective_pipewire_fps(Some(60), 10, 25).unwrap(), 60);
    assert!(effective_pipewire_fps(Some(0), 10, 25).is_err());
    assert!(effective_pipewire_fps(None, 0, 0).is_err());
}

#[test]
fn video_wayland_preset_matches_validated_real_hue_settings() {
    let preset = SyncPresetConfig::from(SyncPreset::VideoWayland);
    assert_eq!(preset.capture_fps, 8);
    assert_eq!(preset.stream_fps, 25);
    assert_eq!(preset.pipewire_fps, 25);
    assert!(matches!(preset.capture_backend, CaptureBackend::Cpu));
    assert_eq!(preset.capture_poll_ms, 5);
    assert!(matches!(preset.sampling, SamplingMode::Region));
    assert!(!preset.auto_crop);
    assert_eq!(preset.max_step, None);
}

#[test]
fn tv_wayland_stays_alias_for_video_wayland() {
    let video = SyncPresetConfig::from(SyncPreset::VideoWayland);
    let legacy = SyncPresetConfig::from(SyncPreset::TvWayland);
    assert_eq!(legacy.capture_fps, video.capture_fps);
    assert_eq!(legacy.stream_fps, video.stream_fps);
    assert_eq!(legacy.pipewire_fps, video.pipewire_fps);
    assert!(matches!(legacy.capture_backend, CaptureBackend::Cpu));
    assert!(matches!(legacy.sampling, SamplingMode::Region));
    assert_eq!(legacy.max_step, video.max_step);
}

#[test]
fn mode_presets_have_distinct_capture_cadence() {
    let video = SyncPresetConfig::from(SyncPreset::VideoWayland);
    let game = SyncPresetConfig::from(SyncPreset::GameWayland);
    let desktop = SyncPresetConfig::from(SyncPreset::DesktopWayland);
    assert_eq!(video.capture_fps, 8);
    assert_eq!(game.capture_fps, 12);
    assert_eq!(desktop.capture_fps, 6);
}

#[test]
fn presets_follow_modes() {
    assert_eq!(SyncPreset::from_sync_mode(SyncMode::Game), Some(SyncPreset::GameWayland));
    assert_eq!(SyncPreset::from_sync_mode(SyncMode::Music), None);
    assert_eq!(SyncPreset::TvWayland.sync_mode(), SyncMode::Video);
    assert_eq!(
        resolve_preset_for_mode(Some(SyncMode::Desktop), Some(SyncPreset::GameWayland)),
        Some(SyncPreset::DesktopWayland)
    );
    assert_eq!(
        resolve_preset_for_mode(Some(SyncMode::Music), Some(SyncPreset::GameWayland)),
        Some(SyncPreset::GameWayland)
    );
    assert_eq!(resolve_preset_for_mode(None, None), None);
}

#[test]
fn screen_mode_and_color_profile_rules() {
    assert!(ensure_screen_mode(Some(SyncMode::Video)).is_ok());
    assert!(ensure_screen_mode(None).is_ok());
    assert_eq!(
        ensure_screen_mode(Some(SyncMode::Music)).unwrap_err(),
        "LUMAWAY_SYNC_MODE=music requires the future audio-sync command"
    );
    assert_eq!(resolve_color_profile(Some(SyncMode::Game), Some(ColorProfile::Soft)), ColorProfile::Game);
    assert_eq!(resolve_color_profile(None, Some(ColorProfile::Cinema)), ColorProfile::Cinema);
    assert_eq!(resolve_color_profile(None, None), ColorProfile::Vivid);
    assert_eq!(resolve_color_profile(Some(SyncMode::Music), None), ColorProfile::Vivid);
    assert_eq!(CaptureBackend::Gl.label(), "gl");
}

#[test]
fn parses_capture_poll_ms_list() {
    assert_eq!(parse_capture_poll_ms_list("5, 8,20").unwrap(), vec![5, 8, 20]);
    assert!(parse_capture_poll_ms_list("").is_err());
    assert!(parse_capture_poll_ms_list("0").is_err());
}

#[test]
fn capture_poll_list_errors() {
    assert_eq!(parse_capture_poll_ms_list(" , ,").unwrap_err(), "at least one capture poll value is required");
    assert_eq!(parse_capture_poll_ms_list("5,x,0").unwrap_err(), "invalid capture poll value: x");
    assert_eq!(
        parse_capture_poll_ms_list("5,101").unwrap_err(),
        "capture-poll-ms must be lower than or equal to 100"
    );
    assert_eq!(parse_capture_poll_ms_list("+7,,9").unwrap(), vec![7, 9]);
    assert_eq!(
        parse_capture_poll_ms_list("18446744073709551616").unwrap_err(),
        "invalid capture poll value: 18446744073709551616"
    );
}

#[test]
fn effective_capture_poll_timeout_keeps_half_stream_budget() {
    assert_eq!(
        effective_capture_poll_timeout(
            Duration::from_millis(8).as_nanos(),
            Duration::from_millis(40).as_nanos()
        ),
        Duration::from_millis(20).as_nanos()
    );
    assert_eq!(
        effective_capture_poll_timeout(
            Duration::from_millis(25).as_nanos(),
            Duration::from_millis(40).as_nanos()
        ),
        Duration::from_millis(25).as_nanos()
    );
}

#[test]
fn expected_frames_uses_whole_duration_frames() {
    assert_eq!(expected_frames(10_000, 10), 100);
    assert_eq!(expected_frames(5_500, 25), 137);
    assert_eq!(expected_frames(u64::MAX, 2), u64::MAX / 1000);
}

#[test]
fn deadlines() {
    assert!(!deadline_reached(None, 5));
    assert!(deadline_reached(Some(5), 5));
    assert!(!deadline_reached(Some(6), 5));
}
