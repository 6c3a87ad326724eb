use lumaway::env_file::EnvValues;
use lumaway::i18n::Catalog;
use lumaway::gui_state::{
    bridge_id_display_text, color_profile_for_sync_mode, color_profile_index,
    default_intensity_for_sync_mode, format_bridge_title, format_capture_quality_summary,
    initial_duration_ms, initial_sync_mode, is_sync_failure_candidate, parse_key_value_words,
    parse_profile_list_output, preset_for_sync_mode, sanitize_color_profile,
    sanitize_profile_name, saved_flag, selected_area_index, ui_can_load_areas, AreaOption,
    IntensityLevel,
};
use lumaway::sync_mode::SyncMode;

fn saved(values: &[(&str, &str)]) -> EnvValues {
    let mut env = EnvValues::new();
    for (key, value) in values {
        env.insert((*key).to_string(), (*value).to_string());
    }
    env
}

fn area(id: &str, name: &str) -> AreaOption {
    AreaOption {
        id: id.to_string(),
        name: name.to_string(),
        lights: None,
    }
}

#[test]
fn bridge_id_display_text_placeholder_when_empty() {
    let none = Catalog::new();
    assert_eq!(bridge_id_display_text("", &none), "— (load zones after pairing)");
    assert_eq!(bridge_id_display_text("abc", &none), "abc");
    let mut french = Catalog::new();
    french.add("— (load zones after pairing)", "— (charger les zones après l'appairage)");
    assert_eq!(bridge_id_display_text("  ", &french), "— (charger les zones après l'appairage)");
    assert_eq!(bridge_id_display_text(" abc ", &french), "abc");
}

#[test]
fn format_bridge_title_includes_id_when_present() {
    assert_eq!(
        format_bridge_title("Salon", "001788fffe123456"),
        "Salon (001788fffe123456)"
    );
    assert_eq!(format_bridge_title("Salon", ""), "Salon");
}

#[test]
fn parses_profile_list_output() {
    let profiles = parse_profile_list_output(
        "profile name=alpha path=/tmp/lumaway/profiles/alpha.env\n\
         ignored line\n\
         profile name=zeta path=/tmp/lumaway/profiles/zeta.env\n",
    );

    assert_eq!(profiles, vec!["alpha", "zeta"]);
}

#[test]
fn formats_capture_quality_summary() {
    let summary = format_capture_quality_summary(
        "capture_quality area_id=area area_name=TV capture_backend=cpu sampling=Region frames=30 channels=2 avg_luma=84.2 avg_saturation=0.318 avg_frame_delta=12.4 max_frame_delta=60.0 avg_channel_separation=31.7 dark_frames=0 recommendation=usable hint=capture_is_usable_tune_color_profile_if_needed warnings=none",
    )
    .unwrap();

    assert!(summary.contains("Capture quality: usable"));
    assert!(summary.contains("area: TV, action: capture is usable"));
    assert!(summary.contains("backend: cpu"));
    assert!(summary.contains("luma: 84.2"));
    assert!(summary.contains("channel separation: 31.7"));
    assert!(summary.contains("warnings: none"));
}

#[test]
fn formats_single_channel_capture_quality_action() {
    let summary = format_capture_quality_summary(
        "capture_quality area_id=area area_name=Bureau capture_backend=cpu sampling=Region frames=30 channels=1 avg_luma=66.1 avg_saturation=0.540 avg_frame_delta=0.0 max_frame_delta=0.0 avg_channel_separation=0.0 dark_frames=0 recommendation=single_channel_area hint=choose_multi_channel_area_for_correlation_test warnings=low_temporal_variation",
    )
    .unwrap();

    assert!(summary.contains("Capture quality: single_channel_area"));
    assert!(summary.contains("choose TV or another multi-light"));
    assert!(summary.contains("channels: 1"));
}

#[test]
fn formats_capture_quality_secondary_warnings() {
    let summary = format_capture_quality_summary(
        "capture_quality area_id=area area_name=TV capture_backend=cpu sampling=Region frames=30 channels=2 avg_luma=39.1 avg_saturation=0.067 avg_frame_delta=0.0 max_frame_delta=0.0 avg_channel_separation=8.7 dark_frames=0 recommendation=low_temporal_variation hint=test_with_moving_or_contrasting_windows warnings=low_luma,low_saturation,low_temporal_variation",
    )
    .unwrap();

    assert!(summary.contains("Capture quality: low_temporal_variation"));
    assert!(summary.contains("warnings: low_luma,low_saturation,low_temporal_variation"));
    assert!(summary.contains("channel separation: 8.7"));
}

#[test]
fn capture_quality_summary_needs_a_quality_line() {
    assert_eq!(format_capture_quality_summary("unrelated\nlines"), None);
    let summary = format_capture_quality_summary(
        "noise\n  capture_quality recommendation=usable\n",
    )
    .unwrap();
    assert!(summary.contains("Capture quality: usable"));
}

#[test]
fn keeps_saved_area_after_automatic_area_loading() {
    let areas = vec![area("living-room", "Salon"), area("tv-zone", "TV")];

    assert_eq!(selected_area_index(&areas, "tv-zone"), Some(1));
    assert_eq!(selected_area_index(&areas, "TV"), Some(1));
    assert_eq!(selected_area_index(&areas, ""), Some(0));
    assert_eq!(selected_area_index(&areas, "missing"), Some(0));
    assert_eq!(selected_area_index(&[], "TV"), None);
}

#[test]
fn sanitizes_profile_names_before_writing_env() {
    assert_eq!(sanitize_profile_name(" tv "), "tv");
    assert_eq!(sanitize_color_profile("boosted"), "boosted");
    assert_eq!(sanitize_profile_name("../tv"), "");
    assert_eq!(sanitize_profile_name("room/tv"), "");
    assert_eq!(sanitize_profile_name(".."), "");
}

#[test]
fn initial_sync_mode_reads_v1_config_and_legacy_preset() {
    assert_eq!(
        initial_sync_mode(&saved(&[("LUMAWAY_SYNC_MODE", "game")])),
        SyncMode::Game
    );
    assert_eq!(
        initial_sync_mode(&saved(&[("LUMAWAY_PRESET", "desktop-wayland")])),
        SyncMode::Desktop
    );
    assert_eq!(
        initial_sync_mode(&saved(&[("LUMAWAY_SYNC_MODE", "music")])),
        SyncMode::Video
    );
    assert_eq!(initial_sync_mode(&saved(&[])), SyncMode::Video);
}

#[test]
fn presets_and_color_profiles_follow_screen_modes() {
    assert_eq!(preset_for_sync_mode(SyncMode::Video), "video-wayland");
    assert_eq!(preset_for_sync_mode(SyncMode::Game), "game-wayland");
    assert_eq!(preset_for_sync_mode(SyncMode::Desktop), "desktop-wayland");
    assert_eq!(preset_for_sync_mode(SyncMode::Music), "video-wayland");

    assert_eq!(color_profile_for_sync_mode(SyncMode::Video), "vivid");
    assert_eq!(color_profile_for_sync_mode(SyncMode::Game), "game");
    assert_eq!(color_profile_for_sync_mode(SyncMode::Desktop), "desktop");
    assert_eq!(color_profile_for_sync_mode(SyncMode::Music), "vivid");
}

#[test]
fn intensity_levels_match_reactivity_contract() {
    assert_eq!(IntensityLevel::Subtle.reactivity_percent() as f64, 20.0);
    assert_eq!(IntensityLevel::Moderate.reactivity_percent() as f64, 35.0);
    assert_eq!(IntensityLevel::High.reactivity_percent() as f64, 65.0);
    assert_eq!(IntensityLevel::Max.reactivity_percent() as f64, 90.0);
    assert_eq!(IntensityLevel::High.label(), "High");
}

#[test]
fn game_mode_defaults_to_high_intensity_without_saved_reactivity() {
    assert_eq!(
        default_intensity_for_sync_mode(SyncMode::Game),
        IntensityLevel::High
    );
    assert_eq!(
        default_intensity_for_sync_mode(SyncMode::Video),
        IntensityLevel::Moderate
    );
    assert_eq!(
        default_intensity_for_sync_mode(SyncMode::Music),
        IntensityLevel::Moderate
    );
}

#[test]
fn detects_sync_failure_candidates_from_engine_logs() {
    assert!(is_sync_failure_candidate(
        "WARN lumaway: DTLS connect attempt failed attempt=3 error=handshake failed"
    ));
    assert!(is_sync_failure_candidate("Error: portal returned no streams"));
    assert!(is_sync_failure_candidate(
        "Error: Hue request failed: connection timed out"
    ));
    assert!(!is_sync_failure_candidate(
        "INFO lumaway: selected portal stream node_id=112"
    ));
}

#[test]
fn saved_flags_accept_the_usual_true_spellings() {
    let env = saved(&[("A", "1"), ("B", "YES"), ("C", "no"), ("D", "True")]);
    assert!(saved_flag(&env, "A"));
    assert!(saved_flag(&env, "B"));
    assert!(!saved_flag(&env, "C"));
    assert!(!saved_flag(&env, "D"));
    assert!(!saved_flag(&env, "missing"));
}

#[test]
fn duration_prefers_environment_then_saved_value() {
    let env = saved(&[("LUMAWAY_DURATION_MS", "1500")]);
    assert_eq!(initial_duration_ms(Some("250"), &env), 250);
    assert_eq!(initial_duration_ms(None, &env), 1500);
    assert_eq!(initial_duration_ms(Some("-4"), &env), 0);
    assert_eq!(initial_duration_ms(Some("abc"), &env), 0);
    assert_eq!(initial_duration_ms(None, &saved(&[])), 0);
}

#[test]
fn color_profiles_are_checked_and_indexed() {
    assert_eq!(sanitize_color_profile("VIVID"), "vivid");
    assert_eq!(sanitize_color_profile("unknown"), "vivid");
    assert_eq!(color_profile_index("game"), color_profile_index("game"));
    assert_ne!(color_profile_index("game"), color_profile_index("vivid"));
}

#[test]
fn areas_load_only_with_bridge_and_key() {
    assert!(ui_can_load_areas("192.168.1.2", "key"));
    assert!(!ui_can_load_areas("  ", "key"));
    assert!(!ui_can_load_areas("192.168.1.2", ""));
}

#[test]
fn key_value_words_are_split_on_first_equals() {
    let fields = parse_key_value_words("capture_quality a=1 b=x=y c");
    assert_eq!(fields.get("a"), Some("1".to_string()));
    assert_eq!(fields.get("b"), Some("x=y".to_string()));
    assert_eq!(fields.get("c"), None);
}
