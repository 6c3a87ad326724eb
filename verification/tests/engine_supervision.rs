use lumaway::env_file::{parse_env_text, EnvValues};
use lumaway::gui_flow::{
    bin_override_rejection, check_sync_start, error_response, forwarded_saved_env, health_header,
    unexpected_stop_header, zone_controls, AfterExit, EngineExit, ErrorResponse, FileFacts,
    HeaderKind, HeaderTone, SyncSupervisor,
};
use lumaway::gui_state::{capture_status_from_log, initial_sync_mode};
use lumaway::sync_mode::SyncMode;
use lumaway::window_settings::{settings_file_text, WindowSettings};

fn settings(mode: SyncMode, bridge_id: &str) -> WindowSettings {
    WindowSettings {
        sync_mode: mode,
        bridge: "192.168.1.2".to_string(),
        bridge_id: bridge_id.to_string(),
        area: "tv-zone".to_string(),
        app_key: "app".to_string(),
        client_key: "client".to_string(),
        duration_ms: 0,
        brightness: "0.80".to_string(),
        reactivity: "0.35".to_string(),
        profile: " tv ".to_string(),
        color_profile: "game".to_string(),
        autostart: true,
    }
}

#[test]
fn headers_follow_the_setup_health() {
    assert_eq!(health_header("", "key"), HeaderKind::BridgeNotConfigured);
    assert_eq!(health_header("192.168.1.2", " "), HeaderKind::BridgeNeedsPairing);
    assert_eq!(health_header("192.168.1.2", "key"), HeaderKind::BridgeConfigured);
    assert_eq!(
        HeaderKind::PairingRequired.texts(),
        ("Pairing required", "Press Pair in Settings", HeaderTone::Warning)
    );
}

#[test]
fn errors_pick_their_header() {
    assert_eq!(
        error_response("Error: Hue bridge authentication failed", false),
        ErrorResponse::Header(HeaderKind::PairingRequired)
    );
    assert_eq!(
        error_response("Error: portal returned no streams", false),
        ErrorResponse::Header(HeaderKind::CaptureStopped)
    );
    assert_eq!(
        error_response("something odd", true),
        ErrorResponse::Header(HeaderKind::BridgeNotConnected)
    );
    assert_eq!(error_response("something odd", false), ErrorResponse::CheckHealth);
    assert_eq!(unexpected_stop_header(None), HeaderKind::SyncStopped);
    assert_eq!(
        unexpected_stop_header(Some("Error: portal returned no streams")),
        HeaderKind::CaptureStopped
    );
}

#[test]
fn start_requires_zone_and_keys() {
    assert_eq!(check_sync_start(false, "b", "a", "k", "c").unwrap_err(), "zone is off");
    assert_eq!(
        check_sync_start(true, "  ", "a", "k", "c").unwrap_err(),
        "bridge address, zone, and keys are required"
    );
    assert_eq!(
        check_sync_start(true, "b", "a", "k", "").unwrap_err(),
        "bridge address, zone, and keys are required"
    );
    assert!(check_sync_start(true, "b", "a", "k", "c").is_ok());
    let controls = zone_controls(false, "tv", false);
    assert!(controls.intensity && !controls.start);
    assert!(zone_controls(true, "", false).start);
    assert!(zone_controls(false, "tv", true).start);
}

#[test]
fn only_set_pinning_and_identity_settings_reach_the_engine() {
    let mut saved = EnvValues::new();
    saved.insert("LUMAWAY_BRIDGE_ID".to_string(), " 0017 ".to_string());
    saved.insert("LUMAWAY_HUE_PIN_MODE".to_string(), "  ".to_string());
    saved.insert("LUMAWAY_DTLS_USE_APP_KEY".to_string(), "1".to_string());
    saved.insert("LUMAWAY_APP_KEY".to_string(), "secret".to_string());
    let forwarded = forwarded_saved_env(&saved);
    assert_eq!(
        forwarded,
        vec![
            ("LUMAWAY_BRIDGE_ID".to_string(), "0017".to_string()),
            ("LUMAWAY_DTLS_USE_APP_KEY".to_string(), "1".to_string()),
        ]
    );
}

#[test]
fn requested_stop_is_not_reported() {
    let mut supervisor = SyncSupervisor::new();
    assert!(!supervisor.request_stop());
    supervisor.on_started();
    supervisor.on_log_line("WARN lumaway: DTLS connect attempt failed attempt=3");
    assert!(supervisor.request_stop());
    let (after, failure) = supervisor.on_exit(EngineExit::Exited { success: false }, true, false);
    assert_eq!(after, AfterExit::Idle);
    assert_eq!(
        failure.as_deref(),
        Some("WARN lumaway: DTLS connect attempt failed attempt=3")
    );
    assert!(!supervisor.is_running());
}

#[test]
fn unexpected_exit_is_reported_with_the_last_failure() {
    let mut supervisor = SyncSupervisor::new();
    supervisor.on_started();
    supervisor.on_log_line("INFO lumaway: selected portal stream node_id=112");
    supervisor.on_log_line("Error: portal returned no streams");
    supervisor.on_log_line("INFO lumaway: shutting down");
    let (after, failure) = supervisor.on_exit(EngineExit::Exited { success: false }, true, true);
    assert_eq!(after, AfterExit::ReportFailure);
    assert_eq!(failure.as_deref(), Some("Error: portal returned no streams"));

    supervisor.on_started();
    let (after, _) = supervisor.on_exit(EngineExit::WaitFailed, true, true);
    assert_eq!(after, AfterExit::ReportWaitFailure);

    supervisor.on_started();
    let (after, failure) = supervisor.on_exit(EngineExit::Exited { success: true }, true, true);
    assert_eq!(after, AfterExit::CloseWindow);
    assert_eq!(failure, None);
}

#[test]
fn restart_request_stops_once_and_restarts() {
    let mut supervisor = SyncSupervisor::new();
    assert!(!supervisor.request_restart());
    supervisor.on_started();
    assert!(supervisor.request_restart());
    assert!(!supervisor.request_restart());
    let (after, _) = supervisor.on_exit(EngineExit::Exited { success: false }, true, false);
    assert_eq!(after, AfterExit::Restart);
    supervisor.on_restart_failed();
    supervisor.on_started();
    let (after, _) = supervisor.on_exit(EngineExit::Exited { success: true }, true, false);
    assert_eq!(after, AfterExit::Idle);
}

#[test]
fn engine_binary_override_must_be_safe() {
    let file = FileFacts { is_file: true, mode: 0o755 };
    assert_eq!(
        bin_override_rejection("lumaway", Some(file)),
        Some("LUMAWAY_BIN must be an absolute path")
    );
    assert_eq!(
        bin_override_rejection("/missing", None),
        Some("LUMAWAY_BIN path is not readable")
    );
    assert_eq!(
        bin_override_rejection("/usr", Some(FileFacts { is_file: false, mode: 0o755 })),
        Some("LUMAWAY_BIN must be a regular file")
    );
    assert_eq!(
        bin_override_rejection("/tmp/lumaway", Some(FileFacts { is_file: true, mode: 0o777 })),
        Some("LUMAWAY_BIN must not be world-writable")
    );
    assert_eq!(bin_override_rejection("/usr/bin/lumaway", Some(file)), None);
}

#[test]
fn saved_settings_file_lists_every_setting() {
    let text = settings_file_text(&settings(SyncMode::Game, ""));
    assert_eq!(
        text,
        "LUMAWAY_CONFIG_VERSION=1\nLUMAWAY_SYNC_MODE=game\nLUMAWAY_BRIDGE=192.168.1.2\nLUMAWAY_AREA=tv-zone\nLUMAWAY_APP_KEY=app\nLUMAWAY_CLIENT_KEY=client\nLUMAWAY_PROFILE=tv\nLUMAWAY_DURATION_MS=0\nLUMAWAY_BRIGHTNESS=0.80\nLUMAWAY_REACTIVITY=0.35\nLUMAWAY_COLOR_PROFILE=game\nLUMAWAY_AUTOSTART_SYNC=true\nRUST_LOG=lumaway=info\n"
    );
    let with_id = settings_file_text(&settings(SyncMode::Desktop, " 001788 "));
    assert!(with_id.contains("LUMAWAY_BRIDGE=192.168.1.2\nLUMAWAY_BRIDGE_ID=001788\nLUMAWAY_AREA=tv-zone\n"));
}

#[test]
fn saved_settings_read_back() {
    for mode in [SyncMode::Video, SyncMode::Game, SyncMode::Desktop, SyncMode::Music] {
        let text = settings_file_text(&settings(mode, "abc"));
        let saved = parse_env_text(&text);
        let expected = if mode == SyncMode::Music { SyncMode::Video } else { mode };
        assert_eq!(initial_sync_mode(&saved), expected);
        assert_eq!(saved.get("LUMAWAY_BRIDGE"), Some("192.168.1.2".to_string()));
        assert_eq!(saved.get("LUMAWAY_BRIDGE_ID"), Some("abc".to_string()));
        assert_eq!(saved.get("LUMAWAY_PROFILE"), Some("tv".to_string()));
        assert_eq!(saved.get("RUST_LOG"), Some("lumaway=info".to_string()));
        assert_eq!(saved.get("LUMAWAY_PRESET"), None);
    }
}

#[test]
fn derives_capture_status_from_engine_logs() {
    assert_eq!(
        capture_status_from_log(
            "INFO lumaway: selected portal stream node_id=112 size=Some((2560, 1440))"
        ),
        Some("Capture: display selected".to_string())
    );
    assert_eq!(
        capture_status_from_log(
            "INFO lumaway: capture backend selected capture_backend=Auto effective_capture_backend=Gl"
        ),
        Some("Capture: GL".to_string())
    );
    assert_eq!(
        capture_status_from_log("sync_stats capture_backend=cpu interrupted=false frames=125"),
        Some("Capture: CPU".to_string())
    );
    assert_eq!(capture_status_from_log("unrelated log line"), None);
}

#[test]
fn lumaway_bin_rejects_relative_paths() {
    let file = Some(FileFacts { is_file: true, mode: 0o755 });
    assert!(bin_override_rejection("lumaway", file).is_some());
    assert!(bin_override_rejection("./lumaway", file).is_some());
}

#[test]
fn lumaway_bin_rejects_nonexistent_absolute() {
    assert!(bin_override_rejection("/no/such/lumaway-bin-xyz-999", None).is_some());
}

#[test]
fn lumaway_bin_accepts_typical_system_binary() {
    let facts = FileFacts { is_file: true, mode: 0o755 };
    assert!(bin_override_rejection("/bin/true", Some(facts)).is_none());
}

#[test]
fn lumaway_bin_rejects_world_writable_file() {
    let facts = FileFacts { is_file: true, mode: 0o666 };
    assert!(bin_override_rejection("/tmp/lumaway_bin_override_test_world_writable", Some(facts)).is_some());
}
