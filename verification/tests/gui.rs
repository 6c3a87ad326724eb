use lumaway::i18n::{fill_translated, tr, tr_format, Catalog};
use lumaway::tray::{LumaWayTray, TrayCommand, TrayLabels, TrayMenuEntry};
use lumaway::user_messages::{classify_error, classify_lowered, normalize_details, UserMessageCode};

#[test]
fn classifies_hue_authentication_errors() {
    assert_eq!(
        classify_error("Hue bridge rejected the request: link button not pressed"),
        UserMessageCode::HueLinkButtonNotPressed
    );
    assert_eq!(
        classify_error("Error: Hue bridge authentication failed"),
        UserMessageCode::HueAuthRejected
    );
    assert_eq!(
        classify_error("saved Hue application key was rejected; pair again"),
        UserMessageCode::HueAuthRejected
    );
}

#[test]
fn classifies_portal_and_capture_errors() {
    assert_eq!(
        classify_error("Error: portal returned no streams"),
        UserMessageCode::PortalCancelled
    );
    assert_eq!(
        classify_error("portal error: org.freedesktop.portal.ScreenCast unavailable"),
        UserMessageCode::PortalUnavailable
    );
    assert_eq!(
        classify_error("capture timed out waiting for a frame"),
        UserMessageCode::CaptureTimeout
    );
    assert_eq!(
        classify_error("portal stream stopped: no screen frames arrived for 5 seconds"),
        UserMessageCode::PortalStreamClosed
    );
    assert_eq!(
        classify_error("system sleep detected: sync stopped after resume; start sync again"),
        UserMessageCode::SystemSleepResume
    );
}

#[test]
fn classifies_bridge_and_entertainment_errors() {
    assert_eq!(
        classify_error("Hue request failed: connection timed out"),
        UserMessageCode::HueBridgeUnavailable
    );
    assert_eq!(
        classify_error("bridge lost during sync while sending Hue Entertainment frame: Hue Entertainment DTLS failed: connection timed out"),
        UserMessageCode::HueBridgeLost
    );
    assert_eq!(
        classify_error("Hue Entertainment DTLS failed: handshake failed"),
        UserMessageCode::HueDtlsFailed
    );
    assert_eq!(
        classify_error("entertainment area already active"),
        UserMessageCode::HueAreaConflict
    );
}

#[test]
fn keeps_unknown_errors_generic() {
    assert_eq!(classify_error("unexpected parser error"), UserMessageCode::Unknown);
}

#[test]
fn classification_uses_unicode_lowercase() {
    assert_eq!(classify_error("  ZONE IS OFF  "), UserMessageCode::ZoneOff);
    assert_eq!(classify_lowered("ZONE IS OFF"), UserMessageCode::Unknown);
    assert_eq!(classify_error("returns BLACK frames"), UserMessageCode::CaptureTooDark);
}

#[test]
fn offers_contextual_recovery_actions() {
    assert!(UserMessageCode::PortalCancelled.offers_retry_action());
    assert!(!UserMessageCode::PortalCancelled.offers_settings_action());
    assert!(!UserMessageCode::HueLinkButtonNotPressed.offers_retry_action());
    assert!(UserMessageCode::HueLinkButtonNotPressed.offers_settings_action());
    assert!(UserMessageCode::HueAuthRejected.offers_settings_action());
    assert!(!UserMessageCode::HueAuthRejected.offers_retry_action());
    assert!(UserMessageCode::HueBridgeUnavailable.offers_retry_action());
    assert!(UserMessageCode::HueBridgeUnavailable.offers_settings_action());
    assert!(UserMessageCode::HueBridgeLost.offers_retry_action());
    assert!(UserMessageCode::HueBridgeLost.offers_settings_action());
    assert!(UserMessageCode::PortalStreamClosed.offers_retry_action());
    assert!(!UserMessageCode::PortalStreamClosed.offers_settings_action());
    assert!(UserMessageCode::SystemSleepResume.offers_retry_action());
    assert!(!UserMessageCode::SystemSleepResume.offers_settings_action());
    assert!(!UserMessageCode::Unknown.offers_retry_action());
    assert!(!UserMessageCode::Unknown.offers_settings_action());
}

#[test]
fn codes_and_groups() {
    assert_eq!(UserMessageCode::HueAuthRejected.as_str(), "hue.auth_rejected");
    assert_eq!(UserMessageCode::Unknown.as_str(), "unknown");
    assert!(UserMessageCode::HueDtlsFailed.is_bridge_error());
    assert!(!UserMessageCode::CaptureTimeout.is_bridge_error());
    assert!(UserMessageCode::CaptureTooDark.is_portal_or_capture_error());
    assert_eq!(UserMessageCode::ZoneOff.summary_msgid(), "Turn on the selected Entertainment zone before starting sync.");
}

#[test]
fn details_are_joined_on_one_line() {
    assert_eq!(normalize_details("  first \n\n second\r\n  "), "first second");
    assert_eq!(normalize_details(""), "");
}

#[test]
fn user_error_starts_with_code() {
    let none = Catalog::new();
    let text = lumaway::user_messages::format_user_error("Hue bridge authentication failed", &none);
    assert!(text.starts_with("error[hue.auth_rejected]: "));
    let unknown = lumaway::user_messages::format_user_error("weird\nthing", &none);
    assert!(unknown.starts_with("error[unknown]: "));
    assert!(unknown.contains("weird thing"));
}

#[test]
fn user_error_lists_summary_action_and_details() {
    let none = Catalog::new();
    let code = UserMessageCode::HueAuthRejected;
    assert_eq!(
        lumaway::user_messages::format_user_error("Hue bridge authentication failed", &none),
        format!("error[hue.auth_rejected]: {}\n{}\n", code.summary_msgid(), code.action_msgid())
    );
    let unknown = UserMessageCode::Unknown;
    assert_eq!(
        lumaway::user_messages::format_user_error(" weird \n\n thing ", &none),
        format!("error[unknown]: {}\n{}\nDetails: weird thing\n", unknown.summary_msgid(), unknown.action_msgid())
    );
    assert_eq!(
        lumaway::user_messages::format_user_error("   ", &none),
        format!("error[unknown]: {}\n{}\n", unknown.summary_msgid(), unknown.action_msgid())
    );
}

#[test]
fn user_error_uses_the_catalog() {
    let code = UserMessageCode::HueAuthRejected;
    let mut german = Catalog::new();
    german.add(code.summary_msgid(), "Schlüssel abgelehnt.");
    german.add(code.action_msgid(), "Erneut koppeln.");
    german.add("Details: {details}", "Einzelheiten: {details}");
    german.add(code.summary_msgid(), "ignored");
    assert_eq!(code.summary(&german), "Schlüssel abgelehnt.");
    assert_eq!(code.action(&german), "Erneut koppeln.");
    assert_eq!(
        lumaway::user_messages::format_user_error("Hue bridge authentication failed", &german),
        "error[hue.auth_rejected]: Schlüssel abgelehnt.\nErneut koppeln.\n"
    );
    let unknown = lumaway::user_messages::format_user_error("odd", &german);
    assert!(unknown.ends_with("\nEinzelheiten: odd\n"));
    assert_eq!(tr_format(&german, "Details: {details}", &[("details", "x")]), "Einzelheiten: x");
    assert_eq!(tr(&german, "untranslated"), "untranslated");
}

#[test]
fn placeholders_are_filled_in_order() {
    assert_eq!(fill_translated("{a} and {b} and {a}", &[("a", "x"), ("b", "{a}")]), "x and {a} and x");
    assert_eq!(fill_translated("no placeholder", &[("a", "x")]), "no placeholder");
}

fn labels() -> TrayLabels {
    TrayLabels {
        icon_name: "io.github.BunnySweety.LumaWay".into(),
        show_window: "Show LumaWay".into(),
        start_sync: "Start sync".into(),
        stop_sync: "Stop sync".into(),
        quit: "Quit".into(),
        ready: "Ready".into(),
        syncing: "Syncing".into(),
    }
}

fn tray(running: bool) -> LumaWayTray {
    LumaWayTray { labels: labels(), running }
}

fn standard_label(entry: &TrayMenuEntry) -> (String, TrayCommand) {
    match entry {
        TrayMenuEntry::Item { label, command, .. } => (label.clone(), *command),
        TrayMenuEntry::Separator => panic!("expected standard menu item"),
    }
}

#[test]
fn tray_menu_switches_start_stop_label_with_state() {
    let idle = tray(false);
    let running = tray(true);

    assert_eq!(standard_label(&idle.menu()[1]).0, "Start sync");
    assert_eq!(standard_label(&running.menu()[1]).0, "Stop sync");
}

#[test]
fn tray_activate_requests_window_presentation() {
    let mut tray = tray(false);

    assert_eq!(tray.activate(0, 0), TrayCommand::Present);
}

#[test]
fn tray_menu_toggle_requests_sync_toggle() {
    let tray = tray(false);
    let menu = tray.menu();

    assert_eq!(standard_label(&menu[1]).1, TrayCommand::ToggleSync);
    assert!(matches!(menu[2], TrayMenuEntry::Separator));
    assert_eq!(standard_label(&menu[3]).1, TrayCommand::Quit);
}

#[test]
fn tray_tooltip_and_watcher() {
    assert_eq!(tray(true).tooltip_description(), "Syncing");
    assert_eq!(tray(false).tooltip_description(), "Ready");
    assert_eq!(tray(true).sync_icon(), "media-playback-stop");
    assert_eq!(tray(false).watcher_offline(), (TrayCommand::WatcherOffline, true));
    assert_eq!(tray(false).watcher_online(), TrayCommand::WatcherOnline);
}
