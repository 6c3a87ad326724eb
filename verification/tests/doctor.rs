use lumaway::client::BridgeInfo;
use lumaway::doctor::{
    application_id_check, areas_check, bridge_id_check, bridge_id_saved_check, bridge_info_check,
    client_key_check, command_check, config_file_check, dtls_target_check,
    gstreamer_element_check, hue_credentials_check, hue_error_check, non_empty_env, pin_dir_check,
    pin_file_check, pkg_config_check, portal_environment_checks, profile_keys_check,
    profile_missing_check, profile_selection_check, tls_pinning_check, user_command_check,
    CheckLine, CheckStatus, CommandOutcome,
};
use lumaway::dtls::BridgeAddress;
use lumaway::error::HueError;

fn line(check: &CheckLine) -> String {
    check.render()
}

#[test]
fn renders_status_id_and_message() {
    let check = client_key_check(None);
    assert_eq!(
        line(&check),
        "[warning] hue.dtls.client_key: LUMAWAY_CLIENT_KEY unset; sync and test-color need it for DTLS"
    );
    assert_eq!(CheckStatus::Pass.label(), "ok");
    assert_eq!(CheckStatus::Error.label(), "error");
}

#[test]
fn client_key_needs_thirty_two_bytes() {
    let long = "0123456789abcdef0123456789abcdef";
    assert_eq!(client_key_check(Some(long)).status, CheckStatus::Pass);
    assert_eq!(
        client_key_check(Some("abc")).message,
        "LUMAWAY_CLIENT_KEY looks short; pairing may be incomplete"
    );
}

#[test]
fn dtls_target_accepts_lan_and_explains_refusals() {
    let lan = dtls_target_check(Some("192.168.1.2"), Some(BridgeAddress::V4([192, 168, 1, 2])), false);
    assert_eq!(
        line(&lan),
        "[ok] hue.dtls.bridge_ip: 192.168.1.2 is acceptable for entertainment UDP (private/link-local)"
    );
    let public = dtls_target_check(Some("8.8.8.8"), Some(BridgeAddress::V4([8, 8, 8, 8])), false);
    assert_eq!(public.status, CheckStatus::Warning);
    assert!(public.message.contains("LUMAWAY_DTLS_ALLOW_REMOTE=1"));
    let allowed = dtls_target_check(Some("8.8.8.8"), Some(BridgeAddress::V4([8, 8, 8, 8])), true);
    assert_eq!(allowed.status, CheckStatus::Pass);
    let none = dtls_target_check(None, None, false);
    assert_eq!(none.message, "no bridge IP; skipping DTLS target check");
    let garbage = dtls_target_check(Some("bridge"), None, false);
    assert_eq!(garbage.message, "invalid bridge IP for DTLS: bridge");
}

#[test]
fn tls_pinning_reports_setting_and_mode() {
    assert_eq!(
        tls_pinning_check(Some("1"), None).message,
        "LUMAWAY_HUE_PIN_CERTS enabled (1); pin mode: spki (default)"
    );
    assert_eq!(
        tls_pinning_check(Some("yes"), Some("cert")).message,
        "LUMAWAY_HUE_PIN_CERTS enabled (yes); pin mode: leaf-cert DER (legacy)"
    );
    assert_eq!(
        tls_pinning_check(None, None).message,
        "LUMAWAY_HUE_PIN_CERTS disabled (unset); relaxed TLS for Hue bridge"
    );
    assert_eq!(
        tls_pinning_check(Some("  "), None).message,
        "LUMAWAY_HUE_PIN_CERTS disabled (unset); relaxed TLS for Hue bridge"
    );
}

#[test]
fn optional_pin_findings_appear_only_when_set() {
    assert!(pin_dir_check(None).is_none());
    assert!(pin_dir_check(Some(" ")).is_none());
    assert_eq!(
        pin_dir_check(Some("/srv/pins")).unwrap().message,
        "LUMAWAY_HUE_PIN_DIR overrides Lumaway config root: /srv/pins"
    );
    assert_eq!(
        bridge_id_check(Some(" 001788fffe123456 ")).unwrap().message,
        "LUMAWAY_BRIDGE_ID set: 001788fffe123456"
    );
    assert!(bridge_id_check(Some("")).is_none());
}

#[test]
fn pin_file_finding_depends_on_address_and_pinning() {
    assert_eq!(
        pin_file_check(false, true, None, "x").message,
        "no bridge IP; pin file path depends on LUMAWAY_BRIDGE / --bridge"
    );
    assert_eq!(pin_file_check(true, false, None, "x").message, "pinning disabled; no pin file is used");
    assert_eq!(
        pin_file_check(true, true, Some("/pins/a.spki"), "/pins/b.spki").message,
        "pin file present: /pins/a.spki"
    );
    let missing = pin_file_check(true, true, None, "/pins/b.spki");
    assert_eq!(missing.status, CheckStatus::Warning);
    assert_eq!(
        missing.message,
        "no pin file yet (created on first successful HTTPS); expected e.g. /pins/b.spki"
    );
}

#[test]
fn hue_errors_become_findings_with_advice() {
    let rejected = hue_error_check("hue.entertainment_areas", &HueError::Authentication);
    assert_eq!(rejected.status, CheckStatus::Error);
    assert!(rejected.message.contains("press Pair in LumaWay"));
    assert_eq!(
        hue_error_check("x", &HueError::MissingAppKey).status,
        CheckStatus::Warning
    );
    assert_eq!(
        hue_error_check("x", &HueError::Request("timed out".to_string())).message,
        "Hue bridge request failed: timed out"
    );
    assert_eq!(
        hue_error_check("x", &HueError::HttpStatus(503)).message,
        "Hue bridge returned HTTP status 503"
    );
}

#[test]
fn bridge_findings_report_replies() {
    assert!(hue_credentials_check(Some("1.2.3.4"), Some("key")).is_none());
    assert_eq!(
        hue_credentials_check(Some("1.2.3.4"), None).unwrap().id,
        "hue.credentials"
    );
    assert_eq!(hue_credentials_check(None, Some("key")).unwrap().id, "hue.bridge");
    assert_eq!(
        line(&areas_check("192.168.1.2", Ok(3))),
        "[ok] hue.entertainment_areas: 3 area(s) found on 192.168.1.2"
    );
    assert_eq!(
        application_id_check(Ok(())).message,
        "hue-application-id header is available"
    );
    let info = BridgeInfo { id: "001788fffe123456".to_string(), name: "Salon".to_string() };
    assert_eq!(
        bridge_info_check(Ok(info)).message,
        "bridge id 001788fffe123456 (Salon)"
    );
    assert_eq!(
        bridge_id_saved_check("abc", Ok(())).message,
        "LUMAWAY_BRIDGE_ID saved to lumaway.env (abc)"
    );
    assert_eq!(
        bridge_id_saved_check("abc", Err("read-only".to_string())).message,
        "could not save LUMAWAY_BRIDGE_ID: read-only"
    );
}

#[test]
fn configuration_and_profile_findings() {
    assert_eq!(config_file_check("/home/u/.config/lumaway/lumaway.env", true).message, "using /home/u/.config/lumaway/lumaway.env");
    assert_eq!(
        config_file_check("/x.env", false).message,
        "missing /x.env; GUI-saved settings will not be loaded"
    );
    assert_eq!(
        profile_selection_check("/cfg", Some("bad profile"), Some("tv")).unwrap_err().id,
        "profile.load"
    );
    assert_eq!(
        profile_selection_check("/cfg", None, Some("  ")).unwrap_err().message,
        "LUMAWAY_PROFILE is not set; using CLI/env defaults"
    );
    assert_eq!(
        profile_selection_check("/cfg", None, Some("../x")).unwrap_err().id,
        "profile.name"
    );
    assert_eq!(
        profile_selection_check("/cfg", None, Some(" tv ")).unwrap(),
        "/cfg/lumaway/profiles/tv.env"
    );
    assert_eq!(
        profile_missing_check("/p/tv.env").message,
        "profile file does not exist: /p/tv.env"
    );
    let keys = vec!["LUMAWAY_CAPTURE_FPS".to_string(), "LUMAWAY_SAMPLING".to_string()];
    assert_eq!(
        profile_keys_check("/p/tv.env", &keys).message,
        "/p/tv.env loaded with 2 supported setting(s)"
    );
    let keys = vec![
        "LUMAWAY_APP_KEY".to_string(),
        "LUMAWAY_SAMPLING".to_string(),
        "LUMAWAY_BRIDGE".to_string(),
    ];
    let ignored = profile_keys_check("/p/tv.env", &keys);
    assert_eq!(ignored.id, "profile.ignored_keys");
    assert_eq!(
        ignored.message,
        "ignored unsupported key(s): LUMAWAY_APP_KEY, LUMAWAY_BRIDGE"
    );
}

#[test]
fn session_findings() {
    let checks = portal_environment_checks(true, false, false, true);
    assert_eq!(line(&checks[0]), "[ok] env.XDG_RUNTIME_DIR: set");
    assert_eq!(
        line(&checks[1]),
        "[warning] env.DBUS_SESSION_BUS_ADDRESS: missing; Portal calls must run inside the graphical user session"
    );
    assert_eq!(
        checks[2].message,
        "missing, but DISPLAY is set; LumaWay is intended for Wayland Portal capture"
    );
    let checks = portal_environment_checks(true, true, false, false);
    assert_eq!(checks[2].message, "missing; no graphical Wayland session detected");
}

#[test]
fn command_findings() {
    let ok = CommandOutcome::Succeeded { stdout: "pkg-config 1.8\nmore\n".to_string() };
    assert_eq!(command_check("pkg-config", "pkg-config", &ok).message, "pkg-config is available");
    assert_eq!(user_command_check("portal.dbus", "busctl", &ok).message, "pkg-config 1.8");
    let quiet = CommandOutcome::Succeeded { stdout: String::new() };
    assert_eq!(user_command_check("portal.dbus", "busctl", &quiet).message, "available");
    let failed = CommandOutcome::Failed { stderr: "inactive\r\n".to_string() };
    assert_eq!(user_command_check("portal.service", "systemctl", &failed).message, "inactive");
    assert_eq!(
        command_check("openssl", "openssl", &failed).message,
        "openssl is present but returned a non-zero status"
    );
    let missing = CommandOutcome::NotRun("No such file or directory".to_string());
    assert_eq!(
        command_check("openssl", "openssl", &missing).message,
        "openssl not found: No such file or directory"
    );
    assert_eq!(
        user_command_check("portal.dbus", "busctl", &missing).message,
        "busctl failed: No such file or directory"
    );
    let required = gstreamer_element_check("gstreamer.appsink", "appsink", true, &failed);
    assert_eq!(required.status, CheckStatus::Error);
    assert_eq!(required.message, "appsink is missing; capture cannot run without it");
    let optional = gstreamer_element_check("gstreamer.glupload", "glupload", false, &missing);
    assert_eq!(optional.status, CheckStatus::Warning);
    assert_eq!(
        optional.message,
        "gst-inspect-1.0 failed for glupload: No such file or directory"
    );
    let packages = ["gstreamer-1.0", "gstreamer-app-1.0"];
    assert_eq!(
        pkg_config_check("gstreamer.dev", &packages, &ok).message,
        "found gstreamer-1.0, gstreamer-app-1.0"
    );
    assert_eq!(
        pkg_config_check("gstreamer.dev", &packages, &failed).message,
        "missing gstreamer-1.0, gstreamer-app-1.0; install development packages before the capture spike"
    );
}

#[test]
fn non_empty_env_trims_and_ignores_empty_values() {
    assert_eq!(non_empty_env(Some(" 192.0.2.10 ")).as_deref(), Some("192.0.2.10"));
    assert_eq!(non_empty_env(Some("   ")), None);
    assert_eq!(non_empty_env(None), None);
}
