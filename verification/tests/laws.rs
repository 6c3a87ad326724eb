use lumaway::capture::RgbAverage;
use lumaway::color::HueColor;
use lumaway::dtls::{decode_hex, hex_decoding_would_panic};
use lumaway::entertainment::{ChannelColor, HueStreamEncoder, HueStreamFrame};
use lumaway::env_file::{parse_env_text, upsert_env_text};
use lumaway::smoothing::ColorSmoother;
use lumaway::user_messages::{classify_error, UserMessageCode};
use lumaway::sync_mode::config_v1_updates;
use lumaway::sync_settings::check_area_channels;
use lumaway::sync_loop::FixedColorRun;

#[test]
fn hex_text_of_a_color_parses_back() {
    for (red, green, blue) in [(0u8, 0u8, 0u8), (255, 128, 1), (16, 15, 170), (9, 10, 255)] {
        let c = HueColor { red, green, blue };
        assert_eq!(HueColor::parse(&format!("#{red:02x}{green:02x}{blue:02x}")), Some(c));
        assert_eq!(HueColor::parse(&format!(" {red:02X}{green:02X}{blue:02X} ")), Some(c));
    }
    assert_eq!(HueColor::parse("red"), Some(HueColor::red()));
}

#[test]
fn several_updates_read_back_and_keep_other_lines() {
    let text = "# settings\nLUMAWAY_BRIDGE=10.0.0.2\n\nLUMAWAY_AREA=TV\n";
    let updated = upsert_env_text(
        Some(text),
        &[(" LUMAWAY_AREA ", " Desk "), ("LUMAWAY_APP_KEY", "k1"), ("LUMAWAY_APP_KEY", "k2"), ("  ", "x")],
    );
    assert_eq!(updated, "# settings\nLUMAWAY_BRIDGE=10.0.0.2\n\nLUMAWAY_AREA= Desk \nLUMAWAY_APP_KEY=k2\n");
    let values = parse_env_text(&updated);
    assert_eq!(values.get("LUMAWAY_AREA"), Some("Desk".to_string()));
    assert_eq!(values.get("LUMAWAY_APP_KEY"), Some("k2".to_string()));
    assert_eq!(values.get("LUMAWAY_BRIDGE"), Some("10.0.0.2".to_string()));
}

#[test]
fn smoothing_stays_between_previous_and_current() {
    let rgb = |red, green, blue| RgbAverage { red, green, blue };
    let mut smoother = ColorSmoother::with_config(2, Some(40));
    smoother.smooth(vec![rgb(10, 200, 100)], &[]);
    let shown = smoother.smooth(vec![rgb(200, 20, 100)], &[rgb(150, 60, 100)]);
    assert_eq!(shown, vec![rgb(50, 160, 100)]);
}

#[test]
fn classification_ignores_surrounding_whitespace() {
    let error = "Hue bridge authentication failed";
    assert_eq!(classify_error(&format!(" \t{error}\n ")), classify_error(error));
}

#[test]
fn encoder_output_matches_a_fresh_frame_after_any_history() {
    let id = "01234567-89ab-cdef-0123-456789abcdef";
    let red = ChannelColor { channel_id: 0, color: HueColor::red() };
    let blue = ChannelColor { channel_id: 1, color: HueColor::blue() };
    let mut encoder = HueStreamEncoder::new(id, 1).unwrap();
    encoder.encode_rgb(7, &[red, blue, red]);
    encoder.encode_rgb(8, &[]);
    let bytes = encoder.encode_rgb(9, &[blue]).to_vec();
    let frame = HueStreamFrame { entertainment_config_id: id.to_string(), sequence: 9, channels: vec![blue] };
    assert_eq!(bytes, frame.encode_rgb().unwrap().as_bytes());
}

#[test]
fn classification_ignores_ascii_case() {
    for error in ["Hue bridge authentication failed", "Portal returned no streams", "weird thing"] {
        assert_eq!(classify_error(&error.to_ascii_uppercase()), classify_error(error));
        assert_eq!(classify_error(&error.to_ascii_lowercase()), classify_error(error));
    }
}

#[test]
fn hex_secret_panics_only_on_split_characters() {
    assert!(hex_decoding_would_panic("aé1"));
    assert!(!hex_decoding_would_panic("aé"));
    assert!(decode_hex("aé").is_err());
    assert!(!hex_decoding_would_panic("0a0b"));
    assert!(!hex_decoding_would_panic("zzé"));
    assert!(decode_hex("zzé").is_err());
}

#[test]
fn code_families_follow_identifiers() {
    for code in [
        UserMessageCode::ZoneOff,
        UserMessageCode::HueAuthRejected,
        UserMessageCode::HueDtlsFailed,
        UserMessageCode::PortalCancelled,
        UserMessageCode::CaptureTooDark,
        UserMessageCode::SystemSleepResume,
        UserMessageCode::Unknown,
    ] {
        let id = code.as_str();
        assert_eq!(code.is_bridge_error(), id.starts_with("hue."));
        assert_eq!(code.is_portal_or_capture_error(), id.starts_with("portal.") || id.starts_with("capture."));
        assert!(!(code.is_bridge_error() && code.is_portal_or_capture_error()));
    }
}

#[test]
fn migration_never_overwrites_a_sync_mode() {
    let values = parse_env_text("LUMAWAY_PRESET=game-wayland\nLUMAWAY_SYNC_MODE=desktop\n");
    let updates = config_v1_updates(&values);
    assert!(updates.iter().all(|(key, _)| *key != "LUMAWAY_SYNC_MODE"));
    let fresh = parse_env_text("LUMAWAY_PRESET=game-wayland\n");
    let updates = config_v1_updates(&fresh);
    assert_eq!(updates.len(), 2);
    let mut migrated = fresh.clone();
    for (key, value) in updates {
        migrated.insert(key.to_string(), value);
    }
    assert!(config_v1_updates(&migrated).is_empty());
}

#[test]
fn area_without_channels_cannot_sync() {
    assert!(check_area_channels("TV", "id-1", 3).is_ok());
    assert_eq!(
        check_area_channels("TV", "id-1", 0).unwrap_err(),
        "entertainment area \"TV\" (id-1) has no channels — add lights to this entertainment zone in the Hue app, or pick another zone"
    );
}

#[test]
fn fixed_color_run_paces_frames() {
    let mut run = FixedColorRun::start(100, 25);
    assert_eq!(run.delay_nanos(), 40_000_000);
    assert!(run.should_send(0));
    assert!(!run.should_send(100_000_000));
    for _ in 0..257 {
        run.record_sent();
    }
    assert_eq!(run.frames_sent(), 257);
    assert_eq!(run.sequence(), 1);
}
