use lumaway::client::{host_from_url, parse_ssdp_bridge_response, header_value, HueBridgeConfig};
use lumaway::color::HueColor;
use lumaway::dtls::{
    decode_hex, dtls_allows_non_lan_bridge_ip, psk_identity_after_lookup, psk_identity_from_env,
    frame_outcome, send_dtls_frame, validate_dtls_bridge_ip, write_psk_identity, BridgeAddress, DtlsTransport,
    NullTransport,
};
use lumaway::entertainment::{
    scale_color, ChannelColor, HueStreamEncoder, HueStreamFrame, HueStreamMessage,
    CHANNEL_DATA_SIZE, HEADER, MESSAGE_HEADER_SIZE,
};
use lumaway::error::HueError;
use lumaway::hue_tls_pin::{
    bridge_id_from_env, bridge_pin_file_path, bridge_pin_paths, bridge_tls_pin_kind,
    bridge_tls_pinning_enabled, check_server_cert, compute_pin_digest, constant_time_eq_32,
    lumaway_config_root, pin_from_file, pin_kind_for_path, stored_pin_matches, truthy_env,
    BridgeTlsPinKind, LoadedPin, PinVerdict,
};

const CONFIG_ID: &str = "01234567-89ab-cdef-0123-456789abcdef";

#[test]
fn scales_8_bit_colors_to_16_bit_values() {
    assert_eq!(scale_color(0), 0);
    assert_eq!(scale_color(1), 257);
    assert_eq!(scale_color(128), 32_896);
    assert_eq!(scale_color(255), 65_535);
}

#[test]
fn encodes_rgb_frame_header() {
    let message = HueStreamFrame {
        entertainment_config_id: CONFIG_ID.to_string(),
        sequence: 7,
        channels: Vec::new(),
    }
    .encode_rgb()
    .unwrap();

    let bytes = message.as_bytes();
    assert_eq!(&bytes[0..9], HEADER);
    assert_eq!(bytes[9], 0x02);
    assert_eq!(bytes[10], 0x00);
    assert_eq!(bytes[11], 7);
    assert_eq!(bytes[14], 0x00);
    assert_eq!(&bytes[16..52], CONFIG_ID.as_bytes());
    assert_eq!(bytes.len(), MESSAGE_HEADER_SIZE);
}

#[test]
fn encodes_rgb_channel_payload() {
    let message = HueStreamFrame {
        entertainment_config_id: CONFIG_ID.to_string(),
        sequence: 1,
        channels: vec![
            ChannelColor {
                channel_id: 3,
                color: HueColor::red(),
            },
            ChannelColor {
                channel_id: 4,
                color: HueColor {
                    red: 0,
                    green: 128,
                    blue: 255,
                },
            },
        ],
    }
    .encode_rgb()
    .unwrap();

    let bytes = message.as_bytes();
    assert_eq!(bytes.len(), MESSAGE_HEADER_SIZE + CHANNEL_DATA_SIZE * 2);

    let first = MESSAGE_HEADER_SIZE;
    assert_eq!(bytes[first], 3);
    assert_eq!(&bytes[first + 1..first + 3], &[0xff, 0xff]);
    assert_eq!(&bytes[first + 3..first + 5], &[0x00, 0x00]);
    assert_eq!(&bytes[first + 5..first + 7], &[0x00, 0x00]);

    let second = MESSAGE_HEADER_SIZE + CHANNEL_DATA_SIZE;
    assert_eq!(bytes[second], 4);
    assert_eq!(&bytes[second + 1..second + 3], &[0x00, 0x00]);
    assert_eq!(&bytes[second + 3..second + 5], &[0x80, 0x80]);
    assert_eq!(&bytes[second + 5..second + 7], &[0xff, 0xff]);
}

#[test]
fn rejects_invalid_config_id_length() {
    let err = HueStreamFrame {
        entertainment_config_id: "not-a-uuid".to_string(),
        sequence: 1,
        channels: Vec::new(),
    }
    .encode_rgb()
    .unwrap_err();

    assert!(matches!(err, HueError::InvalidEntertainmentConfigId(_)));
}

#[test]
fn reusable_encoder_updates_sequence_and_channels() {
    let mut encoder = HueStreamEncoder::new(CONFIG_ID, 2).unwrap();
    let first = encoder
        .encode_rgb(
            1,
            &[
                ChannelColor {
                    channel_id: 1,
                    color: HueColor::red(),
                },
                ChannelColor {
                    channel_id: 2,
                    color: HueColor {
                        red: 0,
                        green: 0,
                        blue: 255,
                    },
                },
            ],
        )
        .to_vec();
    let second = encoder
        .encode_rgb(
            2,
            &[ChannelColor {
                channel_id: 3,
                color: HueColor {
                    red: 0,
                    green: 255,
                    blue: 0,
                },
            }],
        )
        .to_vec();

    assert_eq!(first[11], 1);
    assert_eq!(first.len(), MESSAGE_HEADER_SIZE + CHANNEL_DATA_SIZE * 2);
    assert_eq!(second[11], 2);
    assert_eq!(second.len(), MESSAGE_HEADER_SIZE + CHANNEL_DATA_SIZE);
    assert_eq!(second[MESSAGE_HEADER_SIZE], 3);
    assert_eq!(
        &second[MESSAGE_HEADER_SIZE + 3..MESSAGE_HEADER_SIZE + 5],
        &[0xff, 0xff]
    );
}

#[test]
fn encoder_output_matches_frame_encoding() {
    let channels = vec![
        ChannelColor { channel_id: 9, color: HueColor { red: 1, green: 2, blue: 3 } },
        ChannelColor { channel_id: 4, color: HueColor::white() },
    ];
    let mut encoder = HueStreamEncoder::new(CONFIG_ID, 0).unwrap();
    let reused = encoder.encode_rgb(42, &channels).to_vec();
    let framed = HueStreamFrame {
        entertainment_config_id: CONFIG_ID.to_string(),
        sequence: 42,
        channels,
    }
    .encode_rgb()
    .unwrap()
    .into_bytes();
    assert_eq!(reused, framed);
    assert_eq!(&reused[MESSAGE_HEADER_SIZE + CHANNEL_DATA_SIZE + 1..], &[0xff; 6]);
}

#[test]
fn encoder_rejects_invalid_config_id() {
    assert!(matches!(
        HueStreamEncoder::new("short", 1),
        Err(HueError::InvalidEntertainmentConfigId(_))
    ));
}

#[test]
fn parses_named_colors_case_insensitively() {
    assert_eq!(HueColor::parse_named("RED"), Some(HueColor::red()));
    assert_eq!(HueColor::parse_named("green"), Some(HueColor::green()));
    assert_eq!(HueColor::parse_named("unknown"), None);
}

#[test]
fn parses_hex_colors() {
    assert_eq!(
        HueColor::parse("#ff8000"),
        Some(HueColor {
            red: 255,
            green: 128,
            blue: 0,
        })
    );
    assert_eq!(
        HueColor::parse("00ff7f"),
        Some(HueColor {
            red: 0,
            green: 255,
            blue: 127,
        })
    );
    assert_eq!(HueColor::parse("#bad"), None);
    assert_eq!(HueColor::parse("zzzzzz"), None);
}

#[test]
fn named_colors_and_trimmed_hex() {
    assert_eq!(HueColor::parse(" Blue "), Some(HueColor::blue()));
    assert_eq!(HueColor::parse("white"), Some(HueColor { red: 255, green: 255, blue: 255 }));
    assert_eq!(HueColor::parse("  #0A0b0C "), Some(HueColor { red: 10, green: 11, blue: 12 }));
    assert_eq!(HueColor::parse("#ff80000"), None);
}

#[test]
fn decodes_hex_client_key() {
    assert_eq!(decode_hex("0001020a0A").unwrap(), vec![0, 1, 2, 10, 10]);
}

#[test]
fn rejects_odd_hex_secret_length() {
    assert!(decode_hex("abc").is_err());
}

#[test]
fn rejects_invalid_hex_secret() {
    assert!(decode_hex("zz").is_err());
}

#[test]
fn hex_errors_carry_their_messages() {
    match decode_hex("abc") {
        Err(HueError::InvalidHexSecret(m)) => assert_eq!(m, "hex string must have an even length"),
        other => panic!("unexpected {other:?}"),
    }
    match decode_hex("0g") {
        Err(HueError::InvalidHexSecret(m)) => assert_eq!(m, "invalid digit found in string"),
        other => panic!("unexpected {other:?}"),
    }
    assert_eq!(decode_hex("").unwrap(), Vec::<u8>::new());
}

#[test]
fn accepts_private_ipv4_for_dtls() {
    assert!(validate_dtls_bridge_ip(
        "192.168.1.108",
        Some(BridgeAddress::V4([192, 168, 1, 108])),
        false
    )
    .is_ok());
}

#[test]
fn rejects_public_ipv4_for_dtls_by_default() {
    assert!(validate_dtls_bridge_ip("8.8.8.8", Some(BridgeAddress::V4([8, 8, 8, 8])), false).is_err());
}

#[test]
fn dtls_target_policy_messages() {
    match validate_dtls_bridge_ip("  ", None, false) {
        Err(HueError::Dtls(m)) => assert_eq!(m, "bridge IP is required for DTLS"),
        other => panic!("unexpected {other:?}"),
    }
    match validate_dtls_bridge_ip(" nope ", None, false) {
        Err(HueError::Dtls(m)) => assert_eq!(m, "invalid bridge IP for DTLS: nope"),
        other => panic!("unexpected {other:?}"),
    }
    match validate_dtls_bridge_ip("8.8.8.8", Some(BridgeAddress::V4([8, 8, 8, 8])), false) {
        Err(HueError::Dtls(m)) => assert_eq!(
            m,
            "bridge IP 8.8.8.8 is not a private/link-local address; set LUMAWAY_DTLS_ALLOW_REMOTE=1 to override (see docs/security.md)"
        ),
        other => panic!("unexpected {other:?}"),
    }
    assert!(validate_dtls_bridge_ip("8.8.8.8", Some(BridgeAddress::V4([8, 8, 8, 8])), true).is_ok());
    let mut loopback = [0u8; 16];
    loopback[15] = 1;
    assert!(validate_dtls_bridge_ip("::1", Some(BridgeAddress::V6(loopback)), false).is_err());
    let mut link_local = [0u8; 16];
    link_local[0] = 0xfe;
    link_local[1] = 0x80;
    assert!(validate_dtls_bridge_ip("fe80::1", Some(BridgeAddress::V6(link_local)), false).is_ok());
    assert!(validate_dtls_bridge_ip("127.0.0.1", Some(BridgeAddress::V4([127, 0, 0, 1])), false).is_err());
}

#[test]
fn allow_remote_values() {
    assert!(dtls_allows_non_lan_bridge_ip(Some("1")));
    assert!(dtls_allows_non_lan_bridge_ip(Some("YES")));
    assert!(dtls_allows_non_lan_bridge_ip(Some("on")));
    assert!(!dtls_allows_non_lan_bridge_ip(Some("0")));
    assert!(!dtls_allows_non_lan_bridge_ip(None));
}

#[test]
fn psk_identity_resolution_order() {
    assert_eq!(psk_identity_from_env(Some(" id "), Some("1"), "key"), Some("id".to_string()));
    assert_eq!(psk_identity_from_env(Some("  "), Some("true"), "key"), Some("key".to_string()));
    assert_eq!(psk_identity_from_env(None, None, "key"), None);
    assert_eq!(psk_identity_after_lookup("key", Ok("app-id".to_string())), "app-id");
    assert_eq!(psk_identity_after_lookup("key", Err(HueError::Authentication)), "key");
}

#[test]
fn psk_identity_is_written_nul_terminated() {
    let mut out = [7u8; 6];
    assert!(write_psk_identity("abc", &mut out).is_ok());
    assert_eq!(out, [b'a', b'b', b'c', 0, 7, 7]);
    let mut small = [7u8; 3];
    assert!(write_psk_identity("abc", &mut small).is_err());
    assert_eq!(small, [7, 7, 7]);
}

#[derive(Default)]
struct RecordingTransport {
    sent: Vec<Vec<u8>>,
    drains: usize,
}

impl DtlsTransport for RecordingTransport {
    fn send(&mut self, message: &HueStreamMessage) -> Result<(), HueError> {
        self.send_bytes(message.as_bytes())
    }

    fn send_bytes(&mut self, bytes: &[u8]) -> Result<(), HueError> {
        self.sent.push(bytes.to_vec());
        Ok(())
    }

    fn drain_incoming(&mut self) -> Result<(), HueError> {
        self.drains += 1;
        Ok(())
    }
}

#[test]
fn dtls_frame_send_drains_peer_records() {
    let mut transport = RecordingTransport::default();

    send_dtls_frame(&mut transport, b"frame").unwrap();

    assert_eq!(transport.sent, vec![b"frame".to_vec()]);
    assert_eq!(transport.drains, 1);
}

#[test]
fn null_transport_counts_bytes() {
    let mut transport = NullTransport::default();
    send_dtls_frame(&mut transport, b"abcd").unwrap();
    send_dtls_frame(&mut transport, b"xy").unwrap();
    assert_eq!(transport.sent_bytes, 6);
}

#[test]
fn truthy_env_values() {
    assert!(!truthy_env(None));
    assert!(!truthy_env(Some("")));
    assert!(truthy_env(Some("1")));
}

#[test]
fn truthy_env_accepts_words_in_any_case() {
    assert!(truthy_env(Some(" On ")));
    assert!(truthy_env(Some("TRUE")));
    assert!(truthy_env(Some("yes")));
    assert!(!truthy_env(Some("no")));
    assert!(bridge_tls_pinning_enabled(Some("1")));
    assert!(!bridge_tls_pinning_enabled(None));
}

#[test]
fn constant_time_eq() {
    let a = [1_u8; 32];
    let mut b = [1_u8; 32];
    assert!(constant_time_eq_32(&a, &b));
    b[31] = 2;
    assert!(!constant_time_eq_32(&a, &b));
}

#[test]
fn pin_kind_from_env_defaults_to_spki() {
    assert_eq!(bridge_tls_pin_kind(None), BridgeTlsPinKind::Spki);
    assert_eq!(bridge_tls_pin_kind(Some(" LEAF ")), BridgeTlsPinKind::LeafCertDer);
    assert_eq!(bridge_tls_pin_kind(Some("der")), BridgeTlsPinKind::LeafCertDer);
    assert_eq!(bridge_tls_pin_kind(Some("other")), BridgeTlsPinKind::Spki);
}

#[test]
fn bridge_pin_path_sanitizes_ip_and_id() {
    let root = lumaway_config_root(Some("/tmp/pins "), None, None);
    assert_eq!(root, "/tmp/pins");
    let p = bridge_pin_file_path(&root, "192.168.0.1", None, None);
    assert!(p.ends_with("192.168.0.1.spki.sha256"));
    let paths = bridge_pin_paths(&root, "192.168.0.1", Some("001788:fffe:123456"), BridgeTlsPinKind::Spki);
    assert!(paths[0].contains("by-id"));
    assert!(paths[0].contains("001788_fffe_123456"));
    assert_eq!(
        paths,
        vec![
            "/tmp/pins/hue-tls-pins/by-id/001788_fffe_123456.spki.sha256".to_string(),
            "/tmp/pins/hue-tls-pins/192.168.0.1.spki.sha256".to_string(),
            "/tmp/pins/hue-tls-pins/192.168.0.1.sha256".to_string(),
        ]
    );
    let legacy = bridge_pin_paths("/r/", "fe80::1", None, BridgeTlsPinKind::LeafCertDer);
    assert_eq!(legacy, vec!["/r/hue-tls-pins/fe80--1.sha256".to_string()]);
}

#[test]
fn config_root_falls_back_to_xdg_then_home() {
    assert_eq!(lumaway_config_root(Some("  "), Some("/x"), Some("/h")), "/x/lumaway");
    assert_eq!(lumaway_config_root(None, Some(""), Some("/h")), "/h/.config/lumaway");
    assert_eq!(lumaway_config_root(None, None, None), ".config/lumaway");
}

#[test]
fn bridge_id_env_is_trimmed() {
    assert_eq!(bridge_id_from_env(Some(" abc ")), Some("abc".to_string()));
    assert_eq!(bridge_id_from_env(Some("   ")), None);
    assert_eq!(bridge_id_from_env(None), None);
}

#[test]
fn pin_kind_follows_file_name() {
    assert_eq!(pin_kind_for_path("/a/b/x.spki.sha256"), BridgeTlsPinKind::Spki);
    assert_eq!(pin_kind_for_path("/a/b/x.sha256"), BridgeTlsPinKind::LeafCertDer);
    assert_eq!(pin_kind_for_path("/a/x.spki.sha256/.."), BridgeTlsPinKind::LeafCertDer);
}

#[test]
fn load_pin_rejects_wrong_length() {
    match pin_from_file("/p/10.0.0.5.spki.sha256", b"short") {
        Err(HueError::TlsPin(m)) => {
            assert_eq!(m, "pin file /p/10.0.0.5.spki.sha256: expected 32 bytes, got 5")
        }
        other => panic!("unexpected {other:?}"),
    }
    let pin = pin_from_file("/p/10.0.0.5.spki.sha256", &[3u8; 32]).unwrap();
    assert_eq!(pin.digest, [3u8; 32]);
    assert_eq!(pin.kind, BridgeTlsPinKind::Spki);
}

#[test]
fn leaf_pin_is_sha256_of_der() {
    let digest = compute_pin_digest(b"abc", BridgeTlsPinKind::LeafCertDer).unwrap();
    assert_eq!(
        digest,
        [
            0xba, 0x78, 0x16, 0xbf, 0x8f, 0x01, 0xcf, 0xea, 0x41, 0x41, 0x40, 0xde, 0x5d, 0xae,
            0x22, 0x23, 0xb0, 0x03, 0x61, 0xa3, 0x96, 0x17, 0x7a, 0x9c, 0xb4, 0x10, 0xff, 0x61,
            0xf2, 0x00, 0x15, 0xad
        ]
    );
    assert!(compute_pin_digest(b"not a certificate", BridgeTlsPinKind::Spki).is_none());
    assert!(stored_pin_matches(&digest, &digest));
    assert!(!stored_pin_matches(&digest[..31], &digest));
}

#[test]
fn server_cert_verdicts() {
    let digest = compute_pin_digest(b"abc", BridgeTlsPinKind::LeafCertDer).unwrap();
    let stored = LoadedPin { digest, kind: BridgeTlsPinKind::LeafCertDer };
    assert_eq!(check_server_cert(b"abc", Some(stored), BridgeTlsPinKind::Spki), PinVerdict::Accept);
    assert_eq!(check_server_cert(b"abd", Some(stored), BridgeTlsPinKind::Spki), PinVerdict::Mismatch);
    assert_eq!(check_server_cert(b"", None, BridgeTlsPinKind::Spki), PinVerdict::BadEncoding);
    assert_eq!(check_server_cert(b"junk", None, BridgeTlsPinKind::Spki), PinVerdict::BadEncoding);
    assert_eq!(
        check_server_cert(b"abc", None, BridgeTlsPinKind::LeafCertDer),
        PinVerdict::Learn(digest)
    );
}

#[test]
fn parses_ssdp_bridge_response() {
    let bridge = parse_ssdp_bridge_response(
        "HTTP/1.1 200 OK\r\n\
         LOCATION: http://192.168.1.108:80/description.xml\r\n\
         HUE-BRIDGEID: 001788FFFE123456\r\n\
         ST: urn:schemas-upnp-org:device:basic:1\r\n\
         \r\n",
    )
    .unwrap();

    assert_eq!(bridge.id, "001788FFFE123456");
    assert_eq!(bridge.ip, "192.168.1.108");
}

#[test]
fn ignores_unrelated_ssdp_response() {
    assert!(parse_ssdp_bridge_response(
        "HTTP/1.1 200 OK\r\nLOCATION: http://192.168.1.1/root.xml\r\n\r\n"
    )
    .is_none());
}

#[test]
fn ssdp_bridge_without_id_uses_address() {
    let bridge = parse_ssdp_bridge_response(
        "SERVER: Linux IpBridge/1.0\r\nlocation: https://10.0.0.9/description.xml\r\n",
    )
    .unwrap();
    assert_eq!(bridge.id, "10.0.0.9");
    assert_eq!(bridge.ip, "10.0.0.9");
    assert!(parse_ssdp_bridge_response("philips hue\r\nLOCATION: http:///x\r\n").is_none());
}

#[test]
fn headers_and_hosts() {
    assert_eq!(header_value("A: 1\r\nKey :  v  \r\n", "key"), Some("v".to_string()));
    assert_eq!(header_value("A 1\r\n", "a"), None);
    assert_eq!(host_from_url("http://host:80/path"), Some("host".to_string()));
    assert_eq!(host_from_url("plainhost/x"), Some("plainhost".to_string()));
    assert_eq!(host_from_url("http://:80/"), None);
}

#[test]
fn bridge_config_starts_without_keys() {
    let config = HueBridgeConfig::new("192.168.0.2".to_string());
    assert_eq!(config.bridge_ip, "192.168.0.2");
    assert!(config.app_key.is_none());
    assert!(config.client_key.is_none());
}

#[test]
fn hue_error_messages() {
    assert_eq!(HueError::HttpStatus(404).message(), "Hue bridge returned HTTP status 404");
    assert_eq!(HueError::Request("x".into()).message(), "Hue request failed: x");
    assert_eq!(HueError::MissingBridgeIp.message(), "bridge IP is required");
}

#[test]
fn encoded_message_exposes_bytes() {
    let message: HueStreamMessage = HueStreamFrame {
        entertainment_config_id: CONFIG_ID.to_string(),
        sequence: 0,
        channels: vec![],
    }
    .encode_rgb()
    .unwrap();
    let copy = message.as_bytes().to_vec();
    assert_eq!(message.into_bytes(), copy);
}

#[test]
fn frame_outcome_reports_the_send_failure_first() {
    let err = |m: &str| HueError::Dtls(m.to_string());
    assert!(frame_outcome(Ok(()), Some(Ok(()))).is_ok());
    assert!(matches!(frame_outcome(Ok(()), Some(Err(err("drain")))), Err(HueError::Dtls(m)) if m == "drain"));
    assert!(matches!(frame_outcome(Err(err("send")), None), Err(HueError::Dtls(m)) if m == "send"));
    assert!(matches!(frame_outcome(Err(err("send")), Some(Err(err("drain")))), Err(HueError::Dtls(m)) if m == "send"));
}

struct RefusingTransport {
    sends: usize,
    drains: usize,
}

impl DtlsTransport for RefusingTransport {
    fn send(&mut self, message: &HueStreamMessage) -> Result<(), HueError> {
        self.send_bytes(message.as_bytes())
    }

    fn send_bytes(&mut self, _bytes: &[u8]) -> Result<(), HueError> {
        self.sends += 1;
        Err(HueError::Dtls("refused".to_string()))
    }

    fn drain_incoming(&mut self) -> Result<(), HueError> {
        self.drains += 1;
        Ok(())
    }
}

#[test]
fn failed_send_is_reported_without_draining() {
    let mut transport = RefusingTransport { sends: 0, drains: 0 };
    let result = send_dtls_frame(&mut transport, b"frame");
    assert!(matches!(result, Err(HueError::Dtls(m)) if m == "refused"));
    assert_eq!((transport.sends, transport.drains), (1, 0));
}
