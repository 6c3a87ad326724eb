use lumaway::bridge_api::{
    bridge_user_from_replies, check_bridge_config, entertainment_services, lan_candidates,
    light_ids, merge_discoveries, request_app_key, resolve_area_id, scan_worker_count,
    status_failure, subnet_scan_candidates, AreaName, PairingReply, PairingSuccess, ResourceRef,
};
use lumaway::client::{
    bridge_from_config_fields, parse_bridge_config_response, BridgeConfigFields, BridgeDiscovery,
    HueBridgeConfig,
};
use lumaway::error::HueError;
use lumaway::ordered::text_less_exec;

fn area(id: &str, name: &str) -> AreaName {
    AreaName { id: id.to_string(), name: name.to_string() }
}

fn found(id: &str, ip: &str) -> BridgeDiscovery {
    BridgeDiscovery { id: id.to_string(), ip: ip.to_string() }
}

fn reference(rid: &str, rtype: &str) -> ResourceRef {
    ResourceRef { rid: rid.to_string(), rtype: rtype.to_string() }
}

#[test]
fn client_needs_an_address_and_requests_a_key() {
    assert!(matches!(
        check_bridge_config(&HueBridgeConfig::new("  ".to_string())),
        Err(HueError::MissingBridgeIp)
    ));
    assert!(check_bridge_config(&HueBridgeConfig::new("192.168.1.2".to_string())).is_ok());
    assert!(matches!(request_app_key(&None), Err(HueError::MissingAppKey)));
    assert_eq!(request_app_key(&Some("key".to_string())).unwrap(), "key");
}

#[test]
fn statuses_map_to_failures() {
    assert!(status_failure(200).is_none());
    assert!(status_failure(207).is_none());
    assert!(matches!(status_failure(401), Some(HueError::Authentication)));
    assert!(matches!(status_failure(403), Some(HueError::Authentication)));
    assert!(matches!(status_failure(503), Some(HueError::HttpStatus(503))));
    assert!(matches!(status_failure(302), Some(HueError::HttpStatus(302))));
}

#[test]
fn parses_create_user_success() {
    let user = bridge_user_from_replies(vec![PairingReply {
        success: Some(PairingSuccess {
            username: "app-key".to_string(),
            clientkey: Some("client-key".to_string()),
        }),
        error: None,
    }])
    .unwrap();

    assert_eq!(user.app_key, "app-key");
    assert_eq!(user.client_key.as_deref(), Some("client-key"));
}

#[test]
fn pairing_errors_are_reported() {
    let refused = bridge_user_from_replies(vec![PairingReply {
        success: None,
        error: Some("link button not pressed".to_string()),
    }]);
    assert!(matches!(refused, Err(HueError::Bridge(ref m)) if m == "link button not pressed"));
    assert!(matches!(
        bridge_user_from_replies(vec![]),
        Err(HueError::UnexpectedResponse(ref m)) if m == "empty create user response"
    ));
    assert!(matches!(
        bridge_user_from_replies(vec![PairingReply { success: None, error: None }]),
        Err(HueError::UnexpectedResponse(ref m)) if m == "create user response contained no success or error"
    ));
}

#[test]
fn areas_resolve_by_id_or_unique_name() {
    let areas = vec![area("a-1", "TV"), area("b-2", "Desk"), area("c-3", "Desk")];
    assert_eq!(resolve_area_id(&areas, "a-1").unwrap(), "a-1");
    assert_eq!(resolve_area_id(&areas, "TV").unwrap(), "a-1");
    assert!(matches!(
        resolve_area_id(&areas, "Desk"),
        Err(HueError::UnexpectedResponse(ref m))
            if m == "multiple entertainment areas matched name: Desk; use the area id instead"
    ));
    assert!(matches!(
        resolve_area_id(&areas, "Kitchen"),
        Err(HueError::UnexpectedResponse(ref m)) if m == "entertainment area not found by id or name: Kitchen"
    ));
}

#[test]
fn discoveries_merge_by_address() {
    let merged = merge_discoveries(&[
        found("cloud-a", "192.168.1.20"),
        found("cloud-b", "192.168.1.3"),
        found("ssdp-a", "192.168.1.20"),
    ]);
    let pairs: Vec<(String, String)> = merged.iter().map(|b| (b.ip.clone(), b.id.clone())).collect();
    assert_eq!(
        pairs,
        vec![
            ("192.168.1.20".to_string(), "ssdp-a".to_string()),
            ("192.168.1.3".to_string(), "cloud-b".to_string()),
        ]
    );
    assert!(merge_discoveries(&[]).is_empty());
}

#[test]
fn text_order_matches_string_order() {
    let pairs = [("a", "b"), ("ab", "a"), ("", "a"), ("abc", "abd"), ("Z", "a"), ("é", "z")];
    for (x, y) in pairs {
        let xs: Vec<char> = x.chars().collect();
        let ys: Vec<char> = y.chars().collect();
        assert_eq!(text_less_exec(&xs, &ys), x < y, "{x} vs {y}");
        assert_eq!(text_less_exec(&ys, &xs), y < x, "{y} vs {x}");
    }
}

#[test]
fn light_ids_are_distinct_and_sorted() {
    let members = vec![
        reference("svc-2", "entertainment"),
        reference("zone-1", "zone"),
        reference("svc-1", "entertainment"),
    ];
    assert_eq!(entertainment_services(&members), vec!["svc-2", "svc-1"]);

    let renderers = vec![
        reference("light-b", "light"),
        reference("plug-1", "device"),
        reference("light-a", "light"),
        reference("light-b", "light"),
    ];
    assert_eq!(light_ids(&renderers), vec!["light-a", "light-b"]);
}

#[test]
fn subnet_scan_covers_the_local_networks() {
    let candidates = subnet_scan_candidates(&[(192, 168, 1, 10)]);
    assert_eq!(candidates.len(), 253);
    assert_eq!(candidates[0], (192, 168, 1, 1));
    assert_eq!(candidates[9], (192, 168, 1, 11));
    assert_eq!(candidates[252], (192, 168, 1, 254));
    assert_eq!(subnet_scan_candidates(&[(10, 0, 0, 1), (10, 0, 1, 255)]).len(), 253 + 254);

    assert_eq!(scan_worker_count(None, 253), 64);
    assert_eq!(scan_worker_count(Some("8"), 253), 8);
    assert_eq!(scan_worker_count(Some("0"), 253), 1);
    assert_eq!(scan_worker_count(Some("1000"), 253), 256.min(253));
    assert_eq!(scan_worker_count(Some("lots"), 253), 64);
    assert_eq!(scan_worker_count(Some("32"), 5), 5);

    assert_eq!(
        lan_candidates(&[(192, 168, 1, 10), (8, 8, 8, 8), (10, 0, 0, 2), (192, 168, 1, 10), (127, 0, 0, 1)]),
        vec![(10, 0, 0, 2), (192, 168, 1, 10)]
    );
}

#[test]
fn parses_bridge_config_response() {
    let bridge = parse_bridge_config_response(
        "HTTP/1.1 200 OK\r\n\r\n{\"bridgeid\":\"001788FFFE123456\",\"ipaddress\":\"192.168.1.108\",\"apiversion\":\"1.67.0\"}",
        "192.168.1.108",
    )
    .unwrap();

    assert_eq!(bridge.id, "001788FFFE123456");
    assert_eq!(bridge.ip, "192.168.1.108");
}

#[test]
fn config_reply_without_bridge_shape_is_not_a_bridge() {
    assert!(parse_bridge_config_response("HTTP/1.1 200 OK\r\n\r\n{\"name\":\"router\"}", "10.0.0.1").is_none());
    assert!(parse_bridge_config_response("HTTP/1.1 404 Not Found\r\n\r\nnot json", "10.0.0.1").is_none());
}

#[test]
fn config_reply_falls_back_to_probed_address() {
    let bridge = parse_bridge_config_response("{\"apiversion\":\"1.60.0\"}", "10.0.0.7").unwrap();
    assert_eq!(bridge.id, "10.0.0.7");
    assert_eq!(bridge.ip, "10.0.0.7");
    let fields = BridgeConfigFields {
        has_bridge_id: true,
        bridge_id: None,
        ip_address: Some("10.0.0.8".to_string()),
        api_version: None,
    };
    let bridge = bridge_from_config_fields(&fields, "10.0.0.9").unwrap();
    assert_eq!(bridge.id, "10.0.0.9");
    assert_eq!(bridge.ip, "10.0.0.8");
}
