use lumaway::window_replies::{
    choose_discovered_bridge, BridgeOption, DiscoveryChoice, parse_area_state_output, parse_areas_output, parse_auth_output, parse_bridge_discovery_output,
    parse_bridge_info_output,
};

#[test]
fn parses_auth_output() {
    let (app_key, client_key) = parse_auth_output(br#"{"app_key":"app","client_key":"client"}"#).unwrap();

    assert_eq!(app_key, "app");
    assert_eq!(client_key, "client");
}

#[test]
fn rejects_auth_output_without_client_key() {
    let error = parse_auth_output(br#"{"app_key":"app"}"#).unwrap_err();

    assert!(error.contains("client_key"));
}

#[test]
fn parses_area_options() {
    let areas = parse_areas_output(
        br#"[
            {"id":"01234567-89ab-cdef-0123-456789abcdef","name":"TV","channels":[],"lights":5},
            {"id":"fedcba98-7654-3210-fedc-ba9876543210","name":"Desk","channels":[]}
        ]"#,
    )
    .unwrap();

    assert_eq!(areas.len(), 2);
    assert_eq!(areas[0].id, "01234567-89ab-cdef-0123-456789abcdef");
    assert_eq!(areas[0].name, "TV");
    assert_eq!(areas[0].lights, Some(5));
    assert_eq!(areas[1].name, "Desk");
    assert_eq!(areas[1].lights, None);
}

#[test]
fn parses_bridge_discovery_output() {
    let bridges = parse_bridge_discovery_output(
        br#"[
            {"id":"001788fffe123456","internalipaddress":"192.168.1.108"}
        ]"#,
    )
    .unwrap();

    assert_eq!(bridges.len(), 1);
    assert_eq!(bridges[0].ip, "192.168.1.108");
    assert_eq!(bridges[0].id, "001788fffe123456");
}

#[test]
fn parses_bridge_info_output() {
    let info = parse_bridge_info_output(br#"{"id":"bridge-1","name":"Salon Bridge"}"#).unwrap();

    assert_eq!(info.id, "bridge-1");
    assert_eq!(info.name, "Salon Bridge");
}

#[test]
fn parses_area_state_output() {
    let (name, lights) = parse_area_state_output(br#"{"active":true,"name":"TV","lights":2}"#).unwrap();

    assert_eq!(name, "TV");
    assert_eq!(lights, 2);
}

#[test]
fn window_replies_report_each_problem() {
    assert_eq!(parse_auth_output(br#"{"client_key":"c"}"#).unwrap_err(), "auth response did not contain app_key");
    assert!(parse_auth_output(b"not json").is_err());
    assert_eq!(parse_areas_output(br#"{"id":"a"}"#).unwrap_err(), "areas response was not a JSON array");
    let areas = parse_areas_output(br#"[{"id":"a"},{"id":"b","name":"B","lights":"3"},{"name":"C","id":1}]"#).unwrap();
    assert_eq!(areas.len(), 1);
    assert_eq!((areas[0].id.as_str(), areas[0].name.as_str(), areas[0].lights), ("b", "B", None));
    let bridges = parse_bridge_discovery_output(
        br#"[{"ip":" 10.0.0.5 ","id":" x "},{"internalipaddress":5,"ip":"10.0.0.6"},{"internalipaddress":"  "},{"ip":"10.0.0.7"}]"#,
    )
    .unwrap();
    assert_eq!(bridges.len(), 2);
    assert_eq!((bridges[0].ip.as_str(), bridges[0].id.as_str()), ("10.0.0.5", "x"));
    assert_eq!((bridges[1].ip.as_str(), bridges[1].id.as_str()), ("10.0.0.7", ""));
    assert_eq!(parse_bridge_discovery_output(b"{}").unwrap_err(), "discovery response was not a JSON array");
    assert_eq!(parse_bridge_info_output(br#"{"id":"x","name":"  "}"#).unwrap_err(), "bridge info response did not contain a name");
    let info = parse_bridge_info_output(br#"{"name":" Hall "}"#).unwrap();
    assert_eq!((info.id.as_str(), info.name.as_str()), ("", "Hall"));
    assert_eq!(parse_area_state_output(br#"{"lights":2}"#).unwrap_err(), "area response did not contain a name");
    assert_eq!(parse_area_state_output(br#"{"name":"TV"}"#).unwrap_err(), "area response did not contain a lights count");
}

#[test]
fn discovery_selects_the_first_bridge() {
    let none: Vec<BridgeOption> = Vec::new();
    assert_eq!(choose_discovered_bridge(&none), DiscoveryChoice::NoneFound);
    let bridges = vec![
        BridgeOption { ip: "10.0.0.2".to_string(), id: String::new() },
        BridgeOption { ip: "10.0.0.3".to_string(), id: "b".to_string() },
    ];
    assert_eq!(
        choose_discovered_bridge(&bridges),
        DiscoveryChoice::Selected { ip: "10.0.0.2".to_string(), id: String::new(), save_id: false, count: 2 }
    );
    assert_eq!(
        choose_discovered_bridge(&bridges[1..]),
        DiscoveryChoice::Selected { ip: "10.0.0.3".to_string(), id: "b".to_string(), save_id: true, count: 1 }
    );
}
