use v1bectl::dirigera::DirigeraGateway;

#[test]
fn candidates_for_plain_local_host() {
    let c = DirigeraGateway::host_candidates("gw2-b1223333.local", 5);
    assert_eq!(c[0], "gw2-b1223333.local");
    assert_eq!(c[1], "gw2-b1223333-2.local");
    assert_eq!(c[2], "gw2-b1223333-3.local");
    assert_eq!(c.last().unwrap(), "gw2-b1223333-5.local");
    assert_eq!(
        c.iter()
            .filter(|h| h.as_str() == "gw2-b1223333.local")
            .count(),
        1
    );
}

#[test]
fn candidates_when_configured_with_collision_suffix() {
    let c = DirigeraGateway::host_candidates("gw2-b1223333-2.local", 5);
    assert_eq!(c[0], "gw2-b1223333-2.local");
    assert_eq!(c[1], "gw2-b1223333.local");
    assert_eq!(
        c.iter()
            .filter(|h| h.as_str() == "gw2-b1223333-2.local")
            .count(),
        1
    );
    assert!(c.contains(&"gw2-b1223333-3.local".to_string()));
}

#[test]
fn non_local_host_is_used_as_is() {
    assert_eq!(
        DirigeraGateway::host_candidates("192.168.1.1", 5),
        vec!["192.168.1.1".to_string()]
    );
    assert_eq!(
        DirigeraGateway::host_candidates("hub.example.com", 5),
        vec!["hub.example.com".to_string()]
    );
}

#[test]
fn hyphenated_base_without_numeric_suffix_is_preserved() {
    let c = DirigeraGateway::host_candidates("gw2-b1223333.local", 3);
    assert_eq!(c[0], "gw2-b1223333.local");
    assert_eq!(c.len(), 3);
}

#[test]
fn gateway_urls_name_the_hub() {
    let g = DirigeraGateway::new("hub.local", "tok-123", 10_000);
    assert_eq!(g.base_url, "https://hub.local:8443/v1");
    assert_eq!(g.ws_url, "wss://hub.local:8443/v1");
    assert_eq!(g.access_token, "tok-123");
    assert_eq!(g.timeout_ms, 10_000);
}
