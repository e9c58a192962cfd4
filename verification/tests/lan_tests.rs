use memos_app::lan::{
    acl_rules_or_default, apply_discovered, apply_expired, apply_profile, choose_display_name,
    enabled_from_setting, enabled_setting_value, local_peer_id, peer_id_chars_prefix, user_profile_display_name,
    on_discovery_event, DiscoveryEvent, LanState, PeerInfo, ProfileRequests,
};

fn peer(id: &str, name: &str) -> PeerInfo {
    PeerInfo {
        peer_id: id.to_string(),
        display_name: name.to_string(),
        addrs: vec![],
        relay_url: None,
        last_seen: 0,
    }
}

#[test]
fn placeholder_is_a_prefix_of_the_id() {
    assert_eq!(peer_id_chars_prefix("0123456789abcdef", 8), "01234567");
    assert_eq!(peer_id_chars_prefix("abc", 8), "abc");
    assert_eq!(peer_id_chars_prefix("界界界", 2), "界界");
}

#[test]
fn discovery_adds_then_refreshes_keeping_the_name() {
    let mut peers = Vec::new();
    apply_discovered(&mut peers, "aaaaaaaaaaaa".to_string(), vec!["10.0.0.1:1".to_string()], None, 5);
    assert_eq!(peers.len(), 1);
    assert_eq!(peers[0].display_name, "aaaaaaaa");
    assert!(apply_profile(&mut peers, "aaaaaaaaaaaa", "Alice".to_string()));
    assert_eq!(peers[0].display_name, "Alice");
    apply_discovered(&mut peers, "aaaaaaaaaaaa".to_string(), vec![], Some("https://relay".to_string()), 9);
    assert_eq!(peers.len(), 1);
    assert_eq!(peers[0].display_name, "Alice");
    assert_eq!(peers[0].last_seen, 9);
    assert_eq!(peers[0].relay_url, Some("https://relay".to_string()));
    assert!(peers[0].addrs.is_empty());
}

#[test]
fn empty_profile_names_are_ignored() {
    let mut peers = vec![peer("p1", "p1")];
    assert!(!apply_profile(&mut peers, "p1", String::new()));
    assert_eq!(peers[0].display_name, "p1");
    // a name for a peer no longer cached still tells the front end
    assert!(apply_profile(&mut peers, "p2", "Bob".to_string()));
    assert_eq!(peers.len(), 1);
}

#[test]
fn expiry_removes_the_peer() {
    let mut peers = vec![peer("p1", "a"), peer("p2", "b"), peer("p3", "c")];
    assert!(apply_expired(&mut peers, "p2"));
    let ids: Vec<&str> = peers.iter().map(|p| p.peer_id.as_str()).collect();
    assert_eq!(ids, vec!["p1", "p3"]);
    assert!(!apply_expired(&mut peers, "p2"));
    assert_eq!(peers.len(), 2);
}

#[test]
fn local_id_is_the_endpoint_id() {
    let rt = tokio::runtime::Builder::new_current_thread().enable_all().build().unwrap();
    let secret = iroh::SecretKey::from_bytes(&[7u8; 32]);
    let expected = secret.public().to_string();
    let endpoint = rt
        .block_on(iroh::Endpoint::builder(iroh::endpoint::presets::Minimal).secret_key(secret).bind())
        .unwrap();
    let state = LanState { endpoint, peers: vec![], display_name: "me".to_string() };
    let id = local_peer_id(&state);
    assert_eq!(id, expected);
    assert_eq!(id.len(), 64);
    rt.block_on(state.endpoint.close());
}

#[test]
fn display_name_sources_in_order() {
    let profile = "{\"displayName\": \"  Carol \", \"other\": 1}";
    assert_eq!(user_profile_display_name(Some(profile)), Some("Carol".to_string()));
    assert_eq!(choose_display_name(Some(profile), Some("Lan".to_string())), "Carol");
    assert_eq!(choose_display_name(Some("{\"displayName\": \"   \"}"), Some("Lan".to_string())), "Lan");
    assert_eq!(choose_display_name(Some("not json"), None), "LocalFragNote");
    assert_eq!(choose_display_name(Some("{\"displayName\": 3}"), None), "LocalFragNote");
    assert_eq!(choose_display_name(None, None), "LocalFragNote");
}

#[test]
fn enabled_setting_reads_back() {
    assert!(enabled_from_setting(None));
    assert!(enabled_from_setting(Some(" true ")));
    assert!(enabled_from_setting(Some("1")));
    assert!(enabled_from_setting(Some("TRUE")));
    assert!(enabled_from_setting(Some("True")));
    assert!(!enabled_from_setting(Some("yes")));
    assert!(!enabled_from_setting(Some("false")));
    assert!(enabled_from_setting(Some(enabled_setting_value(true))));
    assert!(!enabled_from_setting(Some(enabled_setting_value(false))));
}

#[test]
fn acl_default_is_an_empty_list() {
    assert_eq!(acl_rules_or_default(None), "[]");
    assert_eq!(acl_rules_or_default(Some("[1]".to_string())), "[1]");
}

#[test]
fn profile_requests_once_per_peer() {
    let mut r = ProfileRequests::new();
    assert!(r.try_begin("p1"));
    assert!(!r.try_begin("p1"));
    assert!(r.try_begin("p2"));
    r.finish("p1");
    assert!(r.try_begin("p1"));
    r.finish("zz");
    assert!(!r.try_begin("p2"));
}

#[test]
fn discovery_loop_steps() {
    let mut peers = Vec::new();
    let mut requests = ProfileRequests::new();
    let ev = DiscoveryEvent::Discovered { peer_id: "abcdefghij".to_string(), addrs: vec![], relay_url: None };
    let out = on_discovery_event(&mut peers, &mut requests, ev, 1);
    assert!(out.changed);
    assert_eq!(out.fetch_profile, Some("abcdefghij".to_string()));
    assert_eq!(peers[0].display_name, "abcdefgh");
    // seen again while its profile is being fetched: no second request
    let ev = DiscoveryEvent::Discovered { peer_id: "abcdefghij".to_string(), addrs: vec![], relay_url: None };
    let out = on_discovery_event(&mut peers, &mut requests, ev, 2);
    assert!(out.changed);
    assert_eq!(out.fetch_profile, None);
    assert_eq!(peers.len(), 1);
    assert_eq!(peers[0].last_seen, 2);
    // expiry drops it and forgets the request
    let out = on_discovery_event(&mut peers, &mut requests, DiscoveryEvent::Expired { peer_id: "abcdefghij".to_string() }, 3);
    assert!(out.changed);
    assert!(peers.is_empty());
    assert!(requests.try_begin("abcdefghij"));
    let out = on_discovery_event(&mut peers, &mut requests, DiscoveryEvent::Expired { peer_id: "nobody".to_string() }, 4);
    assert!(!out.changed);
    let out = on_discovery_event(&mut peers, &mut requests, DiscoveryEvent::Other, 5);
    assert!(!out.changed);
    assert_eq!(out.fetch_profile, None);
}
