use clipshare::discovery::{
    active_servers, apply_announcement, apply_resolved, format_url, listener_step, Announcement,
    ListenerEvent, ListenerState, DEFAULT_PORT,
};
use clipshare::registry::{Policy, ServerRegistry, EXPIRY_NANOS};

fn datagram(payload: &str, source: &str) -> ListenerEvent {
    ListenerEvent::Announcement { payload: payload.as_bytes().to_vec(), source: source.to_string() }
}

fn listening(registry: &mut ServerRegistry, event: ListenerEvent, now: u64) -> ListenerState {
    listener_step(ListenerState::Listening, registry, &event, now)
}

#[test]
fn announcement_yields_the_peer_address() {
    let mut registry = ServerRegistry::new(Policy::Ttl);
    let event = datagram(r#"{"service":"clipshare","port":9000,"protocol":"http"}"#, "10.0.0.5");
    let next = listening(&mut registry, event, 1);
    assert_eq!(next, ListenerState::Listening);
    assert_eq!(active_servers(&registry, 1), vec!["http://10.0.0.5:9000"]);
    // In this protocol the address is the identity too.
    assert_eq!(registry.address_of("http://10.0.0.5:9000"), Some("http://10.0.0.5:9000".to_string()));
}

#[test]
fn announcement_without_port_and_protocol_gets_the_defaults() {
    assert_eq!(DEFAULT_PORT, 8443);
    let mut registry = ServerRegistry::new(Policy::Ttl);
    listening(&mut registry, datagram(r#"{"service":"clipshare"}"#, "192.168.1.20"), 1);
    assert_eq!(active_servers(&registry, 1), vec!["https://192.168.1.20:8443"]);
}

#[test]
fn announcement_fields_of_the_wrong_type_get_the_defaults() {
    let mut registry = ServerRegistry::new(Policy::Ttl);
    let payload = r#"{"service":"clipshare","port":"9000","protocol":7}"#;
    listening(&mut registry, datagram(payload, "10.0.0.5"), 1);
    assert_eq!(active_servers(&registry, 1), vec!["https://10.0.0.5:8443"]);
    let mut registry = ServerRegistry::new(Policy::Ttl);
    let payload = r#"{"service":"clipshare","port":-1}"#;
    listening(&mut registry, datagram(payload, "10.0.0.5"), 1);
    assert_eq!(active_servers(&registry, 1), vec!["https://10.0.0.5:8443"]);
    let mut registry = ServerRegistry::new(Policy::Ttl);
    let payload = r#"{"service":"clipshare","port":9000.5}"#;
    listening(&mut registry, datagram(payload, "10.0.0.5"), 1);
    assert_eq!(active_servers(&registry, 1), vec!["https://10.0.0.5:8443"]);
}

#[test]
fn announcement_port_may_be_any_u64() {
    let mut registry = ServerRegistry::new(Policy::Ttl);
    let payload = r#"{"service":"clipshare","port":18446744073709551615}"#;
    listening(&mut registry, datagram(payload, "h"), 1);
    assert_eq!(active_servers(&registry, 1), vec!["https://h:18446744073709551615"]);
    let mut registry = ServerRegistry::new(Policy::Ttl);
    listening(&mut registry, datagram(r#"{"service":"clipshare","port":0}"#, "h"), 1);
    assert_eq!(active_servers(&registry, 1), vec!["https://h:0"]);
}

#[test]
fn other_services_are_dropped() {
    let mut registry = ServerRegistry::new(Policy::Ttl);
    for payload in [
        r#"{"service":"Clipshare","port":9000}"#,
        r#"{"service":"clipshare ","port":9000}"#,
        r#"{"service":"other"}"#,
        r#"{"service":42}"#,
        r#"{"port":9000,"protocol":"http"}"#,
        r#"{}"#,
    ] {
        let next = listening(&mut registry, datagram(payload, "10.0.0.5"), 1);
        assert_eq!(next, ListenerState::Listening);
        assert!(registry.is_empty());
    }
}

#[test]
fn malformed_messages_are_dropped() {
    let mut registry = ServerRegistry::new(Policy::Ttl);
    for payload in [
        "",
        "not json",
        r#"{"service":"clipshare""#,
        r#"{"service":"clipshare"} trailing"#,
        r#"["clipshare"]"#,
        r#""clipshare""#,
        "null",
    ] {
        let next = listening(&mut registry, datagram(payload, "10.0.0.5"), 1);
        assert_eq!(next, ListenerState::Listening);
        assert!(registry.is_empty());
    }
}

#[test]
fn messages_that_are_not_utf8_are_dropped() {
    let mut registry = ServerRegistry::new(Policy::Ttl);
    let mut payload = br#"{"service":"clipshare","protocol":""#.to_vec();
    payload.extend_from_slice(&[0xff, 0xfe]);
    payload.extend_from_slice(br#""}"#);
    assert!(Announcement::parse(&payload).is_none());
    let event = ListenerEvent::Announcement { payload, source: "10.0.0.5".to_string() };
    listening(&mut registry, event, 1);
    assert!(registry.is_empty());
}

#[test]
fn parse_reads_the_three_fields() {
    let read = Announcement::parse(br#"{"service":"clipshare","port":9000,"protocol":"http","x":1}"#)
        .expect("a json object");
    assert_eq!(read.service.as_deref(), Some("clipshare"));
    assert_eq!(read.port, Some(9000));
    assert_eq!(read.protocol.as_deref(), Some("http"));
    let read = Announcement::parse(b" { } ").expect("a json object");
    assert_eq!(read.service, None);
    assert_eq!(read.port, None);
    assert_eq!(read.protocol, None);
    // Any JSON document is read; one that is no object has no fields.
    let read = Announcement::parse(b"[1, 2]").expect("a json array");
    assert_eq!(read.service, None);
    assert!(Announcement::parse(b"{").is_none());
}

#[test]
fn parse_decodes_json_escapes_and_utf8() {
    let read = Announcement::parse("{\"service\":\"clip\\u0073hare\",\"protocol\":\"h\u{e9}\"}".as_bytes())
        .expect("a json object");
    assert_eq!(read.service.as_deref(), Some("clipshare"));
    assert_eq!(read.protocol.as_deref(), Some("h\u{e9}"));
    assert_eq!(read.peer_address("::1"), Some("h\u{e9}://::1:8443".to_string()));
}

#[test]
fn from_value_reads_a_value_built_by_hand() {
    let mut object = serde_json::Map::new();
    object.insert("service".to_string(), serde_json::Value::String("clipshare".to_string()));
    object.insert("port".to_string(), serde_json::Value::Number(serde_json::Number::from(9000u64)));
    object.insert("protocol".to_string(), serde_json::Value::Null);
    let read = Announcement::from_value(&serde_json::Value::Object(object));
    assert_eq!(read.service.as_deref(), Some("clipshare"));
    assert_eq!(read.port, Some(9000));
    assert_eq!(read.protocol, None);
    let read = Announcement::from_value(&serde_json::Value::String("service".to_string()));
    assert_eq!(read.service, None);
    assert_eq!(read.port, None);
}

#[test]
fn peer_address_is_none_unless_the_service_matches() {
    let accepted = Announcement { service: Some("clipshare".to_string()), port: None, protocol: None };
    assert_eq!(accepted.peer_address("10.0.0.5"), Some("https://10.0.0.5:8443".to_string()));
    let other = Announcement { service: Some("clipshare2".to_string()), port: Some(1), protocol: None };
    assert_eq!(other.peer_address("10.0.0.5"), None);
    let missing = Announcement { service: None, port: Some(1), protocol: Some("http".to_string()) };
    assert_eq!(missing.peer_address("10.0.0.5"), None);
}

#[test]
fn format_url_writes_protocol_host_and_decimal_port() {
    assert_eq!(format_url("http", "10.0.0.5", 9000), "http://10.0.0.5:9000");
    assert_eq!(format_url("https", "example.org", 8443), "https://example.org:8443");
    assert_eq!(format_url("", "", 0), "://:0");
    assert_eq!(format_url("https", "h", 10), "https://h:10");
    assert_eq!(format_url("https", "h", 65535), "https://h:65535");
}

#[test]
fn apply_announcement_upserts_or_leaves_alone() {
    let mut registry = ServerRegistry::new(Policy::Ttl);
    apply_announcement(&mut registry, &None, "10.0.0.5", 1);
    assert!(registry.is_empty());
    let announcement = Announcement { service: Some("clipshare".to_string()), port: Some(9000), protocol: None };
    apply_announcement(&mut registry, &Some(announcement), "10.0.0.5", 1);
    assert_eq!(registry.active_peers(1), vec!["https://10.0.0.5:9000"]);
    let other = Announcement { service: Some("nope".to_string()), port: Some(9001), protocol: None };
    apply_announcement(&mut registry, &Some(other), "10.0.0.6", 1);
    assert_eq!(registry.len(), 1);
}

#[test]
fn repeated_announcements_keep_one_entry_and_renew_it() {
    let mut registry = ServerRegistry::new(Policy::Ttl);
    let payload = r#"{"service":"clipshare","port":9000,"protocol":"http"}"#;
    listening(&mut registry, datagram(payload, "10.0.0.5"), 0);
    listening(&mut registry, datagram(payload, "10.0.0.5"), 20_000_000_000);
    assert_eq!(registry.len(), 1);
    assert_eq!(active_servers(&registry, 45_000_000_000), vec!["http://10.0.0.5:9000"]);
    assert!(active_servers(&registry, 50_000_000_000).is_empty());
}

#[test]
fn every_listening_step_prunes_stale_entries() {
    let mut registry = ServerRegistry::new(Policy::Ttl);
    listening(&mut registry, datagram(r#"{"service":"clipshare"}"#, "10.0.0.1"), 0);
    listening(&mut registry, datagram(r#"{"service":"clipshare"}"#, "10.0.0.2"), 10);
    assert_eq!(registry.len(), 2);
    let next = listening(&mut registry, ListenerEvent::ReadTimeout, EXPIRY_NANOS);
    assert_eq!(next, ListenerState::Listening);
    assert_eq!(registry.len(), 1);
    assert_eq!(active_servers(&registry, EXPIRY_NANOS), vec!["https://10.0.0.2:8443"]);
    listening(&mut registry, datagram("garbage", "10.0.0.3"), EXPIRY_NANOS + 10);
    assert!(registry.is_empty());
}

#[test]
fn listener_starts_by_acquiring_the_transport() {
    let mut registry = ServerRegistry::new(Policy::Ttl);
    let bound =
        listener_step(ListenerState::Unstarted, &mut registry, &ListenerEvent::TransportAcquired, 0);
    assert_eq!(bound, ListenerState::Bound);
    let listening = listener_step(bound, &mut registry, &ListenerEvent::ReceiveStarted, 0);
    assert_eq!(listening, ListenerState::Listening);
    assert!(registry.is_empty());
}

#[test]
fn listener_without_transport_is_degraded_and_the_registry_stays_empty() {
    let mut registry = ServerRegistry::new(Policy::Ttl);
    let mut state =
        listener_step(ListenerState::Unstarted, &mut registry, &ListenerEvent::TransportUnavailable, 0);
    assert_eq!(state, ListenerState::Degraded);
    for event in [
        datagram(r#"{"service":"clipshare"}"#, "10.0.0.1"),
        ListenerEvent::TransportAcquired,
        ListenerEvent::ReceiveStarted,
        ListenerEvent::ReadTimeout,
        ListenerEvent::ChannelFailed,
    ] {
        state = listener_step(state, &mut registry, &event, 5);
        assert_eq!(state, ListenerState::Degraded);
        assert!(registry.is_empty());
    }
}

#[test]
fn messages_count_only_while_listening() {
    for state in [ListenerState::Unstarted, ListenerState::Bound, ListenerState::Terminated] {
        let mut registry = ServerRegistry::new(Policy::Ttl);
        let event = datagram(r#"{"service":"clipshare"}"#, "10.0.0.1");
        assert_eq!(listener_step(state, &mut registry, &event, 5), state);
        assert!(registry.is_empty());
    }
}

#[test]
fn channel_failure_terminates_and_freezes_the_registry() {
    let mut registry = ServerRegistry::new(Policy::Ttl);
    listening(&mut registry, datagram(r#"{"service":"clipshare"}"#, "10.0.0.1"), 0);
    let state = listening(&mut registry, ListenerEvent::ChannelFailed, EXPIRY_NANOS + 1);
    assert_eq!(state, ListenerState::Terminated);
    // Frozen: not even pruned.  The stale entry is still filtered out of queries.
    assert_eq!(registry.len(), 1);
    assert!(active_servers(&registry, EXPIRY_NANOS + 1).is_empty());
    let state = listener_step(state, &mut registry, &ListenerEvent::ReadTimeout, EXPIRY_NANOS + 2);
    assert_eq!(state, ListenerState::Terminated);
    assert_eq!(registry.len(), 1);
}

#[test]
fn resolved_service_is_upserted_under_its_full_name() {
    let mut registry = ServerRegistry::new(Policy::Explicit);
    let event = ListenerEvent::ServiceResolved {
        fullname: "desk._clipshare._tcp.local.".to_string(),
        addresses: vec!["10.0.0.8".to_string(), "10.0.0.9".to_string()],
        port: 9443,
        protocol: Some("http".to_string()),
    };
    assert_eq!(listening(&mut registry, event, 0), ListenerState::Listening);
    assert_eq!(
        registry.address_of("desk._clipshare._tcp.local."),
        Some("http://10.0.0.8:9443".to_string())
    );
    assert_eq!(active_servers(&registry, u64::MAX), vec!["http://10.0.0.8:9443"]);
}

#[test]
fn resolved_service_defaults_to_https_and_needs_an_address() {
    let mut registry = ServerRegistry::new(Policy::Explicit);
    apply_resolved(&mut registry, "a", &vec!["10.0.0.8".to_string()], 443, &None, 0);
    assert_eq!(registry.address_of("a"), Some("https://10.0.0.8:443".to_string()));
    apply_resolved(&mut registry, "b", &Vec::new(), 443, &None, 0);
    assert_eq!(registry.address_of("b"), None);
    assert_eq!(registry.len(), 1);
}

#[test]
fn removed_service_leaves_the_registry() {
    let mut registry = ServerRegistry::new(Policy::Explicit);
    apply_resolved(&mut registry, "a", &vec!["10.0.0.8".to_string()], 443, &None, 0);
    apply_resolved(&mut registry, "b", &vec!["10.0.0.9".to_string()], 443, &None, 0);
    let event = ListenerEvent::ServiceRemoved { fullname: "a".to_string() };
    assert_eq!(listening(&mut registry, event, 5), ListenerState::Listening);
    assert_eq!(active_servers(&registry, 5), vec!["https://10.0.0.9:443"]);
}

#[test]
fn removed_event_for_an_unknown_service_is_a_no_op() {
    let mut registry = ServerRegistry::new(Policy::Explicit);
    let event = ListenerEvent::ServiceRemoved { fullname: "ghost._clipshare._tcp.local.".to_string() };
    assert_eq!(listening(&mut registry, event, 5), ListenerState::Listening);
    assert!(registry.is_empty());
    apply_resolved(&mut registry, "a", &vec!["10.0.0.8".to_string()], 443, &None, 0);
    let event = ListenerEvent::ServiceRemoved { fullname: "ghost._clipshare._tcp.local.".to_string() };
    assert_eq!(listening(&mut registry, event, u64::MAX), ListenerState::Listening);
    assert_eq!(active_servers(&registry, u64::MAX), vec!["https://10.0.0.8:443"]);
}
