use lightrary::addr::Ipv4Addr;
use lightrary::discovery::{DiscoveryBroker, DnsRecord, Manual};
use lightrary::error::{Error, GenKeyError, GenKeyResult, GenKeySuccess};
use lightrary::resources::bridge::{Bridge, Bridges, UnauthBridge, UnauthBridges};
use lightrary::resources::BridgeConfig;
use lightrary::session::Session;

fn sample_config() -> BridgeConfig {
    BridgeConfig {
        name: String::from("Philips hue"),
        datastoreversion: String::from("159"),
        swversion: String::from("1967054020"),
        apiversion: String::from("1.67.0"),
        mac: String::from("00:17:88:ab:cd:ef"),
        bridgeid: String::from("001788FFFEABCDEF"),
        factorynew: false,
        replacebridgeid: None,
        modelid: String::from("BSB002"),
        starterkitid: None,
    }
}

fn sample_config_body() -> String {
    String::from(
        "{\"name\":\"Philips hue\",\"datastoreversion\":\"159\",\"swversion\":\"1967054020\",\
         \"apiversion\":\"1.67.0\",\"mac\":\"00:17:88:ab:cd:ef\",\"bridgeid\":\"001788FFFEABCDEF\",\
         \"factorynew\":false,\"modelid\":\"BSB002\"}",
    )
}

fn sample_device(last_octet: u8) -> UnauthBridge {
    UnauthBridge {
        id: None,
        ip: Ipv4Addr::new(192, 168, 50, last_octet),
        port: 443,
    }
}

fn authed_bridge() -> Bridge {
    let session = Session::new().expect("building the transport session");
    sample_device(173)
        .auth(Ok((session, sample_config_body())))
        .expect("authentication against the sample body")
}

#[test]
fn manual_discovery_yields_exactly_the_given_device() {
    let broker = DiscoveryBroker::manual(Ipv4Addr::new(192, 168, 50, 173));
    let device = broker.discover().unwrap();
    assert_eq!(device.id, None);
    assert_eq!(device.ip, Ipv4Addr::new(192, 168, 50, 173));
    assert_eq!(device.port, 443);
}

#[test]
fn manual_discovery_is_deterministic() {
    let broker = DiscoveryBroker::manual(Ipv4Addr::new(192, 168, 50, 173));
    let first = broker.discover().unwrap();
    let second = broker.discover().unwrap();
    assert_eq!(first.ip, second.ip);
    assert_eq!(first.port, second.port);
    assert_eq!(first.id, second.id);
}

#[test]
fn manual_broker_from_text_address() {
    let broker: DiscoveryBroker<Manual> = "192.168.50.173".parse().unwrap();
    let device = broker.discover().unwrap();
    assert_eq!(device.ip, Ipv4Addr::new(192, 168, 50, 173));
}

#[test]
fn manual_broker_from_bad_text_is_an_address_parse_error() {
    let err = "192.168.50".parse::<DiscoveryBroker<Manual>>().unwrap_err();
    assert!(matches!(err, Error::AddrParse));
}

#[test]
fn manual_broker_from_address_value() {
    let broker = DiscoveryBroker::from(Ipv4Addr::new(10, 0, 0, 7));
    let device = broker.discover().unwrap();
    assert_eq!(device.ip, Ipv4Addr::new(10, 0, 0, 7));
}

#[test]
fn mdns_discovery_without_response_is_an_empty_set_not_an_error() {
    let broker = DiscoveryBroker::mdns();
    let bridges = broker.discover(None).unwrap();
    assert_eq!(bridges.0.len(), 0);
}

#[test]
fn mdns_discovery_takes_the_first_ipv4_record() {
    let broker = DiscoveryBroker::mdns();
    let records = vec![
        DnsRecord::Other,
        DnsRecord::Aaaa,
        DnsRecord::A(Ipv4Addr::new(192, 168, 50, 173)),
        DnsRecord::A(Ipv4Addr::new(192, 168, 50, 174)),
    ];
    let bridges = broker.discover(Some(Ok(records))).unwrap();
    assert_eq!(bridges.0.len(), 1);
    assert_eq!(bridges.0[0].ip, Ipv4Addr::new(192, 168, 50, 173));
    assert_eq!(bridges.0[0].port, 443);
    assert_eq!(bridges.0[0].id, None);
}

#[test]
fn mdns_discovery_ignores_ipv6_only_responses() {
    let broker = DiscoveryBroker::mdns();
    let bridges = broker
        .discover(Some(Ok(vec![DnsRecord::Aaaa, DnsRecord::Other])))
        .unwrap();
    assert_eq!(bridges.0.len(), 0);
}

#[test]
fn mdns_discovery_surfaces_subsystem_errors() {
    let broker = DiscoveryBroker::mdns();
    let err = broker
        .discover(Some(Err(Error::Mdns(String::from("socket failure")))))
        .unwrap_err();
    assert!(matches!(err, Error::Mdns(m) if m == "socket failure"));
}

#[test]
fn endpoint_discovery_decodes_the_response_array() {
    let broker = DiscoveryBroker::discovery_endpoint();
    let body = String::from(
        "[{\"id\":\"001788fffeabcdef\",\"internalipaddress\":\"192.168.50.173\",\"port\":443},\
         {\"id\":\"aabbccddeeff0011\",\"internalipaddress\":\"10.0.0.2\",\"port\":8443}]",
    );
    let bridges = broker.discover(Ok(body)).unwrap();
    assert_eq!(bridges.0.len(), 2);
    assert_eq!(bridges.0[0].id.as_deref(), Some("001788fffeabcdef"));
    assert_eq!(bridges.0[0].ip, Ipv4Addr::new(192, 168, 50, 173));
    assert_eq!(bridges.0[0].port, 443);
    assert_eq!(bridges.0[1].id.as_deref(), Some("aabbccddeeff0011"));
    assert_eq!(bridges.0[1].ip, Ipv4Addr::new(10, 0, 0, 2));
    assert_eq!(bridges.0[1].port, 8443);
}

#[test]
fn endpoint_discovery_decodes_an_empty_array() {
    let broker = DiscoveryBroker::discovery_endpoint();
    let bridges = broker.discover(Ok(String::from("[]"))).unwrap();
    assert_eq!(bridges.0.len(), 0);
}

#[test]
fn endpoint_discovery_rejects_a_body_that_is_no_array() {
    let broker = DiscoveryBroker::discovery_endpoint();
    let err = broker.discover(Ok(String::from("not json"))).unwrap_err();
    assert!(matches!(err, Error::Decode(_)));
}

#[test]
fn endpoint_discovery_surfaces_transport_errors() {
    let broker = DiscoveryBroker::discovery_endpoint();
    let err = broker
        .discover(Err(Error::Reqwest(String::from("connect timeout"))))
        .unwrap_err();
    assert!(matches!(err, Error::Reqwest(m) if m == "connect timeout"));
}

#[test]
fn auth_builds_a_bridge_from_the_config_snapshot() {
    let bridge = authed_bridge();
    assert_eq!(bridge.id, None);
    assert_eq!(bridge.ip, Ipv4Addr::new(192, 168, 50, 173));
    assert_eq!(bridge.port, 443);
    assert_eq!(bridge.app_key, None);
    assert_eq!(bridge.config, sample_config());
}

#[test]
fn auth_failure_returns_the_very_device_unchanged() {
    let device = UnauthBridge {
        id: Some(String::from("001788fffeabcdef")),
        ip: Ipv4Addr::new(192, 168, 50, 173),
        port: 443,
    };
    let (back, err) = device
        .auth(Err(Error::Reqwest(String::from("unreachable"))))
        .unwrap_err();
    assert_eq!(back.id.as_deref(), Some("001788fffeabcdef"));
    assert_eq!(back.ip, Ipv4Addr::new(192, 168, 50, 173));
    assert_eq!(back.port, 443);
    assert!(matches!(err, Error::Reqwest(m) if m == "unreachable"));
}

#[test]
fn auth_rejects_a_body_that_is_no_config() {
    let session = Session::new().unwrap();
    let device = sample_device(173);
    let (back, err) = device
        .auth(Ok((session, String::from("{\"unexpected\":true}"))))
        .unwrap_err();
    assert_eq!(back, sample_device(173));
    assert!(matches!(err, Error::Decode(_)));
}

#[test]
fn batch_auth_partitions_the_input_exactly() {
    let devices = UnauthBridges(vec![sample_device(1), sample_device(2), sample_device(3)]);
    let outcomes = vec![
        Ok((Session::new().unwrap(), sample_config_body())),
        Err(Error::Reqwest(String::from("unreachable"))),
        Ok((Session::new().unwrap(), sample_config_body())),
    ];
    let results = devices.auth(outcomes);
    assert_eq!(results.success.0.len() + results.failed.len(), 3);
    assert_eq!(results.success.0.len(), 2);
    assert_eq!(results.failed.len(), 1);
    // input order kept on both sides
    assert_eq!(results.success.0[0].ip, Ipv4Addr::new(192, 168, 50, 1));
    assert_eq!(results.success.0[1].ip, Ipv4Addr::new(192, 168, 50, 3));
    // the failed device comes back field for field
    assert_eq!(results.failed[0].bridge, sample_device(2));
    assert!(matches!(&results.failed[0].err, Error::Reqwest(m) if m == "unreachable"));
}

#[test]
fn batch_auth_never_aborts_on_a_failure() {
    let devices = UnauthBridges(vec![sample_device(1), sample_device(2)]);
    let outcomes = vec![
        Err(Error::Reqwest(String::from("down"))),
        Err(Error::Reqwest(String::from("also down"))),
    ];
    let results = devices.auth(outcomes);
    assert_eq!(results.success.0.len(), 0);
    assert_eq!(results.failed.len(), 2);
    assert_eq!(results.failed[0].bridge, sample_device(1));
    assert_eq!(results.failed[1].bridge, sample_device(2));
}

#[test]
fn batch_auth_of_an_empty_set_is_empty() {
    let devices = UnauthBridges(Vec::new());
    let results = devices.auth(Vec::new());
    assert_eq!(results.success.0.len(), 0);
    assert_eq!(results.failed.len(), 0);
}

#[test]
fn into_singular_extracts_the_only_bridge() {
    let bridge = authed_bridge();
    let bridges = Bridges(vec![bridge]);
    let bridge = bridges.into_singular();
    assert_eq!(bridge.ip, Ipv4Addr::new(192, 168, 50, 173));
}

#[test]
fn api_url_names_the_provisioning_resource() {
    let bridge = authed_bridge();
    assert_eq!(bridge.api_url(), "https://192.168.50.173/api");
}

#[test]
fn default_device_set_is_empty() {
    let bridges = UnauthBridges::default();
    assert_eq!(bridges.0.len(), 0);
}

#[test]
fn with_key_populates_the_application_key() {
    let bridge = authed_bridge();
    let keyed = bridge.with_key(String::from("abcdef0123456789"));
    assert_eq!(keyed.app_key.as_deref(), Some("abcdef0123456789"));
    assert_eq!(keyed.ip, Ipv4Addr::new(192, 168, 50, 173));
    assert_eq!(keyed.config, sample_config());
}

#[test]
fn gen_key_success_populates_the_returned_token() {
    let bridge = authed_bridge();
    let body = String::from("[{\"success\":{\"username\":\"hGQOy1ADXKSa3uuQ\"}}]");
    let (keyed, key) = bridge.gen_key(Ok(body)).unwrap();
    assert_eq!(key, "hGQOy1ADXKSa3uuQ");
    assert_eq!(keyed.app_key.as_deref(), Some("hGQOy1ADXKSa3uuQ"));
    assert_eq!(keyed.ip, Ipv4Addr::new(192, 168, 50, 173));
    assert_eq!(keyed.port, 443);
    assert_eq!(keyed.id, None);
    assert_eq!(keyed.config, sample_config());
}

#[test]
fn gen_key_error_preserves_the_description_verbatim() {
    let bridge = authed_bridge();
    let body = String::from(
        "[{\"error\":{\"type\":101,\"address\":\"\",\"description\":\"link button not pressed\"}}]",
    );
    let err = bridge.gen_key(Ok(body)).unwrap_err();
    match err {
        Error::GenKey(GenKeyError {
            t,
            address,
            description,
        }) => {
            assert_eq!(t, 101);
            assert_eq!(address, "");
            assert_eq!(description, "link button not pressed");
        }
        other => panic!("unexpected error {:?}", other),
    }
}

#[test]
fn gen_key_only_consults_the_first_element() {
    let bridge = authed_bridge();
    let body = String::from(
        "[{\"success\":{\"username\":\"firsttoken\"}},\
         {\"error\":{\"type\":101,\"address\":\"\",\"description\":\"ignored\"}}]",
    );
    let (_, key) = bridge.gen_key(Ok(body)).unwrap();
    assert_eq!(key, "firsttoken");
}

#[test]
fn gen_key_surfaces_transport_errors() {
    let bridge = authed_bridge();
    let err = bridge
        .gen_key(Err(Error::Reqwest(String::from("tls failure"))))
        .unwrap_err();
    assert!(matches!(err, Error::Reqwest(m) if m == "tls failure"));
}

#[test]
fn gen_key_rejects_a_body_that_is_no_outcome_array() {
    let bridge = authed_bridge();
    let err = bridge.gen_key(Ok(String::from("{}"))).unwrap_err();
    assert!(matches!(err, Error::Decode(_)));
}

#[test]
fn gen_key_result_success_round_trips() {
    let outcome = GenKeyResult::Success(GenKeySuccess {
        username: String::from("hGQOy1ADXKSa3uuQ"),
    });
    let wire = outcome.encode();
    assert_eq!(wire, "{\"success\":{\"username\":\"hGQOy1ADXKSa3uuQ\"}}");
    let framed = format!("[{}]", wire);
    let back = GenKeyResult::decode_first(&framed).unwrap();
    assert_eq!(back, outcome);
}

#[test]
fn gen_key_result_error_round_trips() {
    let outcome = GenKeyResult::Error(GenKeyError {
        t: 101,
        address: String::from("/api"),
        description: String::from("link button not pressed"),
    });
    let wire = outcome.encode();
    assert_eq!(
        wire,
        "{\"error\":{\"type\":101,\"address\":\"/api\",\"description\":\"link button not pressed\"}}"
    );
    let framed = format!("[{}]", wire);
    let back = GenKeyResult::decode_first(&framed).unwrap();
    assert_eq!(back, outcome);
}
