use lightrary::addr::Ipv4Addr;
use lightrary::codec::{is_json_safe, str_eq};
use lightrary::resources::bridge::{UnauthBridge, UnauthBridges};
use lightrary::resources::device::DeviceType;
use lightrary::resources::light::{Light, LightChange, Lights, State};
use lightrary::resources::BridgeConfig;

#[test]
fn ipv4_parses_a_dotted_quad() {
    assert_eq!(
        Ipv4Addr::parse("192.168.50.173"),
        Some(Ipv4Addr::new(192, 168, 50, 173))
    );
    assert_eq!(Ipv4Addr::parse("0.0.0.0"), Some(Ipv4Addr::new(0, 0, 0, 0)));
    assert_eq!(
        Ipv4Addr::parse("255.255.255.255"),
        Some(Ipv4Addr::new(255, 255, 255, 255))
    );
}

#[test]
fn ipv4_rejects_what_is_no_dotted_quad() {
    assert_eq!(Ipv4Addr::parse(""), None);
    assert_eq!(Ipv4Addr::parse("192.168.50"), None);
    assert_eq!(Ipv4Addr::parse("192.168.50.173.1"), None);
    assert_eq!(Ipv4Addr::parse("256.0.0.1"), None);
    assert_eq!(Ipv4Addr::parse("a.b.c.d"), None);
    assert_eq!(Ipv4Addr::parse("192.168..1"), None);
    assert_eq!(Ipv4Addr::parse("192.168.50.173 "), None);
}

#[test]
fn ipv4_prints_and_reads_back() {
    let ip = Ipv4Addr::new(10, 0, 254, 7);
    let text = ip.to_text();
    assert_eq!(text, "10.0.254.7");
    assert_eq!(Ipv4Addr::parse(&text), Some(ip));
}

#[test]
fn config_urls_name_the_device_resources() {
    let device = UnauthBridge {
        id: None,
        ip: Ipv4Addr::new(192, 168, 50, 173),
        port: 443,
    };
    assert_eq!(device.config_url(), "https://192.168.50.173/api/0/config");
}

#[test]
fn config_codec_round_trips_without_optional_fields() {
    let config = BridgeConfig {
        name: String::from("Philips hue"),
        datastoreversion: String::from("159"),
        swversion: String::from("1967054020"),
        apiversion: String::from("1.67.0"),
        mac: String::from("00:17:88:ab:cd:ef"),
        bridgeid: String::from("001788FFFEABCDEF"),
        factorynew: false,
        replacebridgeid: None,
        modelid: String::from("BSB002"),
        starterkitid: None,
    };
    let wire = config.encode();
    assert_eq!(
        wire,
        "{\"name\":\"Philips hue\",\"datastoreversion\":\"159\",\"swversion\":\"1967054020\",\
         \"apiversion\":\"1.67.0\",\"mac\":\"00:17:88:ab:cd:ef\",\"bridgeid\":\"001788FFFEABCDEF\",\
         \"factorynew\":false,\"modelid\":\"BSB002\"}"
    );
    assert_eq!(BridgeConfig::decode(&wire), Some(config));
}

#[test]
fn config_codec_round_trips_with_optional_fields() {
    let config = BridgeConfig {
        name: String::from("hue"),
        datastoreversion: String::from("1"),
        swversion: String::from("2"),
        apiversion: String::from("3"),
        mac: String::from("aa:bb"),
        bridgeid: String::from("XYZ"),
        factorynew: true,
        replacebridgeid: Some(String::from("OLDBRIDGE")),
        modelid: String::from("BSB001"),
        starterkitid: Some(String::from("kit-1")),
    };
    let wire = config.encode();
    let back = BridgeConfig::decode(&wire).unwrap();
    assert_eq!(back, config);
    assert!(wire.contains("\"replacebridgeid\":\"OLDBRIDGE\""));
    assert!(wire.contains("\"starterkitid\":\"kit-1\""));
}

#[test]
fn config_decode_rejects_malformed_bodies() {
    assert_eq!(BridgeConfig::decode(""), None);
    assert_eq!(BridgeConfig::decode("{}"), None);
    assert_eq!(BridgeConfig::decode("{\"name\":\"x\"}"), None);
    // trailing bytes after the object are refused
    let config_body = "{\"name\":\"a\",\"datastoreversion\":\"b\",\"swversion\":\"c\",\
                       \"apiversion\":\"d\",\"mac\":\"e\",\"bridgeid\":\"f\",\
                       \"factorynew\":true,\"modelid\":\"g\"}";
    assert!(BridgeConfig::decode(config_body).is_some());
    let with_trailing = format!("{} ", config_body);
    assert_eq!(BridgeConfig::decode(&with_trailing), None);
}

#[test]
fn bridges_decode_reads_each_element() {
    let body = "[{\"id\":\"one\",\"internalipaddress\":\"1.2.3.4\",\"port\":443},\
                {\"id\":\"two\",\"internalipaddress\":\"5.6.7.8\",\"port\":80},\
                {\"id\":\"three\",\"internalipaddress\":\"9.10.11.12\",\"port\":65535}]";
    let bridges = UnauthBridges::decode(body).unwrap();
    assert_eq!(bridges.0.len(), 3);
    assert_eq!(bridges.0[2].id.as_deref(), Some("three"));
    assert_eq!(bridges.0[2].ip, Ipv4Addr::new(9, 10, 11, 12));
    assert_eq!(bridges.0[2].port, 65535);
}

#[test]
fn bridges_decode_rejects_out_of_range_ports_and_octets() {
    assert!(UnauthBridges::decode(
        "[{\"id\":\"x\",\"internalipaddress\":\"1.2.3.4\",\"port\":65536}]"
    )
    .is_none());
    assert!(UnauthBridges::decode(
        "[{\"id\":\"x\",\"internalipaddress\":\"1.2.3.400\",\"port\":443}]"
    )
    .is_none());
}

#[test]
fn device_type_encodes_the_provisioning_body() {
    let device_type = DeviceType {
        app_name: "lightrary",
        instance_name: "livingroom",
    };
    assert_eq!(
        device_type.encode(),
        "{\"devicetype\":\"lightrary#livingroom\",\"generateclientkey\":true}"
    );
}

#[test]
fn json_safety_is_about_quotes_and_backslashes() {
    assert!(is_json_safe("plain text, even with: #/.,"));
    assert!(!is_json_safe("a \"quoted\" word"));
    assert!(!is_json_safe("a back\\slash"));
    assert!(is_json_safe(""));
}

#[test]
fn str_eq_compares_contents() {
    assert!(str_eq("abc", "abc"));
    assert!(!str_eq("abc", "abd"));
    assert!(!str_eq("abc", "abcd"));
    assert!(str_eq("", ""));
}

#[test]
fn toggle_flips_the_state_and_records_the_change() {
    let mut light = Light {
        name: String::from("Hue Go 1"),
        state: State { on: false },
        change: None,
    };
    light.toggle();
    assert!(light.state.on);
    assert_eq!(light.change, Some(LightChange { on: Some(true) }));
    light.toggle();
    assert!(!light.state.on);
    assert_eq!(light.change, Some(LightChange { on: Some(false) }));
}

#[test]
fn name_finds_the_first_light_carrying_it() {
    let mut lights = Lights(vec![
        (
            1,
            Light {
                name: String::from("Main J"),
                state: State { on: false },
                change: None,
            },
        ),
        (
            3,
            Light {
                name: String::from("Hue Go 1"),
                state: State { on: true },
                change: None,
            },
        ),
    ]);
    lights.name("Hue Go 1").toggle();
    assert!(!lights.0[1].1.state.on);
    assert_eq!(lights.0[1].1.change, Some(LightChange { on: Some(false) }));
    // the other light is untouched
    assert!(!lights.0[0].1.state.on);
    assert_eq!(lights.0[0].1.change, None);
}
