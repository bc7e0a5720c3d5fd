use unifree::adoption::{
    adopt_outcome, apply_discovery, begin_adoption, finish_adoption, generate_auth_key, inform_url_for,
    ipv4_string, is_stale_adoption, record_adoption_key, reset_stale, set_adopt_command, should_retry_default,
    ssh_target, AdoptionResult, TargetError,
};
use unifree::controller::{
    apply_inform, record_key_reset, retry_key, select_key, should_push_config, InformAction, InformRequest,
};
use unifree::crypto::AesKey;
use unifree::firmware::{is_newer, version_numbers};
use unifree::ini::{add_line, group_emitted, render_emitted, ToUnifiValue, UnifiBool};
use unifree::localization::{get_default_timezone_for_country, get_numeric_country_code, iana_to_posix_tz};
use unifree::mac::MacAddress;
use unifree::state::{DeviceState, DeviceStatus, RadioTableEntry};

fn request(cfgversion: &str, default: bool, notif: bool, radios: Option<Vec<RadioTableEntry>>) -> InformRequest {
    InformRequest {
        mac: "1c:0b:8b:8e:17:7f".to_string(),
        ip: "192.168.1.20".to_string(),
        model: "U7PG2".to_string(),
        version: "6.6.55".to_string(),
        state: 2,
        cfgversion: cfgversion.to_string(),
        default,
        hostname: "ap".to_string(),
        inform_url: "http://c:8080/inform".to_string(),
        model_display: "U7 Pro".to_string(),
        serial: "1C0B8B8E177F".to_string(),
        isolated: false,
        uptime: 5,
        locating: false,
        fingerprint_req: false,
        inform_as_notif: notif,
        radio_table: radios,
    }
}

fn radio(name: &str, band: &str) -> RadioTableEntry {
    RadioTableEntry { radio: band.to_string(), name: name.to_string(), tx_power_mode: None, antenna_gain: None }
}

fn device() -> DeviceState {
    DeviceState::new("1c:0b:8b:8e:17:7f".parse::<MacAddress>().unwrap())
}

#[test]
fn adopted_device_with_current_config_is_acked() {
    let mut d = device();
    d.auth_key = Some("00112233445566778899aabbccddeeff".to_string());
    d.status = DeviceStatus::Provisioning;
    let a = apply_inform(&mut d, &request("hash1", false, false, None), "hash1", 1000);
    assert_eq!(a, InformAction::Ack);
    assert_eq!(d.status, DeviceStatus::Adopted);
    assert_eq!(d.last_seen, Some(1000));
}

#[test]
fn device_without_key_waits_for_adoption() {
    let mut d = device();
    let a = apply_inform(&mut d, &request("", true, false, None), "hash1", 5);
    assert_eq!(a, InformAction::AwaitAdoption);
    assert_eq!(d.current_cfgversion.as_deref(), Some(""));
}

#[test]
fn factory_device_with_key_gets_mgmt() {
    let mut d = device();
    d.auth_key = Some("00112233445566778899aabbccddeeff".to_string());
    let a = apply_inform(&mut d, &request("", true, false, None), "hash1", 5);
    assert_eq!(a, InformAction::PushMgmt);
    assert_eq!(d.status, DeviceStatus::Provisioning);
}

#[test]
fn outdated_device_waits_for_radios_then_gets_system() {
    let mut d = device();
    d.auth_key = Some("00112233445566778899aabbccddeeff".to_string());
    let a = apply_inform(&mut d, &request("old", false, false, None), "hash2", 5);
    assert_eq!(a, InformAction::WaitRadioTable);
    let a = apply_inform(&mut d, &request("old", false, false, Some(vec![radio("wifi0", "ng")])), "hash2", 6);
    assert_eq!(a, InformAction::PushSystem);
    assert_eq!(d.radio_table.len(), 1);
}

#[test]
fn notification_is_acknowledged_at_once() {
    let mut d = device();
    let a = apply_inform(&mut d, &request("x", false, true, None), "hash", 7);
    assert_eq!(a, InformAction::NotifAck);
}

#[test]
fn adoption_version_forces_push() {
    let mut d = device();
    d.current_cfgversion = Some("a".to_string());
    d.target_cfgversion = Some("a".to_string());
    assert!(!should_push_config(&d, "a"));
    assert!(should_push_config(&d, "0123456789abcdef"));
    d.target_cfgversion = Some("b".to_string());
    assert!(should_push_config(&d, "a"));
}

#[test]
fn generated_key_is_selected_for_informs() {
    let key = generate_auth_key();
    assert_eq!(key.len(), 32);
    assert!(key.chars().all(|c| c.is_ascii_hexdigit() && !c.is_ascii_uppercase()));
    let selected = select_key(&Some(key.clone()));
    let expected = AesKey::from_hex(&key).unwrap();
    assert_eq!(selected.as_bytes(), expected.as_bytes());
    let fallback = select_key(&Some("not-hex".to_string()));
    assert_eq!(fallback.as_bytes(), AesKey::default_key().as_bytes());
}

#[test]
fn adoption_lifecycle() {
    let mut d = device();
    assert!(begin_adoption(&mut d));
    assert!(!begin_adoption(&mut d));
    record_adoption_key(&mut d, "k", "http://c/inform");
    assert_eq!(d.status, DeviceStatus::Adopting);
    assert!(is_stale_adoption(&d, 0));
    finish_adoption(&mut d, AdoptionResult::TimedOut, 10);
    assert_eq!(d.status, DeviceStatus::Discovered);
    assert_eq!(d.auth_key, None);
    let adopt = apply_discovery(&mut d, "10.0.0.2", Some("U7".to_string()), None, true, 22, 20, true);
    assert!(adopt);
    begin_adoption(&mut d);
    finish_adoption(&mut d, AdoptionResult::Succeeded, 30);
    assert_eq!(d.status, DeviceStatus::Adopted);
    assert_eq!(d.adopted_at, Some(30));
    let adopt = apply_discovery(&mut d, "10.0.0.2", None, None, true, 22, 40, true);
    assert!(!adopt);
}

#[test]
fn stale_adoption_reset() {
    let mut d = device();
    d.status = DeviceStatus::Adopting;
    d.auth_key = Some("k".to_string());
    d.last_seen = Some(0);
    assert!(!is_stale_adoption(&d, 359_999_999_999));
    assert!(is_stale_adoption(&d, 360_000_000_000));
    reset_stale(&mut d);
    assert_eq!(d.status, DeviceStatus::Discovered);
    assert_eq!(d.auth_key, None);
}

#[test]
fn adopt_command_and_outcomes() {
    assert_eq!(
        set_adopt_command("http://c:8080/inform", "abc"),
        "/usr/bin/syswrapper.sh set-adopt http://c:8080/inform abc"
    );
    assert!(adopt_outcome(Some(0), "", "adopt").is_ok());
    assert!(adopt_outcome(Some(1), "denied", "adopt").is_err());
    assert!(should_retry_default(false, "admin"));
    assert!(!should_retry_default(false, "ubnt"));
    assert!(!should_retry_default(true, "admin"));
}

#[test]
fn ssh_target_errors() {
    assert_eq!(ssh_target(None).unwrap_err(), TargetError::NotFound);
    let mut d = device();
    assert_eq!(ssh_target(Some(&d)).unwrap_err(), TargetError::NoAddress);
    d.last_ip = Some("10.1.1.1".to_string());
    assert_eq!(ssh_target(Some(&d)).unwrap(), ("10.1.1.1".to_string(), 22));
    d.ssh_port = Some(2222);
    assert_eq!(ssh_target(Some(&d)).unwrap().1, 2222);
}

#[test]
fn inform_url_choice() {
    assert_eq!(inform_url_for(Some("http://example:9/inform".to_string()), None, 80), Some("http://example:9/inform".to_string()));
    assert_eq!(inform_url_for(None, Some("127.0.0.1".to_string()), 8080), Some("http://127.0.0.1:8080/inform".to_string()));
    assert_eq!(inform_url_for(None, None, 8080), None);
    assert_eq!(ipv4_string([192, 168, 1, 100]), "192.168.1.100");
}

#[test]
fn firmware_version_order() {
    assert_eq!(version_numbers("6.6.55.15189"), vec![6, 6, 55, 15189]);
    assert_eq!(version_numbers("6.0.14+13634"), vec![6, 0, 14, 13634]);
    assert!(is_newer("6.6.55", "6.6.54"));
    assert!(is_newer("6.6.55.1", "6.6.55"));
    assert!(!is_newer("6.6.55", "6.6.55"));
    assert!(!is_newer("6.5.0", "6.6.55"));
}

#[test]
fn localization_tables() {
    assert_eq!(get_numeric_country_code("DE"), 276);
    assert_eq!(get_numeric_country_code("XX"), 840);
    assert_eq!(iana_to_posix_tz("Europe/Berlin"), Some("CET-1CEST,M3.5.0,M10.5.0/3"));
    assert_eq!(iana_to_posix_tz("Asia/Kolkata"), Some("IST-5:30"));
    assert_eq!(iana_to_posix_tz("Mars/Base"), None);
    assert_eq!(get_default_timezone_for_country("de"), "Europe/Berlin");
    assert_eq!(get_default_timezone_for_country("nz"), "Pacific/Auckland");
    assert_eq!(get_default_timezone_for_country("zz"), "UTC");
    for cc in ["DE", "gb", "Fi", "ru", "US", "ca", "AU", "nz", "JP", "cn", "IN", "br", "XX", ""] {
        let zone = get_default_timezone_for_country(cc);
        assert_eq!(zone, get_default_timezone_for_country(&cc.to_uppercase()));
        assert!(iana_to_posix_tz(zone).is_some());
    }
}

#[test]
fn ini_grouping_keeps_order_per_header() {
    let mut sections: Vec<(String, Vec<String>)> = Vec::new();
    add_line(&mut sections, "radio", "radio.1.status=enabled".to_string());
    add_line(&mut sections, "aaa", "aaa.1.status=enabled".to_string());
    add_line(&mut sections, "radio", "radio.2.status=enabled".to_string());
    assert_eq!(sections.len(), 2);
    assert_eq!(sections[0].1, vec!["radio.1.status=enabled".to_string(), "radio.2.status=enabled".to_string()]);

    let emitted = vec![
        (" radio".to_string(), "radio.1.x=1".to_string()),
        (" aaa".to_string(), "aaa.1.x=1".to_string()),
        (" radio".to_string(), "radio.2.x=1".to_string()),
        ("".to_string(), "plain=1".to_string()),
    ];
    let groups = group_emitted(&emitted);
    assert_eq!(groups.len(), 3);
    assert_eq!(render_emitted(&emitted), "plain=1\n# aaa\naaa.1.x=1\n# radio\nradio.1.x=1\nradio.2.x=1");
}

#[test]
fn unifi_values() {
    assert_eq!(UnifiBool::from(true).to_string(), "enabled");
    assert_eq!(UnifiBool::Disabled.to_unifi_value(), "disabled");
    assert_eq!(Some(7u8).to_unifi_value(), "7");
    assert_eq!(None::<u32>.to_unifi_value(), "");
    assert_eq!((-3i32).to_unifi_value(), "-3");
    assert_eq!("x".to_unifi_value(), "x");
}

#[test]
fn discovery_keeps_adoption_state() {
    let mut d = device();
    d.status = DeviceStatus::Adopted;
    d.auth_key = Some("00112233445566778899aabbccddeeff".to_string());
    d.adopted_at = Some(99);
    let adopt = apply_discovery(&mut d, "10.0.0.9", None, Some("ap".to_string()), false, 2222, 123, true);
    assert!(!adopt);
    assert_eq!(d.status, DeviceStatus::Adopted);
    assert_eq!(d.auth_key.as_deref(), Some("00112233445566778899aabbccddeeff"));
    assert_eq!(d.adopted_at, Some(99));
    assert_eq!(d.last_ip.as_deref(), Some("10.0.0.9"));
    assert_eq!(d.ssh_port, Some(2222));
}

#[test]
fn retry_with_default_key_only_for_keyed_devices() {
    let mut d = device();
    assert!(retry_key(&d).is_none());
    d.auth_key = Some("00112233445566778899aabbccddeeff".to_string());
    let k = retry_key(&d).unwrap();
    assert_eq!(k.as_bytes(), AesKey::default_key().as_bytes());
    record_key_reset(&mut d);
    assert_eq!(d.auth_key, None);
}
