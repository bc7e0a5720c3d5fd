use unifree::config::{hash_password, parse_ssh_pubkey, MgmtConfig, SshKey};
use unifree::provision::{DeviceOverride, NetworkConfig, ProvisionConfig};
use unifree::types::{Band, SecurityMode};
use unifree::models::{ManagementConfig, NetworkConfig as Net, ProvisionConfig as Models};

fn net(ssid: &str, pass: Option<&str>, security: SecurityMode, bands: Vec<Band>, vlan: Option<u16>, guest: bool, pmf: u8) -> NetworkConfig {
    NetworkConfig {
        ssid: ssid.to_string(),
        passphrase: pass.map(|p| p.to_string()),
        security,
        bands,
        vlan,
        hidden: false,
        guest,
        pmf,
    }
}

fn has_name(nets: &[(String, NetworkConfig)], name: &str) -> bool {
    nets.iter().any(|(n, _)| n == name)
}

fn get<'a>(nets: &'a [(String, NetworkConfig)], name: &str) -> Option<&'a NetworkConfig> {
    nets.iter().find(|(n, _)| n == name).map(|(_, c)| c)
}

#[test]
fn test_parse_ssh_pubkey_rsa() {
    let key = "ssh-rsa AAAAB3NzaC1yc2EAAAA user@host";
    let parsed = parse_ssh_pubkey(key).unwrap();

    assert_eq!(parsed.key_type, "ssh-rsa");
    assert_eq!(parsed.value, "AAAAB3NzaC1yc2EAAAA");
    assert_eq!(parsed.comment, Some("user@host".to_string()));
}

#[test]
fn test_parse_ssh_pubkey_ed25519() {
    let key = "ssh-ed25519 AAAAC3NzaC1lZDI1NTE5AAAA";
    let parsed = parse_ssh_pubkey(key).unwrap();

    assert_eq!(parsed.key_type, "ssh-ed25519");
    assert_eq!(parsed.value, "AAAAC3NzaC1lZDI1NTE5AAAA");
    assert_eq!(parsed.comment, None);
}

#[test]
fn test_mgmt_config_to_ini() {
    let config = MgmtConfig {
        cfgversion: "abc123".to_string(),
        led_enabled: true,
        use_aes_gcm: true,
        ssh_keys: vec![SshKey {
            key_type: "ssh-ed25519".to_string(),
            value: "AAAAC3NzaC1lZDI1NTE5AAAA".to_string(),
            comment: Some("admin".to_string()),
        }],
        ..Default::default()
    };

    let ini = config.to_ini();
    assert!(ini.contains("cfgversion=abc123"));
    assert!(ini.contains("mgmt.sshkeys.1.type=ssh-ed25519"));
    assert!(ini.contains("mgmt.sshkeys.1.value=AAAAC3NzaC1lZDI1NTE5AAAA"));
    assert!(ini.contains("mgmt.sshkeys.1.comment=admin"));
}

#[test]
fn test_provision_config_defaults() {
    let mut config = ProvisionConfig::default();

    config.networks.push((
        "home".to_string(),
        net("MyHome", Some("secret123"), SecurityMode::Wpa2Wpa3, vec![Band::Band2g, Band::Band5g], None, false, 1),
    ));
    config.networks.push((
        "guest".to_string(),
        net("Guest", Some("guestpass"), SecurityMode::Wpa2, vec![Band::Band2g], Some(100), true, 0),
    ));

    let networks = config.get_networks_for_device("aa:bb:cc:dd:ee:ff");
    assert_eq!(networks.len(), 2);
    assert!(has_name(&networks, "home"));
    assert!(has_name(&networks, "guest"));
}

#[test]
fn test_device_override() {
    let mut config = ProvisionConfig::default();

    config.networks.push((
        "home".to_string(),
        net("MyHome", Some("secret123"), SecurityMode::Wpa2Wpa3, vec![Band::Band2g, Band::Band5g], None, false, 1),
    ));
    config.devices.push((
        "aabbccddeeff".to_string(),
        DeviceOverride {
            name: Some("Living Room AP".to_string()),
            networks: vec![(
                "home".to_string(),
                net(
                    "MyHome-LivingRoom",
                    Some("secret123"),
                    SecurityMode::Wpa2Wpa3,
                    vec![Band::Band2g, Band::Band5g],
                    None,
                    false,
                    1,
                ),
            )],
            disabled_networks: vec![],
            led_enabled: Some(false),
        },
    ));

    let networks = config.get_networks_for_device("aa:bb:cc:dd:ee:ff");
    assert_eq!(networks.len(), 1);
    assert_eq!(get(&networks, "home").unwrap().ssid, "MyHome-LivingRoom");

    assert!(!config.get_led_for_device("aa:bb:cc:dd:ee:ff"));
    assert!(config.get_led_for_device("11:22:33:44:55:66"));
}

fn sample_config() -> ProvisionConfig {
    let mut config = ProvisionConfig::default();
    config.networks.push((
        "home".to_string(),
        net("MyHome", Some("secret"), SecurityMode::Wpa2, vec![Band::Band2g, Band::Band5g], None, false, 1),
    ));
    config.networks.push((
        "iot".to_string(),
        net("IoT", Some("iotpass"), SecurityMode::Wpa3, vec![Band::Band2g], Some(200), false, 1),
    ));
    config.networks.push(("guest".to_string(), net("Guest", None, SecurityMode::Open, vec![Band::Band5g], None, true, 0)));
    config
}

#[test]
fn disabled_network_is_not_broadcast() {
    let mut config = sample_config();
    config.devices.push((
        "1c0b8b8e177f".to_string(),
        DeviceOverride { name: None, networks: vec![], disabled_networks: vec!["iot".to_string()], led_enabled: None },
    ));
    let nets = config.get_networks_for_device("1C-0B-8B-8E-17-7F");
    assert_eq!(nets.len(), 2);
    assert!(!has_name(&nets, "iot"));
    assert!(has_name(&nets, "home") && has_name(&nets, "guest"));
    assert!(config.get_led_for_device("1c:0b:8b:8e:17:7f"));
}

#[test]
fn device_network_added_after_defaults() {
    let mut config = sample_config();
    config.devices.push((
        "1c0b8b8e177f".to_string(),
        DeviceOverride {
            name: None,
            networks: vec![("lab".to_string(), net("Lab", Some("labpass"), SecurityMode::Wpa2, vec![Band::Band6g], None, false, 2))],
            disabled_networks: vec![],
            led_enabled: Some(true),
        },
    ));
    let nets = config.get_networks_for_device("1c:0b:8b:8e:17:7f");
    let names: Vec<&str> = nets.iter().map(|(n, _)| n.as_str()).collect();
    assert_eq!(names, vec!["home", "iot", "guest", "lab"]);
}

#[test]
fn system_ini_layout() {
    let mut config = sample_config();
    config.ssh_keys.push(SshKey { key_type: "ssh-ed25519".to_string(), value: "AAAA".to_string(), comment: Some("me".to_string()) });
    let ini = config.generate_system_ini_at("aa:bb:cc:dd:ee:ff", 0x100);
    let lines: Vec<&str> = ini.split('\n').collect();
    assert_eq!(lines[0], "# system");
    assert_eq!(lines[1], "system.analytics.status=disabled");
    assert_eq!(lines[2], "# users");
    assert!(lines.contains(&"users.1.name=ubnt"));
    assert!(lines.contains(&"users.1.password=ubnt"));
    // 2.4 GHz: home, iot sorted by name; 5 GHz: guest, home; 6 GHz: none.
    assert!(lines.contains(&"radio.1.devname=wifi0ap0"));
    assert!(lines.contains(&"radio.1.virtual.1.devname=wifi0ap1"));
    assert!(lines.contains(&"radio.2.devname=wifi1ap2"));
    assert!(lines.contains(&"radio.2.virtual.1.devname=wifi1ap3"));
    assert!(lines.contains(&"radio.3.ieee_mode=11naht160"));
    assert!(lines.contains(&"wireless.1.ssid=MyHome"));
    assert!(lines.contains(&"wireless.2.ssid=IoT"));
    assert!(lines.contains(&"wireless.3.ssid=Guest"));
    assert!(lines.contains(&"wireless.4.parent=wifi1"));
    assert!(lines.contains(&"aaa.1.id=101"));
    assert!(lines.contains(&"aaa.4.id=104"));
    assert!(lines.contains(&"aaa.1.wpa.key.1.mgmt=WPA-PSK"));
    assert!(lines.contains(&"aaa.2.wpa.key.1.mgmt=SAE"));
    assert!(lines.contains(&"aaa.2.pmf.mode=2"));
    assert!(lines.contains(&"aaa.3.wpa=0"));
    assert!(lines.contains(&"bridge.1.port.1.devname=eth0"));
    assert!(lines.contains(&"bridge.1.port.5.devname=wifi1ap3"));
    assert!(lines.contains(&"sshd.auth.key.1.comment=me"));
    assert_eq!(*lines.last().unwrap(), "sshd.auth.key.1.comment=me");
    assert!(config.slots_fit_check("aa:bb:cc:dd:ee:ff"));
    assert!(config.generate_system_ini_checked("aa:bb:cc:dd:ee:ff").is_some());
}

#[test]
fn system_ini_country_sets_timezone() {
    let mut config = ProvisionConfig::default();
    config.country_code = Some("DE".to_string());
    config.management.username = Some("admin".to_string());
    let ini = config.generate_system_ini("aa:bb:cc:dd:ee:ff");
    assert!(ini.contains("system.timezone=CET-1CEST,M3.5.0,M10.5.0/3\n"));
    assert!(ini.contains("users.1.name=admin\n"));
    assert!(ini.ends_with("bridge.1.port.1.devname=eth0"));
    assert!(!ini.contains("sshd"));
}

#[test]
fn compact_system_cfg_entries() {
    let mut config = sample_config();
    config.ssh_keys.push(SshKey { key_type: "ssh-rsa".to_string(), value: "B".to_string(), comment: None });
    assert!(config.system_cfg_fits("aa:bb:cc:dd:ee:ff"));
    let cfg = config.generate_system_cfg("aa:bb:cc:dd:ee:ff");
    let lines: Vec<&str> = cfg.split('\n').collect();
    assert_eq!(lines[0], "# Radio configuration");
    assert!(lines.contains(&"aaa.1.essid=MyHome"));
    assert!(lines.contains(&"aaa.1.wpa.psk=secret"));
    assert!(lines.contains(&"aaa.1.wpa.key.1.cipher=CCMP"));
    assert!(lines.contains(&"wireless.2.devname=wifi1"));
    assert!(lines.contains(&"aaa.3.vlan=200"));
    assert!(lines.contains(&"aaa.3.wpa.key.1.mgmt=SAE"));
    assert!(lines.contains(&"aaa.4.l2_isolation=enabled"));
    assert!(!lines.contains(&"aaa.4.wpa.key.1.mgmt=none"));
    assert!(lines.contains(&"wireless.4.security=4"));
    assert_eq!(*lines.last().unwrap(), "sshd.auth.passwd=enabled");
    assert!(cfg.contains("\n\n# SSH configuration\n"));
}

#[test]
fn mgmt_cfg_with_auth_lines() {
    let mut config = sample_config();
    config.ssh_keys.push(SshKey { key_type: "ssh-ed25519".to_string(), value: "K".to_string(), comment: None });
    let cfg = config.generate_mgmt_cfg_with_auth_at("aa:bb:cc:dd:ee:ff", Some("00ff"), Some("http://c:8080/inform"), 0x1234);
    let lines: Vec<&str> = cfg.split('\n').collect();
    assert_eq!(
        lines,
        vec![
            "capability=notif,fastapply-bg,notif-assoc-stat",
            "cfgversion=0000000000001234",
            "led_enabled=true",
            "report_crash=true",
            "selfrun_guest_mode=pass",
            "use_aes_gcm=true",
            "authkey=00ff",
            "inform_url=http://c:8080/inform",
            "mgmt.sshkeys.1.type=ssh-ed25519",
            "mgmt.sshkeys.1.value=K",
        ]
    );
    let plain = config.generate_mgmt_cfg("aa:bb:cc:dd:ee:ff");
    assert!(plain.starts_with("capability=notif,fastapply-bg,notif-assoc-stat\ncfgversion="));
    assert!(!plain.contains("authkey="));
    let version = plain.lines().nth(1).unwrap().strip_prefix("cfgversion=").unwrap();
    let secs = u64::from_str_radix(version, 16).unwrap();
    assert!(secs > 1_600_000_000 && secs < 10_000_000_000);
}

#[test]
fn password_hash_is_sha512_crypt() {
    let h = hash_password("secret");
    assert!(h.starts_with("$6$"));
    assert!(pwhash::sha512_crypt::verify("secret", &h));
    assert!(!pwhash::sha512_crypt::verify("other", &h));
}

fn models_config() -> Models {
    Models {
        management: ManagementConfig { username: Some("admin".to_string()), password: Some("$6$salt$hash".to_string()), ssh_key: None, stun_url: None },
        country_code: Some("DE".to_string()),
        timezone: Some("Europe/Berlin".to_string()),
        ntp_servers: vec!["pool.ntp.org".to_string()],
        ssh_keys: vec![],
        networks: vec![(
            "home".to_string(),
            Net {
                ssid: "MyHome".to_string(),
                passphrase: Some("secret".to_string()),
                security: SecurityMode::Wpa2,
                bands: vec![Band::Band2g],
                vlan: None,
                hidden: false,
                guest: false,
                client_device_isolation: false,
                iot: false,
                pmf: 0,
            },
        )],
        devices: vec![],
        devices_info: vec![],
    }
}

#[test]
fn modern_system_ini_wireless_entries() {
    let config = models_config();
    let mac: unifree::mac::MacAddress = "1c:0b:8b:8e:17:7f".parse().unwrap();
    let state = unifree::state::DeviceState::new(mac);
    assert!(unifree::builder::ini_fits_check(&config, &state, "1c:0b:8b:8e:17:7f"));
    let ini = config.generate_system_ini("1c:0b:8b:8e:17:7f", &state);
    let lines: Vec<&str> = ini.split('\n').collect();
    let id = format!("{:x}", md5::compute("1c0b8b8e177f-1-MyHome"));
    assert!(lines.contains(&"wireless.1.devname=ath0"));
    assert!(lines.contains(&"wireless.1.ssid=MyHome"));
    assert!(lines.contains(&format!("wireless.1.id={}", id).as_str()));
    assert!(lines.contains(&"users.1.name=admin"));
    assert!(lines.contains(&"users.1.password=$6$salt$hash"));
    assert!(lines.contains(&"system.timezone=CET-1CEST,M3.5.0,M10.5.0/3"));
    let mut headers: Vec<&str> = lines.iter().copied().filter(|l| l.starts_with('#')).collect();
    let sorted = {
        let mut h = headers.clone();
        h.sort();
        h
    };
    assert_eq!(headers, sorted);
    headers.dedup();
    assert_eq!(headers.len(), sorted.len());
}

#[test]
fn config_hash_is_sha256_prefix() {
    assert_eq!(unifree::adoption::config_hash(b"abc"), "ba7816bf8f01cfea");
}

#[test]
fn configured_iana_zone_maps_to_posix() {
    let mut config = models_config();
    config.timezone = Some("Europe/Madrid".to_string());
    assert_eq!(config.get_effective_timezone_posix(), "CET-1CEST,M3.5.0,M10.5.0/3");
    config.timezone = Some("EST5EDT,M3.2.0,M11.1.0".to_string());
    assert_eq!(config.get_effective_timezone_posix(), "EST5EDT,M3.2.0,M11.1.0");
    config.timezone = Some("Mars/Base".to_string());
    assert_eq!(config.timezone_posix_with(None), "Mars/Base");
}

#[test]
fn guest_network_isolates_clients() {
    let mut config = models_config();
    config.networks[0].1.guest = true;
    let mac: unifree::mac::MacAddress = "1c:0b:8b:8e:17:7f".parse().unwrap();
    let state = unifree::state::DeviceState::new(mac);
    assert!(unifree::builder::ini_fits_check(&config, &state, "1c:0b:8b:8e:17:7f"));
    let ini = config.generate_system_ini("1c:0b:8b:8e:17:7f", &state);
    assert!(ini.split('\n').any(|l| l == "wireless.1.l2_isolation=enabled"));
    config.networks[0].1.guest = false;
    let ini = config.generate_system_ini("1c:0b:8b:8e:17:7f", &state);
    assert!(ini.split('\n').any(|l| l == "wireless.1.l2_isolation=disabled"));
}

#[test]
fn plain_password_is_hashed_into_system_ini() {
    let mut config = models_config();
    config.management.password = Some("hunter2".to_string());
    let mac: unifree::mac::MacAddress = "1c:0b:8b:8e:17:7f".parse().unwrap();
    let state = unifree::state::DeviceState::new(mac);
    let ini = config.generate_system_ini("1c:0b:8b:8e:17:7f", &state);
    let entry = ini.split('\n').find_map(|l| l.strip_prefix("users.1.password=")).unwrap();
    assert!(entry.starts_with("$6$"));
    assert!(pwhash::sha512_crypt::verify("hunter2", entry));
    assert!(!pwhash::sha512_crypt::verify("ubnt", entry));
}

#[test]
fn key_file_lines_are_trimmed_and_comments_skipped() {
    let contents = "# keys\n\n  ssh-ed25519 AAAAC3Nz me@host  \r\nbogus\n\t# old key\nssh-rsa AAAAB3 \n";
    let entries = unifree::models::parse_ssh_key_lines(contents);
    assert_eq!(entries.len(), 3);
    assert_eq!(entries[0].0, "ssh-ed25519 AAAAC3Nz me@host");
    let k = entries[0].1.as_ref().unwrap();
    assert_eq!(k.key_type, "ssh-ed25519");
    assert_eq!(k.value, "AAAAC3Nz");
    assert_eq!(k.comment.as_deref(), Some("me@host"));
    assert_eq!(entries[1].0, "bogus");
    assert!(entries[1].1.is_none());
    assert_eq!(entries[2].0, "ssh-rsa AAAAB3");
    assert_eq!(entries[2].1.as_ref().unwrap().comment, None);
    assert!(unifree::models::parse_ssh_key_lines("").is_empty());
}

#[test]
fn keyed_tables_must_have_distinct_keys() {
    assert!(ProvisionConfig::default().is_well_formed());
    let mut config = sample_config();
    assert!(config.is_well_formed());
    let mut d = DeviceOverride { name: None, networks: vec![], disabled_networks: vec![], led_enabled: None };
    d.networks.push(("home".to_string(), net("A", None, SecurityMode::Open, vec![Band::Band2g], None, false, 0)));
    d.networks.push(("home".to_string(), net("B", None, SecurityMode::Open, vec![Band::Band2g], None, false, 0)));
    config.devices.push(("aabbccddeeff".to_string(), d));
    assert!(!config.is_well_formed());
    let mut config = sample_config();
    config.networks.push(("iot".to_string(), net("X", None, SecurityMode::Open, vec![Band::Band2g], None, false, 0)));
    assert!(!config.is_well_formed());

    let mut m = models_config();
    assert!(m.is_well_formed());
    let mut other = models_config();
    let dup = other.networks.remove(0);
    m.networks.push(dup);
    assert!(!m.is_well_formed());
}

#[test]
fn models_default_is_empty_and_clones() {
    let c = Models::default();
    assert!(c.management.username.is_none() && c.timezone.is_none() && c.country_code.is_none());
    assert!(c.networks.is_empty() && c.devices.is_empty() && c.devices_info.is_empty());
    assert!(c.is_well_formed());
    let m = models_config();
    let n = m.clone();
    assert_eq!(n.networks.len(), m.networks.len());
    assert_eq!(n.networks[0].1.ssid, "MyHome");
}

#[test]
fn radio_interfaces_are_bridged_and_configured() {
    let mut config = models_config();
    config.networks.push((
        "iot".to_string(),
        Net {
            ssid: "IoT".to_string(),
            passphrase: Some("iotpass".to_string()),
            security: SecurityMode::Wpa2,
            bands: vec![Band::Band2g],
            vlan: Some(30),
            hidden: false,
            guest: false,
            client_device_isolation: false,
            iot: true,
            pmf: 0,
        },
    ));
    let mac: unifree::mac::MacAddress = "1c:0b:8b:8e:17:7f".parse().unwrap();
    let state = unifree::state::DeviceState::new(mac);
    assert!(unifree::builder::ini_fits_check(&config, &state, "1c:0b:8b:8e:17:7f"));
    let ini = config.generate_system_ini("1c:0b:8b:8e:17:7f", &state);
    let lines: Vec<&str> = ini.split('\n').collect();
    let devs: Vec<&str> = lines
        .iter()
        .filter(|l| l.starts_with("radio.") && l.contains(".devname="))
        .map(|l| l.split('=').nth(1).unwrap())
        .collect();
    assert!(!devs.is_empty());
    for dev in devs {
        assert!(lines.iter().any(|l| l.starts_with("wireless.") && l.ends_with(&format!(".devname={}", dev))));
        assert!(lines.iter().any(|l| l.starts_with("bridge.") && l.ends_with(&format!(".devname={}", dev))));
    }
}
