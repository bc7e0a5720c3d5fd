use unifree::crypto::{
    compress_zlib, decompress_zlib, decrypt_cbc, decrypt_gcm, decrypt_gcm_aad, encrypt_cbc, encrypt_gcm,
    AesKey, DEFAULT_KEY,
};
use unifree::discovery::{DiscoveredDevice, DiscoveryPacket};
use unifree::error::Error;
use unifree::inform::{InformPacket, InformResponseBuilder};
use unifree::mac::MacAddress;
use unifree::types::{Band, InformFlags, PayloadType, INFORM_MAGIC};

fn test_iv() -> [u8; 16] {
    [3, 1, 4, 1, 5, 9, 2, 6, 5, 3, 5, 8, 9, 7, 9, 3]
}

#[test]
fn test_inform_packet_decode_header() {
    let mut data = vec![0u8; 40];
    data[0..4].copy_from_slice(&INFORM_MAGIC);
    data[4..8].copy_from_slice(&1u32.to_be_bytes());
    data[8..14].copy_from_slice(&[0x1c, 0x0b, 0x8b, 0x8e, 0x17, 0x7f]);
    data[14..16].copy_from_slice(&0x09u16.to_be_bytes());
    data[32..36].copy_from_slice(&1u32.to_be_bytes());
    data[36..40].copy_from_slice(&0u32.to_be_bytes());

    let packet = InformPacket::decode(&data).unwrap();
    assert_eq!(packet.version, 1);
    assert_eq!(packet.mac.to_colon_string(), "1c:0b:8b:8e:17:7f");
    assert!(packet.flags.encrypted);
    assert!(packet.flags.aes_gcm);
    assert!(!packet.flags.zlib_compressed);
}

#[test]
fn test_inform_flags() {
    let flags = InformFlags::from_raw(0x0B);
    assert!(flags.encrypted);
    assert!(flags.zlib_compressed);
    assert!(!flags.snappy_compressed);
    assert!(flags.aes_gcm);
    assert_eq!(flags.to_raw(), 0x0B);
}

#[test]
fn test_inform_packet_roundtrip() {
    let mac: MacAddress = "1c:0b:8b:8e:17:7f".parse().unwrap();
    let key = AesKey::default_key();
    let response = unifree::controller::InformResponse::noop(10);
    let json = match &response {
        unifree::controller::InformResponse::Noop { interval, server_time_in_utc, .. } => format!(
            "{{\"_type\":\"noop\",\"interval\":{},\"server_time_in_utc\":\"{}\"}}",
            interval, server_time_in_utc
        ),
        _ => panic!("noop expected"),
    };
    let builder = InformResponseBuilder::new(mac, key.clone());

    let encoded = builder.build(json.as_bytes(), &test_iv()).unwrap();
    let decoded = InformPacket::decode(&encoded).unwrap();

    assert_eq!(decoded.mac, mac);
    assert!(decoded.flags.encrypted);
    assert!(decoded.flags.aes_gcm);

    let decrypted = decoded.decrypt(&key).unwrap();
    let value: serde_json::Value = serde_json::from_slice(&decrypted).unwrap();
    assert_eq!(value["_type"], "noop");
    assert_eq!(value["interval"], 10);
}

#[test]
fn test_mac_address_parsing() {
    let mac1: MacAddress = "1c0b8b8e177f".parse().unwrap();
    let mac2: MacAddress = "1c:0b:8b:8e:17:7f".parse().unwrap();
    let mac3: MacAddress = "1C:0B:8B:8E:17:7F".parse().unwrap();

    assert_eq!(mac1, mac2);
    assert_eq!(mac2, mac3);
    assert_eq!(mac1.to_hex_string(), "1c0b8b8e177f");
    assert_eq!(mac1.to_colon_string(), "1c:0b:8b:8e:17:7f");
}

#[test]
fn test_key_from_hex() {
    let key = AesKey::from_hex(DEFAULT_KEY).unwrap();
    assert_eq!(key.as_bytes().len(), 16);
}

#[test]
fn test_gcm_roundtrip() {
    let key = AesKey::default_key();
    let iv = test_iv();
    let plaintext = b"Hello, UniFi!";

    let ciphertext = encrypt_gcm(&key, &iv, plaintext).unwrap();
    assert_eq!(ciphertext.len(), plaintext.len() + 16);
    let decrypted = decrypt_gcm(&key, &iv, &ciphertext).unwrap();

    assert_eq!(decrypted, plaintext);
}

#[test]
fn test_cbc_roundtrip() {
    let key = AesKey::default_key();
    let iv = test_iv();
    let plaintext = b"Hello, UniFi!";

    let ciphertext = encrypt_cbc(&key, &iv, plaintext).unwrap();
    let decrypted = decrypt_cbc(&key, &iv, &ciphertext).unwrap();

    assert_eq!(decrypted, plaintext);
}

#[test]
fn test_zlib_roundtrip() {
    let data = b"This is some test data that should compress well well well well";

    let compressed = compress_zlib(data).unwrap();
    let decompressed = decompress_zlib(&compressed).unwrap();

    assert_eq!(decompressed, data);
    assert!(compressed.len() < data.len());
}

#[test]
fn test_discovery_packet_roundtrip() {
    let mut packet = DiscoveryPacket::new();
    let mac: MacAddress = "1c:0b:8b:8e:17:7f".parse().unwrap();
    let ip = [192u8, 168, 1, 100];

    packet.set_mac(mac);
    packet.set_mac_ip(mac, Some(ip));
    packet.set_ssh_port(22);

    let encoded = packet.encode();
    let decoded = DiscoveryPacket::decode(&encoded).unwrap();

    assert_eq!(decoded.mac(), Some(mac));
    assert_eq!(decoded.ip(), Some(ip));
    assert_eq!(decoded.ssh_port(), Some(22));
}

#[test]
fn test_discovered_device_conversion() {
    let mut packet = DiscoveryPacket::new();
    let mac: MacAddress = "1c:0b:8b:8e:17:7f".parse().unwrap();
    let ip = [192u8, 168, 1, 100];

    packet.set_mac_ip(mac, Some(ip));
    packet.set_ssh_port(22);

    let device = DiscoveredDevice::from_packet(packet).unwrap();
    assert_eq!(device.mac, mac);
    assert_eq!(device.ip, ip);
    assert_eq!(device.ssh_port, 22);
}

#[test]
fn discovered_device_without_mac_is_refused() {
    let packet = DiscoveryPacket::new();
    match DiscoveredDevice::from_packet(packet) {
        Err(Error::InvalidPacket(m)) => assert_eq!(m, "Missing MAC address"),
        other => panic!("unexpected {:?}", other),
    }
}

#[test]
fn discovered_device_defaults_ssh_port() {
    let mut packet = DiscoveryPacket::new();
    let mac: MacAddress = "00:11:22:33:44:55".parse().unwrap();
    packet.set_mac_ip(mac, Some([10, 0, 0, 2]));
    let device = DiscoveredDevice::from_packet(packet).unwrap();
    assert_eq!(device.ssh_port, 22);
}

#[test]
fn mac_parse_rejects_wrong_length() {
    assert!("1c:0b:8b:8e:17".parse::<MacAddress>().is_err());
    assert!("zz:0b:8b:8e:17:7f".parse::<MacAddress>().is_err());
}

#[test]
fn inform_flags_bits_roundtrip() {
    for raw in 0u16..16 {
        assert_eq!(InformFlags::from_raw(raw).to_raw(), raw);
    }
    let f = InformFlags::from_raw(0x04);
    assert!(f.snappy_compressed && !f.encrypted && !f.zlib_compressed && !f.aes_gcm);
}

#[test]
fn payload_type_codes_roundtrip() {
    assert_eq!(PayloadType::from(0x02), PayloadType::MacIp);
    assert_eq!(PayloadType::from(0x99), PayloadType::Unknown(0x99));
    for code in 0u8..=255 {
        let p = PayloadType::from(code);
        assert_eq!(u8::from(p), code);
    }
}

#[test]
fn inform_decode_rejects_short_and_bad_magic() {
    match InformPacket::decode(&[0u8; 10]) {
        Err(Error::PacketTooShort { expected, actual }) => assert_eq!((expected, actual), (40, 10)),
        other => panic!("unexpected {:?}", other),
    }
    let mut data = vec![0u8; 40];
    data[0..4].copy_from_slice(b"XXXX");
    match InformPacket::decode(&data) {
        Err(Error::InvalidMagic) => {},
        other => panic!("unexpected {:?}", other),
    }
}

#[test]
fn gcm_detects_tampering() {
    let key = AesKey::default_key();
    let iv = test_iv();
    let mut ct = encrypt_gcm(&key, &iv, b"payload").unwrap();
    assert_eq!(ct.len(), b"payload".len() + 16);
    ct[0] ^= 1;
    assert!(decrypt_gcm(&key, &iv, &ct).is_err());
    match decrypt_gcm_aad(&key, &iv, &[1, 2, 3], b"aad") {
        Err(Error::Decryption(m)) => assert_eq!(m, "Ciphertext too short for GCM tag"),
        other => panic!("unexpected {:?}", other),
    }
}

#[test]
fn cbc_ciphertext_is_padded_blocks() {
    let key = AesKey::default_key();
    let iv = test_iv();
    let ct = encrypt_cbc(&key, &iv, &[0u8; 16]).unwrap();
    assert_eq!(ct.len(), 32);
    for n in [0usize, 1, 15, 17, 31, 32, 100] {
        let pt = vec![0x5au8; n];
        let c = encrypt_cbc(&key, &iv, &pt).unwrap();
        assert_eq!(c.len(), 16 * (n / 16 + 1));
        assert_eq!(decrypt_cbc(&key, &iv, &c).unwrap(), pt);
    }
    assert!(decrypt_cbc(&key, &iv, &[1u8; 15]).is_err());
}

#[test]
fn aes_key_rejects_bad_hex_and_length() {
    assert!(AesKey::from_hex("abcd").is_err());
    assert!(AesKey::from_hex("zz86f2bbe107c7c57eb5f2690775c712").is_err());
    assert!(AesKey::from_bytes(&[0u8; 15]).is_err());
    assert_eq!(AesKey::from_bytes(&[7u8; 16]).unwrap().as_bytes(), &[7u8; 16]);
}

#[test]
fn response_builder_cbc_with_compression_roundtrip() {
    let mac: MacAddress = "1c:0b:8b:8e:17:7f".parse().unwrap();
    let key = AesKey::from_bytes(&[9u8; 16]).unwrap();
    let json = br#"{"_type":"noop","interval":30}"#;
    let builder = InformResponseBuilder::new(mac, key.clone()).use_gcm(false).use_compression(true);
    let encoded = builder.build(json, &test_iv()).unwrap();
    let decoded = InformPacket::decode(&encoded).unwrap();
    assert!(decoded.flags.encrypted);
    assert!(!decoded.flags.aes_gcm);
    assert!(decoded.flags.zlib_compressed);
    assert_eq!(decoded.decrypt(&key).unwrap(), json.to_vec());
}

#[test]
fn iv_from_time_and_pid() {
    let iv = unifree::crypto::iv_from(0x0102_0304_0506_0708_090a, 7);
    assert_eq!(&iv[..8], &[0x0a, 0x09, 0x08, 0x07, 0x06, 0x05, 0x04, 0x03]);
    assert_eq!(&iv[8..], &[0x0d, 0x09, 0x08, 0x07, 0x06, 0x05, 0x04, 0x03]);
}

#[test]
fn band_names() {
    assert_eq!(Band::Band2g.to_string(), "2g");
    assert_eq!(Band::Band5g.to_string(), "5g");
    assert_eq!(Band::Band6g.to_string(), "6g");
}

#[test]
fn mac_text_forms_read_back() {
    let mac = MacAddress([0x00, 0xa1, 0xff, 0x10, 0x9b, 0x07]);
    let colon: MacAddress = mac.to_colon_string().parse().unwrap();
    let plain: MacAddress = mac.to_hex_string().parse().unwrap();
    assert_eq!(colon, mac);
    assert_eq!(plain, mac);
    assert_eq!(mac.to_colon_string(), "00:a1:ff:10:9b:07");
}

#[test]
fn error_messages() {
    assert_eq!(Error::InvalidMagic.to_string(), "Invalid magic bytes");
    match InformPacket::decode(&[0u8; 10]) {
        Err(e) => assert_eq!(e.to_string(), "Packet too short: expected at least 40 bytes, got 10"),
        Ok(_) => panic!("short packet decoded"),
    }
    match AesKey::from_hex("abcd") {
        Err(e) => assert_eq!(e.to_string(), "Invalid key length: expected 16, got 2"),
        Ok(_) => panic!("short key accepted"),
    }
    match AesKey::from_hex("xyz0") {
        Err(e) => {
            let m = e.to_string();
            assert!(m.starts_with("Hex decode error: "));
            assert!(m.len() > "Hex decode error: ".len());
        },
        Ok(_) => panic!("bad hex accepted"),
    }
    assert_eq!(Error::Decryption("bad tag".to_string()).to_string(), "Decryption error: bad tag");
}

fn plain_packet(flags: InformFlags, payload: Vec<u8>) -> InformPacket {
    let mac: MacAddress = "1c:0b:8b:8e:17:7f".parse().unwrap();
    let mut bytes = Vec::new();
    bytes.extend_from_slice(&INFORM_MAGIC);
    bytes.extend_from_slice(&0u32.to_be_bytes());
    bytes.extend_from_slice(&mac.0);
    bytes.extend_from_slice(&flags.to_raw().to_be_bytes());
    bytes.extend_from_slice(&test_iv());
    bytes.extend_from_slice(&1u32.to_be_bytes());
    bytes.extend_from_slice(&(payload.len() as u32).to_be_bytes());
    bytes.extend_from_slice(&payload);
    InformPacket::decode(&bytes).unwrap()
}

#[test]
fn decrypt_errors_name_the_failing_step() {
    let key = AesKey::default_key();
    let none = InformFlags::from_raw(0);
    assert_eq!(plain_packet(none, b"hello".to_vec()).decrypt(&key).unwrap(), b"hello".to_vec());
    let snappy = InformFlags::from_raw(0x04);
    assert!(snappy.snappy_compressed);
    match plain_packet(snappy, b"hello".to_vec()).decrypt(&key) {
        Err(Error::Decompression(m)) => assert_eq!(m, "Snappy compression not implemented"),
        other => panic!("unexpected {:?}", other),
    }
    let zlib = InformFlags::from_raw(0x02);
    assert!(zlib.zlib_compressed);
    assert!(matches!(plain_packet(zlib, b"not zlib".to_vec()).decrypt(&key), Err(Error::Decompression(_))));
    let packed = compress_zlib(b"hello").unwrap();
    assert_eq!(plain_packet(zlib, packed).decrypt(&key).unwrap(), b"hello".to_vec());
    let cbc = InformFlags::from_raw(0x01);
    assert!(cbc.encrypted && !cbc.aes_gcm);
    assert!(matches!(plain_packet(cbc, vec![1u8; 15]).decrypt(&key), Err(Error::Decryption(_))));
    let gcm = InformFlags::from_raw(0x09);
    assert!(gcm.encrypted && gcm.aes_gcm);
    assert!(matches!(plain_packet(gcm, vec![1u8; 8]).decrypt(&key), Err(Error::Decryption(_))));
}

#[test]
fn built_packet_payload_lengths() {
    let mac: MacAddress = "1c:0b:8b:8e:17:7f".parse().unwrap();
    let key = AesKey::default_key();
    let json = br#"{"_type":"noop","interval":10}"#;
    let gcm = InformResponseBuilder::new(mac, key.clone()).build(json, &test_iv()).unwrap();
    let p = InformPacket::decode(&gcm).unwrap();
    assert_eq!(p.payload.len(), json.len() + 16);
    assert_eq!(gcm.len(), 40 + json.len() + 16);
    let cbc = InformResponseBuilder::new(mac, key.clone()).use_gcm(false).build(json, &test_iv()).unwrap();
    let q = InformPacket::decode(&cbc).unwrap();
    assert_eq!(q.payload.len(), 16 * (json.len() / 16 + 1));
    assert_eq!(q.decrypt(&key).unwrap(), json.to_vec());
}

#[test]
fn response_time_is_whole_seconds() {
    assert_eq!(unifree::controller::time_text(1_700_000_000_123_456_789), "1700000000");
    assert_eq!(unifree::controller::time_text(999_999_999), "0");
    assert_eq!(unifree::controller::time_text(0), "0");
    assert_eq!(unifree::controller::time_text(-1), "-1");
    assert_eq!(unifree::controller::time_text(-1_000_000_000), "-1");
    assert_eq!(unifree::controller::time_text(-1_000_000_001), "-2");
    let now = unifree::controller::utc_timestamp();
    let secs: i64 = now.parse().unwrap();
    assert!(secs > 1_600_000_000 && secs < 10_000_000_000);
}
