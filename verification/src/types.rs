//! Core protocol types: inform flags, discovery payload types, device
//! lifecycle state codes, radio bands and Wi-Fi security modes.

use vstd::prelude::*;

verus! {

/// Inform packet flags.
#[derive(Debug, Clone, Copy, Default, PartialEq, Eq, Structural)]
pub struct InformFlags {
    /// Payload is AES encrypted.
    pub encrypted: bool,
    /// Payload is ZLIB compressed.
    pub zlib_compressed: bool,
    /// Payload is Snappy compressed.
    pub snappy_compressed: bool,
    /// AES-GCM (rather than AES-CBC) is used.
    pub aes_gcm: bool,
}

/// The flags that the raw 16-bit field encodes: bits 0 to 3.
pub open spec fn flags_of_raw(raw: u16) -> InformFlags {
    InformFlags {
        encrypted: raw & 0x01 != 0,
        zlib_compressed: raw & 0x02 != 0,
        snappy_compressed: raw & 0x04 != 0,
        aes_gcm: raw & 0x08 != 0,
    }
}

/// The raw 16-bit encoding of four flag values: bit 0 encrypted, bit 1
/// zlib, bit 2 snappy, bit 3 AES-GCM.
pub open spec fn raw_bits(e: bool, z: bool, s: bool, g: bool) -> u16 {
    ((if e { 1u16 } else { 0u16 }) | (if z { 2u16 } else { 0u16 }) | (if s { 4u16 } else { 0u16 }) | (
    if g { 8u16 } else { 0u16 })) as u16
}

/// The raw 16-bit encoding of the flags.
pub open spec fn raw_of_flags(f: InformFlags) -> u16 {
    raw_bits(f.encrypted, f.zlib_compressed, f.snappy_compressed, f.aes_gcm)
}

impl InformFlags {
    /// Parses the flags from the raw header field.
    pub fn from_raw(raw: u16) -> (f: InformFlags)
        ensures
            f == flags_of_raw(raw),
    {
        InformFlags {
            encrypted: (raw & 0x01) != 0,
            zlib_compressed: (raw & 0x02) != 0,
            snappy_compressed: (raw & 0x04) != 0,
            aes_gcm: (raw & 0x08) != 0,
        }
    }

    /// The raw header field of the flags.
    pub fn to_raw(&self) -> (r: u16)
        ensures
            r == raw_of_flags(*self),
    {
        let e: u16 = if self.encrypted { 0x01 } else { 0 };
        let z: u16 = if self.zlib_compressed { 0x02 } else { 0 };
        let s: u16 = if self.snappy_compressed { 0x04 } else { 0 };
        let g: u16 = if self.aes_gcm { 0x08 } else { 0 };
        let flags = e | z | s | g;
        flags
    }
}

/// Encoding flags and reading them back gives the same flags.
pub proof fn lemma_flags_roundtrip(f: InformFlags)
    ensures
        flags_of_raw(raw_of_flags(f)) == f,
{
    let e = f.encrypted;
    let z = f.zlib_compressed;
    let s = f.snappy_compressed;
    let g = f.aes_gcm;
    let r = raw_of_flags(f);
    assert((r & 1 != 0 <==> e) && (r & 2 != 0 <==> z) && (r & 4 != 0 <==> s) && (r & 8 != 0 <==> g))
        by (bit_vector)
        requires
            r == raw_bits(e, z, s, g),
    ;
}

/// Reading the flags of a raw field and encoding them again keeps the four
/// flag bits of the field and clears the others.
pub proof fn lemma_raw_roundtrip(raw: u16)
    ensures
        raw_of_flags(flags_of_raw(raw)) == raw & 0x0f,
{
    assert(raw_bits(raw & 1 != 0, raw & 2 != 0, raw & 4 != 0, raw & 8 != 0) == raw & 0x0f)
        by (bit_vector);
}

/// Discovery TLV payload types.
#[derive(Debug, Clone, Copy, PartialEq, Eq, Hash, Structural)]
pub enum PayloadType {
    Mac,
    MacIp,
    Firmware,
    Uptime,
    Hostname,
    ShortModel2,
    Sequence,
    Serial,
    ShortModel,
    Version,
    IsDefault,
    IsLocating,
    IsDhcp,
    IsDhcpBound,
    SshPort,
    Unknown(u8),
}

/// The payload type that a type byte names.
pub open spec fn payload_type_of(value: u8) -> PayloadType {
    if value == 0x01 {
        PayloadType::Mac
    } else if value == 0x02 {
        PayloadType::MacIp
    } else if value == 0x03 {
        PayloadType::Firmware
    } else if value == 0x0a {
        PayloadType::Uptime
    } else if value == 0x0b {
        PayloadType::Hostname
    } else if value == 0x0c {
        PayloadType::ShortModel2
    } else if value == 0x12 {
        PayloadType::Sequence
    } else if value == 0x13 {
        PayloadType::Serial
    } else if value == 0x15 {
        PayloadType::ShortModel
    } else if value == 0x16 {
        PayloadType::Version
    } else if value == 0x17 {
        PayloadType::IsDefault
    } else if value == 0x18 {
        PayloadType::IsLocating
    } else if value == 0x19 {
        PayloadType::IsDhcp
    } else if value == 0x20 {
        PayloadType::IsDhcpBound
    } else if value == 0x1c {
        PayloadType::SshPort
    } else {
        PayloadType::Unknown(value)
    }
}

/// The type byte of a payload type.
pub open spec fn code_of_payload_type(p: PayloadType) -> u8 {
    match p {
        PayloadType::Mac => 0x01,
        PayloadType::MacIp => 0x02,
        PayloadType::Firmware => 0x03,
        PayloadType::Uptime => 0x0a,
        PayloadType::Hostname => 0x0b,
        PayloadType::ShortModel2 => 0x0c,
        PayloadType::Sequence => 0x12,
        PayloadType::Serial => 0x13,
        PayloadType::ShortModel => 0x15,
        PayloadType::Version => 0x16,
        PayloadType::IsDefault => 0x17,
        PayloadType::IsLocating => 0x18,
        PayloadType::IsDhcp => 0x19,
        PayloadType::IsDhcpBound => 0x20,
        PayloadType::SshPort => 0x1c,
        PayloadType::Unknown(v) => v,
    }
}

impl From<u8> for PayloadType {
    fn from(value: u8) -> (p: PayloadType) {
        match value {
            0x01 => PayloadType::Mac,
            0x02 => PayloadType::MacIp,
            0x03 => PayloadType::Firmware,
            0x0a => PayloadType::Uptime,
            0x0b => PayloadType::Hostname,
            0x0c => PayloadType::ShortModel2,
            0x12 => PayloadType::Sequence,
            0x13 => PayloadType::Serial,
            0x15 => PayloadType::ShortModel,
            0x16 => PayloadType::Version,
            0x17 => PayloadType::IsDefault,
            0x18 => PayloadType::IsLocating,
            0x19 => PayloadType::IsDhcp,
            0x20 => PayloadType::IsDhcpBound,
            0x1c => PayloadType::SshPort,
            other => PayloadType::Unknown(other),
        }
    }
}

impl vstd::std_specs::convert::FromSpecImpl<u8> for PayloadType {
    open spec fn obeys_from_spec() -> bool {
        true
    }

    open spec fn from_spec(v: u8) -> PayloadType {
        payload_type_of(v)
    }
}

impl From<PayloadType> for u8 {
    fn from(value: PayloadType) -> (b: u8) {
        match value {
            PayloadType::Mac => 0x01,
            PayloadType::MacIp => 0x02,
            PayloadType::Firmware => 0x03,
            PayloadType::Uptime => 0x0a,
            PayloadType::Hostname => 0x0b,
            PayloadType::ShortModel2 => 0x0c,
            PayloadType::Sequence => 0x12,
            PayloadType::Serial => 0x13,
            PayloadType::ShortModel => 0x15,
            PayloadType::Version => 0x16,
            PayloadType::IsDefault => 0x17,
            PayloadType::IsLocating => 0x18,
            PayloadType::IsDhcp => 0x19,
            PayloadType::IsDhcpBound => 0x20,
            PayloadType::SshPort => 0x1c,
            PayloadType::Unknown(v) => v,
        }
    }
}

impl vstd::std_specs::convert::FromSpecImpl<PayloadType> for u8 {
    open spec fn obeys_from_spec() -> bool {
        true
    }

    open spec fn from_spec(v: PayloadType) -> u8 {
        code_of_payload_type(v)
    }
}

/// Every type byte survives naming it and taking the name's byte.
pub proof fn lemma_payload_code_roundtrip(value: u8)
    ensures
        code_of_payload_type(payload_type_of(value)) == value,
{
}

/// A payload type other than `Unknown` of a known byte survives taking its
/// byte and naming that byte.
pub proof fn lemma_payload_type_roundtrip(p: PayloadType)
    requires
        p is Unknown ==> payload_type_of(p->Unknown_0) is Unknown,
    ensures
        payload_type_of(code_of_payload_type(p)) == p,
{
}

/// Device state in the adoption lifecycle, as the protocol reports it.
#[derive(Debug, Clone, Copy, PartialEq, Eq, Structural)]
pub enum DeviceState {
    /// Default (not adopted), also any unknown code.
    Unknown,
    /// Connected, pending adoption.
    Connected,
    /// Adopted and provisioned.
    Provisioned,
    /// Upgrading firmware.
    Upgrading,
    /// Being provisioned.
    Provisioning,
}

/// The state that a state code names: 0, 1, 2, 4 and 5 are known.
pub open spec fn device_state_of(value: u8) -> DeviceState {
    if value == 1 {
        DeviceState::Connected
    } else if value == 2 {
        DeviceState::Provisioned
    } else if value == 4 {
        DeviceState::Upgrading
    } else if value == 5 {
        DeviceState::Provisioning
    } else {
        DeviceState::Unknown
    }
}

impl From<u8> for DeviceState {
    fn from(value: u8) -> (s: DeviceState) {
        match value {
            0 => DeviceState::Unknown,
            1 => DeviceState::Connected,
            2 => DeviceState::Provisioned,
            4 => DeviceState::Upgrading,
            5 => DeviceState::Provisioning,
            _ => DeviceState::Unknown,
        }
    }
}

impl vstd::std_specs::convert::FromSpecImpl<u8> for DeviceState {
    open spec fn obeys_from_spec() -> bool {
        true
    }

    open spec fn from_spec(v: u8) -> DeviceState {
        device_state_of(v)
    }
}

/// Radio band.
#[derive(Debug, Clone, Copy, PartialEq, Eq, Hash, Structural)]
pub enum Band {
    /// 2.4 GHz.
    Band2g,
    /// 5 GHz.
    Band5g,
    /// 6 GHz.
    Band6g,
}

/// The short name of a band: `2g`, `5g` or `6g`.
pub open spec fn band_text(b: Band) -> Seq<char> {
    match b {
        Band::Band2g => "2g"@,
        Band::Band5g => "5g"@,
        Band::Band6g => "6g"@,
    }
}

impl Band {
    /// The short name of the band.
    pub fn to_string(&self) -> (s: String)
        ensures
            s@ == band_text(*self),
    {
        match self {
            Band::Band2g => String::from_str("2g"),
            Band::Band5g => String::from_str("5g"),
            Band::Band6g => String::from_str("6g"),
        }
    }
}

/// Security mode of a Wi-Fi network.
#[derive(Debug, Clone, Copy, PartialEq, Eq, Structural)]
pub enum SecurityMode {
    /// Open network.
    Open,
    /// WPA2-Personal.
    Wpa2,
    /// WPA3-Personal (SAE).
    Wpa3,
    /// WPA2/WPA3 transitional.
    Wpa2Wpa3,
}

impl Default for SecurityMode {
    fn default() -> (m: SecurityMode)
        ensures
            m == SecurityMode::Wpa2Wpa3,
    {
        SecurityMode::Wpa2Wpa3
    }
}

/// The (key management, cipher) pair of a security mode.
pub open spec fn ini_values(m: SecurityMode) -> (Seq<char>, Seq<char>) {
    match m {
        SecurityMode::Open => ("none"@, "none"@),
        SecurityMode::Wpa2 => ("WPA-PSK"@, "CCMP"@),
        SecurityMode::Wpa3 => ("SAE"@, "CCMP"@),
        SecurityMode::Wpa2Wpa3 => ("WPA-PSK SAE"@, "CCMP"@),
    }
}

impl SecurityMode {
    /// The INI key-management and cipher values of this mode.
    pub fn to_ini_values(&self) -> (r: (&'static str, &'static str))
        ensures
            (r.0@, r.1@) == ini_values(*self),
    {
        match self {
            SecurityMode::Open => ("none", "none"),
            SecurityMode::Wpa2 => ("WPA-PSK", "CCMP"),
            SecurityMode::Wpa3 => ("SAE", "CCMP"),
            SecurityMode::Wpa2Wpa3 => ("WPA-PSK SAE", "CCMP"),
        }
    }
}

} // verus!

verus! {

/// Magic bytes that open an inform packet (`TNBU`).
pub const INFORM_MAGIC: [u8; 4] = [0x54, 0x4e, 0x42, 0x55];

/// Discovery packet type of device announcements.
pub const DISCOVERY_TYPE_BROADCAST: u8 = 0x06;

/// Configuration version sent with the first management configuration
/// after adoption; a device that reports it back is ready for its system
/// configuration.
pub const ADOPT_CFG_VERSION: &'static str = "0123456789abcdef";

/// The inform magic bytes.
pub open spec fn inform_magic() -> Seq<u8> {
    seq![0x54u8, 0x4eu8, 0x42u8, 0x55u8]
}

} // verus!
