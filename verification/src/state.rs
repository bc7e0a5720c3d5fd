//! The controller's record of one device: its management status, its keys
//! and configuration versions, the radios it reported and the firmware it
//! should move to.

use vstd::prelude::*;
use crate::config::{clone_opt_string, opt_view};
use crate::ini::str_eq;
use crate::mac::MacAddress;

verus! {

/// Adoption and management status of a device.
#[derive(Debug, Clone, Copy, PartialEq, Eq, Structural)]
pub enum DeviceStatus {
    /// Discovered but not adopted.
    Discovered,
    /// Adoption in progress.
    Adopting,
    /// Adopted and managed.
    Adopted,
    /// Being provisioned with a new configuration.
    Provisioning,
    /// Not seen recently.
    Offline,
}

impl Default for DeviceStatus {
    fn default() -> (s: DeviceStatus)
        ensures
            s == DeviceStatus::Discovered,
    {
        DeviceStatus::Discovered
    }
}

/// The lower-case name of a status.
pub open spec fn status_text(s: DeviceStatus) -> Seq<char> {
    match s {
        DeviceStatus::Discovered => "discovered"@,
        DeviceStatus::Adopting => "adopting"@,
        DeviceStatus::Adopted => "adopted"@,
        DeviceStatus::Provisioning => "provisioning"@,
        DeviceStatus::Offline => "offline"@,
    }
}

impl DeviceStatus {
    /// The lower-case name of this status.
    pub fn to_string(&self) -> (s: String)
        ensures
            s@ == status_text(*self),
    {
        match self {
            DeviceStatus::Discovered => String::from_str("discovered"),
            DeviceStatus::Adopting => String::from_str("adopting"),
            DeviceStatus::Adopted => String::from_str("adopted"),
            DeviceStatus::Provisioning => String::from_str("provisioning"),
            DeviceStatus::Offline => String::from_str("offline"),
        }
    }
}

/// One radio as a device reports it: its kind (`ng`, `na`, `6e`, ...), its
/// interface name and its built-in antenna gain, where it is a whole number.
#[derive(Debug)]
pub struct RadioTableEntry {
    pub radio: String,
    pub name: String,
    pub tx_power_mode: Option<String>,
    pub antenna_gain: Option<u64>,
}

impl Clone for RadioTableEntry {
    fn clone(&self) -> (r: RadioTableEntry)
        ensures
            r.radio@ == self.radio@,
            r.name@ == self.name@,
            opt_view(r.tx_power_mode) == opt_view(self.tx_power_mode),
            r.antenna_gain == self.antenna_gain,
    {
        RadioTableEntry {
            radio: self.radio.clone(),
            name: self.name.clone(),
            tx_power_mode: clone_opt_string(&self.tx_power_mode),
            antenna_gain: self.antenna_gain,
        }
    }
}

/// Antenna gains of the three radios, as a device reports them.
#[derive(Debug, Clone, Copy, PartialEq, Eq, Structural)]
pub struct AntennaTableEntry {
    pub wifi0_gain: Option<u8>,
    pub wifi1_gain: Option<u8>,
    pub wifi2_gain: Option<u8>,
}

/// Firmware that a device should be upgraded to.
#[derive(Debug)]
pub struct FirmwareUpdateInfo {
    pub version: String,
    pub url: String,
    pub md5: Option<String>,
}

/// What the controller knows of one device. Times are nanoseconds since
/// the Unix epoch.
#[derive(Debug)]
pub struct DeviceState {
    pub mac: MacAddress,
    pub status: DeviceStatus,
    /// Encryption key after adoption (32 hex digits).
    pub auth_key: Option<String>,
    pub inform_url: Option<String>,
    /// Last known IP address, as text.
    pub last_ip: Option<String>,
    pub last_seen: Option<i64>,
    pub model: Option<String>,
    pub version: Option<String>,
    pub hostname: Option<String>,
    /// Whether the device is in its factory state.
    pub is_default: bool,
    pub ssh_port: Option<u16>,
    /// Configuration version the device reports.
    pub current_cfgversion: Option<String>,
    /// Configuration version the controller wants it to have.
    pub target_cfgversion: Option<String>,
    pub adopted_at: Option<i64>,
    /// Radios the device reported.
    pub radio_table: Vec<RadioTableEntry>,
    pub target_firmware: Option<FirmwareUpdateInfo>,
}

/// A fresh record for a device: discovered, nothing else known.
pub open spec fn is_fresh(d: DeviceState, mac: MacAddress) -> bool {
    &&& d.mac == mac
    &&& d.status == DeviceStatus::Discovered
    &&& d.auth_key is None
    &&& d.inform_url is None
    &&& d.last_ip is None
    &&& d.last_seen is None
    &&& d.model is None
    &&& d.version is None
    &&& d.hostname is None
    &&& !d.is_default
    &&& d.ssh_port is None
    &&& d.current_cfgversion is None
    &&& d.target_cfgversion is None
    &&& d.adopted_at is None
    &&& d.radio_table@.len() == 0
    &&& d.target_firmware is None
}

/// A configuration update is due: a target version is set and the device
/// does not report that version.
pub open spec fn needs_update(d: DeviceState) -> bool {
    match (d.current_cfgversion, d.target_cfgversion) {
        (Some(c), Some(t)) => c@ != t@,
        (None, Some(_)) => true,
        _ => false,
    }
}

/// Seen less than a minute before `now` (whole seconds, rounded toward
/// zero, so anything later than `now` counts as seen).
pub open spec fn online_at(d: DeviceState, now: i64) -> bool {
    match d.last_seen {
        Some(t) => now - t < 60_000_000_000,
        None => false,
    }
}

/// The current time in nanoseconds since the Unix epoch (`chrono::Utc::now`);
/// nothing is claimed of the value.
#[verifier::external_body]
pub(crate) fn utc_now_nanos() -> i64 {
    chrono::Utc::now().timestamp_nanos_opt().unwrap_or(0)
}

impl DeviceState {
    /// A fresh record for `mac`.
    pub fn new(mac: MacAddress) -> (d: DeviceState)
        ensures
            is_fresh(d, mac),
    {
        DeviceState {
            mac,
            status: DeviceStatus::Discovered,
            auth_key: None,
            inform_url: None,
            last_ip: None,
            last_seen: None,
            model: None,
            version: None,
            hostname: None,
            is_default: false,
            ssh_port: None,
            current_cfgversion: None,
            target_cfgversion: None,
            adopted_at: None,
            radio_table: Vec::new(),
            target_firmware: None,
        }
    }

    /// Whether the device needs a configuration update.
    pub fn needs_config_update(&self) -> (r: bool)
        ensures
            r == needs_update(*self),
    {
        match (&self.current_cfgversion, &self.target_cfgversion) {
            (Some(current), Some(target)) => !str_eq(current.as_str(), target.as_str()),
            (None, Some(_)) => true,
            _ => false,
        }
    }

    /// Whether the device was seen in the minute before `now`.
    pub fn is_online_at(&self, now: i64) -> (r: bool)
        ensures
            r == online_at(*self, now),
    {
        match self.last_seen {
            Some(t) => (now as i128) - (t as i128) < 60_000_000_000i128,
            None => false,
        }
    }

    /// Whether the device was seen in the last minute, by the clock.
    pub fn is_online(&self) -> (r: bool)
        ensures
            r ==> self.last_seen is Some,
            exists|now: i64| r == online_at(*self, now),
    {
        let now = utc_now_nanos();
        self.is_online_at(now)
    }
}

impl Default for DeviceState {
    fn default() -> (d: DeviceState)
        ensures
            is_fresh(d, MacAddress([0, 0, 0, 0, 0, 0])),
    {
        DeviceState::new(MacAddress([0, 0, 0, 0, 0, 0]))
    }
}

/// The values of a radio table entry.
pub open spec fn entry_view(e: RadioTableEntry) -> (Seq<char>, Seq<char>, Option<Seq<char>>, Option<u64>) {
    (e.radio@, e.name@, opt_view(e.tx_power_mode), e.antenna_gain)
}

/// The values of a radio table.
pub open spec fn table_views(t: Seq<RadioTableEntry>) -> Seq<(Seq<char>, Seq<char>, Option<Seq<char>>, Option<u64>)> {
    t.map_values(|e: RadioTableEntry| entry_view(e))
}

/// The values of a firmware target.
pub open spec fn firmware_view(f: Option<FirmwareUpdateInfo>) -> Option<(Seq<char>, Seq<char>, Option<Seq<char>>)> {
    match f {
        Some(i) => Some((i.version@, i.url@, opt_view(i.md5))),
        None => None,
    }
}

/// The values of a device record.
pub struct DeviceView {
    pub mac: MacAddress,
    pub status: DeviceStatus,
    pub auth_key: Option<Seq<char>>,
    pub inform_url: Option<Seq<char>>,
    pub last_ip: Option<Seq<char>>,
    pub last_seen: Option<i64>,
    pub model: Option<Seq<char>>,
    pub version: Option<Seq<char>>,
    pub hostname: Option<Seq<char>>,
    pub is_default: bool,
    pub ssh_port: Option<u16>,
    pub current_cfgversion: Option<Seq<char>>,
    pub target_cfgversion: Option<Seq<char>>,
    pub adopted_at: Option<i64>,
    pub radio_table: Seq<(Seq<char>, Seq<char>, Option<Seq<char>>, Option<u64>)>,
    pub target_firmware: Option<(Seq<char>, Seq<char>, Option<Seq<char>>)>,
}

impl View for DeviceState {
    type V = DeviceView;

    open spec fn view(&self) -> DeviceView {
        DeviceView {
            mac: self.mac,
            status: self.status,
            auth_key: opt_view(self.auth_key),
            inform_url: opt_view(self.inform_url),
            last_ip: opt_view(self.last_ip),
            last_seen: self.last_seen,
            model: opt_view(self.model),
            version: opt_view(self.version),
            hostname: opt_view(self.hostname),
            is_default: self.is_default,
            ssh_port: self.ssh_port,
            current_cfgversion: opt_view(self.current_cfgversion),
            target_cfgversion: opt_view(self.target_cfgversion),
            adopted_at: self.adopted_at,
            radio_table: table_views(self.radio_table@),
            target_firmware: firmware_view(self.target_firmware),
        }
    }
}

/// Copies a radio table.
pub fn clone_table(t: &Vec<RadioTableEntry>) -> (r: Vec<RadioTableEntry>)
    ensures
        table_views(r@) == table_views(t@),
{
    let mut r: Vec<RadioTableEntry> = Vec::new();
    let mut i: usize = 0;
    while i < t.len()
        invariant
            i <= t.len(),
            table_views(r@) == table_views(t@).take(i as int),
        decreases t.len() - i,
    {
        let ghost before = table_views(r@);
        let e = t[i].clone();
        r.push(e);
        assert(table_views(r@) =~= before.push(entry_view(t@[i as int])));
        assert(table_views(t@).take(i + 1) =~= table_views(t@).take(i as int).push(entry_view(t@[i as int])));
        i = i + 1;
    }
    assert(table_views(t@).take(t.len() as int) =~= table_views(t@));
    r
}

} // verus!
