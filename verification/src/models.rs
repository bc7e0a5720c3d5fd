//! The provisioning model that the system configuration sections read:
//! management credentials, Wi-Fi networks, per-device settings and known
//! device records, with what they give for one device.

use vstd::prelude::*;
use crate::config::{opt_view, SshKey, SshKeyView};
use crate::ini::str_eq;
use crate::localization::{country_zone, detect_system_timezone, get_default_timezone_for_country,
    get_numeric_country_code, iana_posix, iana_to_posix_tz, numeric_country, uppercase};
use crate::state::RadioTableEntry;
use crate::text::{find_char, first_index, is_ws, lowercase, strip_char, to_lower, trim_str, trim_ws, views, without};
use crate::types::{Band, SecurityMode};

verus! {

/// Management credentials.
#[derive(Debug, Clone)]
pub struct ManagementConfig {
    /// SSH user name (adoption and management).
    pub username: Option<String>,
    /// SSH password, in clear or already crypt-hashed (`$...`).
    pub password: Option<String>,
    /// One SSH public key line.
    pub ssh_key: Option<String>,
    /// STUN URL.
    pub stun_url: Option<String>,
}

/// A Wi-Fi network.
#[derive(Debug, Clone)]
pub struct NetworkConfig {
    pub ssid: String,
    pub passphrase: Option<String>,
    pub security: SecurityMode,
    /// Bands to broadcast on.
    pub bands: Vec<Band>,
    /// VLAN id (`None`: untagged).
    pub vlan: Option<u16>,
    pub hidden: bool,
    pub guest: bool,
    pub client_device_isolation: bool,
    /// IoT optimisation.
    pub iot: bool,
    /// Protected management frames: 0 disabled, 1 optional, 2 required.
    pub pmf: u8,
}

/// The bands of a network that names none: 2.4 and 5 GHz.
pub fn default_bands() -> (v: Vec<Band>)
    ensures
        v@ == seq![Band::Band2g, Band::Band5g],
{
    let mut v = Vec::new();
    v.push(Band::Band2g);
    v.push(Band::Band5g);
    v
}

/// The PMF mode of a network that names none: disabled.
pub fn default_pmf() -> (p: u8)
    ensures
        p == 0,
{
    0
}

/// Per-device settings.
#[derive(Debug, Clone)]
pub struct DeviceConfig {
    /// Friendly name.
    pub name: Option<String>,
    /// LED on or off.
    pub led: Option<bool>,
}

/// What is known of a device from the device records.
#[derive(Debug, Clone)]
pub struct DeviceInfo {
    /// Authentication key (32 hex digits).
    pub auth_key: Option<String>,
    /// Last inform IP address.
    pub inform_ip: Option<String>,
    pub inform_url: Option<String>,
    /// Last known configuration version.
    pub cfgversion: String,
    /// Key of the encrypted remote syslog, where enabled.
    pub syslog_remote_key: Option<String>,
    /// Radios configured for the device.
    pub radio_table: Vec<RadioTableEntry>,
}

/// The provisioning configuration. The keyed tables are lists of
/// `(key, value)` with distinct keys; device keys are MAC addresses in
/// lower-case hex without separators.
#[derive(Debug, Clone)]
pub struct ProvisionConfig {
    pub management: ManagementConfig,
    /// Country code (`US`, `DE`, ...).
    pub country_code: Option<String>,
    /// Time zone: IANA name or POSIX string.
    pub timezone: Option<String>,
    pub ntp_servers: Vec<String>,
    pub ssh_keys: Vec<SshKey>,
    /// Networks by name.
    pub networks: Vec<(String, NetworkConfig)>,
    /// Per-device settings by device key.
    pub devices: Vec<(String, DeviceConfig)>,
    /// Device records by device key.
    pub devices_info: Vec<(String, DeviceInfo)>,
}

impl Default for ManagementConfig {
    /// No credentials, key or STUN URL.
    fn default() -> (m: ManagementConfig)
        ensures
            m.username is None,
            m.password is None,
            m.ssh_key is None,
            m.stun_url is None,
    {
        ManagementConfig { username: None, password: None, ssh_key: None, stun_url: None }
    }
}

impl Default for ProvisionConfig {
    /// An empty configuration: no credentials, country, zone, NTP servers,
    /// keys, networks, device settings or records.
    fn default() -> (c: ProvisionConfig)
        ensures
            c.management.username is None,
            c.management.password is None,
            c.management.ssh_key is None,
            c.management.stun_url is None,
            c.country_code is None,
            c.timezone is None,
            c.ntp_servers@.len() == 0,
            c.ssh_keys@.len() == 0,
            c.networks@.len() == 0,
            c.devices@.len() == 0,
            c.devices_info@.len() == 0,
            c.well_formed(),
    {
        ProvisionConfig {
            management: ManagementConfig::default(),
            country_code: None,
            timezone: None,
            ntp_servers: Vec::new(),
            ssh_keys: Vec::new(),
            networks: Vec::new(),
            devices: Vec::new(),
            devices_info: Vec::new(),
        }
    }
}

/// `i` is the first entry of `l` with key `k`.
pub open spec fn is_first_key<V>(l: Seq<(String, V)>, k: Seq<char>, i: int) -> bool {
    0 <= i < l.len() && l[i].0@ == k && forall|j: int| 0 <= j < i ==> l[j].0@ != k
}

/// The value under key `k`.
pub open spec fn lookup<V>(l: Seq<(String, V)>, k: Seq<char>) -> Option<V> {
    if exists|i: int| is_first_key(l, k, i) {
        Some(l[choose|i: int| is_first_key(l, k, i)].1)
    } else {
        None
    }
}

/// Finds the entry with key `k`.
pub fn find_key<V>(l: &Vec<(String, V)>, k: &str) -> (r: Option<usize>)
    ensures
        match r {
            Some(i) => is_first_key(l@, k@, i as int) && lookup(l@, k@) == Some(l@[i as int].1),
            None => lookup(l@, k@) is None,
        },
{
    let mut i: usize = 0;
    while i < l.len()
        invariant
            i <= l.len(),
            forall|j: int| 0 <= j < i ==> l@[j].0@ != k@,
        decreases l.len() - i,
    {
        if str_eq(l[i].0.as_str(), k) {
            proof {
                let c = choose|c: int| is_first_key(l@, k@, c);
                assert(is_first_key(l@, k@, i as int));
                if c < i {
                    assert(l@[c].0@ != k@);
                } else if c > i {
                    assert(l@[i as int].0@ != k@);
                }
            }
            return Some(i);
        }
        i = i + 1;
    }
    assert(!exists|c: int| is_first_key(l@, k@, c)) by {
        if exists|c: int| is_first_key(l@, k@, c) {
            let c = choose|c: int| is_first_key(l@, k@, c);
            assert(l@[c].0@ != k@);
        }
    }
    None
}

/// No two entries of the list share a key, as in a map.
pub open spec fn distinct_keys<V>(l: Seq<(String, V)>) -> bool {
    forall|i: int, j: int| 0 <= i < j < l.len() ==> l[i].0@ != l[j].0@
}

/// With distinct keys the list reads as a map: the value under the key of
/// any entry is that entry's value, wherever the entry stands.
pub proof fn lemma_lookup_distinct<V>(l: Seq<(String, V)>, i: int)
    requires
        distinct_keys(l),
        0 <= i < l.len(),
    ensures
        lookup(l, l[i].0@) == Some(l[i].1),
{
    let k = l[i].0@;
    assert(is_first_key(l, k, i));
    let c = choose|c: int| is_first_key(l, k, c);
    if c != i {
        if c < i {
            assert(l[c].0@ != l[i].0@);
        } else {
            assert(l[i].0@ != k);
        }
    }
}

/// Whether no two entries of the list share a key.
pub fn has_distinct_keys<V>(l: &Vec<(String, V)>) -> (r: bool)
    ensures
        r == distinct_keys(l@),
{
    let mut i: usize = 0;
    while i < l.len()
        invariant
            i <= l.len(),
            forall|a: int, b: int| 0 <= a < b < l@.len() && a < i ==> l@[a].0@ != l@[b].0@,
        decreases l.len() - i,
    {
        let mut j: usize = i + 1;
        while j < l.len()
            invariant
                i < l.len(),
                i + 1 <= j <= l.len(),
                forall|a: int, b: int| 0 <= a < b < l@.len() && a < i ==> l@[a].0@ != l@[b].0@,
                forall|b: int| i < b < j ==> l@[i as int].0@ != l@[b].0@,
            decreases l.len() - j,
        {
            if str_eq(l[i].0.as_str(), l[j].0.as_str()) {
                assert(!distinct_keys(l@)) by {
                    assert(l@[i as int].0@ == l@[j as int].0@);
                }
                return false;
            }
            j = j + 1;
        }
        i = i + 1;
    }
    true
}

/// The device key of a MAC address text: colons removed, lower-cased.
pub open spec fn mac_key(mac: Seq<char>) -> Seq<char> {
    lowercase(without(mac, ':'))
}

/// The device key of a MAC address text.
pub fn device_key(mac: &str) -> (k: String)
    ensures
        k@ == mac_key(mac@),
{
    let s = strip_char(mac, ':');
    to_lower(s.as_str())
}

/// The LED setting of a device: its own, else on.
pub open spec fn led_for(c: ProvisionConfig, mac: Seq<char>) -> bool {
    match lookup(c.devices@, mac_key(mac)) {
        Some(d) => match d.led {
            Some(b) => b,
            None => true,
        },
        None => true,
    }
}

/// The POSIX zone that the country code gives, if any.
pub open spec fn country_posix(c: ProvisionConfig) -> Option<Seq<char>> {
    match c.country_code {
        Some(cc) => iana_posix(country_zone(uppercase(cc@))),
        None => None,
    }
}

/// The effective POSIX time zone, with `sys` the system's IANA zone: the
/// configured zone, mapped to its POSIX string where it is an IANA name the
/// table knows and taken as a POSIX string as it stands otherwise; else the
/// default zone of the country, else the system zone, else `UTC0`.
pub open spec fn effective_tz(c: ProvisionConfig, sys: Option<Seq<char>>) -> Seq<char> {
    match c.timezone {
        Some(t) => match iana_posix(t@) {
            Some(p) => p,
            None => t@,
        },
        None => match country_posix(c) {
            Some(p) => p,
            None => match sys {
                Some(s) => match iana_posix(s) {
                    Some(p) => p,
                    None => "UTC0"@,
                },
                None => "UTC0"@,
            },
        },
    }
}

/// The numeric country code of the radios: the configured country's,
/// else 840 (US).
pub open spec fn country_numeric(c: ProvisionConfig) -> u16 {
    match c.country_code {
        Some(cc) => numeric_country(cc@),
        None => 840u16,
    }
}

/// The system zone is consulted: no zone is configured and the country
/// gives none.
pub open spec fn needs_system_tz(c: ProvisionConfig) -> bool {
    c.timezone is None && country_posix(c) is None
}

impl ProvisionConfig {
    /// The keyed tables are maps: networks, device settings and device
    /// records each have distinct keys.
    pub open spec fn well_formed(&self) -> bool {
        &&& distinct_keys(self.networks@)
        &&& distinct_keys(self.devices@)
        &&& distinct_keys(self.devices_info@)
    }

    /// Whether the keyed tables have distinct keys.
    pub fn is_well_formed(&self) -> (r: bool)
        ensures
            r == self.well_formed(),
    {
        has_distinct_keys(&self.networks) && has_distinct_keys(&self.devices) && has_distinct_keys(&self.devices_info)
    }

    /// The networks for a device: all configured networks.
    pub fn get_networks_for_device(&self, _mac: &str) -> (r: &Vec<(String, NetworkConfig)>)
        ensures
            r@ == self.networks@,
    {
        &self.networks
    }

    /// The LED setting of a device: its own setting, else on.
    pub fn get_led_for_device(&self, mac: &str) -> (r: bool)
        ensures
            r == led_for(*self, mac@),
    {
        let key = device_key(mac);
        match find_key(&self.devices, key.as_str()) {
            Some(i) => match self.devices[i].1.led {
                Some(b) => b,
                None => true,
            },
            None => true,
        }
    }

    /// The numeric country code of the radios: the configured country's,
    /// else 840 (US).
    pub fn get_effective_country_code_numeric(&self) -> (r: u16)
        ensures
            r == country_numeric(*self),
    {
        match &self.country_code {
            Some(iso) => get_numeric_country_code(iso.as_str()),
            None => 840,
        }
    }

    /// The effective POSIX time zone, given the system's IANA zone.
    pub fn timezone_posix_with(&self, detected: Option<String>) -> (r: String)
        ensures
            r@ == effective_tz(*self, opt_view(detected)),
    {
        match &self.timezone {
            Some(tz) => {
                match iana_to_posix_tz(tz.as_str()) {
                    Some(p) => String::from_str(p),
                    None => tz.clone(),
                }
            },
            None => {
                match &self.country_code {
                    Some(cc) => {
                        let iana = get_default_timezone_for_country(cc.as_str());
                        match iana_to_posix_tz(iana) {
                            Some(p) => {
                                return String::from_str(p);
                            },
                            None => {},
                        }
                    },
                    None => {},
                }
                match &detected {
                    Some(sys) => match iana_to_posix_tz(sys.as_str()) {
                        Some(p) => String::from_str(p),
                        None => String::from_str("UTC0"),
                    },
                    None => String::from_str("UTC0"),
                }
            },
        }
    }

    /// The effective POSIX time zone. The system zone is read only where
    /// the configuration gives none.
    pub fn get_effective_timezone_posix(&self) -> (r: String)
        ensures
            !needs_system_tz(*self) ==> r@ == effective_tz(*self, None),
            exists|sys: Option<Seq<char>>| r@ == effective_tz(*self, sys),
    {
        let mut need = self.timezone.is_none();
        if need {
            match &self.country_code {
                Some(cc) => {
                    let iana = get_default_timezone_for_country(cc.as_str());
                    need = iana_to_posix_tz(iana).is_none();
                },
                None => {},
            }
        }
        let detected = if need {
            detect_system_timezone()
        } else {
            None
        };
        let r = self.timezone_posix_with(detected);
        assert(r@ == effective_tz(*self, opt_view(detected)));
        r
    }
}

/// Whether `c` is white space (`char::is_whitespace`).
pub fn is_ws_char(c: char) -> (r: bool)
    ensures
        r == is_ws(c),
{
    c == '\t' || c == '\n' || c == '\x0B' || c == '\x0C' || c == '\r' || c == ' ' || c == '\u{85}'
        || c == '\u{A0}' || c == '\u{1680}' || ('\u{2000}' <= c && c <= '\u{200A}') || c == '\u{2028}'
        || c == '\u{2029}' || c == '\u{202F}' || c == '\u{205F}' || c == '\u{3000}'
}

/// The white-space separated words of `s`, scanning with the word `cur`
/// begun and the words `acc` done.
pub open spec fn words_from(s: Seq<char>, cur: Seq<char>, acc: Seq<Seq<char>>) -> Seq<Seq<char>>
    decreases s.len(),
{
    if s.len() == 0 {
        if cur.len() > 0 {
            acc.push(cur)
        } else {
            acc
        }
    } else if is_ws(s[0]) {
        words_from(s.drop_first(), Seq::empty(), if cur.len() > 0 { acc.push(cur) } else { acc })
    } else {
        words_from(s.drop_first(), cur.push(s[0]), acc)
    }
}

/// The white-space separated words of `s` (`str::split_whitespace`).
pub open spec fn words(s: Seq<char>) -> Seq<Seq<char>> {
    words_from(s, Seq::empty(), Seq::empty())
}

/// Words joined by single spaces.
pub open spec fn join_spaced(ws: Seq<Seq<char>>) -> Seq<char>
    decreases ws.len(),
{
    if ws.len() == 0 {
        Seq::empty()
    } else if ws.len() == 1 {
        ws[0]
    } else {
        join_spaced(ws.drop_last()) + seq![' '] + ws.last()
    }
}

/// The key of a public key line: at least two words, the type and the
/// value, and the rest, joined by spaces, as the comment.
pub open spec fn pubkey_of_line(line: Seq<char>) -> Option<SshKeyView> {
    let ws = words(trim_ws(line));
    if ws.len() >= 2 {
        Some(
            SshKeyView {
                key_type: ws[0],
                value: ws[1],
                comment: if ws.len() > 2 {
                    Some(join_spaced(ws.skip(2)))
                } else {
                    None
                },
            },
        )
    } else {
        None
    }
}

/// Splits a text into its white-space separated words.
pub fn split_words(s: &str) -> (r: Vec<String>)
    ensures
        views(r@) == words(s@),
{
    let n = s.unicode_len();
    let mut acc: Vec<String> = Vec::new();
    let mut cur = String::new();
    let mut i: usize = 0;
    assert(s@.skip(0) =~= s@);
    assert(views(acc@) =~= Seq::<Seq<char>>::empty());
    while i < n
        invariant
            n == s@.len(),
            i <= n,
            words(s@) == words_from(s@.skip(i as int), cur@, views(acc@)),
        decreases n - i,
    {
        let c = s.get_char(i);
        proof {
            assert(s@.skip(i as int).drop_first() =~= s@.skip(i + 1));
            assert(s@.skip(i as int)[0] == c);
        }
        if is_ws_char(c) {
            if cur.unicode_len() > 0 {
                let ghost a = views(acc@);
                acc.push(cur);
                assert(views(acc@) =~= a.push(cur@));
            }
            cur = String::new();
        } else {
            cur.push(c);
        }
        i = i + 1;
    }
    assert(s@.skip(n as int) =~= Seq::<char>::empty());
    if cur.unicode_len() > 0 {
        let ghost a = views(acc@);
        acc.push(cur);
        assert(views(acc@) =~= a.push(cur@));
    }
    acc
}

/// Parses a public key line (`ssh-rsa AAAA... comment words`).
pub fn parse_ssh_pubkey(line: &str) -> (r: Option<SshKey>)
    ensures
        match r {
            Some(k) => pubkey_of_line(line@) == Some(k@),
            None => pubkey_of_line(line@) is None,
        },
{
    let parts = split_words(trim_str(line));
    let ghost ws = views(parts@);
    if parts.len() < 2 {
        return None;
    }
    let comment = if parts.len() > 2 {
        let mut c = parts[2].clone();
        let mut k: usize = 3;
        assert(ws.subrange(2, 3) =~= seq![ws[2]]);
        while k < parts.len()
            invariant
                ws == views(parts@),
                3 <= k <= parts.len(),
                c@ == join_spaced(ws.subrange(2, k as int)),
            decreases parts.len() - k,
        {
            c.push(' ');
            c.append(parts[k].as_str());
            assert(ws.subrange(2, k + 1).drop_last() =~= ws.subrange(2, k as int));
            k = k + 1;
        }
        assert(ws.subrange(2, parts.len() as int) =~= ws.skip(2));
        Some(c)
    } else {
        None
    };
    Some(SshKey { key_type: parts[0].clone(), value: parts[1].clone(), comment })
}

/// A line of a key file holds a key: after trimming it is neither empty
/// nor a `#` comment.
pub open spec fn is_key_line(t: Seq<char>) -> bool {
    t.len() > 0 && t[0] != '#'
}

/// What one line of a key file gives: nothing for a blank or comment line,
/// else the trimmed line and the key it parses to, if any.
pub open spec fn key_line_entry(line: Seq<char>) -> Seq<(Seq<char>, Option<SshKeyView>)> {
    let t = trim_ws(line);
    if is_key_line(t) {
        seq![(t, pubkey_of_line(t))]
    } else {
        Seq::empty()
    }
}

/// The key lines of a key file, line by line (lines end at `\n`), each
/// with the key it parses to.
pub open spec fn key_file_entries(s: Seq<char>) -> Seq<(Seq<char>, Option<SshKeyView>)>
    decreases s.len(),
{
    match first_index(s, '\n') {
        None => key_line_entry(s),
        Some(i) => if 0 <= i < s.len() {
            key_line_entry(s.take(i)) + key_file_entries(s.skip(i + 1))
        } else {
            Seq::empty()
        },
    }
}

/// The views of parsed key-file lines.
pub open spec fn key_entry_views(v: Seq<(String, Option<SshKey>)>) -> Seq<(Seq<char>, Option<SshKeyView>)> {
    v.map_values(
        |e: (String, Option<SshKey>)|
            (
                e.0@,
                match e.1 {
                    Some(k) => Some(k@),
                    None => None,
                },
            ),
    )
}

fn push_key_line(out: &mut Vec<(String, Option<SshKey>)>, line: &str)
    ensures
        key_entry_views(final(out)@) == key_entry_views(old(out)@) + key_line_entry(line@),
{
    let t = trim_str(line);
    let ghost before = key_entry_views(out@);
    if t.unicode_len() == 0 || t.get_char(0) == '#' {
        assert(key_entry_views(out@) =~= before + key_line_entry(line@));
        return;
    }
    let k = parse_ssh_pubkey(t);
    out.push((String::from_str(t), k));
    assert(key_entry_views(out@) =~= before + key_line_entry(line@));
}

/// The keys of a key file: each line that is not blank or a `#` comment,
/// trimmed, with the key it parses to (`None` for a line that is no key).
pub fn parse_ssh_key_lines(contents: &str) -> (r: Vec<(String, Option<SshKey>)>)
    ensures
        key_entry_views(r@) == key_file_entries(contents@),
{
    let mut out: Vec<(String, Option<SshKey>)> = Vec::new();
    let mut rest = contents;
    assert(key_entry_views(out@) =~= Seq::<(Seq<char>, Option<SshKeyView>)>::empty());
    loop
        invariant
            key_entry_views(out@) + key_file_entries(rest@) == key_file_entries(contents@),
        decreases rest@.len(),
    {
        let n = rest.unicode_len();
        match find_char(rest, '\n') {
            None => {
                let ghost before = key_entry_views(out@);
                push_key_line(&mut out, rest);
                assert(key_entry_views(out@) =~= key_file_entries(contents@));
                return out;
            },
            Some(i) => {
                let line = rest.substring_char(0, i);
                let next = rest.substring_char(i + 1, n);
                assert(line@ =~= rest@.take(i as int));
                assert(next@ =~= rest@.skip(i + 1));
                let ghost before = key_entry_views(out@);
                push_key_line(&mut out, line);
                assert(key_entry_views(out@) + key_file_entries(next@) =~= before + key_file_entries(rest@));
                rest = next;
            },
        }
    }
}

} // verus!
