//! Physical radios of a device, the order of its networks, and the radio
//! part of the system configuration.

use vstd::prelude::*;
use crate::ini::ToUnifiConfig;
use crate::ini::{idx2_key, idx_key, insert_by, int_string, int_text, kv, kv_line, kv_lines, lemma_insert_by_at,
    pair_views, push_kvs, push_line, sort_by, str_less, str_lt, unifi_text, UnifiBool};
use crate::models::{country_numeric, device_key, find_key, lookup, mac_key, NetworkConfig, ProvisionConfig};
use crate::localization::numeric_country;
use crate::state::{DeviceState, RadioTableEntry};
use crate::text::{dec, dec_string, push_dec};
use crate::types::Band;

verus! {

/// The values of a physical radio.
pub struct PhysRadioView {
    pub idx: u8,
    pub phyname: Seq<char>,
    pub mode: Seq<char>,
    pub band: Band,
    pub antenna_gain: u8,
    pub txpower_mode: Seq<char>,
    pub freq: u32,
}

/// A physical radio of a device: its index (from 1), interface name, IEEE
/// mode, band, antenna gain, transmit power mode and fixed frequency (0:
/// automatic channel).
#[derive(Debug)]
pub struct PhysRadio {
    pub idx: u8,
    pub phyname: String,
    pub mode: String,
    pub band: Band,
    pub antenna_gain: u8,
    pub txpower_mode: String,
    pub freq: u32,
}

impl View for PhysRadio {
    type V = PhysRadioView;

    open spec fn view(&self) -> PhysRadioView {
        PhysRadioView {
            idx: self.idx,
            phyname: self.phyname@,
            mode: self.mode@,
            band: self.band,
            antenna_gain: self.antenna_gain,
            txpower_mode: self.txpower_mode@,
            freq: self.freq,
        }
    }
}

impl Clone for PhysRadio {
    fn clone(&self) -> (r: PhysRadio)
        ensures
            r@ == self@,
    {
        PhysRadio {
            idx: self.idx,
            phyname: self.phyname.clone(),
            mode: self.mode.clone(),
            band: self.band,
            antenna_gain: self.antenna_gain,
            txpower_mode: self.txpower_mode.clone(),
            freq: self.freq,
        }
    }
}

/// The views of a list of radios.
pub open spec fn radio_views(v: Seq<PhysRadio>) -> Seq<PhysRadioView> {
    v.map_values(|r: PhysRadio| r@)
}

/// The radio of the `i`-th radio table entry (from 0): `ng` is 2.4 GHz,
/// `na` 5 GHz, `6e` 6 GHz at 6135 MHz; anything else is taken as 2.4 GHz
/// with automatic power. The gain is the reported one cut to 8 bits, or 0.
pub open spec fn entry_radio(i: int, e: RadioTableEntry) -> PhysRadioView {
    let r = e.radio@;
    let (band, mode, freq, tx) = if r == "ng"@ {
        (Band::Band2g, "11nght20"@, 0u32, "high"@)
    } else if r == "na"@ {
        (Band::Band5g, "11naht40"@, 0u32, "high"@)
    } else if r == "6e"@ {
        (Band::Band6g, "11naht40"@, 6135u32, "auto"@)
    } else {
        (Band::Band2g, "11nght20"@, 0u32, "auto"@)
    };
    PhysRadioView {
        idx: (i + 1) as u8,
        phyname: e.name@,
        mode,
        band,
        antenna_gain: match e.antenna_gain {
            Some(v) => v as u8,
            None => 0,
        },
        txpower_mode: tx,
        freq,
    }
}

/// The radios of a radio table, in order.
pub open spec fn radios_of(t: Seq<RadioTableEntry>) -> Seq<PhysRadioView> {
    Seq::new(t.len(), |i: int| entry_radio(i, t[i]))
}

/// The radios assumed where nothing is known: 2.4 GHz on `wifi0` and 5 GHz
/// on `wifi1`.
pub open spec fn fallback_radios() -> Seq<PhysRadioView> {
    seq![
        PhysRadioView {
            idx: 1,
            phyname: "wifi0"@,
            mode: "11nght20"@,
            band: Band::Band2g,
            antenna_gain: 4,
            txpower_mode: "high"@,
            freq: 0,
        },
        PhysRadioView {
            idx: 2,
            phyname: "wifi1"@,
            mode: "11naht40"@,
            band: Band::Band5g,
            antenna_gain: 6,
            txpower_mode: "high"@,
            freq: 0,
        },
    ]
}

/// The radio table that the device records give for a device.
pub open spec fn info_radio_table(c: ProvisionConfig, mac: Seq<char>) -> Seq<RadioTableEntry> {
    match lookup(c.devices_info@, mac_key(mac)) {
        Some(info) => info.radio_table@,
        None => Seq::empty(),
    }
}

/// The radios of a device: those of its record, else those it reported,
/// else the fallback pair.
pub open spec fn phys_radios(c: ProvisionConfig, d: DeviceState, mac: Seq<char>) -> Seq<PhysRadioView> {
    let t = info_radio_table(c, mac);
    if t.len() > 0 {
        radios_of(t)
    } else if d.radio_table@.len() > 0 {
        radios_of(d.radio_table@)
    } else {
        fallback_radios()
    }
}

/// The radio of the `i`-th radio table entry.
fn entry_to_phys_radio(i: usize, entry: &RadioTableEntry) -> (r: PhysRadio)
    requires
        i < usize::MAX,
    ensures
        r@ == entry_radio(i as int, *entry),
{
    let kind = entry.radio.as_str();
    let (band, mode, freq, tx) = if crate::ini::str_eq(kind, "ng") {
        (Band::Band2g, "11nght20", 0u32, "high")
    } else if crate::ini::str_eq(kind, "na") {
        (Band::Band5g, "11naht40", 0u32, "high")
    } else if crate::ini::str_eq(kind, "6e") {
        (Band::Band6g, "11naht40", 6135u32, "auto")
    } else {
        (Band::Band2g, "11nght20", 0u32, "auto")
    };
    let antenna_gain: u8 = match entry.antenna_gain {
        Some(v) => v as u8,
        None => 0,
    };
    PhysRadio {
        idx: (i + 1) as u8,
        phyname: entry.name.clone(),
        mode: String::from_str(mode),
        band,
        antenna_gain,
        txpower_mode: String::from_str(tx),
        freq,
    }
}

fn radios_from_table(t: &Vec<RadioTableEntry>) -> (r: Vec<PhysRadio>)
    ensures
        radio_views(r@) == radios_of(t@),
{
    let mut r: Vec<PhysRadio> = Vec::new();
    let mut i: usize = 0;
    while i < t.len()
        invariant
            i <= t.len(),
            radio_views(r@) == radios_of(t@).take(i as int),
        decreases t.len() - i,
    {
        let p = entry_to_phys_radio(i, &t[i]);
        let ghost before = radio_views(r@);
        r.push(p);
        assert(radio_views(r@) =~= before.push(p@));
        assert(radios_of(t@).take(i + 1) =~= radios_of(t@).take(i as int).push(entry_radio(i as int, t@[i as int])));
        i = i + 1;
    }
    assert(radios_of(t@).take(t.len() as int) =~= radios_of(t@));
    r
}

/// The radios of a device: from its record in the configuration, else
/// from what it reported, else a 2.4 GHz and a 5 GHz radio.
pub fn get_phys_radios(config: &ProvisionConfig, device_state: &DeviceState, mac: &str) -> (r: Vec<PhysRadio>)
    ensures
        radio_views(r@) == phys_radios(*config, *device_state, mac@),
{
    let key = device_key(mac);
    let mut radios: Vec<PhysRadio> = Vec::new();
    let ghost t = info_radio_table(*config, mac@);
    match find_key(&config.devices_info, key.as_str()) {
        Some(i) => {
            radios = radios_from_table(&config.devices_info[i].1.radio_table);
        },
        None => {},
    }
    assert(radio_views(radios@) == radios_of(t));
    if radios.len() == 0 && device_state.radio_table.len() > 0 {
        radios = radios_from_table(&device_state.radio_table);
    }
    if radios.len() == 0 {
        radios = Vec::new();
        radios.push(
            PhysRadio {
                idx: 1,
                phyname: String::from_str("wifi0"),
                mode: String::from_str("11nght20"),
                band: Band::Band2g,
                antenna_gain: 4,
                txpower_mode: String::from_str("high"),
                freq: 0,
            },
        );
        radios.push(
            PhysRadio {
                idx: 2,
                phyname: String::from_str("wifi1"),
                mode: String::from_str("11naht40"),
                band: Band::Band5g,
                antenna_gain: 6,
                txpower_mode: String::from_str("high"),
                freq: 0,
            },
        );
        assert(radio_views(radios@) =~= fallback_radios());
    }
    radios
}

/// VLAN order: untagged first, then by id.
pub open spec fn vlan_lt(a: Option<u16>, b: Option<u16>) -> bool {
    match (a, b) {
        (None, Some(_)) => true,
        (Some(x), Some(y)) => x < y,
        _ => false,
    }
}

/// Network order: by VLAN, then by SSID.
pub open spec fn net_lt(a: NetworkConfig, b: NetworkConfig) -> bool {
    vlan_lt(a.vlan, b.vlan) || (a.vlan == b.vlan && str_lt(a.ssid@, b.ssid@))
}

/// Network order on positions in a network list.
pub open spec fn net_order(nets: Seq<(String, NetworkConfig)>) -> spec_fn(usize, usize) -> bool {
    |i: usize, j: usize| net_lt(nets[i as int].1, nets[j as int].1)
}

/// The positions `0..n`.
pub open spec fn positions(n: nat) -> Seq<usize> {
    Seq::new(n, |i: int| i as usize)
}

/// The positions of the networks, stably sorted by VLAN and SSID.
pub open spec fn sorted_nets(nets: Seq<(String, NetworkConfig)>) -> Seq<usize> {
    sort_by(net_order(nets), positions(nets.len()))
}

/// The networks of `order` that broadcast on `band`, in that order.
pub open spec fn band_nets(nets: Seq<(String, NetworkConfig)>, order: Seq<usize>, band: Band) -> Seq<usize>
    decreases order.len(),
{
    if order.len() == 0 {
        Seq::empty()
    } else {
        let r = band_nets(nets, order.drop_last(), band);
        if nets[order.last() as int].1.bands@.contains(band) {
            r.push(order.last())
        } else {
            r
        }
    }
}

fn vlan_less(a: Option<u16>, b: Option<u16>) -> (r: bool)
    ensures
        r == vlan_lt(a, b),
{
    match (a, b) {
        (None, Some(_)) => true,
        (Some(x), Some(y)) => x < y,
        _ => false,
    }
}

/// Whether network `a` comes before network `b`.
pub fn net_less(a: &NetworkConfig, b: &NetworkConfig) -> (r: bool)
    ensures
        r == net_lt(*a, *b),
{
    vlan_less(a.vlan, b.vlan) || (a.vlan == b.vlan && str_less(a.ssid.as_str(), b.ssid.as_str()))
}

/// The positions of the networks, stably sorted by VLAN, then SSID.
pub fn sort_networks(nets: &Vec<(String, NetworkConfig)>) -> (r: Vec<usize>)
    requires
        nets@.len() < usize::MAX,
    ensures
        r@ == sorted_nets(nets@),
        r@.len() == nets@.len(),
        forall|k: int| 0 <= k < r@.len() ==> r@[k] < nets@.len(),
{
    let ghost ord = net_order(nets@);
    let mut v: Vec<usize> = Vec::new();
    let mut i: usize = 0;
    while i < nets.len()
        invariant
            ord == net_order(nets@),
            nets@.len() < usize::MAX,
            i <= nets.len(),
            v@ == sort_by(ord, positions(nets@.len()).take(i as int)),
            v@.len() == i,
            forall|k: int| 0 <= k < v@.len() ==> v@[k] < i,
        decreases nets.len() - i,
    {
        let ghost s = v@;
        let mut j: usize = 0;
        while j < v.len() && !net_less(&nets[i].1, &nets[v[j]].1)
            invariant
                ord == net_order(nets@),
                s == v@,
                i < nets@.len(),
                j <= v.len(),
                forall|k: int| 0 <= k < v@.len() ==> v@[k] < i,
                forall|k: int| 0 <= k < j ==> !ord(i, #[trigger] s[k]),
            decreases v.len() - j,
        {
            j = j + 1;
        }
        proof {
            lemma_insert_by_at(ord, i, s, j as int);
            let t = positions(nets@.len()).take(i + 1);
            assert(t.drop_last() =~= positions(nets@.len()).take(i as int));
            assert(t.last() == i);
        }
        v.insert(j, i);
        assert(v@ =~= s.take(j as int).push(i) + s.skip(j as int));
        assert forall|k: int| 0 <= k < v@.len() implies v@[k] < i + 1 by {
            if k < j {
                assert(v@[k] == s[k]);
            } else if k > j {
                assert(v@[k] == s[k - 1]);
            }
        }
        i = i + 1;
    }
    assert(positions(nets@.len()).take(nets@.len() as int) =~= positions(nets@.len()));
    v
}

/// Whether the band list holds `b`.
pub fn has_band(bands: &Vec<Band>, b: Band) -> (r: bool)
    ensures
        r == bands@.contains(b),
{
    let mut i: usize = 0;
    while i < bands.len()
        invariant
            i <= bands.len(),
            forall|k: int| 0 <= k < i ==> bands@[k] != b,
        decreases bands.len() - i,
    {
        if bands[i] == b {
            return true;
        }
        i = i + 1;
    }
    false
}

/// The networks of `order` that broadcast on `band`.
pub fn select_band(nets: &Vec<(String, NetworkConfig)>, order: &Vec<usize>, band: Band) -> (r: Vec<usize>)
    requires
        forall|k: int| 0 <= k < order@.len() ==> order@[k] < nets@.len(),
    ensures
        r@ == band_nets(nets@, order@, band),
        r@.len() <= order@.len(),
        forall|k: int| 0 <= k < r@.len() ==> r@[k] < nets@.len(),
{
    let mut r: Vec<usize> = Vec::new();
    let mut i: usize = 0;
    while i < order.len()
        invariant
            i <= order.len(),
            forall|k: int| 0 <= k < order@.len() ==> order@[k] < nets@.len(),
            r@ == band_nets(nets@, order@.take(i as int), band),
            r@.len() <= i,
            forall|k: int| 0 <= k < r@.len() ==> r@[k] < nets@.len(),
        decreases order.len() - i,
    {
        proof {
            let t = order@.take(i + 1);
            assert(t.drop_last() =~= order@.take(i as int));
        }
        let p = order[i];
        if has_band(&nets[p].1.bands, band) {
            r.push(p);
        }
        i = i + 1;
    }
    assert(order@.take(order.len() as int) =~= order@);
    r
}

/// The interface name `ath<n>`.
pub open spec fn ath_name(n: nat) -> Seq<char> {
    "ath"@ + dec(n)
}

/// The interface index of the `k`-th network on radio `idx`: three per
/// radio.
pub open spec fn vap_dev_idx(idx: u8, k: int) -> int {
    (idx - 1) * 3 + k
}

/// One virtual access point of a radio.
#[derive(Debug)]
pub struct RadioVapConfig {
    /// Position on its radio, from 0.
    pub idx: u8,
    pub devname: String,
    pub status: UnifiBool,
    pub mode: String,
}

/// The settings of one radio.
#[derive(Debug)]
pub struct RadioConfig {
    pub idx: u8,
    pub phyname: String,
    pub status: UnifiBool,
    pub countrycode: u16,
    pub antenna_gain: u8,
    pub antenna_id: i32,
    pub txpower_mode: String,
    /// `auto` or a number.
    pub txpower: String,
    /// A fixed frequency, else the channel is used.
    pub freq: Option<u32>,
    /// `auto` or a number.
    pub channel: String,
    pub ieee_mode: String,
    pub mode: String,
    pub ack_auto: UnifiBool,
    pub acktimeout: u32,
    pub ampdu_status: UnifiBool,
    pub clksel: u8,
    pub cwm_enable: u8,
    pub cwm_mode: u8,
    pub forbiasauto: u8,
    pub rate_auto: UnifiBool,
    pub rate_mcs: String,
    pub rfscan: UnifiBool,
    pub bcmc_l2_filter_status: UnifiBool,
    pub bgscan_status: UnifiBool,
    pub hard_noisefloor_status: UnifiBool,
    /// Its virtual access points; the first is the radio's own interface.
    pub vaps: Vec<RadioVapConfig>,
}

/// The values of a virtual access point.
pub open spec fn vap_view(v: RadioVapConfig) -> (u8, Seq<char>, UnifiBool, Seq<char>) {
    (v.idx, v.devname@, v.status, v.mode@)
}

/// The radio key `radio.<idx><field>`.
pub open spec fn rkey(idx: u8, field: Seq<char>) -> Seq<char> {
    "radio."@ + dec(idx as nat) + field
}

/// The key-value pairs of the virtual access points after the first.
pub open spec fn virtual_kvs(idx: u8, vaps: Seq<(u8, Seq<char>, UnifiBool, Seq<char>)>) -> Seq<(Seq<char>, Seq<char>)>
    decreases vaps.len(),
{
    if vaps.len() == 0 {
        Seq::empty()
    } else {
        let v = vaps.last();
        let p = "radio."@ + dec(idx as nat) + ".virtual."@ + dec(v.0 as nat);
        virtual_kvs(idx, vaps.drop_last()) + seq![
            (p + ".status"@, unifi_text(v.2)),
            (p + ".devname"@, v.1),
            (p + ".mode"@, v.3),
        ]
    }
}

/// The values of a radio's settings.
pub struct RadioConfigView {
    pub idx: u8,
    pub phyname: Seq<char>,
    pub status: UnifiBool,
    pub countrycode: u16,
    pub antenna_gain: u8,
    pub antenna_id: i32,
    pub txpower_mode: Seq<char>,
    pub txpower: Seq<char>,
    pub freq: Option<u32>,
    pub channel: Seq<char>,
    pub ieee_mode: Seq<char>,
    pub mode: Seq<char>,
    pub ack_auto: UnifiBool,
    pub acktimeout: u32,
    pub ampdu_status: UnifiBool,
    pub clksel: u8,
    pub cwm_enable: u8,
    pub cwm_mode: u8,
    pub forbiasauto: u8,
    pub rate_auto: UnifiBool,
    pub rate_mcs: Seq<char>,
    pub rfscan: UnifiBool,
    pub bcmc_l2_filter_status: UnifiBool,
    pub bgscan_status: UnifiBool,
    pub hard_noisefloor_status: UnifiBool,
    pub vaps: Seq<(u8, Seq<char>, UnifiBool, Seq<char>)>,
}

impl View for RadioConfig {
    type V = RadioConfigView;

    open spec fn view(&self) -> RadioConfigView {
        RadioConfigView {
            idx: self.idx,
            phyname: self.phyname@,
            status: self.status,
            countrycode: self.countrycode,
            antenna_gain: self.antenna_gain,
            antenna_id: self.antenna_id,
            txpower_mode: self.txpower_mode@,
            txpower: self.txpower@,
            freq: self.freq,
            channel: self.channel@,
            ieee_mode: self.ieee_mode@,
            mode: self.mode@,
            ack_auto: self.ack_auto,
            acktimeout: self.acktimeout,
            ampdu_status: self.ampdu_status,
            clksel: self.clksel,
            cwm_enable: self.cwm_enable,
            cwm_mode: self.cwm_mode,
            forbiasauto: self.forbiasauto,
            rate_auto: self.rate_auto,
            rate_mcs: self.rate_mcs@,
            rfscan: self.rfscan,
            bcmc_l2_filter_status: self.bcmc_l2_filter_status,
            bgscan_status: self.bgscan_status,
            hard_noisefloor_status: self.hard_noisefloor_status,
            vaps: self.vaps@.map_values(|v: RadioVapConfig| vap_view(v)),
        }
    }
}

/// The key-value pairs of a radio's settings: the fixed keys, the
/// frequency or else the channel, then the interfaces: the first as the
/// radio's own, the others as virtual ones.
pub open spec fn radio_kvs(r: RadioConfigView) -> Seq<(Seq<char>, Seq<char>)> {
    let i = r.idx;
    let vaps = r.vaps;
    seq![
        (rkey(i, ".status"@), unifi_text(r.status)),
        (rkey(i, ".phyname"@), r.phyname),
        (rkey(i, ".countrycode"@), dec(r.countrycode as nat)),
        (rkey(i, ".antenna.gain"@), dec(r.antenna_gain as nat)),
        (rkey(i, ".antenna"@), int_text(r.antenna_id as int)),
        (rkey(i, ".txpower_mode"@), r.txpower_mode),
        (rkey(i, ".txpower"@), r.txpower),
        (rkey(i, ".ieee_mode"@), r.ieee_mode),
        (rkey(i, ".mode"@), r.mode),
        (rkey(i, ".ack.auto"@), unifi_text(r.ack_auto)),
        (rkey(i, ".acktimeout"@), dec(r.acktimeout as nat)),
        (rkey(i, ".ampdu.status"@), unifi_text(r.ampdu_status)),
        (rkey(i, ".clksel"@), dec(r.clksel as nat)),
        (rkey(i, ".cwm.enable"@), dec(r.cwm_enable as nat)),
        (rkey(i, ".cwm.mode"@), dec(r.cwm_mode as nat)),
        (rkey(i, ".forbiasauto"@), dec(r.forbiasauto as nat)),
        (rkey(i, ".rate.auto"@), unifi_text(r.rate_auto)),
        (rkey(i, ".rate.mcs"@), r.rate_mcs),
        (rkey(i, ".rfscan"@), unifi_text(r.rfscan)),
        (rkey(i, ".bcmc_l2_filter.status"@), unifi_text(r.bcmc_l2_filter_status)),
        (rkey(i, ".bgscan.status"@), unifi_text(r.bgscan_status)),
        (rkey(i, ".hard_noisefloor.status"@), unifi_text(r.hard_noisefloor_status)),
    ] + (match r.freq {
        Some(f) => seq![(rkey(i, ".freq"@), dec(f as nat))],
        None => seq![(rkey(i, ".channel"@), r.channel)],
    }) + (if vaps.len() > 0 {
        seq![(rkey(i, ".devname"@), vaps[0].1)] + virtual_kvs(i, vaps.skip(1))
    } else {
        Seq::empty()
    })
}

proof fn lemma_virtual_push(idx: u8, a: Seq<(u8, Seq<char>, UnifiBool, Seq<char>)>, x: (u8, Seq<char>, UnifiBool, Seq<char>))
    ensures
        virtual_kvs(idx, a.push(x)) == virtual_kvs(idx, a) + virtual_kvs(idx, seq![x]),
{
    assert(a.push(x).drop_last() =~= a);
    assert(seq![x].drop_last() =~= Seq::<(u8, Seq<char>, UnifiBool, Seq<char>)>::empty());
    assert(virtual_kvs(idx, Seq::<(u8, Seq<char>, UnifiBool, Seq<char>)>::empty()) =~= Seq::empty());
    assert(virtual_kvs(idx, a.push(x)) =~= virtual_kvs(idx, a) + virtual_kvs(idx, seq![x]));
}

fn push_virtual(kvs: &mut Vec<(String, String)>, idx: u8, v: &RadioVapConfig)
    ensures
        pair_views(final(kvs)@) == pair_views(old(kvs)@) + virtual_kvs(idx, seq![vap_view(*v)]),
{
    let ghost before = pair_views(kvs@);
    kvs.push(kv(idx2_key("radio.", idx as u64, ".virtual.", v.idx as u64, ".status"), v.status.to_string().as_str()));
    kvs.push(kv(idx2_key("radio.", idx as u64, ".virtual.", v.idx as u64, ".devname"), v.devname.as_str()));
    kvs.push(kv(idx2_key("radio.", idx as u64, ".virtual.", v.idx as u64, ".mode"), v.mode.as_str()));
    proof {
        let s1 = seq![vap_view(*v)];
        assert(s1.drop_last() =~= Seq::<(u8, Seq<char>, UnifiBool, Seq<char>)>::empty());
        let p = "radio."@ + dec(idx as nat) + ".virtual."@ + dec(v.idx as nat);
        assert(virtual_kvs(idx, Seq::<(u8, Seq<char>, UnifiBool, Seq<char>)>::empty()) =~= Seq::empty());
        assert(virtual_kvs(idx, s1) =~= seq![
            (p + ".status"@, unifi_text(v.status)),
            (p + ".devname"@, v.devname@),
            (p + ".mode"@, v.mode@),
        ]);
        assert(pair_views(kvs@) =~~= before + virtual_kvs(idx, s1));
    }
}

impl ToUnifiConfig for RadioConfig {
    /// The key-value pairs of this radio's settings.
    fn to_config(&self) -> (r: Vec<(String, String)>)
        ensures
            pair_views(r@) == radio_kvs(self@),
    {
        let i = self.idx as u64;
        let mut kvs: Vec<(String, String)> = Vec::new();
        kvs.push(kv(idx_key("radio.", i, ".status"), self.status.to_string().as_str()));
        kvs.push(kv(idx_key("radio.", i, ".phyname"), self.phyname.as_str()));
        kvs.push(kv(idx_key("radio.", i, ".countrycode"), dec_string(self.countrycode as u64).as_str()));
        kvs.push(kv(idx_key("radio.", i, ".antenna.gain"), dec_string(self.antenna_gain as u64).as_str()));
        kvs.push(kv(idx_key("radio.", i, ".antenna"), int_string(self.antenna_id as i64).as_str()));
        kvs.push(kv(idx_key("radio.", i, ".txpower_mode"), self.txpower_mode.as_str()));
        kvs.push(kv(idx_key("radio.", i, ".txpower"), self.txpower.as_str()));
        kvs.push(kv(idx_key("radio.", i, ".ieee_mode"), self.ieee_mode.as_str()));
        kvs.push(kv(idx_key("radio.", i, ".mode"), self.mode.as_str()));
        kvs.push(kv(idx_key("radio.", i, ".ack.auto"), self.ack_auto.to_string().as_str()));
        kvs.push(kv(idx_key("radio.", i, ".acktimeout"), dec_string(self.acktimeout as u64).as_str()));
        kvs.push(kv(idx_key("radio.", i, ".ampdu.status"), self.ampdu_status.to_string().as_str()));
        kvs.push(kv(idx_key("radio.", i, ".clksel"), dec_string(self.clksel as u64).as_str()));
        kvs.push(kv(idx_key("radio.", i, ".cwm.enable"), dec_string(self.cwm_enable as u64).as_str()));
        kvs.push(kv(idx_key("radio.", i, ".cwm.mode"), dec_string(self.cwm_mode as u64).as_str()));
        kvs.push(kv(idx_key("radio.", i, ".forbiasauto"), dec_string(self.forbiasauto as u64).as_str()));
        kvs.push(kv(idx_key("radio.", i, ".rate.auto"), self.rate_auto.to_string().as_str()));
        kvs.push(kv(idx_key("radio.", i, ".rate.mcs"), self.rate_mcs.as_str()));
        kvs.push(kv(idx_key("radio.", i, ".rfscan"), self.rfscan.to_string().as_str()));
        kvs.push(
            kv(idx_key("radio.", i, ".bcmc_l2_filter.status"), self.bcmc_l2_filter_status.to_string().as_str()),
        );
        kvs.push(kv(idx_key("radio.", i, ".bgscan.status"), self.bgscan_status.to_string().as_str()));
        kvs.push(
            kv(idx_key("radio.", i, ".hard_noisefloor.status"), self.hard_noisefloor_status.to_string().as_str()),
        );
        let ghost head = pair_views(kvs@);
        match self.freq {
            Some(f) => {
                kvs.push(kv(idx_key("radio.", i, ".freq"), dec_string(f as u64).as_str()));
            },
            None => {
                kvs.push(kv(idx_key("radio.", i, ".channel"), self.channel.as_str()));
            },
        }
        let ghost mid = pair_views(kvs@);
        let ghost vaps = self.vaps@.map_values(|v: RadioVapConfig| vap_view(v));
        if self.vaps.len() > 0 {
            kvs.push(kv(idx_key("radio.", i, ".devname"), self.vaps[0].devname.as_str()));
            let ghost mid2 = pair_views(kvs@);
            let mut k: usize = 1;
            assert(vaps.subrange(1, 1) =~= Seq::<(u8, Seq<char>, UnifiBool, Seq<char>)>::empty());
            while k < self.vaps.len()
                invariant
                    vaps == self.vaps@.map_values(|v: RadioVapConfig| vap_view(v)),
                    1 <= k <= self.vaps.len(),
                    pair_views(kvs@) == mid2 + virtual_kvs(self.idx, vaps.subrange(1, k as int)),
                decreases self.vaps.len() - k,
            {
                push_virtual(&mut kvs, self.idx, &self.vaps[k]);
                proof {
                    let a = vaps.subrange(1, k as int);
                    let b = vaps.subrange(1, k + 1);
                    assert(b.drop_last() =~= a);
                    assert(b.last() == vap_view(self.vaps@[k as int]));
                    assert(b =~= a.push(vap_view(self.vaps@[k as int])));
                    lemma_virtual_push(self.idx, a, vap_view(self.vaps@[k as int]));
                    assert(pair_views(kvs@) =~= mid2 + virtual_kvs(self.idx, b));
                }
                k = k + 1;
            }
            assert(vaps.subrange(1, self.vaps.len() as int) =~= vaps.skip(1));
        }
        assert(pair_views(kvs@) =~~= radio_kvs(self@));
        kvs
    }
}

/// The header of the radio and Wi-Fi lines.
pub open spec fn radio_header() -> Seq<char> {
    " wlans (radio)"@
}

/// The interfaces of a radio that carries `n` networks.
pub open spec fn vaps_for(r: PhysRadioView, n: nat) -> Seq<(u8, Seq<char>, UnifiBool, Seq<char>)> {
    Seq::new(n, |k: int| (k as u8, ath_name(vap_dev_idx(r.idx, k) as nat), UnifiBool::Enabled, "master"@))
}

/// The settings of a radio that carries `n` networks, in country `cc`.
pub open spec fn radio_config_for(r: PhysRadioView, cc: u16, n: nat) -> RadioConfigView {
    RadioConfigView {
        idx: r.idx,
        phyname: r.phyname,
        status: UnifiBool::Enabled,
        countrycode: cc,
        antenna_gain: r.antenna_gain,
        antenna_id: -1i32,
        txpower_mode: r.txpower_mode,
        txpower: "auto"@,
        freq: if r.freq > 0 {
            Some(r.freq)
        } else {
            None
        },
        channel: "auto"@,
        ieee_mode: r.mode,
        mode: "master"@,
        ack_auto: UnifiBool::Disabled,
        acktimeout: 64,
        ampdu_status: UnifiBool::Enabled,
        clksel: 1,
        cwm_enable: 0,
        cwm_mode: 0,
        forbiasauto: 0,
        rate_auto: UnifiBool::Enabled,
        rate_mcs: "auto"@,
        rfscan: UnifiBool::Disabled,
        bcmc_l2_filter_status: UnifiBool::Enabled,
        bgscan_status: UnifiBool::Disabled,
        hard_noisefloor_status: UnifiBool::Disabled,
        vaps: vaps_for(r, n),
    }
}

/// The lines of the radios in order, each with the networks of its band.
pub open spec fn radio_blocks(
    rs: Seq<PhysRadioView>,
    cc: u16,
    nets: Seq<(String, NetworkConfig)>,
    order: Seq<usize>,
) -> Seq<(Seq<char>, Seq<char>)>
    decreases rs.len(),
{
    if rs.len() == 0 {
        Seq::empty()
    } else {
        radio_blocks(rs.drop_last(), cc, nets, order) + kv_lines(
            radio_header(),
            radio_kvs(radio_config_for(rs.last(), cc, band_nets(nets, order, rs.last().band).len())),
        )
    }
}

/// The radio lines of a device.
pub open spec fn radio_section(c: ProvisionConfig, d: DeviceState, mac: Seq<char>) -> Seq<(Seq<char>, Seq<char>)> {
    let h = radio_header();
    let cc = country_numeric(c);
    seq![(h, "radio.status=enabled"@), (h, "radio.countrycode="@ + dec(cc as nat)), (h, "radio.outdoor=disabled"@)]
        + radio_blocks(phys_radios(c, d, mac), cc, c.networks@, sorted_nets(c.networks@))
}

/// The radios of a device are numbered from 1 (a radio table of more than
/// 255 entries wraps to 0).
pub open spec fn radios_numbered(c: ProvisionConfig, d: DeviceState, mac: Seq<char>) -> bool {
    forall|k: int| 0 <= k < phys_radios(c, d, mac).len() ==> #[trigger] phys_radios(c, d, mac)[k].idx >= 1
}

/// The radio part of the system configuration.
pub struct RadioSection;

impl RadioSection {
    /// The radio lines: global settings, then each radio with an interface
    /// per network of its band.
    pub fn generate(&self, config: &ProvisionConfig, device_state: &DeviceState, mac: &str) -> (r: Vec<(String, String)>)
        requires
            radios_numbered(*config, *device_state, mac@),
            config.networks@.len() < 0xffff_ffff,
        ensures
            pair_views(r@) == radio_section(*config, *device_state, mac@),
    {
        let h = " wlans (radio)";
        assert(h@ == radio_header());
        let cc = config.get_effective_country_code_numeric();
        let mut out: Vec<(String, String)> = Vec::new();
        push_line(&mut out, h, "radio.status=enabled");
        let mut l = String::from_str("radio.countrycode=");
        push_dec(&mut l, cc as u128);
        push_line(&mut out, h, l.as_str());
        push_line(&mut out, h, "radio.outdoor=disabled");
        let ghost head = pair_views(out@);
        let radios = get_phys_radios(config, device_state, mac);
        let nets = config.get_networks_for_device(mac);
        let order = sort_networks(nets);
        let ghost rv = radio_views(radios@);
        let mut ri: usize = 0;
        while ri < radios.len()
            invariant
                h@ == radio_header(),
                rv == radio_views(radios@),
                rv == phys_radios(*config, *device_state, mac@),
                radios_numbered(*config, *device_state, mac@),
                nets@ == config.networks@,
                nets@.len() < 0xffff_ffff,
                order@ == sorted_nets(nets@),
                order@.len() == nets@.len(),
                forall|k: int| 0 <= k < order@.len() ==> order@[k] < nets@.len(),
                ri <= radios.len(),
                pair_views(out@) == head + radio_blocks(rv.take(ri as int), cc, nets@, order@),
            decreases radios.len() - ri,
        {
            let radio = &radios[ri];
            assert(rv[ri as int] == radio@);
            assert(radio.idx >= 1);
            let rn = select_band(nets, &order, radio.band);
            let mut vaps: Vec<RadioVapConfig> = Vec::new();
            let mut k: usize = 0;
            while k < rn.len()
                invariant
                    radio.idx >= 1,
                    k <= rn.len(),
                    rn@.len() <= order@.len(),
                    order@.len() == nets@.len(),
                    nets@.len() < 0xffff_ffff,
                    vaps@.map_values(|v: RadioVapConfig| vap_view(v)) == vaps_for(radio@, k as nat),
                    vaps@.len() == k,
                decreases rn.len() - k,
            {
                let dev_idx: u64 = (radio.idx as u64 - 1) * 3 + k as u64;
                let mut devname = String::from_str("ath");
                push_dec(&mut devname, dev_idx as u128);
                let ghost before = vaps@.map_values(|v: RadioVapConfig| vap_view(v));
                vaps.push(
                    RadioVapConfig {
                        idx: k as u8,
                        devname,
                        status: UnifiBool::Enabled,
                        mode: String::from_str("master"),
                    },
                );
                proof {
                    let nv = vap_view(vaps@[k as int]);
                    assert(dev_idx == vap_dev_idx(radio.idx, k as int));
                    assert(nv.1 =~= ath_name(vap_dev_idx(radio.idx, k as int) as nat));
                    assert(nv.3 == "master"@);
                    assert(nv == vaps_for(radio@, (k + 1) as nat)[k as int]);
                    assert(vaps@.map_values(|v: RadioVapConfig| vap_view(v)) =~= before.push(nv));
                    assert(before.push(nv) =~= vaps_for(radio@, (k + 1) as nat));
                }
                k = k + 1;
            }
            let cfg = RadioConfig {
                idx: radio.idx,
                phyname: radio.phyname.clone(),
                status: UnifiBool::Enabled,
                countrycode: cc,
                antenna_gain: radio.antenna_gain,
                antenna_id: -1,
                txpower_mode: radio.txpower_mode.clone(),
                txpower: String::from_str("auto"),
                freq: if radio.freq > 0 {
                    Some(radio.freq)
                } else {
                    None
                },
                channel: String::from_str("auto"),
                ieee_mode: radio.mode.clone(),
                mode: String::from_str("master"),
                ack_auto: UnifiBool::Disabled,
                acktimeout: 64,
                ampdu_status: UnifiBool::Enabled,
                clksel: 1,
                cwm_enable: 0,
                cwm_mode: 0,
                forbiasauto: 0,
                rate_auto: UnifiBool::Enabled,
                rate_mcs: String::from_str("auto"),
                rfscan: UnifiBool::Disabled,
                bcmc_l2_filter_status: UnifiBool::Enabled,
                bgscan_status: UnifiBool::Disabled,
                hard_noisefloor_status: UnifiBool::Disabled,
                vaps,
            };
            assert(cfg@ == radio_config_for(radio@, cc, rn@.len()));
            let ghost prev = pair_views(out@);
            let kvs = cfg.to_config();
            push_kvs(&mut out, h, kvs);
            proof {
                let t = rv.take(ri + 1);
                assert(t.drop_last() =~= rv.take(ri as int));
                assert(t.last() == radio@);
                assert(h@ == radio_header());
                assert(radio_blocks(t, cc, nets@, order@) == radio_blocks(rv.take(ri as int), cc, nets@, order@)
                    + kv_lines(radio_header(), radio_kvs(radio_config_for(radio@, cc, rn@.len()))));
                assert(pair_views(out@) =~= head + radio_blocks(t, cc, nets@, order@));
            }
            ri = ri + 1;
        }
        assert(rv.take(radios.len() as int) =~= rv);
        out
    }
}

} // verus!
