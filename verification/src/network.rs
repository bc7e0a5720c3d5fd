//! The wired part of the system configuration: VLANs, bridges, interfaces
//! and Ethernet filter rules for the Wi-Fi interfaces of a device.

use vstd::prelude::*;
use crate::ini::ToUnifiConfig;
use crate::ini::{idx2_key, idx_key, insert_by, kv, kv_lines, lemma_insert_by_at, pair_views, push_kv, push_kvs,
    push_line, sort_by, str_eq, unifi_of, unifi_text, UnifiBool};
use crate::models::{NetworkConfig, ProvisionConfig};
use crate::radios::{ath_name, band_nets, get_phys_radios, phys_radios, radio_views, radios_numbered, select_band,
    sort_networks, sorted_nets, vap_dev_idx, PhysRadio, PhysRadioView};
use crate::state::DeviceState;
use crate::text::{cat3, dec, dec_string, push_dec, views};

verus! {

/// `t` occurs in `s`.
pub open spec fn has_sub(s: Seq<char>, t: Seq<char>) -> bool {
    exists|i: int| 0 <= i && i + t.len() <= s.len() && #[trigger] s.subrange(i, i + t.len()) == t
}

/// Whether `t` occurs in `s`.
pub fn contains_str(s: &str, t: &str) -> (r: bool)
    ensures
        r == has_sub(s@, t@),
{
    let n = s.unicode_len();
    let m = t.unicode_len();
    if m == 0 {
        assert(s@.subrange(0int, 0int + t@.len()) =~= t@);
        return true;
    }
    if m > n {
        return false;
    }
    let mut i: usize = 0;
    while i <= n - m
        invariant
            n == s@.len(),
            m == t@.len(),
            1 <= m <= n,
            i <= n - m + 1,
            forall|j: int| 0 <= j < i ==> #[trigger] s@.subrange(j, j + m) != t@,
        decreases n - m + 1 - i,
    {
        let piece = s.substring_char(i, i + m);
        if str_eq(piece, t) {
            assert(s@.subrange(i as int, i + t@.len()) == t@);
            return true;
        }
        i = i + 1;
    }
    assert forall|j: int| 0 <= j && j + t@.len() <= s@.len() implies #[trigger] s@.subrange(j, j + t@.len()) != t@ by {
        assert(j < i);
    }
    false
}

/// Whether `s` starts with `t`.
pub fn starts_with_str(s: &str, t: &str) -> (r: bool)
    ensures
        r == (t@.len() <= s@.len() && s@.subrange(0, t@.len() as int) == t@),
{
    let n = s.unicode_len();
    let m = t.unicode_len();
    if m > n {
        return false;
    }
    str_eq(s.substring_char(0, m), t)
}

/// The Wi-Fi interfaces of radio `r`, one per network of `sel`: each
/// `ath<n>` with its network's VLAN.
pub open spec fn vap_entries(r: PhysRadioView, nets: Seq<(String, NetworkConfig)>, sel: Seq<usize>) -> Seq<
    (Seq<char>, Option<u16>),
> {
    Seq::new(sel.len(), |k: int| (ath_name(vap_dev_idx(r.idx, k) as nat), nets[sel[k] as int].1.vlan))
}

/// The Wi-Fi interfaces of the radios in order.
pub open spec fn all_vaps(rs: Seq<PhysRadioView>, nets: Seq<(String, NetworkConfig)>, order: Seq<usize>) -> Seq<
    (Seq<char>, Option<u16>),
>
    decreases rs.len(),
{
    if rs.len() == 0 {
        Seq::empty()
    } else {
        all_vaps(rs.drop_last(), nets, order) + vap_entries(rs.last(), nets, band_nets(nets, order, rs.last().band))
    }
}

/// The interfaces of the untagged networks.
pub open spec fn untagged(vaps: Seq<(Seq<char>, Option<u16>)>) -> Seq<Seq<char>>
    decreases vaps.len(),
{
    if vaps.len() == 0 {
        Seq::empty()
    } else if vaps.last().1 is None {
        untagged(vaps.drop_last()).push(vaps.last().0)
    } else {
        untagged(vaps.drop_last())
    }
}

/// `(vlan, interface)` of the tagged networks.
pub open spec fn tagged(vaps: Seq<(Seq<char>, Option<u16>)>) -> Seq<(u16, Seq<char>)>
    decreases vaps.len(),
{
    if vaps.len() == 0 {
        Seq::empty()
    } else {
        match vaps.last().1 {
            Some(v) => tagged(vaps.drop_last()).push((v, vaps.last().0)),
            None => tagged(vaps.drop_last()),
        }
    }
}

/// The VLAN ids in order of first use, each once.
pub open spec fn seen_vids(vaps: Seq<(Seq<char>, Option<u16>)>) -> Seq<u16>
    decreases vaps.len(),
{
    if vaps.len() == 0 {
        Seq::empty()
    } else {
        let d = seen_vids(vaps.drop_last());
        match vaps.last().1 {
            Some(v) => if d.contains(v) {
                d
            } else {
                d.push(v)
            },
            None => d,
        }
    }
}

/// The order of VLAN ids.
pub open spec fn vid_order() -> spec_fn(u16, u16) -> bool {
    |a: u16, b: u16| a < b
}

/// The VLAN ids in use, ascending.
pub open spec fn vid_list(vaps: Seq<(Seq<char>, Option<u16>)>) -> Seq<u16> {
    sort_by(vid_order(), seen_vids(vaps))
}

/// Filter rules that keep a Wi-Fi interface from forwarding to and from
/// the gateway, and for a tagged one, from bridging tagged frames.
pub open spec fn vap_rule_texts(dev: Seq<char>, vlan: Option<u16>) -> Seq<Seq<char>> {
    seq![
        "-t nat -A PREROUTING --in-interface "@ + dev + " -d BGA -j DROP"@,
        "-t nat -A POSTROUTING --out-interface "@ + dev + " -d BGA -j DROP"@,
    ] + (if vlan is Some {
        seq!["-t broute -A BROUTING -i "@ + dev + " -p 802_1Q -j DROP"@]
    } else {
        Seq::empty()
    })
}

/// The filter rules of the Wi-Fi interfaces.
pub open spec fn vap_rules(vaps: Seq<(Seq<char>, Option<u16>)>) -> Seq<Seq<char>>
    decreases vaps.len(),
{
    if vaps.len() == 0 {
        Seq::empty()
    } else {
        vap_rules(vaps.drop_last()) + vap_rule_texts(vaps.last().0, vaps.last().1)
    }
}

/// The rule that keeps tagged frames of a VLAN from being bridged.
pub open spec fn vid_rule(vid: u16) -> Seq<char> {
    "-t broute -A BROUTING --vlan-id "@ + dec(vid as nat) + " -p 802_1Q -j DROP"@
}

/// An interface record: name, address, status and link state texts.
pub type NetRaw = (Seq<char>, Seq<char>, Seq<char>, Seq<char>);

/// The interface records: the bridge, the Ethernet port, the Wi-Fi
/// interfaces (down), the VLAN sub-interfaces and the VLAN bridges.
pub open spec fn netconf_raw(vaps: Seq<(Seq<char>, Option<u16>)>, vids: Seq<u16>) -> Seq<NetRaw> {
    seq![("br0"@, "0.0.0.0"@, "enabled"@, "enabled"@), ("eth0"@, "0.0.0.0"@, "enabled"@, "enabled"@)]
        + vaps.map_values(|v: (Seq<char>, Option<u16>)| (v.0, "0.0.0.0"@, "enabled"@, "disabled"@))
        + vids.map_values(|vid: u16| ("eth0."@ + dec(vid as nat), "0.0.0.0"@, "enabled"@, "enabled"@))
        + vids.map_values(|vid: u16| ("br0."@ + dec(vid as nat), "0.0.0.0"@, "enabled"@, "enabled"@))
}

/// `(vlan, interface)` definitions: the tagged Wi-Fi interfaces, then the
/// Ethernet port for each VLAN.
pub open spec fn vlan_defs(vaps: Seq<(Seq<char>, Option<u16>)>, vids: Seq<u16>) -> Seq<(u16, Seq<char>)> {
    tagged(vaps) + vids.map_values(|vid: u16| (vid, "eth0"@))
}

/// The interfaces other than the Ethernet port defined for `vid`.
pub open spec fn bridge_members(defs: Seq<(u16, Seq<char>)>, vid: u16) -> Seq<Seq<char>>
    decreases defs.len(),
{
    if defs.len() == 0 {
        Seq::empty()
    } else if defs.last().0 == vid && defs.last().1 != "eth0"@ {
        bridge_members(defs.drop_last(), vid).push(defs.last().1)
    } else {
        bridge_members(defs.drop_last(), vid)
    }
}

/// Ports numbered from 1.
pub open spec fn numbered(ports: Seq<Seq<char>>) -> Seq<(u8, Seq<char>)> {
    Seq::new(ports.len(), |i: int| ((i + 1) as u8, ports[i]))
}

/// The key-value pairs of a bridge.
pub open spec fn bridge_kvs(idx: u8, devname: Seq<char>, fd: u8, stp: UnifiBool, ports: Seq<(u8, Seq<char>)>) -> Seq<
    (Seq<char>, Seq<char>),
> {
    seq![
        ("bridge."@ + dec(idx as nat) + ".devname"@, devname),
        ("bridge."@ + dec(idx as nat) + ".fd"@, dec(fd as nat)),
        ("bridge."@ + dec(idx as nat) + ".stp.status"@, unifi_text(stp)),
    ] + port_kvs(idx, ports)
}

/// The key-value pairs of the ports of bridge `idx`.
pub open spec fn port_kvs(idx: u8, ports: Seq<(u8, Seq<char>)>) -> Seq<(Seq<char>, Seq<char>)> {
    ports.map_values(
        |p: (u8, Seq<char>)| ("bridge."@ + dec(idx as nat) + ".port."@ + dec(p.0 as nat) + ".devname"@, p.1),
    )
}

/// The key-value pairs of a VLAN.
pub open spec fn vlan_kvs(idx: u8, devname: Seq<char>, id: u16) -> Seq<(Seq<char>, Seq<char>)> {
    seq![
        ("vlan."@ + dec(idx as nat) + ".devname"@, devname),
        ("vlan."@ + dec(idx as nat) + ".id"@, dec(id as nat)),
    ]
}

/// A name of a wireless interface.
pub open spec fn is_wireless_dev(dev: Seq<char>) -> bool {
    has_sub(dev, "wifi"@) || has_sub(dev, "ath"@) || has_sub(dev, "vwire"@) || has_sub(dev, "scan"@)
}

/// The values of an interface setting.
pub struct NetconfView {
    pub idx: u8,
    pub devname: Seq<char>,
    pub ip: Seq<char>,
    pub status: UnifiBool,
    pub up: UnifiBool,
    pub autoip_status: UnifiBool,
    pub promisc: Option<UnifiBool>,
}

/// The key-value pairs of an interface setting.
pub open spec fn netconf_cfg_kvs(n: NetconfView) -> Seq<(Seq<char>, Seq<char>)> {
    let p = "netconf."@ + dec(n.idx as nat);
    seq![
        (p + ".devname"@, n.devname),
        (p + ".ip"@, n.ip),
        (p + ".status"@, unifi_text(n.status)),
        (p + ".up"@, unifi_text(n.up)),
        (p + ".autoip.status"@, unifi_text(n.autoip_status)),
    ] + (match n.promisc {
        Some(b) => seq![(p + ".promisc"@, unifi_text(b))],
        None => Seq::empty(),
    })
}

/// The setting of the `idx`-th interface record: a wireless interface is
/// kept down; the Ethernet port, its VLAN sub-interfaces and the wireless
/// interfaces are promiscuous.
pub open spec fn netconf_of(idx: u8, r: NetRaw) -> NetconfView {
    let (dev, ip, status, up) = r;
    let wl = is_wireless_dev(dev);
    NetconfView {
        idx,
        devname: dev,
        ip,
        status: unifi_of(status == "enabled"@),
        up: if wl {
            UnifiBool::Disabled
        } else {
            unifi_of(up == "enabled"@)
        },
        autoip_status: UnifiBool::Disabled,
        promisc: if dev == "eth0"@ || ("eth0."@.len() <= dev.len() && dev.subrange(0, "eth0."@.len() as int)
            == "eth0."@) || wl {
            Some(UnifiBool::Enabled)
        } else {
            None
        },
    }
}

/// The key-value pairs of the `idx`-th interface record.
pub open spec fn netconf_kvs(idx: u8, r: NetRaw) -> Seq<(Seq<char>, Seq<char>)> {
    netconf_cfg_kvs(netconf_of(idx, r))
}

/// The VLAN lines for ids `vids`, numbered from 1.
pub open spec fn vlan_blocks(vids: Seq<u16>) -> Seq<(Seq<char>, Seq<char>)>
    decreases vids.len(),
{
    if vids.len() == 0 {
        Seq::empty()
    } else {
        vlan_blocks(vids.drop_last()) + kv_lines(" vlan"@, vlan_kvs(vids.len() as u8, "eth0"@, vids.last()))
    }
}

/// The bridge of a VLAN: its member interfaces, then its Ethernet
/// sub-interface.
pub open spec fn vlan_bridge_kvs(idx: u8, vid: u16, defs: Seq<(u16, Seq<char>)>) -> Seq<(Seq<char>, Seq<char>)> {
    let m = bridge_members(defs, vid);
    bridge_kvs(idx, "br0."@ + dec(vid as nat), 1, UnifiBool::Disabled, numbered(m.push("eth0."@ + dec(vid as nat))))
}

/// The bridges of the VLANs `vids`, numbered from 2.
pub open spec fn vlan_bridge_blocks(vids: Seq<u16>, defs: Seq<(u16, Seq<char>)>) -> Seq<(Seq<char>, Seq<char>)>
    decreases vids.len(),
{
    if vids.len() == 0 {
        Seq::empty()
    } else {
        vlan_bridge_blocks(vids.drop_last(), defs) + kv_lines(
            " bridge"@,
            vlan_bridge_kvs((vids.len() + 1) as u8, vids.last(), defs),
        )
    }
}

/// The lines of the interface records, numbered from 1.
pub open spec fn netconf_blocks(raw: Seq<NetRaw>) -> Seq<(Seq<char>, Seq<char>)>
    decreases raw.len(),
{
    if raw.len() == 0 {
        Seq::empty()
    } else {
        netconf_blocks(raw.drop_last()) + kv_lines(" netconf"@, netconf_kvs(raw.len() as u8, raw.last()))
    }
}

/// The lines of the filter rules, numbered from 1.
pub open spec fn ebt_blocks(rules: Seq<Seq<char>>) -> Seq<(Seq<char>, Seq<char>)>
    decreases rules.len(),
{
    if rules.len() == 0 {
        Seq::empty()
    } else {
        ebt_blocks(rules.drop_last()) + kv_lines(
            " ebtables"@,
            seq![("ebtables."@ + dec((rules.len() as u8) as nat) + ".cmd"@, rules.last())],
        )
    }
}

/// The wired lines of a device with Wi-Fi interfaces `vaps`: VLANs, bridges,
/// interface records and filter rules.
pub open spec fn network_lines(vaps: Seq<(Seq<char>, Option<u16>)>) -> Seq<(Seq<char>, Seq<char>)> {
    let vids = vid_list(vaps);
    let defs = vlan_defs(vaps, vids);
    (if vids.len() == 0 {
        seq![(" vlan"@, "vlan.status=disabled"@)]
    } else {
        seq![(" vlan"@, "vlan.status=enabled"@)] + vlan_blocks(vids)
    }) + seq![(" bridge"@, "bridge.status=enabled"@)] + kv_lines(
        " bridge"@,
        bridge_kvs(1, "br0"@, 1, UnifiBool::Disabled, numbered(seq!["eth0"@] + untagged(vaps))),
    ) + vlan_bridge_blocks(vids, defs) + seq![(" netconf"@, "netconf.status=enabled"@)] + netconf_blocks(
        netconf_raw(vaps, vids),
    ) + seq![(" ebtables"@, "ebtables.status=enabled"@), (" ebtables"@, "ebtables.add_vlan.status=disabled"@)]
        + ebt_blocks(vap_rules(vaps) + vids.map_values(|vid: u16| vid_rule(vid)))
}

/// The wired lines of a device.
pub open spec fn network_section(c: ProvisionConfig, d: DeviceState, mac: Seq<char>) -> Seq<(Seq<char>, Seq<char>)> {
    network_lines(all_vaps(phys_radios(c, d, mac), c.networks@, sorted_nets(c.networks@)))
}

/// The numbering of VLANs, bridges and bridge ports fits a byte: at most
/// 253 VLANs, and at most 254 member interfaces per VLAN.
pub open spec fn network_fits(c: ProvisionConfig, d: DeviceState, mac: Seq<char>) -> bool {
    let vaps = all_vaps(phys_radios(c, d, mac), c.networks@, sorted_nets(c.networks@));
    let vids = vid_list(vaps);
    &&& vids.len() <= 253
    &&& forall|j: int|
        0 <= j < vids.len() ==> #[trigger] bridge_members(vlan_defs(vaps, vids), vids[j]).len() <= 254
}

/// The views of Wi-Fi interface records.
pub open spec fn vap_views(v: Seq<(String, Option<u16>)>) -> Seq<(Seq<char>, Option<u16>)> {
    v.map_values(|p: (String, Option<u16>)| (p.0@, p.1))
}

/// Appends the Wi-Fi interfaces of radio `radio` for the networks `rn`.
fn radio_vaps(
    out: &mut Vec<(String, Option<u16>)>,
    radio: &PhysRadio,
    nets: &Vec<(String, NetworkConfig)>,
    rn: &Vec<usize>,
)
    requires
        radio.idx >= 1,
        rn@.len() < 0xffff_ffff,
        forall|j: int| 0 <= j < rn@.len() ==> rn@[j] < nets@.len(),
    ensures
        vap_views(final(out)@) == vap_views(old(out)@) + vap_entries(radio@, nets@, rn@),
{
    let ghost start = vap_views(out@);
    let mut k: usize = 0;
    assert(vap_entries(radio@, nets@, rn@.take(0)) =~= Seq::<(Seq<char>, Option<u16>)>::empty());
    while k < rn.len()
        invariant
            radio.idx >= 1,
            rn@.len() < 0xffff_ffff,
            forall|j: int| 0 <= j < rn@.len() ==> rn@[j] < nets@.len(),
            k <= rn.len(),
            vap_views(out@) == start + vap_entries(radio@, nets@, rn@.take(k as int)),
        decreases rn.len() - k,
    {
        let dev_idx: u64 = (radio.idx as u64 - 1) * 3 + k as u64;
        let mut devname = String::from_str("ath");
        push_dec(&mut devname, dev_idx as u128);
        let ghost before = vap_views(out@);
        let vlan = nets[rn[k]].1.vlan;
        out.push((devname, vlan));
        proof {
            assert(dev_idx == vap_dev_idx(radio.idx, k as int));
            assert(vap_views(out@) =~= before.push((ath_name(vap_dev_idx(radio.idx, k as int) as nat), vlan)));
            assert(vap_entries(radio@, nets@, rn@.take(k + 1)) =~~= vap_entries(radio@, nets@, rn@.take(k as int)).push(
                (ath_name(vap_dev_idx(radio.idx, k as int) as nat), vlan),
            ));
            assert(vap_views(out@) =~~= start + vap_entries(radio@, nets@, rn@.take(k + 1)));
        }
        k = k + 1;
    }
    assert(rn@.take(rn@.len() as int) =~= rn@);
}

/// The Wi-Fi interfaces of a device, radio by radio.
pub(crate) fn collect_vaps(config: &ProvisionConfig, device_state: &DeviceState, mac: &str) -> (r: Vec<(String, Option<u16>)>)
    requires
        radios_numbered(*config, *device_state, mac@),
        config.networks@.len() < 0xffff_ffff,
    ensures
        vap_views(r@) == all_vaps(phys_radios(*config, *device_state, mac@), config.networks@, sorted_nets(config.networks@)),
{
    let radios = get_phys_radios(config, device_state, mac);
    let nets = config.get_networks_for_device(mac);
    let order = sort_networks(nets);
    let ghost rv = radio_views(radios@);
    let mut out: Vec<(String, Option<u16>)> = Vec::new();
    let mut ri: usize = 0;
    assert(vap_views(out@) =~= Seq::<(Seq<char>, Option<u16>)>::empty());
    while ri < radios.len()
        invariant
            rv == radio_views(radios@),
            rv == phys_radios(*config, *device_state, mac@),
            radios_numbered(*config, *device_state, mac@),
            nets@ == config.networks@,
            nets@.len() < 0xffff_ffff,
            order@ == sorted_nets(nets@),
            order@.len() == nets@.len(),
            forall|k: int| 0 <= k < order@.len() ==> order@[k] < nets@.len(),
            ri <= radios.len(),
            vap_views(out@) == all_vaps(rv.take(ri as int), nets@, order@),
        decreases radios.len() - ri,
    {
        let radio = &radios[ri];
        assert(rv[ri as int] == radio@);
        assert(phys_radios(*config, *device_state, mac@)[ri as int].idx >= 1);
        let rn = select_band(nets, &order, radio.band);
        radio_vaps(&mut out, radio, nets, &rn);
        proof {
            let t = rv.take(ri + 1);
            assert(t.drop_last() =~= rv.take(ri as int));
            assert(t.last() == radio@);
        }
        ri = ri + 1;
    }
    assert(rv.take(radios.len() as int) =~= rv);
    out
}

fn untagged_of(vaps: &Vec<(String, Option<u16>)>) -> (r: Vec<String>)
    ensures
        views(r@) == untagged(vap_views(vaps@)),
{
    let mut r: Vec<String> = Vec::new();
    let mut i: usize = 0;
    assert(views(r@) =~= Seq::<Seq<char>>::empty());
    while i < vaps.len()
        invariant
            i <= vaps.len(),
            views(r@) == untagged(vap_views(vaps@).take(i as int)),
        decreases vaps.len() - i,
    {
        proof {
            let t = vap_views(vaps@).take(i + 1);
            assert(t.drop_last() =~= vap_views(vaps@).take(i as int));
        }
        if vaps[i].1.is_none() {
            let ghost before = views(r@);
            r.push(vaps[i].0.clone());
            assert(views(r@) =~= before.push(vaps@[i as int].0@));
        }
        i = i + 1;
    }
    assert(vap_views(vaps@).take(vaps.len() as int) =~= vap_views(vaps@));
    r
}

/// The views of `(vlan, interface)` definitions.
pub open spec fn def_views(v: Seq<(u16, String)>) -> Seq<(u16, Seq<char>)> {
    v.map_values(|p: (u16, String)| (p.0, p.1@))
}

pub(crate) fn tagged_of(vaps: &Vec<(String, Option<u16>)>) -> (r: Vec<(u16, String)>)
    ensures
        def_views(r@) == tagged(vap_views(vaps@)),
{
    let mut r: Vec<(u16, String)> = Vec::new();
    let mut i: usize = 0;
    assert(def_views(r@) =~= Seq::<(u16, Seq<char>)>::empty());
    while i < vaps.len()
        invariant
            i <= vaps.len(),
            def_views(r@) == tagged(vap_views(vaps@).take(i as int)),
        decreases vaps.len() - i,
    {
        proof {
            let t = vap_views(vaps@).take(i + 1);
            assert(t.drop_last() =~= vap_views(vaps@).take(i as int));
        }
        match vaps[i].1 {
            Some(v) => {
                let ghost before = def_views(r@);
                r.push((v, vaps[i].0.clone()));
                assert(def_views(r@) =~= before.push((v, vaps@[i as int].0@)));
            },
            None => {},
        }
        i = i + 1;
    }
    assert(vap_views(vaps@).take(vaps.len() as int) =~= vap_views(vaps@));
    r
}

fn has_vid(v: &Vec<u16>, x: u16) -> (r: bool)
    ensures
        r == v@.contains(x),
{
    let mut i: usize = 0;
    while i < v.len()
        invariant
            i <= v.len(),
            forall|j: int| 0 <= j < i ==> v@[j] != x,
        decreases v.len() - i,
    {
        if v[i] == x {
            assert(v@[i as int] == x);
            return true;
        }
        i = i + 1;
    }
    false
}

pub(crate) fn seen_of(vaps: &Vec<(String, Option<u16>)>) -> (r: Vec<u16>)
    ensures
        r@ == seen_vids(vap_views(vaps@)),
{
    let mut r: Vec<u16> = Vec::new();
    let mut i: usize = 0;
    while i < vaps.len()
        invariant
            i <= vaps.len(),
            r@ == seen_vids(vap_views(vaps@).take(i as int)),
        decreases vaps.len() - i,
    {
        proof {
            let t = vap_views(vaps@).take(i + 1);
            assert(t.drop_last() =~= vap_views(vaps@).take(i as int));
        }
        match vaps[i].1 {
            Some(v) => {
                if !has_vid(&r, v) {
                    r.push(v);
                }
            },
            None => {},
        }
        i = i + 1;
    }
    assert(vap_views(vaps@).take(vaps.len() as int) =~= vap_views(vaps@));
    r
}

pub(crate) fn sort_vids(v: &Vec<u16>) -> (r: Vec<u16>)
    ensures
        r@ == sort_by(vid_order(), v@),
{
    let mut r: Vec<u16> = Vec::new();
    let mut i: usize = 0;
    while i < v.len()
        invariant
            i <= v.len(),
            r@ == sort_by(vid_order(), v@.take(i as int)),
        decreases v.len() - i,
    {
        let x = v[i];
        let ghost s = r@;
        let mut j: usize = 0;
        while j < r.len() && !(x < r[j])
            invariant
                s == r@,
                j <= r.len(),
                forall|k: int| 0 <= k < j ==> !vid_order()(x, #[trigger] s[k]),
            decreases r.len() - j,
        {
            assert(!vid_order()(x, s[j as int]));
            j = j + 1;
        }
        proof {
            lemma_insert_by_at(vid_order(), x, s, j as int);
            let t = v@.take(i + 1);
            assert(t.drop_last() =~= v@.take(i as int));
        }
        r.insert(j, x);
        assert(r@ =~= s.take(j as int).push(x) + s.skip(j as int));
        i = i + 1;
    }
    assert(v@.take(v.len() as int) =~= v@);
    r
}

fn rules_of(vaps: &Vec<(String, Option<u16>)>) -> (r: Vec<String>)
    ensures
        views(r@) == vap_rules(vap_views(vaps@)),
{
    let mut r: Vec<String> = Vec::new();
    let mut i: usize = 0;
    assert(views(r@) =~= Seq::<Seq<char>>::empty());
    while i < vaps.len()
        invariant
            i <= vaps.len(),
            views(r@) == vap_rules(vap_views(vaps@).take(i as int)),
        decreases vaps.len() - i,
    {
        proof {
            let t = vap_views(vaps@).take(i + 1);
            assert(t.drop_last() =~= vap_views(vaps@).take(i as int));
        }
        let dev = vaps[i].0.as_str();
        let ghost before = views(r@);
        r.push(cat3("-t nat -A PREROUTING --in-interface ", dev, " -d BGA -j DROP"));
        r.push(cat3("-t nat -A POSTROUTING --out-interface ", dev, " -d BGA -j DROP"));
        if vaps[i].1.is_some() {
            r.push(cat3("-t broute -A BROUTING -i ", dev, " -p 802_1Q -j DROP"));
        }
        assert(views(r@) =~= before + vap_rule_texts(dev@, vaps@[i as int].1));
        i = i + 1;
    }
    assert(vap_views(vaps@).take(vaps.len() as int) =~= vap_views(vaps@));
    r
}

/// A VLAN on an interface.
#[derive(Debug)]
pub struct VlanConfig {
    pub idx: u8,
    pub devname: String,
    pub id: u16,
}

impl ToUnifiConfig for VlanConfig {
    /// The key-value pairs of this VLAN.
    fn to_config(&self) -> (r: Vec<(String, String)>)
        ensures
            pair_views(r@) == vlan_kvs(self.idx, self.devname@, self.id),
    {
        let mut kvs: Vec<(String, String)> = Vec::new();
        push_kv(&mut kvs, idx_key("vlan.", self.idx as u64, ".devname"), self.devname.as_str());
        push_kv(&mut kvs, idx_key("vlan.", self.idx as u64, ".id"), dec_string(self.id as u64).as_str());
        assert(pair_views(kvs@) =~= vlan_kvs(self.idx, self.devname@, self.id));
        kvs
    }
}

fn push_vlans(out: &mut Vec<(String, String)>, vids: &Vec<u16>)
    requires
        vids@.len() <= 254,
    ensures
        pair_views(final(out)@) == pair_views(old(out)@) + vlan_blocks(vids@),
{
    let ghost start = pair_views(out@);
    let mut j: usize = 0;
    let mut counter: u8 = 1;
    assert(vlan_blocks(vids@.take(0)) =~= Seq::<(Seq<char>, Seq<char>)>::empty());
    while j < vids.len()
        invariant
            vids@.len() <= 254,
            j <= vids.len(),
            counter == j + 1,
            pair_views(out@) == start + vlan_blocks(vids@.take(j as int)),
        decreases vids.len() - j,
    {
        let cfg = VlanConfig { idx: counter, devname: String::from_str("eth0"), id: vids[j] };
        push_kvs(out, " vlan", cfg.to_config());
        proof {
            let t = vids@.take(j + 1);
            assert(t.drop_last() =~= vids@.take(j as int));
            assert(t.len() as u8 == counter);
        }
        counter = counter + 1;
        j = j + 1;
    }
    assert(vids@.take(vids@.len() as int) =~= vids@);
}

/// One port of a bridge.
#[derive(Debug)]
pub struct BridgePortConfig {
    pub idx: u8,
    pub devname: String,
}

/// A bridge and its ports.
#[derive(Debug)]
pub struct BridgeConfig {
    pub idx: u8,
    pub devname: String,
    pub fd: u8,
    pub stp_status: UnifiBool,
    pub ports: Vec<BridgePortConfig>,
}

/// The values of bridge ports.
pub open spec fn port_views(v: Seq<BridgePortConfig>) -> Seq<(u8, Seq<char>)> {
    v.map_values(|p: BridgePortConfig| (p.idx, p.devname@))
}

impl ToUnifiConfig for BridgeConfig {
    /// The key-value pairs of this bridge.
    fn to_config(&self) -> (r: Vec<(String, String)>)
        ensures
            pair_views(r@) == bridge_kvs(self.idx, self.devname@, self.fd, self.stp_status, port_views(self.ports@)),
    {
        let i = self.idx as u64;
        let mut kvs: Vec<(String, String)> = Vec::new();
        push_kv(&mut kvs, idx_key("bridge.", i, ".devname"), self.devname.as_str());
        push_kv(&mut kvs, idx_key("bridge.", i, ".fd"), dec_string(self.fd as u64).as_str());
        push_kv(&mut kvs, idx_key("bridge.", i, ".stp.status"), self.stp_status.to_string().as_str());
        let ghost head = pair_views(kvs@);
        let ghost pv = port_views(self.ports@);
        let mut k: usize = 0;
        while k < self.ports.len()
            invariant
                i == self.idx as u64,
                pv == port_views(self.ports@),
                k <= self.ports.len(),
                pair_views(kvs@) == head + port_kvs(self.idx, pv.take(k as int)),
            decreases self.ports.len() - k,
        {
            let port = &self.ports[k];
            let ghost before = pair_views(kvs@);
            push_kv(&mut kvs, idx2_key("bridge.", i, ".port.", port.idx as u64, ".devname"), port.devname.as_str());
            assert(pair_views(kvs@) == before.push(
                ("bridge."@ + dec(self.idx as nat) + ".port."@ + dec(port.idx as nat) + ".devname"@, port.devname@),
            ));
            assert(pv.take(k + 1) =~= pv.take(k as int).push((port.idx, port.devname@)));
            assert(port_kvs(self.idx, pv.take(k + 1)) =~~= port_kvs(self.idx, pv.take(k as int)).push(
                ("bridge."@ + dec(self.idx as nat) + ".port."@ + dec(port.idx as nat) + ".devname"@, port.devname@),
            ));
            k = k + 1;
        }
        assert(pv.take(self.ports.len() as int) =~= pv);
        assert(pair_views(kvs@) =~~= bridge_kvs(self.idx, self.devname@, self.fd, self.stp_status, pv));
        kvs
    }
}

fn br0_ports(untag: &Vec<String>) -> (r: Vec<BridgePortConfig>)
    ensures
        port_views(r@) == numbered(seq!["eth0"@] + views(untag@)),
{
    let ghost all = seq!["eth0"@] + views(untag@);
    let mut r: Vec<BridgePortConfig> = Vec::new();
    r.push(BridgePortConfig { idx: 1, devname: String::from_str("eth0") });
    let mut i: usize = 0;
    assert(port_views(r@) =~= numbered(all).take(1));
    while i < untag.len()
        invariant
            all == seq!["eth0"@] + views(untag@),
            i <= untag.len(),
            port_views(r@) == numbered(all).take(i + 1),
        decreases untag.len() - i,
    {
        let ghost before = port_views(r@);
        r.push(BridgePortConfig { idx: (i as u128 + 2) as u8, devname: untag[i].clone() });
        assert(port_views(r@) =~= before.push((((i + 1) + 1) as u8, untag@[i as int]@)));
        assert(numbered(all).take(i + 2) =~= numbered(all).take(i + 1).push((((i + 1) + 1) as u8, all[i + 1])));
        i = i + 1;
    }
    assert(numbered(all).take(untag.len() + 1) =~= numbered(all));
    r
}

pub(crate) fn build_defs(tags: &Vec<(u16, String)>, vids: &Vec<u16>) -> (r: Vec<(u16, String)>)
    ensures
        def_views(r@) == def_views(tags@) + vids@.map_values(|vid: u16| (vid, "eth0"@)),
{
    let mut r: Vec<(u16, String)> = Vec::new();
    let mut i: usize = 0;
    assert(def_views(r@) =~= def_views(tags@).take(0));
    while i < tags.len()
        invariant
            i <= tags.len(),
            def_views(r@) == def_views(tags@).take(i as int),
        decreases tags.len() - i,
    {
        let ghost before = def_views(r@);
        r.push((tags[i].0, tags[i].1.clone()));
        assert(def_views(r@) =~= before.push((tags@[i as int].0, tags@[i as int].1@)));
        assert(def_views(tags@).take(i + 1) =~= def_views(tags@).take(i as int).push(def_views(tags@)[i as int]));
        i = i + 1;
    }
    let mut j: usize = 0;
    assert(def_views(tags@).take(tags.len() as int) =~= def_views(tags@));
    while j < vids.len()
        invariant
            j <= vids.len(),
            def_views(r@) == def_views(tags@) + vids@.take(j as int).map_values(|vid: u16| (vid, "eth0"@)),
        decreases vids.len() - j,
    {
        let ghost before = def_views(r@);
        r.push((vids[j], String::from_str("eth0")));
        assert(def_views(r@) =~= before.push((vids@[j as int], "eth0"@)));
        assert(vids@.take(j + 1).map_values(|vid: u16| (vid, "eth0"@)) =~= vids@.take(j as int).map_values(
            |vid: u16| (vid, "eth0"@),
        ).push((vids@[j as int], "eth0"@)));
        j = j + 1;
    }
    assert(vids@.take(vids.len() as int) =~= vids@);
    r
}

pub(crate) fn members_of(defs: &Vec<(u16, String)>, vid: u16) -> (r: Vec<String>)
    ensures
        views(r@) == bridge_members(def_views(defs@), vid),
{
    let mut r: Vec<String> = Vec::new();
    let mut i: usize = 0;
    assert(views(r@) =~= Seq::<Seq<char>>::empty());
    while i < defs.len()
        invariant
            i <= defs.len(),
            views(r@) == bridge_members(def_views(defs@).take(i as int), vid),
        decreases defs.len() - i,
    {
        proof {
            let t = def_views(defs@).take(i + 1);
            assert(t.drop_last() =~= def_views(defs@).take(i as int));
        }
        if defs[i].0 == vid && !str_eq(defs[i].1.as_str(), "eth0") {
            let ghost before = views(r@);
            r.push(defs[i].1.clone());
            assert(views(r@) =~= before.push(defs@[i as int].1@));
        }
        i = i + 1;
    }
    assert(def_views(defs@).take(defs.len() as int) =~= def_views(defs@));
    r
}

fn vlan_bridge(idx: u8, vid: u16, defs: &Vec<(u16, String)>) -> (b: BridgeConfig)
    requires
        bridge_members(def_views(defs@), vid).len() <= 254,
    ensures
        b.idx == idx,
        b.devname@ == "br0."@ + dec(vid as nat),
        b.fd == 1,
        b.stp_status == UnifiBool::Disabled,
        port_views(b.ports@) == numbered(bridge_members(def_views(defs@), vid).push("eth0."@ + dec(vid as nat))),
{
    let members = members_of(defs, vid);
    let ghost all = views(members@).push("eth0."@ + dec(vid as nat));
    let mut ports: Vec<BridgePortConfig> = Vec::new();
    let mut port_idx: u8 = 1;
    let mut k: usize = 0;
    assert(port_views(ports@) =~= numbered(all).take(0));
    while k < members.len()
        invariant
            all == views(members@).push("eth0."@ + dec(vid as nat)),
            members@.len() <= 254,
            k <= members.len(),
            port_idx == k + 1,
            port_views(ports@) == numbered(all).take(k as int),
        decreases members.len() - k,
    {
        let ghost before = port_views(ports@);
        ports.push(BridgePortConfig { idx: port_idx, devname: members[k].clone() });
        assert(port_views(ports@) =~= before.push((port_idx, members@[k as int]@)));
        assert(numbered(all).take(k + 1) =~= numbered(all).take(k as int).push((((k as int) + 1) as u8, all[k as int])));
        port_idx = port_idx + 1;
        k = k + 1;
    }
    let mut eth = String::from_str("eth0.");
    push_dec(&mut eth, vid as u128);
    let ghost before = port_views(ports@);
    ports.push(BridgePortConfig { idx: port_idx, devname: eth });
    assert(port_views(ports@) =~= before.push((port_idx, "eth0."@ + dec(vid as nat))));
    assert(numbered(all) =~= numbered(all).take(members@.len() as int).push(
        (((members@.len() as int) + 1) as u8, all[members@.len() as int]),
    ));
    let mut name = String::from_str("br0.");
    push_dec(&mut name, vid as u128);
    BridgeConfig { idx, devname: name, fd: 1, stp_status: UnifiBool::Disabled, ports }
}

fn push_vlan_bridges(out: &mut Vec<(String, String)>, vids: &Vec<u16>, defs: &Vec<(u16, String)>)
    requires
        vids@.len() <= 253,
        forall|j: int| 0 <= j < vids@.len() ==> #[trigger] bridge_members(def_views(defs@), vids@[j]).len() <= 254,
    ensures
        pair_views(final(out)@) == pair_views(old(out)@) + vlan_bridge_blocks(vids@, def_views(defs@)),
{
    let ghost start = pair_views(out@);
    let mut j: usize = 0;
    let mut bridge_idx: u8 = 2;
    assert(vlan_bridge_blocks(vids@.take(0), def_views(defs@)) =~= Seq::<(Seq<char>, Seq<char>)>::empty());
    while j < vids.len()
        invariant
            vids@.len() <= 253,
            forall|j: int| 0 <= j < vids@.len() ==> #[trigger] bridge_members(def_views(defs@), vids@[j]).len() <= 254,
            j <= vids.len(),
            bridge_idx == j + 2,
            pair_views(out@) == start + vlan_bridge_blocks(vids@.take(j as int), def_views(defs@)),
        decreases vids.len() - j,
    {
        let vid = vids[j];
        assert(bridge_members(def_views(defs@), vids@[j as int]).len() <= 254);
        let b = vlan_bridge(bridge_idx, vid, defs);
        push_kvs(out, " bridge", b.to_config());
        proof {
            let t = vids@.take(j + 1);
            assert(t.drop_last() =~= vids@.take(j as int));
            assert((t.len() + 1) as u8 == bridge_idx);
        }
        bridge_idx = bridge_idx + 1;
        j = j + 1;
    }
    assert(vids@.take(vids@.len() as int) =~= vids@);
}

/// The views of interface records.
pub open spec fn raw_views(v: Seq<(String, String, String, String)>) -> Seq<NetRaw> {
    v.map_values(|r: (String, String, String, String)| (r.0@, r.1@, r.2@, r.3@))
}

fn raw(dev: String, up: &str) -> (r: (String, String, String, String))
    ensures
        (r.0@, r.1@, r.2@, r.3@) == (dev@, "0.0.0.0"@, "enabled"@, up@),
{
    (dev, String::from_str("0.0.0.0"), String::from_str("enabled"), String::from_str(up))
}

fn build_raw(vaps: &Vec<(String, Option<u16>)>, vids: &Vec<u16>) -> (r: Vec<(String, String, String, String)>)
    ensures
        raw_views(r@) == netconf_raw(vap_views(vaps@), vids@),
{
    let mut r: Vec<(String, String, String, String)> = Vec::new();
    r.push(raw(String::from_str("br0"), "enabled"));
    r.push(raw(String::from_str("eth0"), "enabled"));
    let ghost head = raw_views(r@);
    let mut i: usize = 0;
    while i < vaps.len()
        invariant
            i <= vaps.len(),
            raw_views(r@) == head + vap_views(vaps@).take(i as int).map_values(
                |v: (Seq<char>, Option<u16>)| (v.0, "0.0.0.0"@, "enabled"@, "disabled"@),
            ),
        decreases vaps.len() - i,
    {
        let ghost before = raw_views(r@);
        r.push(raw(vaps[i].0.clone(), "disabled"));
        assert(raw_views(r@) =~= before.push((vaps@[i as int].0@, "0.0.0.0"@, "enabled"@, "disabled"@)));
        assert(vap_views(vaps@).take(i + 1).map_values(
            |v: (Seq<char>, Option<u16>)| (v.0, "0.0.0.0"@, "enabled"@, "disabled"@),
        ) =~= vap_views(vaps@).take(i as int).map_values(
            |v: (Seq<char>, Option<u16>)| (v.0, "0.0.0.0"@, "enabled"@, "disabled"@),
        ).push((vaps@[i as int].0@, "0.0.0.0"@, "enabled"@, "disabled"@)));
        i = i + 1;
    }
    assert(vap_views(vaps@).take(vaps.len() as int) =~= vap_views(vaps@));
    let ghost mid = raw_views(r@);
    let mut j: usize = 0;
    while j < vids.len()
        invariant
            j <= vids.len(),
            raw_views(r@) == mid + vids@.take(j as int).map_values(
                |vid: u16| ("eth0."@ + dec(vid as nat), "0.0.0.0"@, "enabled"@, "enabled"@),
            ),
        decreases vids.len() - j,
    {
        let mut d = String::from_str("eth0.");
        push_dec(&mut d, vids[j] as u128);
        let ghost before = raw_views(r@);
        r.push(raw(d, "enabled"));
        assert(raw_views(r@) =~= before.push(("eth0."@ + dec(vids@[j as int] as nat), "0.0.0.0"@, "enabled"@, "enabled"@)));
        assert(vids@.take(j + 1).map_values(
            |vid: u16| ("eth0."@ + dec(vid as nat), "0.0.0.0"@, "enabled"@, "enabled"@),
        ) =~= vids@.take(j as int).map_values(
            |vid: u16| ("eth0."@ + dec(vid as nat), "0.0.0.0"@, "enabled"@, "enabled"@),
        ).push(("eth0."@ + dec(vids@[j as int] as nat), "0.0.0.0"@, "enabled"@, "enabled"@)));
        j = j + 1;
    }
    assert(vids@.take(vids.len() as int) =~= vids@);
    let ghost mid2 = raw_views(r@);
    let mut k: usize = 0;
    while k < vids.len()
        invariant
            k <= vids.len(),
            raw_views(r@) == mid2 + vids@.take(k as int).map_values(
                |vid: u16| ("br0."@ + dec(vid as nat), "0.0.0.0"@, "enabled"@, "enabled"@),
            ),
        decreases vids.len() - k,
    {
        let mut d = String::from_str("br0.");
        push_dec(&mut d, vids[k] as u128);
        let ghost before = raw_views(r@);
        r.push(raw(d, "enabled"));
        assert(raw_views(r@) =~= before.push(("br0."@ + dec(vids@[k as int] as nat), "0.0.0.0"@, "enabled"@, "enabled"@)));
        assert(vids@.take(k + 1).map_values(
            |vid: u16| ("br0."@ + dec(vid as nat), "0.0.0.0"@, "enabled"@, "enabled"@),
        ) =~= vids@.take(k as int).map_values(
            |vid: u16| ("br0."@ + dec(vid as nat), "0.0.0.0"@, "enabled"@, "enabled"@),
        ).push(("br0."@ + dec(vids@[k as int] as nat), "0.0.0.0"@, "enabled"@, "enabled"@)));
        k = k + 1;
    }
    assert(vids@.take(vids.len() as int) =~= vids@);
    assert(raw_views(r@) =~= netconf_raw(vap_views(vaps@), vids@));
    r
}

/// An interface setting.
#[derive(Debug)]
pub struct NetconfConfig {
    pub idx: u8,
    pub devname: String,
    pub ip: String,
    pub status: UnifiBool,
    pub up: UnifiBool,
    pub autoip_status: UnifiBool,
    pub promisc: Option<UnifiBool>,
}

impl View for NetconfConfig {
    type V = NetconfView;

    open spec fn view(&self) -> NetconfView {
        NetconfView {
            idx: self.idx,
            devname: self.devname@,
            ip: self.ip@,
            status: self.status,
            up: self.up,
            autoip_status: self.autoip_status,
            promisc: self.promisc,
        }
    }
}

impl ToUnifiConfig for NetconfConfig {
    /// The key-value pairs of this interface setting.
    fn to_config(&self) -> (r: Vec<(String, String)>)
        ensures
            pair_views(r@) == netconf_cfg_kvs(self@),
    {
        let i = self.idx as u64;
        let mut kvs: Vec<(String, String)> = Vec::new();
        push_kv(&mut kvs, idx_key("netconf.", i, ".devname"), self.devname.as_str());
        push_kv(&mut kvs, idx_key("netconf.", i, ".ip"), self.ip.as_str());
        push_kv(&mut kvs, idx_key("netconf.", i, ".status"), self.status.to_string().as_str());
        push_kv(&mut kvs, idx_key("netconf.", i, ".up"), self.up.to_string().as_str());
        push_kv(&mut kvs, idx_key("netconf.", i, ".autoip.status"), self.autoip_status.to_string().as_str());
        match self.promisc {
            Some(b) => {
                push_kv(&mut kvs, idx_key("netconf.", i, ".promisc"), b.to_string().as_str());
            },
            None => {},
        }
        assert(pair_views(kvs@) =~~= netconf_cfg_kvs(self@));
        kvs
    }
}

fn netconf_for(idx: u8, r: &(String, String, String, String)) -> (c: NetconfConfig)
    ensures
        c@ == netconf_of(idx, (r.0@, r.1@, r.2@, r.3@)),
{
    let dev = r.0.as_str();
    let wl = contains_str(dev, "wifi") || contains_str(dev, "ath") || contains_str(dev, "vwire") || contains_str(
        dev,
        "scan",
    );
    let up = if wl {
        UnifiBool::Disabled
    } else if str_eq(r.3.as_str(), "enabled") {
        UnifiBool::Enabled
    } else {
        UnifiBool::Disabled
    };
    let status = if str_eq(r.2.as_str(), "enabled") {
        UnifiBool::Enabled
    } else {
        UnifiBool::Disabled
    };
    let promisc = if str_eq(dev, "eth0") || starts_with_str(dev, "eth0.") || wl {
        Some(UnifiBool::Enabled)
    } else {
        None
    };
    NetconfConfig {
        idx,
        devname: r.0.clone(),
        ip: r.1.clone(),
        status,
        up,
        autoip_status: UnifiBool::Disabled,
        promisc,
    }
}

fn push_netconf(out: &mut Vec<(String, String)>, raws: &Vec<(String, String, String, String)>)
    ensures
        pair_views(final(out)@) == pair_views(old(out)@) + netconf_blocks(raw_views(raws@)),
{
    let ghost start = pair_views(out@);
    let mut i: usize = 0;
    assert(netconf_blocks(raw_views(raws@).take(0)) =~= Seq::<(Seq<char>, Seq<char>)>::empty());
    while i < raws.len()
        invariant
            i <= raws.len(),
            pair_views(out@) == start + netconf_blocks(raw_views(raws@).take(i as int)),
        decreases raws.len() - i,
    {
        let c = netconf_for((i + 1) as u8, &raws[i]);
        push_kvs(out, " netconf", c.to_config());
        proof {
            let t = raw_views(raws@).take(i + 1);
            assert(t.drop_last() =~= raw_views(raws@).take(i as int));
            assert(t.last() == (raws@[i as int].0@, raws@[i as int].1@, raws@[i as int].2@, raws@[i as int].3@));
            assert(t.len() as u8 == (i + 1) as u8);
        }
        i = i + 1;
    }
    assert(raw_views(raws@).take(raws.len() as int) =~= raw_views(raws@));
}

/// A filter rule.
#[derive(Debug)]
pub struct EbtablesConfig {
    pub idx: u8,
    pub cmd: String,
}

impl ToUnifiConfig for EbtablesConfig {
    /// The key-value pair of this rule.
    fn to_config(&self) -> (r: Vec<(String, String)>)
        ensures
            pair_views(r@) == seq![("ebtables."@ + dec(self.idx as nat) + ".cmd"@, self.cmd@)],
    {
        let mut kvs: Vec<(String, String)> = Vec::new();
        push_kv(&mut kvs, idx_key("ebtables.", self.idx as u64, ".cmd"), self.cmd.as_str());
        assert(pair_views(kvs@) =~= seq![("ebtables."@ + dec(self.idx as nat) + ".cmd"@, self.cmd@)]);
        kvs
    }
}

fn push_ebtables(out: &mut Vec<(String, String)>, rules: &Vec<String>)
    ensures
        pair_views(final(out)@) == pair_views(old(out)@) + ebt_blocks(views(rules@)),
{
    let ghost start = pair_views(out@);
    let mut i: usize = 0;
    assert(ebt_blocks(views(rules@).take(0)) =~= Seq::<(Seq<char>, Seq<char>)>::empty());
    while i < rules.len()
        invariant
            i <= rules.len(),
            pair_views(out@) == start + ebt_blocks(views(rules@).take(i as int)),
        decreases rules.len() - i,
    {
        let c = EbtablesConfig { idx: (i + 1) as u8, cmd: rules[i].clone() };
        push_kvs(out, " ebtables", c.to_config());
        proof {
            let t = views(rules@).take(i + 1);
            assert(t.drop_last() =~= views(rules@).take(i as int));
            assert(t.len() as u8 == (i + 1) as u8);
        }
        i = i + 1;
    }
    assert(views(rules@).take(rules.len() as int) =~= views(rules@));
}

fn all_rules(mut rules: Vec<String>, vids: &Vec<u16>) -> (r: Vec<String>)
    ensures
        views(r@) == views(rules@) + vids@.map_values(|vid: u16| vid_rule(vid)),
{
    let ghost start = views(rules@);
    let mut j: usize = 0;
    while j < vids.len()
        invariant
            j <= vids.len(),
            views(rules@) == start + vids@.take(j as int).map_values(|vid: u16| vid_rule(vid)),
        decreases vids.len() - j,
    {
        let mut r = String::from_str("-t broute -A BROUTING --vlan-id ");
        push_dec(&mut r, vids[j] as u128);
        r.append(" -p 802_1Q -j DROP");
        let ghost before = views(rules@);
        rules.push(r);
        assert(views(rules@) =~= before.push(vid_rule(vids@[j as int])));
        assert(vids@.take(j + 1).map_values(|vid: u16| vid_rule(vid)) =~= vids@.take(j as int).map_values(
            |vid: u16| vid_rule(vid),
        ).push(vid_rule(vids@[j as int])));
        j = j + 1;
    }
    assert(vids@.take(vids.len() as int) =~= vids@);
    rules
}

/// The wired part of the system configuration.
pub struct NetworkSection;

impl NetworkSection {
    /// The wired lines: VLANs for the tagged networks, the main bridge with
    /// the Ethernet port and the untagged Wi-Fi interfaces, a bridge per
    /// VLAN, the interface records and the Ethernet filter rules.
    pub fn generate(&self, config: &ProvisionConfig, device_state: &DeviceState, mac: &str) -> (r: Vec<(String, String)>)
        requires
            radios_numbered(*config, *device_state, mac@),
            network_fits(*config, *device_state, mac@),
            config.networks@.len() < 0xffff_ffff,
        ensures
            pair_views(r@) == network_section(*config, *device_state, mac@),
    {
        let vaps = collect_vaps(config, device_state, mac);
        let ghost vv = vap_views(vaps@);
        let untag = untagged_of(&vaps);
        let tags = tagged_of(&vaps);
        let seen = seen_of(&vaps);
        let vids = sort_vids(&seen);
        let ghost defs_v = vlan_defs(vv, vids@);
        let mut out: Vec<(String, String)> = Vec::new();
        if vids.len() == 0 {
            push_line(&mut out, " vlan", "vlan.status=disabled");
        } else {
            push_line(&mut out, " vlan", "vlan.status=enabled");
            push_vlans(&mut out, &vids);
        }
        push_line(&mut out, " bridge", "bridge.status=enabled");
        let br0 = BridgeConfig {
            idx: 1,
            devname: String::from_str("br0"),
            fd: 1,
            stp_status: UnifiBool::Disabled,
            ports: br0_ports(&untag),
        };
        push_kvs(&mut out, " bridge", br0.to_config());
        let defs = build_defs(&tags, &vids);
        assert(def_views(defs@) == defs_v);
        push_vlan_bridges(&mut out, &vids, &defs);
        push_line(&mut out, " netconf", "netconf.status=enabled");
        let raws = build_raw(&vaps, &vids);
        push_netconf(&mut out, &raws);
        push_line(&mut out, " ebtables", "ebtables.status=enabled");
        push_line(&mut out, " ebtables", "ebtables.add_vlan.status=disabled");
        let rules = all_rules(rules_of(&vaps), &vids);
        push_ebtables(&mut out, &rules);
        assert(pair_views(out@) =~= network_section(*config, *device_state, mac@));
        out
    }
}

} // verus!
