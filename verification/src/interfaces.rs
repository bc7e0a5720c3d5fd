//! How the radio, Wi-Fi and wired sections of a system configuration agree
//! on the Wi-Fi interfaces (`athN`) of a device.

use vstd::prelude::*;
use crate::ini::{kv_line, kv_lines, lemma_sort_by_sorted, strict_order};
use crate::models::{country_numeric, mac_key, NetworkConfig, ProvisionConfig};
use crate::network::{all_vaps, bridge_kvs, bridge_members, network_lines, network_section, numbered, port_kvs, seen_vids,
    tagged, untagged, vap_entries, vid_list, vid_order, vlan_blocks, vlan_bridge_blocks, vlan_bridge_kvs, vlan_defs};
use crate::radios::{ath_name, band_nets, phys_radios, radio_blocks, radio_config_for, radio_header, radio_kvs,
    radio_section, rkey, sorted_nets, vap_dev_idx, vaps_for, virtual_kvs, PhysRadioView};
use crate::state::DeviceState;
use crate::text::dec;
use crate::ini::UnifiBool;
use crate::wireless::{aaa_config_for, aaa_kvs, aaa_kvs_a, akey, net_lines, w_index, wireless_config_for, wireless_kvs,
    wireless_kvs_a, wireless_section, wkey, wl_net_blocks, wl_radio_blocks};

verus! {

/// The radio line that names the `k`-th interface `dev` of radio `idx`:
/// the radio's own interface for the first, a virtual one after it.
pub open spec fn radio_dev_line(idx: u8, k: int, dev: Seq<char>) -> Seq<char> {
    if k == 0 {
        kv_line(rkey(idx, ".devname"@), dev)
    } else {
        kv_line("radio."@ + dec(idx as nat) + ".virtual."@ + dec((k as u8) as nat) + ".devname"@, dev)
    }
}

/// The Wi-Fi line that names interface `dev` with interface index `n`.
pub open spec fn wireless_dev_line(n: int, dev: Seq<char>) -> Seq<char> {
    kv_line(wkey(w_index(n), ".devname"@), dev)
}

proof fn lemma_virtual_has(idx: u8, vaps: Seq<(u8, Seq<char>, UnifiBool, Seq<char>)>, j: int)
    requires
        0 <= j < vaps.len(),
    ensures
        virtual_kvs(idx, vaps).contains(
            ("radio."@ + dec(idx as nat) + ".virtual."@ + dec(vaps[j].0 as nat) + ".devname"@, vaps[j].1),
        ),
    decreases vaps.len(),
{
    let rest = virtual_kvs(idx, vaps.drop_last());
    let v = vaps.last();
    let p = "radio."@ + dec(idx as nat) + ".virtual."@ + dec(v.0 as nat);
    let tail = seq![(p + ".status"@, crate::ini::unifi_text(v.2)), (p + ".devname"@, v.1), (p + ".mode"@, v.3)];
    assert(virtual_kvs(idx, vaps) == rest + tail);
    if j == vaps.len() - 1 {
        assert((rest + tail)[rest.len() + 1int] == tail[1]);
    } else {
        lemma_virtual_has(idx, vaps.drop_last(), j);
        assert(vaps.drop_last()[j] == vaps[j]);
        let e = ("radio."@ + dec(idx as nat) + ".virtual."@ + dec(vaps[j].0 as nat) + ".devname"@, vaps[j].1);
        let i = choose|i: int| 0 <= i < rest.len() && rest[i] == e;
        assert((rest + tail)[i] == e);
    }
}

proof fn lemma_radio_kvs_dev(r: PhysRadioView, cc: u16, n: nat, k: int)
    requires
        0 <= k < n,
    ensures
        kv_lines(radio_header(), radio_kvs(radio_config_for(r, cc, n))).contains(
            (radio_header(), radio_dev_line(r.idx, k, ath_name(vap_dev_idx(r.idx, k) as nat))),
        ),
{
    let rc = radio_config_for(r, cc, n);
    let kvs = radio_kvs(rc);
    let vaps = vaps_for(r, n);
    let dev = ath_name(vap_dev_idx(r.idx, k) as nat);
    let head = kvs.take(kvs.len() - (1 + virtual_kvs(r.idx, vaps.skip(1)).len()));
    let fq = match rc.freq {
        Some(f) => seq![(rkey(r.idx, ".freq"@), dec(f as nat))],
        None => seq![(rkey(r.idx, ".channel"@), rc.channel)],
    };
    let base = seq![
        (rkey(r.idx, ".status"@), crate::ini::unifi_text(rc.status)),
        (rkey(r.idx, ".phyname"@), rc.phyname),
        (rkey(r.idx, ".countrycode"@), dec(rc.countrycode as nat)),
        (rkey(r.idx, ".antenna.gain"@), dec(rc.antenna_gain as nat)),
        (rkey(r.idx, ".antenna"@), crate::ini::int_text(rc.antenna_id as int)),
        (rkey(r.idx, ".txpower_mode"@), rc.txpower_mode),
        (rkey(r.idx, ".txpower"@), rc.txpower),
        (rkey(r.idx, ".ieee_mode"@), rc.ieee_mode),
        (rkey(r.idx, ".mode"@), rc.mode),
        (rkey(r.idx, ".ack.auto"@), crate::ini::unifi_text(rc.ack_auto)),
        (rkey(r.idx, ".acktimeout"@), dec(rc.acktimeout as nat)),
        (rkey(r.idx, ".ampdu.status"@), crate::ini::unifi_text(rc.ampdu_status)),
        (rkey(r.idx, ".clksel"@), dec(rc.clksel as nat)),
        (rkey(r.idx, ".cwm.enable"@), dec(rc.cwm_enable as nat)),
        (rkey(r.idx, ".cwm.mode"@), dec(rc.cwm_mode as nat)),
        (rkey(r.idx, ".forbiasauto"@), dec(rc.forbiasauto as nat)),
        (rkey(r.idx, ".rate.auto"@), crate::ini::unifi_text(rc.rate_auto)),
        (rkey(r.idx, ".rate.mcs"@), rc.rate_mcs),
        (rkey(r.idx, ".rfscan"@), crate::ini::unifi_text(rc.rfscan)),
        (rkey(r.idx, ".bcmc_l2_filter.status"@), crate::ini::unifi_text(rc.bcmc_l2_filter_status)),
        (rkey(r.idx, ".bgscan.status"@), crate::ini::unifi_text(rc.bgscan_status)),
        (rkey(r.idx, ".hard_noisefloor.status"@), crate::ini::unifi_text(rc.hard_noisefloor_status)),
    ];
    let virt = virtual_kvs(r.idx, vaps.skip(1));
    let tail = seq![(rkey(r.idx, ".devname"@), vaps[0].1)] + virt;
    assert(kvs == base + fq + tail);
    let pre = base + fq;
    let e = if k == 0 {
        (rkey(r.idx, ".devname"@), dev)
    } else {
        ("radio."@ + dec(r.idx as nat) + ".virtual."@ + dec((k as u8) as nat) + ".devname"@, dev)
    };
    let pos: int = if k == 0 {
        assert(vaps[0].1 == dev);
        assert(tail[0] == e);
        assert((pre + tail)[pre.len() as int] == tail[0]);
        pre.len() as int
    } else {
        let s1 = vaps.skip(1);
        assert(s1[k - 1] == vaps[k]);
        lemma_virtual_has(r.idx, s1, k - 1);
        let i = choose|i: int| 0 <= i < virt.len() && virt[i] == e;
        assert(tail[1 + i] == e);
        assert((pre + tail)[pre.len() + 1 + i] == tail[1 + i]);
        pre.len() + 1 + i
    };
    assert(kvs[pos] == e);
    let lines = kv_lines(radio_header(), kvs);
    assert(lines[pos] == (radio_header(), kv_line(e.0, e.1)));
}

proof fn lemma_radio_blocks_has(
    rs: Seq<PhysRadioView>,
    cc: u16,
    nets: Seq<(String, NetworkConfig)>,
    order: Seq<usize>,
    p: int,
    e: (Seq<char>, Seq<char>),
)
    requires
        0 <= p < rs.len(),
        kv_lines(radio_header(), radio_kvs(radio_config_for(rs[p], cc, band_nets(nets, order, rs[p].band).len()))).contains(e),
    ensures
        radio_blocks(rs, cc, nets, order).contains(e),
    decreases rs.len(),
{
    let a = radio_blocks(rs.drop_last(), cc, nets, order);
    let b = kv_lines(radio_header(), radio_kvs(radio_config_for(rs.last(), cc, band_nets(nets, order, rs.last().band).len())));
    assert(radio_blocks(rs, cc, nets, order) == a + b);
    if p == rs.len() - 1 {
        let i = choose|i: int| 0 <= i < b.len() && b[i] == e;
        assert((a + b)[a.len() + i] == e);
    } else {
        assert(rs.drop_last()[p] == rs[p]);
        lemma_radio_blocks_has(rs.drop_last(), cc, nets, order, p, e);
        let i = choose|i: int| 0 <= i < a.len() && a[i] == e;
        assert((a + b)[i] == e);
    }
}

proof fn lemma_all_vaps_has(rs: Seq<PhysRadioView>, nets: Seq<(String, NetworkConfig)>, order: Seq<usize>, p: int, k: int)
    requires
        0 <= p < rs.len(),
        0 <= k < band_nets(nets, order, rs[p].band).len(),
    ensures
        all_vaps(rs, nets, order).contains(
            (ath_name(vap_dev_idx(rs[p].idx, k) as nat), nets[band_nets(nets, order, rs[p].band)[k] as int].1.vlan),
        ),
    decreases rs.len(),
{
    let e = (ath_name(vap_dev_idx(rs[p].idx, k) as nat), nets[band_nets(nets, order, rs[p].band)[k] as int].1.vlan);
    let a = all_vaps(rs.drop_last(), nets, order);
    let b = vap_entries(rs.last(), nets, band_nets(nets, order, rs.last().band));
    assert(all_vaps(rs, nets, order) == a + b);
    if p == rs.len() - 1 {
        assert(b[k] == e);
        assert((a + b)[a.len() + k] == e);
    } else {
        assert(rs.drop_last()[p] == rs[p]);
        lemma_all_vaps_has(rs.drop_last(), nets, order, p, k);
        let i = choose|i: int| 0 <= i < a.len() && a[i] == e;
        assert((a + b)[i] == e);
    }
}

proof fn lemma_untagged_has(vaps: Seq<(Seq<char>, Option<u16>)>, dev: Seq<char>)
    requires
        vaps.contains((dev, None)),
    ensures
        untagged(vaps).contains(dev),
    decreases vaps.len(),
{
    let i = choose|i: int| 0 <= i < vaps.len() && vaps[i] == (dev, None::<u16>);
    if i == vaps.len() - 1 {
        let u = untagged(vaps.drop_last());
        assert(untagged(vaps) == u.push(dev));
        assert(u.push(dev)[u.len() as int] == dev);
    } else {
        assert(vaps.drop_last()[i] == vaps[i]);
        lemma_untagged_has(vaps.drop_last(), dev);
        let u = untagged(vaps.drop_last());
        let j = choose|j: int| 0 <= j < u.len() && u[j] == dev;
        if vaps.last().1 is None {
            assert(u.push(vaps.last().0)[j] == dev);
        }
    }
}

proof fn lemma_tagged_has(vaps: Seq<(Seq<char>, Option<u16>)>, dev: Seq<char>, v: u16)
    requires
        vaps.contains((dev, Some(v))),
    ensures
        tagged(vaps).contains((v, dev)),
    decreases vaps.len(),
{
    let i = choose|i: int| 0 <= i < vaps.len() && vaps[i] == (dev, Some(v));
    if i == vaps.len() - 1 {
        let t = tagged(vaps.drop_last());
        assert(tagged(vaps) == t.push((v, dev)));
        assert(t.push((v, dev))[t.len() as int] == (v, dev));
    } else {
        assert(vaps.drop_last()[i] == vaps[i]);
        lemma_tagged_has(vaps.drop_last(), dev, v);
        let t = tagged(vaps.drop_last());
        let j = choose|j: int| 0 <= j < t.len() && t[j] == (v, dev);
        match vaps.last().1 {
            Some(w) => {
                assert(t.push((w, vaps.last().0))[j] == (v, dev));
            },
            None => {},
        }
    }
}

proof fn lemma_members_has(defs: Seq<(u16, Seq<char>)>, v: u16, x: Seq<char>)
    requires
        defs.contains((v, x)),
        x != "eth0"@,
    ensures
        bridge_members(defs, v).contains(x),
    decreases defs.len(),
{
    let i = choose|i: int| 0 <= i < defs.len() && defs[i] == (v, x);
    let m = bridge_members(defs.drop_last(), v);
    if i == defs.len() - 1 {
        assert(bridge_members(defs, v) == m.push(x));
        assert(m.push(x)[m.len() as int] == x);
    } else {
        assert(defs.drop_last()[i] == defs[i]);
        lemma_members_has(defs.drop_last(), v, x);
        let j = choose|j: int| 0 <= j < m.len() && m[j] == x;
        if defs.last().0 == v && defs.last().1 != "eth0"@ {
            assert(m.push(defs.last().1)[j] == x);
        }
    }
}

proof fn lemma_ath_not_eth(n: nat)
    ensures
        ath_name(n) != "eth0"@,
{
    reveal_strlit("ath");
    reveal_strlit("eth0");
    assert(ath_name(n)[0] == 'a');
    assert("eth0"@[0] == 'e');
}

proof fn lemma_seen_has(vaps: Seq<(Seq<char>, Option<u16>)>, dev: Seq<char>, v: u16)
    requires
        vaps.contains((dev, Some(v))),
    ensures
        seen_vids(vaps).contains(v),
    decreases vaps.len(),
{
    let i = choose|i: int| 0 <= i < vaps.len() && vaps[i] == (dev, Some(v));
    let d = seen_vids(vaps.drop_last());
    if i == vaps.len() - 1 {
        if !d.contains(v) {
            assert(d.push(v)[d.len() as int] == v);
        }
    } else {
        assert(vaps.drop_last()[i] == vaps[i]);
        lemma_seen_has(vaps.drop_last(), dev, v);
        let j = choose|j: int| 0 <= j < d.len() && d[j] == v;
        match vaps.last().1 {
            Some(w) => {
                if !d.contains(w) {
                    assert(d.push(w)[j] == v);
                }
            },
            None => {},
        }
    }
}

/// The authenticator's bridge line for interface index `n`.
pub open spec fn aaa_bridge_line(n: int, bridge: Seq<char>) -> Seq<char> {
    kv_line(akey(w_index(n), ".br.devname"@), bridge)
}

/// The line that names bridge `j`.
pub open spec fn bridge_name_line(j: u8, name: Seq<char>) -> Seq<char> {
    kv_line("bridge."@ + dec(j as nat) + ".devname"@, name)
}

/// The line that makes `dev` port `m` of bridge `j`.
pub open spec fn bridge_port_line(j: u8, m: u8, dev: Seq<char>) -> Seq<char> {
    kv_line("bridge."@ + dec(j as nat) + ".port."@ + dec(m as nat) + ".devname"@, dev)
}

/// The wired lines make `dev` a port of a bridge named `name`.
pub open spec fn bridged_on(lines: Seq<(Seq<char>, Seq<char>)>, name: Seq<char>, dev: Seq<char>) -> bool {
    exists|j: u8, m: u8|
        lines.contains((" bridge"@, #[trigger] bridge_name_line(j, name))) && lines.contains(
            (" bridge"@, #[trigger] bridge_port_line(j, m, dev)),
        )
}

/// The authenticator entry of network `n` as the `k`-th interface of
/// radio `r`, for device key `key`.
pub open spec fn aaa_for(r: PhysRadioView, n: NetworkConfig, k: int, key: Seq<char>) -> crate::wireless::AaaConfigView {
    let dev = vap_dev_idx(r.idx, k);
    let w = w_index(dev);
    let uid = crate::text::hex_lower(crate::wireless::md5_of(crate::wireless::id_input(key, w, n.ssid@)));
    aaa_config_for(r, n, w, ath_name(dev as nat), uid)
}

proof fn lemma_net_lines_has(r: PhysRadioView, n: NetworkConfig, k: int, key: Seq<char>)
    ensures
        net_lines(r, n, k, key).contains(
            (radio_header(), wireless_dev_line(vap_dev_idx(r.idx, k), ath_name(vap_dev_idx(r.idx, k) as nat))),
        ),
        net_lines(r, n, k, key).contains(
            (radio_header(), aaa_bridge_line(vap_dev_idx(r.idx, k), aaa_for(r, n, k, key).br_devname)),
        ),
{
    let dev = vap_dev_idx(r.idx, k);
    let w = w_index(dev);
    let uid = crate::text::hex_lower(crate::wireless::md5_of(crate::wireless::id_input(key, w, n.ssid@)));
    let wc = wireless_config_for(r, n, w, ath_name(dev as nat), uid);
    let ac = aaa_config_for(r, n, w, ath_name(dev as nat), uid);
    let l1 = kv_lines(radio_header(), wireless_kvs(wc));
    let l2 = kv_lines(radio_header(), aaa_kvs(ac));
    assert(net_lines(r, n, k, key) == l1 + l2);
    assert(wireless_kvs(wc)[0] == wireless_kvs_a(wc)[0]);
    assert((l1 + l2)[0] == l1[0]);
    assert(ac.idx == w);
    assert(aaa_kvs(ac)[3] == aaa_kvs_a(ac)[3]);
    assert((l1 + l2)[l1.len() + 3int] == l2[3]);
}

proof fn lemma_wl_net_blocks_has(
    r: PhysRadioView,
    nets: Seq<(String, NetworkConfig)>,
    sel: Seq<usize>,
    key: Seq<char>,
    k: int,
    e: (Seq<char>, Seq<char>),
)
    requires
        0 <= k < sel.len(),
        net_lines(r, nets[sel[k] as int].1, k, key).contains(e),
    ensures
        wl_net_blocks(r, nets, sel, key).contains(e),
    decreases sel.len(),
{
    let a = wl_net_blocks(r, nets, sel.drop_last(), key);
    let n = nets[sel.last() as int].1;
    let b = net_lines(r, n, sel.len() - 1, key);
    assert(wl_net_blocks(r, nets, sel, key) == a + b);
    if k == sel.len() - 1 {
        let i = choose|i: int| 0 <= i < b.len() && b[i] == e;
        assert((a + b)[a.len() + i] == e);
    } else {
        assert(sel.drop_last()[k] == sel[k]);
        lemma_wl_net_blocks_has(r, nets, sel.drop_last(), key, k, e);
        let i = choose|i: int| 0 <= i < a.len() && a[i] == e;
        assert((a + b)[i] == e);
    }
}

proof fn lemma_wl_radio_blocks_has(
    rs: Seq<PhysRadioView>,
    nets: Seq<(String, NetworkConfig)>,
    order: Seq<usize>,
    key: Seq<char>,
    p: int,
    k: int,
    e: (Seq<char>, Seq<char>),
)
    requires
        0 <= p < rs.len(),
        0 <= k < band_nets(nets, order, rs[p].band).len(),
        net_lines(rs[p], nets[band_nets(nets, order, rs[p].band)[k] as int].1, k, key).contains(e),
    ensures
        wl_radio_blocks(rs, nets, order, key).contains(e),
    decreases rs.len(),
{
    let a = wl_radio_blocks(rs.drop_last(), nets, order, key);
    let b = wl_net_blocks(rs.last(), nets, band_nets(nets, order, rs.last().band), key);
    assert(wl_radio_blocks(rs, nets, order, key) == a + b);
    if p == rs.len() - 1 {
        lemma_wl_net_blocks_has(rs.last(), nets, band_nets(nets, order, rs.last().band), key, k, e);
        let i = choose|i: int| 0 <= i < b.len() && b[i] == e;
        assert((a + b)[a.len() + i] == e);
    } else {
        assert(rs.drop_last()[p] == rs[p]);
        lemma_wl_radio_blocks_has(rs.drop_last(), nets, order, key, p, k, e);
        let i = choose|i: int| 0 <= i < a.len() && a[i] == e;
        assert((a + b)[i] == e);
    }
}

proof fn lemma_wireless_section_has(c: ProvisionConfig, d: DeviceState, mac: Seq<char>, p: int, k: int, e: (Seq<char>, Seq<char>))
    requires
        0 <= p < phys_radios(c, d, mac).len(),
        0 <= k < band_nets(c.networks@, sorted_nets(c.networks@), phys_radios(c, d, mac)[p].band).len(),
        net_lines(
            phys_radios(c, d, mac)[p],
            c.networks@[band_nets(c.networks@, sorted_nets(c.networks@), phys_radios(c, d, mac)[p].band)[k] as int].1,
            k,
            mac_key(mac),
        ).contains(e),
    ensures
        wireless_section(c, d, mac).contains(e),
{
    let rs = phys_radios(c, d, mac);
    let nets = c.networks@;
    let order = sorted_nets(nets);
    lemma_wl_radio_blocks_has(rs, nets, order, mac_key(mac), p, k, e);
    let wb = wl_radio_blocks(rs, nets, order, mac_key(mac));
    let wpre = seq![(radio_header(), "aaa.status=enabled"@), (radio_header(), "wireless.status=enabled"@)];
    assert(wireless_section(c, d, mac) == wpre + wb);
    let j = choose|j: int| 0 <= j < wb.len() && wb[j] == e;
    assert((wpre + wb)[2 + j] == e);
}

/// The main bridge names itself `br0` and has every untagged Wi-Fi
/// interface as a port.
proof fn lemma_main_bridge(vaps: Seq<(Seq<char>, Option<u16>)>, dev: Seq<char>)
    requires
        untagged(vaps).contains(dev),
    ensures
        bridged_on(network_lines(vaps), "br0"@, dev),
{
    let u = untagged(vaps);
    let i = choose|i: int| 0 <= i < u.len() && u[i] == dev;
    let ports = seq!["eth0"@] + u;
    assert(ports[i + 1] == dev);
    let np = numbered(ports);
    let m = (i + 2) as u8;
    assert(np[i + 1] == (m, dev));
    let bk = bridge_kvs(1, "br0"@, 1, UnifiBool::Disabled, np);
    let h3 = seq![
        ("bridge."@ + dec(1u8 as nat) + ".devname"@, "br0"@),
        ("bridge."@ + dec(1u8 as nat) + ".fd"@, dec(1u8 as nat)),
        ("bridge."@ + dec(1u8 as nat) + ".stp.status"@, crate::ini::unifi_text(UnifiBool::Disabled)),
    ];
    let pk = port_kvs(1, np);
    assert(bk == h3 + pk);
    assert(pk[i + 1] == ("bridge."@ + dec(1u8 as nat) + ".port."@ + dec(m as nat) + ".devname"@, dev));
    assert(bk[3 + i + 1] == pk[i + 1]);
    assert(bk[0] == h3[0]);
    let bl = kv_lines(" bridge"@, bk);
    let e1 = (" bridge"@, bridge_name_line(1, "br0"@));
    let e2 = (" bridge"@, bridge_port_line(1, m, dev));
    assert(bl[0] == e1);
    assert(bl[3 + i + 1] == e2);
    let vids = vid_list(vaps);
    let defs = vlan_defs(vaps, vids);
    let vl = if vids.len() == 0 {
        seq![(" vlan"@, "vlan.status=disabled"@)]
    } else {
        seq![(" vlan"@, "vlan.status=enabled"@)] + vlan_blocks(vids)
    };
    let pre = vl + seq![(" bridge"@, "bridge.status=enabled"@)];
    let rest = network_lines(vaps).skip((pre.len() + bl.len()) as int);
    assert(network_lines(vaps) =~= pre + bl + rest);
    assert((pre + bl + rest)[pre.len() as int] == e1);
    assert((pre + bl + rest)[pre.len() + 3 + i + 1] == e2);
    assert(network_lines(vaps).contains(e1));
    assert(network_lines(vaps).contains(e2));
}

proof fn lemma_vlan_blocks_has(vids: Seq<u16>, defs: Seq<(u16, Seq<char>)>, q: int, e: (Seq<char>, Seq<char>))
    requires
        0 <= q < vids.len(),
        kv_lines(" bridge"@, vlan_bridge_kvs((q + 2) as u8, vids[q], defs)).contains(e),
    ensures
        vlan_bridge_blocks(vids, defs).contains(e),
    decreases vids.len(),
{
    let a = vlan_bridge_blocks(vids.drop_last(), defs);
    let b = kv_lines(" bridge"@, vlan_bridge_kvs((vids.len() + 1) as u8, vids.last(), defs));
    assert(vlan_bridge_blocks(vids, defs) == a + b);
    if q == vids.len() - 1 {
        let i = choose|i: int| 0 <= i < b.len() && b[i] == e;
        assert((a + b)[a.len() + i] == e);
    } else {
        assert(vids.drop_last()[q] == vids[q]);
        lemma_vlan_blocks_has(vids.drop_last(), defs, q, e);
        let i = choose|i: int| 0 <= i < a.len() && a[i] == e;
        assert((a + b)[i] == e);
    }
}

/// The bridge of VLAN `v` names itself `br0.<v>` and has every member of
/// the VLAN as a port.
proof fn lemma_vlan_bridge(vaps: Seq<(Seq<char>, Option<u16>)>, v: u16, dev: Seq<char>)
    requires
        vid_list(vaps).contains(v),
        bridge_members(vlan_defs(vaps, vid_list(vaps)), v).contains(dev),
    ensures
        bridged_on(network_lines(vaps), "br0."@ + dec(v as nat), dev),
{
    let vids = vid_list(vaps);
    let defs = vlan_defs(vaps, vids);
    let q = choose|q: int| 0 <= q < vids.len() && vids[q] == v;
    let j = (q + 2) as u8;
    let mem = bridge_members(defs, v);
    let t = choose|t: int| 0 <= t < mem.len() && mem[t] == dev;
    let name = "br0."@ + dec(v as nat);
    let ports = mem.push("eth0."@ + dec(v as nat));
    assert(ports[t] == dev);
    let np = numbered(ports);
    let m = (t + 1) as u8;
    assert(np[t] == (m, dev));
    let bk = vlan_bridge_kvs(j, v, defs);
    let h3 = seq![
        ("bridge."@ + dec(j as nat) + ".devname"@, name),
        ("bridge."@ + dec(j as nat) + ".fd"@, dec(1u8 as nat)),
        ("bridge."@ + dec(j as nat) + ".stp.status"@, crate::ini::unifi_text(UnifiBool::Disabled)),
    ];
    let pk = port_kvs(j, np);
    assert(bk == h3 + pk);
    assert(pk[t] == ("bridge."@ + dec(j as nat) + ".port."@ + dec(m as nat) + ".devname"@, dev));
    assert(bk[3 + t] == pk[t]);
    assert(bk[0] == h3[0]);
    let bl = kv_lines(" bridge"@, bk);
    let e1 = (" bridge"@, bridge_name_line(j, name));
    let e2 = (" bridge"@, bridge_port_line(j, m, dev));
    assert(bl[0] == e1);
    assert(bl[3 + t] == e2);
    lemma_vlan_blocks_has(vids, defs, q, e1);
    lemma_vlan_blocks_has(vids, defs, q, e2);
    let vb = vlan_bridge_blocks(vids, defs);
    let vl = if vids.len() == 0 {
        seq![(" vlan"@, "vlan.status=disabled"@)]
    } else {
        seq![(" vlan"@, "vlan.status=enabled"@)] + vlan_blocks(vids)
    };
    let mb = kv_lines(
        " bridge"@,
        bridge_kvs(1, "br0"@, 1, UnifiBool::Disabled, numbered(seq!["eth0"@] + untagged(vaps))),
    );
    let pre = vl + seq![(" bridge"@, "bridge.status=enabled"@)] + mb;
    let rest = network_lines(vaps).skip((pre.len() + vb.len()) as int);
    assert(network_lines(vaps) =~= pre + vb + rest);
    let i1 = choose|i: int| 0 <= i < vb.len() && vb[i] == e1;
    let i2 = choose|i: int| 0 <= i < vb.len() && vb[i] == e2;
    assert((pre + vb + rest)[pre.len() + i1] == e1);
    assert((pre + vb + rest)[pre.len() + i2] == e2);
    assert(network_lines(vaps).contains(e1));
    assert(network_lines(vaps).contains(e2));
}

/// Every Wi-Fi interface `athN` that the radio section gives a radio (the
/// `k`-th network of its band) is named by a wireless entry of the Wi-Fi
/// section and is a port of a bridge in the wired section: of the main
/// bridge for an untagged network, else of the bridge of its VLAN, which
/// is among the device's VLANs. Its authenticator entry bridges it onto
/// a bridge of the wired section that has it as a port.
pub proof fn lemma_interfaces_agree(c: ProvisionConfig, d: DeviceState, mac: Seq<char>, p: int, k: int)
    requires
        0 <= p < phys_radios(c, d, mac).len(),
        0 <= k < band_nets(c.networks@, sorted_nets(c.networks@), phys_radios(c, d, mac)[p].band).len(),
    ensures
        ({
            let rs = phys_radios(c, d, mac);
            let nets = c.networks@;
            let sel = band_nets(nets, sorted_nets(nets), rs[p].band);
            let n = vap_dev_idx(rs[p].idx, k);
            let dev = ath_name(n as nat);
            let vaps = all_vaps(rs, nets, sorted_nets(nets));
            &&& radio_section(c, d, mac).contains((radio_header(), radio_dev_line(rs[p].idx, k, dev)))
            &&& wireless_section(c, d, mac).contains((radio_header(), wireless_dev_line(n, dev)))
            &&& exists|b: Seq<char>|
                wireless_section(c, d, mac).contains((radio_header(), #[trigger] aaa_bridge_line(n, b)))
                    && bridged_on(network_section(c, d, mac), b, dev)
            &&& match nets[sel[k] as int].1.vlan {
                None => untagged(vaps).contains(dev),
                Some(v) => vid_list(vaps).contains(v) && bridge_members(vlan_defs(vaps, vid_list(vaps)), v).contains(dev),
            }
        }),
{
    broadcast use vstd::seq_lib::group_to_multiset_ensures;

    let rs = phys_radios(c, d, mac);
    let nets = c.networks@;
    let order = sorted_nets(nets);
    let sel = band_nets(nets, order, rs[p].band);
    let n = vap_dev_idx(rs[p].idx, k);
    let dev = ath_name(n as nat);
    let vaps = all_vaps(rs, nets, order);
    let cc = country_numeric(c);
    // radio section
    lemma_radio_kvs_dev(rs[p], cc, sel.len(), k);
    let re = (radio_header(), radio_dev_line(rs[p].idx, k, dev));
    lemma_radio_blocks_has(rs, cc, nets, order, p, re);
    let pre = seq![
        (radio_header(), "radio.status=enabled"@),
        (radio_header(), "radio.countrycode="@ + dec(cc as nat)),
        (radio_header(), "radio.outdoor=disabled"@),
    ];
    let rb = radio_blocks(rs, cc, nets, order);
    assert(radio_section(c, d, mac) == pre + rb);
    let i = choose|i: int| 0 <= i < rb.len() && rb[i] == re;
    assert((pre + rb)[3 + i] == re);
    // Wi-Fi section
    let net = nets[sel[k] as int].1;
    lemma_net_lines_has(rs[p], net, k, mac_key(mac));
    lemma_wireless_section_has(c, d, mac, p, k, (radio_header(), wireless_dev_line(n, dev)));
    let br = aaa_for(rs[p], net, k, mac_key(mac)).br_devname;
    lemma_wireless_section_has(c, d, mac, p, k, (radio_header(), aaa_bridge_line(n, br)));
    // wired section
    lemma_all_vaps_has(rs, nets, order, p, k);
    assert(network_section(c, d, mac) == network_lines(vaps));
    match nets[sel[k] as int].1.vlan {
        None => {
            lemma_untagged_has(vaps, dev);
            lemma_main_bridge(vaps, dev);
            assert(br == "br0"@);
        },
        Some(v) => {
            lemma_tagged_has(vaps, dev, v);
            lemma_ath_not_eth(n as nat);
            let vids = vid_list(vaps);
            let t = tagged(vaps);
            let eths = vids.map_values(|vid: u16| (vid, "eth0"@));
            let q = choose|q: int| 0 <= q < t.len() && t[q] == (v, dev);
            assert((t + eths)[q] == (v, dev));
            assert(vlan_defs(vaps, vids) == t + eths);
            lemma_members_has(vlan_defs(vaps, vids), v, dev);
            lemma_seen_has(vaps, dev, v);
            assert(strict_order(vid_order()));
            lemma_sort_by_sorted(vid_order(), seen_vids(vaps));
            assert(seen_vids(vaps).to_multiset().count(v) > 0);
            assert(vids.to_multiset().count(v) > 0);
            lemma_vlan_bridge(vaps, v, dev);
            assert(br == "br0."@ + dec(v as nat));
        },
    }
}

} // verus!
