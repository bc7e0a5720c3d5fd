//! The configuration texts of the override-based provisioning
//! configuration: the full `system.cfg` INI (three fixed radios, one VAP
//! per network and band), the compact per-network variant, and the
//! management configuration.

use vstd::prelude::*;
use crate::config::{key_views, SshKey, SshKeyView};
use crate::ini::{lemma_insert_by_at, sort_by, str_less, str_lt};
use crate::provision::{merged_networks, net_views, NetworkConfig, NetworkView, ProvisionConfig};
use crate::radios::{has_band, positions};
use crate::text::{bool_text, dec, hex_nz, idx2_line, idx_line, join_lines, push_dec, views};
use crate::types::{Band, SecurityMode};

verus! {

/// The numbered line `a{i}b{v}`.
pub open spec fn iline(a: Seq<char>, i: nat, b: Seq<char>, v: Seq<char>) -> Seq<char> {
    a + dec(i) + b + v
}

/// The doubly numbered line `a{i}b{j}c{v}`.
pub open spec fn iline2(a: Seq<char>, i: nat, b: Seq<char>, j: nat, c: Seq<char>, v: Seq<char>) -> Seq<char> {
    a + dec(i) + b + dec(j) + c + v
}

/// The physical interface of radio slot `k` (0, 1 or 2).
pub open spec fn slot_phy(k: int) -> Seq<char> {
    if k == 0 {
        "wifi0"@
    } else if k == 1 {
        "wifi1"@
    } else {
        "wifi2"@
    }
}

/// The IEEE mode of radio slot `k`.
pub open spec fn slot_mode(k: int) -> Seq<char> {
    if k == 0 {
        "11nght20"@
    } else if k == 1 {
        "11naht40"@
    } else {
        "11naht160"@
    }
}

/// The band of radio slot `k`: 2.4, 5, then 6 GHz.
pub open spec fn slot_band(k: int) -> Band {
    if k == 0 {
        Band::Band2g
    } else if k == 1 {
        Band::Band5g
    } else {
        Band::Band6g
    }
}

/// Interface, IEEE mode and band of radio slot `k`.
fn slot(k: u8) -> (r: (&'static str, &'static str, Band))
    requires
        k < 3,
    ensures
        r.0@ == slot_phy(k as int),
        r.1@ == slot_mode(k as int),
        r.2 == slot_band(k as int),
{
    if k == 0 {
        ("wifi0", "11nght20", Band::Band2g)
    } else if k == 1 {
        ("wifi1", "11naht40", Band::Band5g)
    } else {
        ("wifi2", "11naht160", Band::Band6g)
    }
}

/// The positions of `ps` whose network broadcasts on `band`, in order.
pub open spec fn on_band(nets: Seq<(Seq<char>, NetworkView)>, ps: Seq<usize>, band: Band) -> Seq<usize>
    decreases ps.len(),
{
    if ps.len() == 0 {
        Seq::empty()
    } else {
        let r = on_band(nets, ps.drop_last(), band);
        if nets[ps.last() as int].1.bands.contains(band) {
            r.push(ps.last())
        } else {
            r
        }
    }
}

/// Network positions ordered by network name.
pub open spec fn name_order(nets: Seq<(Seq<char>, NetworkView)>) -> spec_fn(usize, usize) -> bool {
    |i: usize, j: usize| str_lt(nets[i as int].0, nets[j as int].0)
}

/// The networks on `band`, stably sorted by name.
pub open spec fn band_list(nets: Seq<(Seq<char>, NetworkView)>, band: Band) -> Seq<usize> {
    sort_by(name_order(nets), on_band(nets, positions(nets.len()), band))
}

/// The number of networks on the band of radio slot `k`.
pub open spec fn band_count(nets: Seq<(Seq<char>, NetworkView)>, k: int) -> nat {
    band_list(nets, slot_band(k)).len()
}

/// The positions of the networks on `band`.
fn select_on_band(nets: &Vec<(String, NetworkConfig)>, band: Band) -> (r: Vec<usize>)
    ensures
        r@ == on_band(net_views(nets@), positions(nets@.len()), band),
        r@.len() <= nets@.len(),
        forall|k: int| 0 <= k < r@.len() ==> r@[k] < nets@.len(),
{
    let ghost nv = net_views(nets@);
    let ghost ps = positions(nets@.len());
    let mut r: Vec<usize> = Vec::new();
    let mut i: usize = 0;
    while i < nets.len()
        invariant
            nv == net_views(nets@),
            ps == positions(nets@.len()),
            i <= nets.len(),
            r@ == on_band(nv, ps.take(i as int), band),
            r@.len() <= i,
            forall|k: int| 0 <= k < r@.len() ==> r@[k] < i,
        decreases nets.len() - i,
    {
        proof {
            let t = ps.take(i + 1);
            assert(t.drop_last() =~= ps.take(i as int));
            assert(t.last() == i);
        }
        if has_band(&nets[i].1.bands, band) {
            r.push(i);
        }
        i = i + 1;
    }
    assert(ps.take(nets.len() as int) =~= ps);
    r
}

/// The positions of `v`, stably sorted by network name.
fn sort_by_name(nets: &Vec<(String, NetworkConfig)>, v: &Vec<usize>) -> (r: Vec<usize>)
    requires
        forall|k: int| 0 <= k < v@.len() ==> v@[k] < nets@.len(),
    ensures
        r@ == sort_by(name_order(net_views(nets@)), v@),
        r@.len() == v@.len(),
        forall|k: int| 0 <= k < r@.len() ==> r@[k] < nets@.len(),
{
    let ghost ord = name_order(net_views(nets@));
    let mut r: Vec<usize> = Vec::new();
    let mut i: usize = 0;
    while i < v.len()
        invariant
            ord == name_order(net_views(nets@)),
            forall|k: int| 0 <= k < v@.len() ==> v@[k] < nets@.len(),
            i <= v.len(),
            r@ == sort_by(ord, v@.take(i as int)),
            r@.len() == i,
            forall|k: int| 0 <= k < r@.len() ==> r@[k] < nets@.len(),
        decreases v.len() - i,
    {
        let x = v[i];
        let ghost s = r@;
        let mut j: usize = 0;
        while j < r.len() && !str_less(nets[x].0.as_str(), nets[r[j]].0.as_str())
            invariant
                ord == name_order(net_views(nets@)),
                s == r@,
                x < nets@.len(),
                j <= r.len(),
                forall|k: int| 0 <= k < r@.len() ==> r@[k] < nets@.len(),
                forall|k: int| 0 <= k < j ==> !ord(x, #[trigger] s[k]),
            decreases r.len() - j,
        {
            j = j + 1;
        }
        proof {
            lemma_insert_by_at(ord, x, s, j as int);
            let t = v@.take(i + 1);
            assert(t.drop_last() =~= v@.take(i as int));
            assert(t.last() == x);
        }
        r.insert(j, x);
        assert(r@ =~= s.take(j as int).push(x) + s.skip(j as int));
        assert forall|k: int| 0 <= k < r@.len() implies r@[k] < nets@.len() by {
            if k < j {
                assert(r@[k] == s[k]);
            } else if k > j {
                assert(r@[k] == s[k - 1]);
            }
        }
        i = i + 1;
    }
    assert(v@.take(v.len() as int) =~= v@);
    r
}

/// The networks on `band`, sorted by name.
fn band_positions(nets: &Vec<(String, NetworkConfig)>, band: Band) -> (r: Vec<usize>)
    ensures
        r@ == band_list(net_views(nets@), band),
        forall|k: int| 0 <= k < r@.len() ==> r@[k] < nets@.len(),
{
    let sel = select_on_band(nets, band);
    sort_by_name(nets, &sel)
}

/// The pre-shared key of a network, empty when it has none.
pub open spec fn psk_of(n: NetworkView) -> Seq<char> {
    match n.passphrase {
        Some(p) => p,
        None => ""@,
    }
}

/// The `aaa.{w}` security lines of a network.
pub open spec fn security_lines(w: nat, n: NetworkView) -> Seq<Seq<char>> {
    let a = "aaa."@;
    match n.security {
        SecurityMode::Open => seq![iline(a, w, ".wpa="@, "0"@)],
        SecurityMode::Wpa2 => seq![
            iline(a, w, ".wpa="@, "2"@),
            iline(a, w, ".wpa.key.1.mgmt="@, "WPA-PSK"@),
            iline(a, w, ".wpa.psk="@, psk_of(n)),
            iline(a, w, ".wpa.1.pairwise="@, "CCMP"@),
        ],
        SecurityMode::Wpa3 => seq![
            iline(a, w, ".wpa="@, "2"@),
            iline(a, w, ".wpa.key.1.mgmt="@, "SAE"@),
            iline(a, w, ".wpa.psk="@, psk_of(n)),
            iline(a, w, ".wpa.1.pairwise="@, "CCMP"@),
            iline(a, w, ".wpa3.support="@, "enabled"@),
            iline(a, w, ".wpa3.transition="@, "disabled"@),
            iline(a, w, ".pmf.status="@, "enabled"@),
            iline(a, w, ".pmf.mode="@, "2"@),
        ],
        SecurityMode::Wpa2Wpa3 => seq![
            iline(a, w, ".wpa="@, "2"@),
            iline(a, w, ".wpa.key.1.mgmt="@, "WPA-PSK SAE"@),
            iline(a, w, ".wpa.psk="@, psk_of(n)),
            iline(a, w, ".wpa.1.pairwise="@, "CCMP"@),
            iline(a, w, ".wpa3.support="@, "enabled"@),
            iline(a, w, ".wpa3.transition="@, "enabled"@),
            iline(a, w, ".pmf.status="@, "enabled"@),
            iline(a, w, ".pmf.mode="@, "1"@),
        ],
    }
}

/// The interface of the VAP with global number `w` on radio slot `k`:
/// the radio's interface, `ap`, and `w - 1`.
pub open spec fn dev_name(k: int, w: nat) -> Seq<char> {
    slot_phy(k) + "ap"@ + dec((w - 1) as nat)
}

/// The network id of VAP `w` at time `t` (nanoseconds): `t + w`, capped
/// at the largest `u128`.
pub open spec fn stamp(t: u128, w: nat) -> nat {
    if t + w > u128::MAX {
        u128::MAX as nat
    } else {
        (t + w) as nat
    }
}

/// The lines of the `j`-th network (0-based) of radio slot `k`, the VAP
/// with global number `w`: the radio's main or `virtual.{j}` interface,
/// then its `wireless.{w}` and `aaa.{w}` entries.
pub open spec fn vap_lines(k: int, j: nat, w: nat, n: NetworkView, t: u128) -> Seq<Seq<char>> {
    let idx = (k + 1) as nat;
    let d = dev_name(k, w);
    let r = "radio."@;
    let wl = "wireless."@;
    let a = "aaa."@;
    (if j == 0 {
        seq![iline(r, idx, ".devname="@, d)]
    } else {
        seq![
            iline2(r, idx, ".virtual."@, j, ".status="@, "enabled"@),
            iline2(r, idx, ".virtual."@, j, ".devname="@, d),
            iline2(r, idx, ".virtual."@, j, ".mode="@, "master"@),
        ]
    }) + seq![
        iline(wl, w, ".devname="@, d),
        iline(wl, w, ".status="@, "enabled"@),
        iline(wl, w, ".ssid="@, n.ssid),
        iline(wl, w, ".mode="@, "master"@),
        iline(wl, w, ".security="@, "none"@),
        iline(wl, w, ".hide_ssid="@, bool_text(n.hidden)),
        iline(wl, w, ".parent="@, slot_phy(k)),
        iline(a, w, ".devname="@, d),
        iline(a, w, ".status="@, "enabled"@),
        iline(a, w, ".ssid="@, n.ssid),
        iline(a, w, ".id="@, hex_nz(stamp(t, w))),
    ] + security_lines(w, n)
}

/// The lines of the networks `l` of radio slot `k`, numbered from `w0`.
pub open spec fn vaps_lines(k: int, nets: Seq<(Seq<char>, NetworkView)>, l: Seq<usize>, w0: nat, t: u128) -> Seq<
    Seq<char>,
>
    decreases l.len(),
{
    if l.len() == 0 {
        Seq::empty()
    } else {
        vaps_lines(k, nets, l.drop_last(), w0, t) + vap_lines(
            k,
            (l.len() - 1) as nat,
            (w0 + l.len() - 1) as nat,
            nets[l.last() as int].1,
            t,
        )
    }
}

/// The settings of radio slot `k`.
pub open spec fn radio_head(k: int) -> Seq<Seq<char>> {
    let idx = (k + 1) as nat;
    let r = "radio."@;
    seq![
        iline(r, idx, ".status="@, "enabled"@),
        iline(r, idx, ".phyname="@, slot_phy(k)),
        iline(r, idx, ".mode="@, "master"@),
        iline(r, idx, ".ieee_mode="@, slot_mode(k)),
        iline(r, idx, ".channel="@, "auto"@),
        iline(r, idx, ".txpower="@, "auto"@),
    ]
}

/// Radio slot `k` with its networks, numbered from `w0`.
pub open spec fn slot_lines(nets: Seq<(Seq<char>, NetworkView)>, k: int, w0: nat, t: u128) -> Seq<Seq<char>> {
    radio_head(k) + vaps_lines(k, nets, band_list(nets, slot_band(k)), w0, t)
}

/// The `n` VAP interfaces of radio slot `k`, numbered from `w0`.
pub open spec fn slot_devs(k: int, n: nat, w0: nat) -> Seq<Seq<char>> {
    Seq::new(n, |j: int| dev_name(k, (w0 + j) as nat))
}

/// Appends the `aaa.{w}` security lines of a network.
fn push_security(lines: &mut Vec<String>, w: u128, n: &NetworkConfig)
    ensures
        views(final(lines)@) == views(old(lines)@) + security_lines(w as nat, n@),
{
    let ghost before = views(lines@);
    let psk: &str = match &n.passphrase {
        Some(p) => p.as_str(),
        None => "",
    };
    assert(psk@ == psk_of(n@));
    match n.security {
        SecurityMode::Open => {
            lines.push(idx_line("aaa.", w, ".wpa=", "0"));
        },
        SecurityMode::Wpa2 => {
            lines.push(idx_line("aaa.", w, ".wpa=", "2"));
            lines.push(idx_line("aaa.", w, ".wpa.key.1.mgmt=", "WPA-PSK"));
            lines.push(idx_line("aaa.", w, ".wpa.psk=", psk));
            lines.push(idx_line("aaa.", w, ".wpa.1.pairwise=", "CCMP"));
        },
        SecurityMode::Wpa3 => {
            lines.push(idx_line("aaa.", w, ".wpa=", "2"));
            lines.push(idx_line("aaa.", w, ".wpa.key.1.mgmt=", "SAE"));
            lines.push(idx_line("aaa.", w, ".wpa.psk=", psk));
            lines.push(idx_line("aaa.", w, ".wpa.1.pairwise=", "CCMP"));
            lines.push(idx_line("aaa.", w, ".wpa3.support=", "enabled"));
            lines.push(idx_line("aaa.", w, ".wpa3.transition=", "disabled"));
            lines.push(idx_line("aaa.", w, ".pmf.status=", "enabled"));
            lines.push(idx_line("aaa.", w, ".pmf.mode=", "2"));
        },
        SecurityMode::Wpa2Wpa3 => {
            lines.push(idx_line("aaa.", w, ".wpa=", "2"));
            lines.push(idx_line("aaa.", w, ".wpa.key.1.mgmt=", "WPA-PSK SAE"));
            lines.push(idx_line("aaa.", w, ".wpa.psk=", psk));
            lines.push(idx_line("aaa.", w, ".wpa.1.pairwise=", "CCMP"));
            lines.push(idx_line("aaa.", w, ".wpa3.support=", "enabled"));
            lines.push(idx_line("aaa.", w, ".wpa3.transition=", "enabled"));
            lines.push(idx_line("aaa.", w, ".pmf.status=", "enabled"));
            lines.push(idx_line("aaa.", w, ".pmf.mode=", "1"));
        },
    }
    assert(views(lines@) =~= before + security_lines(w as nat, n@));
}

/// The interface of VAP `w` on the radio with interface `phy`.
fn dev_name_of(phy: &str, w: u128) -> (d: String)
    requires
        w >= 1,
    ensures
        d@ == phy@ + "ap"@ + dec((w - 1) as nat),
{
    let mut d = String::from_str(phy);
    d.append("ap");
    push_dec(&mut d, w - 1);
    d
}

/// Appends the lines of the `j`-th network of radio slot `k`, VAP `w`,
/// and gives its interface.
fn push_vap(lines: &mut Vec<String>, k: u8, phy: &str, j: u128, w: u128, n: &NetworkConfig, t: u128) -> (d: String)
    requires
        k < 3,
        phy@ == slot_phy(k as int),
        w >= 1,
    ensures
        d@ == dev_name(k as int, w as nat),
        views(final(lines)@) == views(old(lines)@) + vap_lines(k as int, j as nat, w as nat, n@, t),
{
    let ghost before = views(lines@);
    let idx: u128 = k as u128 + 1;
    let d = dev_name_of(phy, w);
    if j == 0 {
        lines.push(idx_line("radio.", idx, ".devname=", d.as_str()));
    } else {
        lines.push(idx2_line("radio.", idx, ".virtual.", j, ".status=", "enabled"));
        lines.push(idx2_line("radio.", idx, ".virtual.", j, ".devname=", d.as_str()));
        lines.push(idx2_line("radio.", idx, ".virtual.", j, ".mode=", "master"));
    }
    lines.push(idx_line("wireless.", w, ".devname=", d.as_str()));
    lines.push(idx_line("wireless.", w, ".status=", "enabled"));
    lines.push(idx_line("wireless.", w, ".ssid=", n.ssid.as_str()));
    lines.push(idx_line("wireless.", w, ".mode=", "master"));
    lines.push(idx_line("wireless.", w, ".security=", "none"));
    lines.push(idx_line("wireless.", w, ".hide_ssid=", crate::text::bool_str(n.hidden)));
    lines.push(idx_line("wireless.", w, ".parent=", phy));
    lines.push(idx_line("aaa.", w, ".devname=", d.as_str()));
    lines.push(idx_line("aaa.", w, ".status=", "enabled"));
    lines.push(idx_line("aaa.", w, ".ssid=", n.ssid.as_str()));
    let mut id = String::new();
    crate::text::push_hex_nz(&mut id, t.saturating_add(w));
    lines.push(idx_line("aaa.", w, ".id=", id.as_str()));
    push_security(lines, w, n);
    assert(views(lines@) =~= before + vap_lines(k as int, j as nat, w as nat, n@, t));
    d
}

/// Appends radio slot `k` with its networks, numbered from `w0`, and adds
/// their interfaces to `ports`; gives the number of networks.
fn push_slot(
    lines: &mut Vec<String>,
    ports: &mut Vec<String>,
    nets: &Vec<(String, NetworkConfig)>,
    k: u8,
    w0: u128,
    t: u128,
) -> (n: u128)
    requires
        k < 3,
        1 <= w0 <= 1024,
        band_count(net_views(nets@), k as int) <= 256,
    ensures
        n == band_count(net_views(nets@), k as int),
        views(final(lines)@) == views(old(lines)@) + slot_lines(net_views(nets@), k as int, w0 as nat, t),
        views(final(ports)@) == views(old(ports)@) + slot_devs(k as int, n as nat, w0 as nat),
{
    let ghost nv = net_views(nets@);
    let (phy, mode, band) = slot(k);
    let idx: u128 = k as u128 + 1;
    lines.push(idx_line("radio.", idx, ".status=", "enabled"));
    lines.push(idx_line("radio.", idx, ".phyname=", phy));
    lines.push(idx_line("radio.", idx, ".mode=", "master"));
    lines.push(idx_line("radio.", idx, ".ieee_mode=", mode));
    lines.push(idx_line("radio.", idx, ".channel=", "auto"));
    lines.push(idx_line("radio.", idx, ".txpower=", "auto"));
    assert(views(lines@) =~= views(old(lines)@) + radio_head(k as int));
    let ghost head = views(lines@);
    let ghost ports0 = views(ports@);
    let l = band_positions(nets, band);
    let ghost lv = l@;
    let mut j: usize = 0;
    while j < l.len()
        invariant
            nv == net_views(nets@),
            lv == l@,
            lv == band_list(nv, slot_band(k as int)),
            forall|q: int| 0 <= q < lv.len() ==> lv[q] < nets@.len(),
            lv.len() <= 256,
            k < 3,
            phy@ == slot_phy(k as int),
            1 <= w0 <= 1024,
            j <= l.len(),
            views(lines@) == head + vaps_lines(k as int, nv, lv.take(j as int), w0 as nat, t),
            views(ports@) == ports0 + slot_devs(k as int, j as nat, w0 as nat),
        decreases l.len() - j,
    {
        let p = l[j];
        let w: u128 = w0 + j as u128;
        let d = push_vap(lines, k, phy, j as u128, w, &nets[p].1, t);
        let ghost pv = views(ports@);
        ports.push(d);
        proof {
            let tk = lv.take(j + 1);
            assert(tk.drop_last() =~= lv.take(j as int));
            assert(tk.last() == p);
            assert(nv[p as int].1 == nets@[p as int].1@);
            assert(views(ports@) =~= pv.push(dev_name(k as int, w as nat)));
            assert(slot_devs(k as int, (j + 1) as nat, w0 as nat) =~= slot_devs(k as int, j as nat, w0 as nat).push(
                dev_name(k as int, w as nat),
            ));
        }
        j = j + 1;
    }
    assert(lv.take(l.len() as int) =~= lv);
    l.len() as u128
}

/// The lines before the radios: system and users, then the fixed
/// connectivity, bridge, netconf, DHCP client and radio switches.
pub open spec fn ini_head(c: ProvisionConfig) -> Seq<Seq<char>> {
    let user = match c.management.username {
        Some(u) => u@,
        None => "ubnt"@,
    };
    let pass = match c.management.password {
        Some(p) => p@,
        None => "ubnt"@,
    };
    seq!["# system"@, "system.analytics.status=disabled"@] + (if c.country_code is Some {
        seq!["system.timezone=CET-1CEST,M3.5.0,M10.5.0/3"@, "locale.timezone=CET-1CEST,M3.5.0,M10.5.0/3"@]
    } else {
        Seq::empty()
    }) + seq![
        "# users"@,
        "users.status=enabled"@,
        "users.1.name="@ + user,
        "users.1.password="@ + pass,
        "users.1.status=enabled"@,
    ] + fixed_lines()
}

/// The fixed lines between the users and the radios.
pub open spec fn fixed_lines() -> Seq<Seq<char>> {
    seq![
        "# connectivity"@,
        "connectivity.status=enabled"@,
        "connectivity.uplink_bridge=br0"@,
        "connectivity.uplink_eth=eth0"@,
        "# bridge"@,
        "bridge.status=enabled"@,
        "bridge.1.devname=br0"@,
        "bridge.1.fd=1"@,
        "bridge.1.stp.status=disabled"@,
        "# netconf"@,
        "netconf.status=enabled"@,
        "netconf.1.devname=br0"@,
        "netconf.1.ip=0.0.0.0"@,
        "netconf.1.status=enabled"@,
        "netconf.1.up=enabled"@,
        "netconf.2.devname=eth0"@,
        "netconf.2.promisc=enabled"@,
        "netconf.2.status=enabled"@,
        "netconf.2.up=enabled"@,
        "# dhcpc"@,
        "dhcpc.status=enabled"@,
        "dhcpc.1.devname=br0"@,
        "dhcpc.1.status=enabled"@,
        "# wlans (radio)"@,
        "radio.status=enabled"@,
        "aaa.status=enabled"@,
        "wireless.status=enabled"@,
    ]
}

fn push_fixed(lines: &mut Vec<String>)
    ensures
        views(final(lines)@) == views(old(lines)@) + fixed_lines(),
{
    let ghost before = views(lines@);
    lines.push(String::from_str("# connectivity"));
    lines.push(String::from_str("connectivity.status=enabled"));
    lines.push(String::from_str("connectivity.uplink_bridge=br0"));
    lines.push(String::from_str("connectivity.uplink_eth=eth0"));
    lines.push(String::from_str("# bridge"));
    lines.push(String::from_str("bridge.status=enabled"));
    lines.push(String::from_str("bridge.1.devname=br0"));
    lines.push(String::from_str("bridge.1.fd=1"));
    lines.push(String::from_str("bridge.1.stp.status=disabled"));
    lines.push(String::from_str("# netconf"));
    lines.push(String::from_str("netconf.status=enabled"));
    lines.push(String::from_str("netconf.1.devname=br0"));
    lines.push(String::from_str("netconf.1.ip=0.0.0.0"));
    lines.push(String::from_str("netconf.1.status=enabled"));
    lines.push(String::from_str("netconf.1.up=enabled"));
    lines.push(String::from_str("netconf.2.devname=eth0"));
    lines.push(String::from_str("netconf.2.promisc=enabled"));
    lines.push(String::from_str("netconf.2.status=enabled"));
    lines.push(String::from_str("netconf.2.up=enabled"));
    lines.push(String::from_str("# dhcpc"));
    lines.push(String::from_str("dhcpc.status=enabled"));
    lines.push(String::from_str("dhcpc.1.devname=br0"));
    lines.push(String::from_str("dhcpc.1.status=enabled"));
    lines.push(String::from_str("# wlans (radio)"));
    lines.push(String::from_str("radio.status=enabled"));
    lines.push(String::from_str("aaa.status=enabled"));
    lines.push(String::from_str("wireless.status=enabled"));
    assert(views(lines@) =~= before + fixed_lines());
}

fn push_head(lines: &mut Vec<String>, c: &ProvisionConfig)
    ensures
        views(final(lines)@) == views(old(lines)@) + ini_head(*c),
{
    let ghost before = views(lines@);
    lines.push(String::from_str("# system"));
    lines.push(String::from_str("system.analytics.status=disabled"));
    if c.country_code.is_some() {
        lines.push(String::from_str("system.timezone=CET-1CEST,M3.5.0,M10.5.0/3"));
        lines.push(String::from_str("locale.timezone=CET-1CEST,M3.5.0,M10.5.0/3"));
    }
    let user: &str = match &c.management.username {
        Some(u) => u.as_str(),
        None => "ubnt",
    };
    let pass: &str = match &c.management.password {
        Some(p) => p.as_str(),
        None => "ubnt",
    };
    lines.push(String::from_str("# users"));
    lines.push(String::from_str("users.status=enabled"));
    lines.push(crate::text::cat("users.1.name=", user));
    lines.push(crate::text::cat("users.1.password=", pass));
    lines.push(String::from_str("users.1.status=enabled"));
    let ghost mid = views(lines@);
    push_fixed(lines);
    assert(views(lines@) =~= before + ini_head(*c));
}

/// The bridge ports: `eth0`, then the VAP interfaces of the three radios.
pub open spec fn bridge_ports(nets: Seq<(Seq<char>, NetworkView)>) -> Seq<Seq<char>> {
    let a = band_count(nets, 0);
    let b = band_count(nets, 1);
    seq!["eth0"@] + slot_devs(0, a, 1) + slot_devs(1, b, 1 + a) + slot_devs(2, band_count(nets, 2), 1 + a + b)
}

/// The three radios with their networks, numbered across radios from 1.
pub open spec fn radios_lines(nets: Seq<(Seq<char>, NetworkView)>, t: u128) -> Seq<Seq<char>> {
    let a = band_count(nets, 0);
    let b = band_count(nets, 1);
    slot_lines(nets, 0, 1, t) + slot_lines(nets, 1, 1 + a, t) + slot_lines(nets, 2, 1 + a + b, t)
}

/// One `bridge.1.port.{i}.devname` line per port, numbered from 1.
pub open spec fn port_lines(ports: Seq<Seq<char>>) -> Seq<Seq<char>> {
    Seq::new(ports.len(), |i: int| iline("bridge.1.port."@, (i + 1) as nat, ".devname="@, ports[i]))
}

/// The lines of the SSH key at 1-based index `idx`.
pub open spec fn sshd_key_lines(idx: nat, k: SshKeyView) -> Seq<Seq<char>> {
    let p = "sshd.auth.key."@;
    seq![iline(p, idx, ".status="@, "enabled"@), iline(p, idx, ".type="@, k.key_type), iline(p, idx, ".value="@, k.value)]
        + match k.comment {
        Some(c) => seq![iline(p, idx, ".comment="@, c)],
        None => Seq::empty(),
    }
}

/// The lines of the SSH keys, numbered from 1.
pub open spec fn sshd_keys_lines(keys: Seq<SshKeyView>) -> Seq<Seq<char>>
    decreases keys.len(),
{
    if keys.len() == 0 {
        Seq::empty()
    } else {
        sshd_keys_lines(keys.drop_last()) + sshd_key_lines(keys.len(), keys.last())
    }
}

/// The SSH daemon section: nothing without keys.
pub open spec fn sshd_lines(keys: Seq<SshKeyView>) -> Seq<Seq<char>> {
    if keys.len() == 0 {
        Seq::empty()
    } else {
        seq!["# sshd"@, "sshd.status=enabled"@, "sshd.1.ifname=br0"@, "sshd.1.status=enabled"@] + sshd_keys_lines(keys)
    }
}

/// The lines of the system configuration of device `mac` at time `t`.
pub open spec fn system_ini_lines(c: ProvisionConfig, mac: Seq<char>, t: u128) -> Seq<Seq<char>> {
    let nets = merged_networks(c, mac);
    ini_head(c) + radios_lines(nets, t) + port_lines(bridge_ports(nets)) + sshd_lines(key_views(c.ssh_keys@))
}

/// The system configuration text of device `mac` at time `t`.
pub open spec fn system_ini_text(c: ProvisionConfig, mac: Seq<char>, t: u128) -> Seq<char> {
    join_lines(system_ini_lines(c, mac, t))
}

/// No radio carries more than 256 networks (the numbering of virtual
/// interfaces is a byte).
pub open spec fn slots_fit(c: ProvisionConfig, mac: Seq<char>) -> bool {
    let nets = merged_networks(c, mac);
    &&& band_count(nets, 0) <= 256
    &&& band_count(nets, 1) <= 256
    &&& band_count(nets, 2) <= 256
}

fn push_ports(lines: &mut Vec<String>, ports: &Vec<String>)
    ensures
        views(final(lines)@) == views(old(lines)@) + port_lines(views(ports@)),
{
    let ghost before = views(lines@);
    let mut i: usize = 0;
    while i < ports.len()
        invariant
            i <= ports.len(),
            views(lines@) == before + port_lines(views(ports@).take(i as int)),
        decreases ports.len() - i,
    {
        let ghost pre = views(lines@);
        let line = idx_line("bridge.1.port.", i as u128 + 1, ".devname=", ports[i].as_str());
        assert(line@ == iline("bridge.1.port."@, (i + 1) as nat, ".devname="@, ports@[i as int]@));
        lines.push(line);
        assert(views(lines@) =~= pre.push(iline("bridge.1.port."@, (i + 1) as nat, ".devname="@, ports@[i as int]@)));
        assert(port_lines(views(ports@).take(i + 1)) =~= port_lines(views(ports@).take(i as int)).push(
            iline("bridge.1.port."@, (i + 1) as nat, ".devname="@, ports@[i as int]@),
        ));
        i = i + 1;
    }
    assert(views(ports@).take(ports.len() as int) =~= views(ports@));
}

fn push_sshd(lines: &mut Vec<String>, keys: &Vec<SshKey>)
    ensures
        views(final(lines)@) == views(old(lines)@) + sshd_lines(key_views(keys@)),
{
    if keys.len() == 0 {
        assert(views(lines@) =~= views(old(lines)@) + sshd_lines(key_views(keys@)));
        return;
    }
    let ghost before = views(lines@);
    lines.push(String::from_str("# sshd"));
    lines.push(String::from_str("sshd.status=enabled"));
    lines.push(String::from_str("sshd.1.ifname=br0"));
    lines.push(String::from_str("sshd.1.status=enabled"));
    let ghost start = views(lines@);
    let ghost kv = key_views(keys@);
    let mut i: usize = 0;
    while i < keys.len()
        invariant
            kv == key_views(keys@),
            i <= keys.len(),
            views(lines@) == start + sshd_keys_lines(kv.take(i as int)),
        decreases keys.len() - i,
    {
        let ghost pre = views(lines@);
        let idx: u128 = i as u128 + 1;
        let k = &keys[i];
        lines.push(idx_line("sshd.auth.key.", idx, ".status=", "enabled"));
        lines.push(idx_line("sshd.auth.key.", idx, ".type=", k.key_type.as_str()));
        lines.push(idx_line("sshd.auth.key.", idx, ".value=", k.value.as_str()));
        match &k.comment {
            Some(c) => {
                lines.push(idx_line("sshd.auth.key.", idx, ".comment=", c.as_str()));
            },
            None => {},
        }
        proof {
            let tk = kv.take(i + 1);
            assert(tk.drop_last() =~= kv.take(i as int));
            assert(tk.last() == k@);
            assert(views(lines@) =~= pre + sshd_key_lines((i + 1) as nat, k@));
        }
        i = i + 1;
    }
    assert(kv.take(keys.len() as int) =~= kv);
    assert(views(lines@) =~= before + sshd_lines(key_views(keys@)));
}

/// Counts the networks on the band of radio slot `k`.
fn slot_count(nets: &Vec<(String, NetworkConfig)>, k: u8) -> (n: usize)
    requires
        k < 3,
    ensures
        n == band_count(net_views(nets@), k as int),
{
    let (_phy, _mode, band) = slot(k);
    band_positions(nets, band).len()
}

impl ProvisionConfig {
    /// Whether no radio of device `mac` would carry more than 256 networks.
    pub fn slots_fit_check(&self, mac: &str) -> (b: bool)
        ensures
            b == slots_fit(*self, mac@),
    {
        let nets = self.get_networks_for_device(mac);
        slot_count(&nets, 0) <= 256 && slot_count(&nets, 1) <= 256 && slot_count(&nets, 2) <= 256
    }

    /// The system configuration of device `mac`, with network ids made
    /// from the time `t` in nanoseconds since the Unix epoch.
    pub fn generate_system_ini_at(&self, mac: &str, t: u128) -> (r: String)
        requires
            slots_fit(*self, mac@),
        ensures
            r@ == system_ini_text(*self, mac@, t),
    {
        let nets = self.get_networks_for_device(mac);
        let ghost nv = net_views(nets@);
        let mut lines: Vec<String> = Vec::new();
        push_head(&mut lines, self);
        let mut ports: Vec<String> = Vec::new();
        ports.push(String::from_str("eth0"));
        let a = push_slot(&mut lines, &mut ports, &nets, 0, 1, t);
        let b = push_slot(&mut lines, &mut ports, &nets, 1, 1 + a, t);
        let _c = push_slot(&mut lines, &mut ports, &nets, 2, 1 + a + b, t);
        push_ports(&mut lines, &ports);
        push_sshd(&mut lines, &self.ssh_keys);
        assert(views(ports@) =~= bridge_ports(nv));
        assert(views(lines@) =~= system_ini_lines(*self, mac@, t));
        crate::text::join_lines_exec(&lines)
    }

    /// The system configuration of device `mac`: system and users, the
    /// fixed interfaces, the three radios with one VAP per network on
    /// their band (sorted by name, numbered across radios), the bridge
    /// ports and the SSH keys. Network ids come from the current time.
    pub fn generate_system_ini(&self, mac: &str) -> (r: String)
        requires
            slots_fit(*self, mac@),
        ensures
            exists|t: u128| r@ == system_ini_text(*self, mac@, t),
    {
        let t = crate::config::unix_time_nanos();
        self.generate_system_ini_at(mac, t)
    }

    /// The system configuration of device `mac`, or `None` where a radio
    /// would carry more than 256 networks.
    pub fn generate_system_ini_checked(&self, mac: &str) -> (r: Option<String>)
        ensures
            r is None <==> !slots_fit(*self, mac@),
            r matches Some(s) ==> exists|t: u128| s@ == system_ini_text(*self, mac@, t),
    {
        if self.slots_fit_check(mac) {
            Some(self.generate_system_ini(mac))
        } else {
            None
        }
    }
}

/// The radio interface of a band in the compact format.
pub open spec fn radio_dev(b: Band) -> Seq<char> {
    match b {
        Band::Band2g => "wifi0"@,
        Band::Band5g => "wifi1"@,
        Band::Band6g => "wifi2"@,
    }
}

fn radio_dev_of(b: Band) -> (s: &'static str)
    ensures
        s@ == radio_dev(b),
{
    match b {
        Band::Band2g => "wifi0",
        Band::Band5g => "wifi1",
        Band::Band6g => "wifi2",
    }
}

/// The `aaa.{a}` and `wireless.{a}` entries of network `n` on band `b`.
pub open spec fn cfg_entry(n: NetworkView, b: Band, a: nat) -> Seq<Seq<char>> {
    let aa = "aaa."@;
    let v = crate::types::ini_values(n.security);
    seq![
        iline(aa, a, ".status="@, "enabled"@),
        iline(aa, a, ".essid="@, n.ssid),
        iline(aa, a, ".hide_ssid="@, bool_text(n.hidden)),
    ] + (if n.security is Open {
        Seq::empty()
    } else {
        (match n.passphrase {
            Some(p) => seq![iline(aa, a, ".wpa.psk="@, p)],
            None => Seq::empty(),
        }) + seq![iline(aa, a, ".wpa.key.1.mgmt="@, v.0), iline(aa, a, ".wpa.key.1.cipher="@, v.1)]
    }) + (match n.vlan {
        Some(id) => seq![iline(aa, a, ".vlan="@, dec(id as nat))],
        None => Seq::empty(),
    }) + (if n.guest {
        seq![iline(aa, a, ".l2_isolation="@, "enabled"@)]
    } else {
        Seq::empty()
    }) + seq![
        iline("wireless."@, a, ".status="@, "enabled"@),
        iline("wireless."@, a, ".devname="@, radio_dev(b)),
        iline("wireless."@, a, ".security="@, dec(a)),
    ]
}

/// The entries of network `n` on the bands `bs`, numbered from `a0`.
pub open spec fn band_entries(n: NetworkView, bs: Seq<Band>, a0: nat) -> Seq<Seq<char>>
    decreases bs.len(),
{
    if bs.len() == 0 {
        Seq::empty()
    } else {
        band_entries(n, bs.drop_last(), a0) + cfg_entry(n, bs.last(), (a0 + bs.len() - 1) as nat)
    }
}

/// The number of (network, band) pairs.
pub open spec fn total_bands(nets: Seq<(Seq<char>, NetworkView)>) -> nat
    decreases nets.len(),
{
    if nets.len() == 0 {
        0
    } else {
        total_bands(nets.drop_last()) + nets.last().1.bands.len()
    }
}

/// The entries of every network on each of its bands, in list order,
/// numbered from `a0`.
pub open spec fn net_entries(nets: Seq<(Seq<char>, NetworkView)>, a0: nat) -> Seq<Seq<char>>
    decreases nets.len(),
{
    if nets.len() == 0 {
        Seq::empty()
    } else {
        net_entries(nets.drop_last(), a0) + band_entries(
            nets.last().1,
            nets.last().1.bands,
            a0 + total_bands(nets.drop_last()),
        )
    }
}

/// The compact system configuration lines of device `mac`: the radios,
/// the network entries, and the SSH section when keys are set.
pub open spec fn system_cfg_lines(c: ProvisionConfig, mac: Seq<char>) -> Seq<Seq<char>> {
    cfg_head() + net_entries(merged_networks(c, mac), 1) + cfg_sshd(c.ssh_keys@.len())
}

/// The radio lines of the compact format.
pub open spec fn cfg_head() -> Seq<Seq<char>> {
    seq![
        "# Radio configuration"@,
        "radio.1.status=enabled"@,
        "radio.1.channel=auto"@,
        "radio.1.txpower=auto"@,
        "radio.2.status=enabled"@,
        "radio.2.channel=auto"@,
        "radio.2.txpower=auto"@,
        "radio.3.status=enabled"@,
        "radio.3.channel=auto"@,
        "radio.3.txpower=auto"@,
        "\n# Wireless networks"@,
    ]
}

/// The SSH section of the compact format, for `n` keys.
pub open spec fn cfg_sshd(n: nat) -> Seq<Seq<char>> {
    if n == 0 {
        Seq::empty()
    } else {
        seq![
            "\n# SSH configuration"@,
            "sshd.status=enabled"@,
            "sshd.1.ifname=br0"@,
            "sshd.1.status=enabled"@,
            "sshd.auth.passwd=enabled"@,
        ]
    }
}

/// A prefix has no more (network, band) pairs than the whole list.
proof fn lemma_total_prefix(nets: Seq<(Seq<char>, NetworkView)>, i: int)
    requires
        0 <= i <= nets.len(),
    ensures
        total_bands(nets.take(i)) <= total_bands(nets),
    decreases nets.len(),
{
    if i < nets.len() {
        assert(nets.drop_last().take(i) =~= nets.take(i));
        lemma_total_prefix(nets.drop_last(), i);
    } else {
        assert(nets.take(i) =~= nets);
    }
}

/// Appends the entry of network `n` on band `b`, number `a`.
fn push_cfg_entry(lines: &mut Vec<String>, n: &NetworkConfig, b: Band, a: u128)
    ensures
        views(final(lines)@) == views(old(lines)@) + cfg_entry(n@, b, a as nat),
{
    let ghost before = views(lines@);
    let (auth, cipher) = n.security.to_ini_values();
    lines.push(idx_line("aaa.", a, ".status=", "enabled"));
    lines.push(idx_line("aaa.", a, ".essid=", n.ssid.as_str()));
    lines.push(idx_line("aaa.", a, ".hide_ssid=", crate::text::bool_str(n.hidden)));
    match n.security {
        SecurityMode::Open => {},
        _ => {
            match &n.passphrase {
                Some(p) => {
                    lines.push(idx_line("aaa.", a, ".wpa.psk=", p.as_str()));
                },
                None => {},
            }
            lines.push(idx_line("aaa.", a, ".wpa.key.1.mgmt=", auth));
            lines.push(idx_line("aaa.", a, ".wpa.key.1.cipher=", cipher));
        },
    }
    match n.vlan {
        Some(id) => {
            lines.push(idx_line("aaa.", a, ".vlan=", crate::text::dec_string(id as u64).as_str()));
        },
        None => {},
    }
    if n.guest {
        lines.push(idx_line("aaa.", a, ".l2_isolation=", "enabled"));
    }
    lines.push(idx_line("wireless.", a, ".status=", "enabled"));
    lines.push(idx_line("wireless.", a, ".devname=", radio_dev_of(b)));
    let mut num = String::new();
    push_dec(&mut num, a);
    lines.push(idx_line("wireless.", a, ".security=", num.as_str()));
    assert(views(lines@) =~= before + cfg_entry(n@, b, a as nat));
}

/// Appends the entries of network `n` on each of its bands from `a0`.
fn push_band_entries(lines: &mut Vec<String>, n: &NetworkConfig, a0: u128)
    requires
        a0 + n.bands@.len() <= u64::MAX,
    ensures
        views(final(lines)@) == views(old(lines)@) + band_entries(n@, n.bands@, a0 as nat),
{
    let ghost start = views(lines@);
    let mut i: usize = 0;
    while i < n.bands.len()
        invariant
            a0 + n.bands@.len() <= u64::MAX,
            i <= n.bands.len(),
            views(lines@) == start + band_entries(n@, n.bands@.take(i as int), a0 as nat),
        decreases n.bands.len() - i,
    {
        push_cfg_entry(lines, n, n.bands[i], a0 + i as u128);
        proof {
            let t = n.bands@.take(i + 1);
            assert(t.drop_last() =~= n.bands@.take(i as int));
        }
        i = i + 1;
    }
    assert(n.bands@.take(n.bands.len() as int) =~= n.bands@);
}

impl ProvisionConfig {
    /// The compact system configuration of device `mac`: the three
    /// radios, then for each network (in list order) and each of its
    /// bands an `aaa` entry (SSID, hiding, key and cipher unless open,
    /// VLAN, guest isolation) and a `wireless` entry bound to the radio of
    /// the band, numbered from 1; an SSH section when keys are set.
    pub fn generate_system_cfg(&self, mac: &str) -> (r: String)
        requires
            total_bands(merged_networks(*self, mac@)) < 0x7fff_ffff,
        ensures
            r@ == join_lines(system_cfg_lines(*self, mac@)),
    {
        let nets = self.get_networks_for_device(mac);
        let ghost nv = net_views(nets@);
        let mut lines: Vec<String> = Vec::new();
        lines.push(String::from_str("# Radio configuration"));
        lines.push(String::from_str("radio.1.status=enabled"));
        lines.push(String::from_str("radio.1.channel=auto"));
        lines.push(String::from_str("radio.1.txpower=auto"));
        lines.push(String::from_str("radio.2.status=enabled"));
        lines.push(String::from_str("radio.2.channel=auto"));
        lines.push(String::from_str("radio.2.txpower=auto"));
        lines.push(String::from_str("radio.3.status=enabled"));
        lines.push(String::from_str("radio.3.channel=auto"));
        lines.push(String::from_str("radio.3.txpower=auto"));
        lines.push(String::from_str("\n# Wireless networks"));
        let ghost head = views(lines@);
        assert(head =~= cfg_head());
        let mut a: u128 = 1;
        let mut i: usize = 0;
        while i < nets.len()
            invariant
                nv == net_views(nets@),
                total_bands(nv) < 0x7fff_ffff,
                i <= nets.len(),
                a == 1 + total_bands(nv.take(i as int)),
                views(lines@) == head + net_entries(nv.take(i as int), 1),
            decreases nets.len() - i,
        {
            proof {
                let t = nv.take(i + 1);
                assert(t.drop_last() =~= nv.take(i as int));
                assert(t.last() == nv[i as int]);
                lemma_total_prefix(nv, i + 1);
            }
            push_band_entries(&mut lines, &nets[i].1, a);
            a = a + nets[i].1.bands.len() as u128;
            i = i + 1;
        }
        assert(nv.take(nets.len() as int) =~= nv);
        let ghost body = views(lines@);
        if self.ssh_keys.len() > 0 {
            lines.push(String::from_str("\n# SSH configuration"));
            lines.push(String::from_str("sshd.status=enabled"));
            lines.push(String::from_str("sshd.1.ifname=br0"));
            lines.push(String::from_str("sshd.1.status=enabled"));
            lines.push(String::from_str("sshd.auth.passwd=enabled"));
        }
        assert(views(lines@) =~= body + cfg_sshd(self.ssh_keys@.len()));
        assert(views(lines@) =~= system_cfg_lines(*self, mac@));
        crate::text::join_lines_exec(&lines)
    }

    /// Whether device `mac` has fewer than 2^31 - 1 (network, band) pairs.
    pub fn system_cfg_fits(&self, mac: &str) -> (b: bool)
        ensures
            b == (total_bands(merged_networks(*self, mac@)) < 0x7fff_ffff),
    {
        let nets = self.get_networks_for_device(mac);
        let ghost nv = net_views(nets@);
        let mut total: u128 = 0;
        let mut i: usize = 0;
        while i < nets.len()
            invariant
                nv == net_views(nets@),
                nv == merged_networks(*self, mac@),
                i <= nets.len(),
                total == total_bands(nv.take(i as int)),
                total < 0x7fff_ffff,
            decreases nets.len() - i,
        {
            proof {
                let t = nv.take(i + 1);
                assert(t.drop_last() =~= nv.take(i as int));
                assert(t.last() == nv[i as int]);
            }
            total = total + nets[i].1.bands.len() as u128;
            if total >= 0x7fff_ffff {
                proof {
                    assert(total == total_bands(nv.take(i + 1)));
                    lemma_total_prefix(nv, i + 1);
                }
                return false;
            }
            i = i + 1;
        }
        assert(nv.take(nets.len() as int) =~= nv);
        true
    }
}

/// The text of an optional string argument.
pub open spec fn opt_text(o: Option<&str>) -> Option<Seq<char>> {
    match o {
        Some(s) => Some(s@),
        None => None,
    }
}

/// The management configuration lines of device `mac` at Unix time
/// `secs`: capabilities, the version (`secs` as 16 hex digits), the LED
/// state, fixed flags, the authentication key and inform URL when given,
/// then the SSH keys.
pub open spec fn mgmt_cfg_lines(
    c: ProvisionConfig,
    mac: Seq<char>,
    auth_key: Option<Seq<char>>,
    inform_url: Option<Seq<char>>,
    secs: u64,
) -> Seq<Seq<char>> {
    seq![
        "capability=notif,fastapply-bg,notif-assoc-stat"@,
        "cfgversion="@ + crate::text::hex16(secs),
        "led_enabled="@ + bool_text(crate::provision::led_of(c, mac)),
        "report_crash=true"@,
        "selfrun_guest_mode=pass"@,
        "use_aes_gcm=true"@,
    ] + (match auth_key {
        Some(k) => seq!["authkey="@ + k],
        None => Seq::empty(),
    }) + (match inform_url {
        Some(u) => seq!["inform_url="@ + u],
        None => Seq::empty(),
    }) + crate::config::keys_lines("mgmt.sshkeys."@, key_views(c.ssh_keys@))
}

/// The whole seconds of a non-negative time in nanoseconds.
pub open spec fn clock_secs(n: i64) -> u64 {
    (n / 1_000_000_000) as u64
}

impl ProvisionConfig {
    /// The management configuration of device `mac` with configuration
    /// version `secs` (Unix seconds).
    pub fn generate_mgmt_cfg_with_auth_at(
        &self,
        mac: &str,
        auth_key: Option<&str>,
        inform_url: Option<&str>,
        secs: u64,
    ) -> (r: String)
        ensures
            r@ == join_lines(mgmt_cfg_lines(*self, mac@, opt_text(auth_key), opt_text(inform_url), secs)),
    {
        let led = self.get_led_for_device(mac);
        let mut lines: Vec<String> = Vec::new();
        lines.push(String::from_str("capability=notif,fastapply-bg,notif-assoc-stat"));
        let mut v = String::from_str("cfgversion=");
        crate::text::push_hex16(&mut v, secs);
        lines.push(v);
        lines.push(crate::text::cat("led_enabled=", crate::text::bool_str(led)));
        lines.push(String::from_str("report_crash=true"));
        lines.push(String::from_str("selfrun_guest_mode=pass"));
        lines.push(String::from_str("use_aes_gcm=true"));
        match auth_key {
            Some(k) => lines.push(crate::text::cat("authkey=", k)),
            None => {},
        }
        match inform_url {
            Some(u) => lines.push(crate::text::cat("inform_url=", u)),
            None => {},
        }
        let ghost head = views(lines@);
        crate::config::push_keys_lines(&mut lines, "mgmt.sshkeys.", &self.ssh_keys);
        assert(views(lines@) =~= mgmt_cfg_lines(*self, mac@, opt_text(auth_key), opt_text(inform_url), secs));
        crate::text::join_lines_exec(&lines)
    }

    /// The management configuration of device `mac` with the given
    /// authentication key and inform URL; the version is the current Unix
    /// time in whole seconds, read from the nanosecond clock (0 for a clock
    /// set before the epoch).
    pub fn generate_mgmt_cfg_with_auth(&self, mac: &str, auth_key: Option<&str>, inform_url: Option<&str>) -> (r:
        String)
        ensures
            exists|n: i64|
                n >= 0 && r@ == join_lines(
                    #[trigger] mgmt_cfg_lines(*self, mac@, opt_text(auth_key), opt_text(inform_url), clock_secs(n)),
                ),
    {
        let n = crate::state::utc_now_nanos();
        let m: i64 = if n >= 0 {
            n
        } else {
            0
        };
        let secs = (m / 1_000_000_000) as u64;
        assert(secs == clock_secs(m));
        self.generate_mgmt_cfg_with_auth_at(mac, auth_key, inform_url, secs)
    }

    /// The management configuration of device `mac` without key or URL.
    pub fn generate_mgmt_cfg(&self, mac: &str) -> (r: String)
        ensures
            exists|n: i64| n >= 0 && r@ == join_lines(#[trigger] mgmt_cfg_lines(*self, mac@, None, None, clock_secs(n))),
    {
        self.generate_mgmt_cfg_with_auth(mac, None, None)
    }
}

} // verus!
