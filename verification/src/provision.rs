//! The override-based provisioning configuration: default networks, per
//! device overrides (networks replaced or disabled, LED), and the
//! configuration texts generated from it.

use vstd::prelude::*;
use crate::config::{clone_opt_string, key_views, opt_view, SshKey, SshKeyView};
use crate::ini::str_eq;
use crate::models::{distinct_keys, find_key, has_distinct_keys, is_first_key, lookup, ManagementConfig};
use crate::text::{lowercase, strip_char, to_lower, views, without};
use crate::types::{Band, SecurityMode};

verus! {

/// The values of a network.
pub struct NetworkView {
    pub ssid: Seq<char>,
    pub passphrase: Option<Seq<char>>,
    pub security: SecurityMode,
    pub bands: Seq<Band>,
    pub vlan: Option<u16>,
    pub hidden: bool,
    pub guest: bool,
    pub pmf: u8,
}

/// A Wi-Fi network.
#[derive(Debug)]
pub struct NetworkConfig {
    pub ssid: String,
    pub passphrase: Option<String>,
    pub security: SecurityMode,
    /// Bands to broadcast on.
    pub bands: Vec<Band>,
    /// VLAN id (`None`: untagged).
    pub vlan: Option<u16>,
    pub hidden: bool,
    /// Guest isolation.
    pub guest: bool,
    /// Protected management frames: 0 disabled, 1 optional, 2 required.
    pub pmf: u8,
}

impl View for NetworkConfig {
    type V = NetworkView;

    open spec fn view(&self) -> NetworkView {
        NetworkView {
            ssid: self.ssid@,
            passphrase: opt_view(self.passphrase),
            security: self.security,
            bands: self.bands@,
            vlan: self.vlan,
            hidden: self.hidden,
            guest: self.guest,
            pmf: self.pmf,
        }
    }
}

/// Copies a band list.
pub fn copy_bands(v: &Vec<Band>) -> (r: Vec<Band>)
    ensures
        r@ == v@,
{
    let mut r: Vec<Band> = Vec::new();
    let mut i: usize = 0;
    while i < v.len()
        invariant
            i <= v.len(),
            r@ == v@.take(i as int),
        decreases v.len() - i,
    {
        r.push(v[i]);
        assert(r@ =~= v@.take(i + 1));
        i = i + 1;
    }
    assert(v@.take(v.len() as int) =~= v@);
    r
}

impl Clone for NetworkConfig {
    fn clone(&self) -> (r: NetworkConfig)
        ensures
            r@ == self@,
    {
        NetworkConfig {
            ssid: self.ssid.clone(),
            passphrase: clone_opt_string(&self.passphrase),
            security: self.security,
            bands: copy_bands(&self.bands),
            vlan: self.vlan,
            hidden: self.hidden,
            guest: self.guest,
            pmf: self.pmf,
        }
    }
}

/// The bands of a network that names none: 2.4 and 5 GHz.
pub fn default_bands() -> (v: Vec<Band>)
    ensures
        v@ == seq![Band::Band2g, Band::Band5g],
{
    let mut v = Vec::new();
    v.push(Band::Band2g);
    v.push(Band::Band5g);
    v
}

/// The PMF mode of a network that names none: optional.
pub fn default_pmf() -> (p: u8)
    ensures
        p == 1,
{
    1
}

/// The default of flags that are on unless set.
pub fn default_true() -> (b: bool)
    ensures
        b,
{
    true
}

/// The interface the SSH daemon binds to unless set.
pub fn default_interface() -> (s: String)
    ensures
        s@ == "br0"@,
{
    String::from_str("br0")
}

/// Settings of one device that override the defaults.
#[derive(Debug)]
pub struct DeviceOverride {
    /// Friendly name.
    pub name: Option<String>,
    /// Networks replaced or added, by name.
    pub networks: Vec<(String, NetworkConfig)>,
    /// Default networks not broadcast by this device.
    pub disabled_networks: Vec<String>,
    /// LED on or off.
    pub led_enabled: Option<bool>,
}

/// The provisioning configuration. The keyed tables are lists of
/// `(key, value)` with distinct keys; device keys are MAC addresses in
/// lower-case hex without separators.
#[derive(Debug)]
pub struct ProvisionConfig {
    /// Default networks, by name.
    pub networks: Vec<(String, NetworkConfig)>,
    pub ssh_keys: Vec<SshKey>,
    /// Per-device overrides by device key.
    pub devices: Vec<(String, DeviceOverride)>,
    /// Default LED state.
    pub led_enabled: bool,
    pub country_code: Option<String>,
    pub management: ManagementConfig,
}

impl Default for ProvisionConfig {
    fn default() -> (c: ProvisionConfig)
        ensures
            c.networks@.len() == 0,
            c.ssh_keys@.len() == 0,
            c.devices@.len() == 0,
            c.led_enabled,
            c.country_code is None,
            c.management.username is None,
            c.management.password is None,
            c.management.ssh_key is None,
            c.management.stun_url is None,
            c.well_formed(),
    {
        ProvisionConfig {
            networks: Vec::new(),
            ssh_keys: Vec::new(),
            devices: Vec::new(),
            led_enabled: true,
            country_code: None,
            management: ManagementConfig { username: None, password: None, ssh_key: None, stun_url: None },
        }
    }
}

/// Named network values.
pub open spec fn net_views(l: Seq<(String, NetworkConfig)>) -> Seq<(Seq<char>, NetworkView)> {
    l.map_values(|p: (String, NetworkConfig)| (p.0@, p.1@))
}

/// The list without the entries named `k`.
pub open spec fn remove_name(l: Seq<(Seq<char>, NetworkView)>, k: Seq<char>) -> Seq<(Seq<char>, NetworkView)>
    decreases l.len(),
{
    if l.len() == 0 {
        l
    } else if l.last().0 == k {
        remove_name(l.drop_last(), k)
    } else {
        remove_name(l.drop_last(), k).push(l.last())
    }
}

/// `i` is the first entry named `k`.
pub open spec fn is_first_name(l: Seq<(Seq<char>, NetworkView)>, k: Seq<char>, i: int) -> bool {
    0 <= i < l.len() && l[i].0 == k && forall|j: int| 0 <= j < i ==> l[j].0 != k
}

/// The list with the entry named `k` set to `v`: replaced in place, or
/// added at the end.
pub open spec fn set_name(l: Seq<(Seq<char>, NetworkView)>, k: Seq<char>, v: NetworkView) -> Seq<
    (Seq<char>, NetworkView),
> {
    if exists|i: int| is_first_name(l, k, i) {
        l.update(choose|i: int| is_first_name(l, k, i), (k, v))
    } else {
        l.push((k, v))
    }
}

/// The list without the entries of the given names.
pub open spec fn remove_all(l: Seq<(Seq<char>, NetworkView)>, names: Seq<Seq<char>>) -> Seq<(Seq<char>, NetworkView)>
    decreases names.len(),
{
    if names.len() == 0 {
        l
    } else {
        remove_name(remove_all(l, names.drop_last()), names.last())
    }
}

/// The list with the given entries set, in order.
pub open spec fn set_all(l: Seq<(Seq<char>, NetworkView)>, ov: Seq<(Seq<char>, NetworkView)>) -> Seq<
    (Seq<char>, NetworkView),
>
    decreases ov.len(),
{
    if ov.len() == 0 {
        l
    } else {
        let r = set_all(l, ov.drop_last());
        set_name(r, ov.last().0, ov.last().1)
    }
}

/// The device key of a MAC address text: colons and dashes removed,
/// lower-cased.
pub open spec fn override_key(mac: Seq<char>) -> Seq<char> {
    lowercase(without(without(mac, ':'), '-'))
}

/// The device key of a MAC address text.
pub fn override_key_of(mac: &str) -> (k: String)
    ensures
        k@ == override_key(mac@),
{
    let a = strip_char(mac, ':');
    let b = strip_char(a.as_str(), '-');
    to_lower(b.as_str())
}

/// The networks of a device: the defaults without the ones it disables,
/// then its own networks set by name.
pub open spec fn merged_networks(c: ProvisionConfig, mac: Seq<char>) -> Seq<(Seq<char>, NetworkView)> {
    match lookup(c.devices@, override_key(mac)) {
        Some(d) => set_all(remove_all(net_views(c.networks@), views(d.disabled_networks@)), net_views(d.networks@)),
        None => net_views(c.networks@),
    }
}

/// The LED state of a device: its own, else the default.
pub open spec fn led_of(c: ProvisionConfig, mac: Seq<char>) -> bool {
    match lookup(c.devices@, override_key(mac)) {
        Some(d) => match d.led_enabled {
            Some(b) => b,
            None => c.led_enabled,
        },
        None => c.led_enabled,
    }
}

/// Copies a named network list.
pub fn clone_networks(l: &Vec<(String, NetworkConfig)>) -> (r: Vec<(String, NetworkConfig)>)
    ensures
        net_views(r@) == net_views(l@),
{
    let mut r: Vec<(String, NetworkConfig)> = Vec::new();
    let mut i: usize = 0;
    while i < l.len()
        invariant
            i <= l.len(),
            net_views(r@) == net_views(l@).take(i as int),
        decreases l.len() - i,
    {
        let ghost before = net_views(r@);
        r.push((l[i].0.clone(), l[i].1.clone()));
        assert(net_views(r@) =~= before.push((l@[i as int].0@, l@[i as int].1@)));
        assert(net_views(l@).take(i + 1) =~= net_views(l@).take(i as int).push((l@[i as int].0@, l@[i as int].1@)));
        i = i + 1;
    }
    assert(net_views(l@).take(l.len() as int) =~= net_views(l@));
    r
}

/// Removes the entries named `k`.
fn remove_named(l: &Vec<(String, NetworkConfig)>, k: &str) -> (r: Vec<(String, NetworkConfig)>)
    ensures
        net_views(r@) == remove_name(net_views(l@), k@),
{
    let mut r: Vec<(String, NetworkConfig)> = Vec::new();
    let ghost lv = net_views(l@);
    let mut i: usize = 0;
    while i < l.len()
        invariant
            lv == net_views(l@),
            i <= l.len(),
            net_views(r@) == remove_name(lv.take(i as int), k@),
        decreases l.len() - i,
    {
        proof {
            assert(lv.take(i + 1).drop_last() =~= lv.take(i as int));
            assert(lv.take(i + 1).last() == lv[i as int]);
        }
        if !str_eq(l[i].0.as_str(), k) {
            let ghost before = net_views(r@);
            r.push((l[i].0.clone(), l[i].1.clone()));
            assert(net_views(r@) =~= before.push(lv[i as int]));
        }
        i = i + 1;
    }
    assert(lv.take(i as int) =~= lv);
    r
}

/// Sets the entry named `k` to `v`: replaced in place, or added.
fn set_named(l: &mut Vec<(String, NetworkConfig)>, k: &str, v: NetworkConfig)
    ensures
        net_views(final(l)@) == set_name(net_views(old(l)@), k@, v@),
{
    let ghost lv = net_views(l@);
    let mut i: usize = 0;
    while i < l.len()
        invariant
            lv == net_views(l@),
            l@ == old(l)@,
            i <= l.len(),
            forall|j: int| 0 <= j < i ==> lv[j].0 != k@,
        decreases l.len() - i,
    {
        if str_eq(l[i].0.as_str(), k) {
            proof {
                assert(is_first_name(lv, k@, i as int));
                let c = choose|c: int| is_first_name(lv, k@, c);
                if c < i {
                    assert(lv[c].0 != k@);
                } else if c > i {
                    assert(lv[i as int].0 != k@);
                }
                assert(c == i);
            }
            assert(set_name(lv, k@, v@) == lv.update(i as int, (k@, v@)));
            l.set(i, (String::from_str(k), v));
            assert(net_views(l@) =~= lv.update(i as int, (k@, v@)));
            return;
        }
        i = i + 1;
    }
    assert(!exists|c: int| is_first_name(lv, k@, c)) by {
        if exists|c: int| is_first_name(lv, k@, c) {
            let c = choose|c: int| is_first_name(lv, k@, c);
            assert(lv[c].0 != k@);
        }
    }
    l.push((String::from_str(k), v));
    assert(net_views(l@) =~= lv.push((k@, v@)));
}

impl ProvisionConfig {
    /// The networks of a device: the defaults, without those it disables,
    /// with its own set by name.
    pub fn get_networks_for_device(&self, mac: &str) -> (r: Vec<(String, NetworkConfig)>)
        ensures
            net_views(r@) == merged_networks(*self, mac@),
    {
        let key = override_key_of(mac);
        let mut networks = clone_networks(&self.networks);
        match find_key(&self.devices, key.as_str()) {
            Some(di) => {
                let device = &self.devices[di].1;
                let ghost base = net_views(self.networks@);
                let ghost dis = views(device.disabled_networks@);
                let mut i: usize = 0;
                while i < device.disabled_networks.len()
                    invariant
                        dis == views(device.disabled_networks@),
                        i <= device.disabled_networks.len(),
                        net_views(networks@) == remove_all(base, dis.take(i as int)),
                    decreases device.disabled_networks.len() - i,
                {
                    networks = remove_named(&networks, device.disabled_networks[i].as_str());
                    proof {
                        let t = dis.take(i + 1);
                        assert(t.drop_last() =~= dis.take(i as int));
                    }
                    i = i + 1;
                }
                assert(dis.take(dis.len() as int) =~= dis);
                let ghost removed = net_views(networks@);
                let ghost ov = net_views(device.networks@);
                let mut j: usize = 0;
                while j < device.networks.len()
                    invariant
                        ov == net_views(device.networks@),
                        j <= device.networks.len(),
                        net_views(networks@) == set_all(removed, ov.take(j as int)),
                    decreases device.networks.len() - j,
                {
                    set_named(&mut networks, device.networks[j].0.as_str(), device.networks[j].1.clone());
                    proof {
                        let t = ov.take(j + 1);
                        assert(t.drop_last() =~= ov.take(j as int));
                    }
                    j = j + 1;
                }
                assert(ov.take(ov.len() as int) =~= ov);
            },
            None => {},
        }
        networks
    }

    /// The LED state of a device: its own setting, else the default.
    pub fn get_led_for_device(&self, mac: &str) -> (r: bool)
        ensures
            r == led_of(*self, mac@),
    {
        let key = override_key_of(mac);
        match find_key(&self.devices, key.as_str()) {
            Some(i) => match self.devices[i].1.led_enabled {
                Some(b) => b,
                None => self.led_enabled,
            },
            None => self.led_enabled,
        }
    }
}

/// The names of a named list.
pub open spec fn names_of(l: Seq<(Seq<char>, NetworkView)>) -> Seq<Seq<char>> {
    l.map_values(|e: (Seq<char>, NetworkView)| e.0)
}

/// Removing a name keeps exactly the entries of other names.
proof fn lemma_remove_name(l: Seq<(Seq<char>, NetworkView)>, k: Seq<char>)
    ensures
        forall|x: (Seq<char>, NetworkView)| #[trigger] remove_name(l, k).contains(x) <==> (l.contains(x) && x.0 != k),
    decreases l.len(),
{
    if l.len() > 0 {
        lemma_remove_name(l.drop_last(), k);
        let r = remove_name(l, k);
        let r0 = remove_name(l.drop_last(), k);
        assert forall|x: (Seq<char>, NetworkView)| #[trigger] r.contains(x) <==> (l.contains(x) && x.0 != k) by {
            assert(l == l.drop_last().push(l.last()));
            if l.contains(x) && x.0 != k {
                let i = choose|i: int| 0 <= i < l.len() && l[i] == x;
                if i < l.len() - 1 {
                    assert(l.drop_last()[i] == x);
                    assert(r0.contains(x));
                    if l.last().0 != k {
                        let j = choose|j: int| 0 <= j < r0.len() && r0[j] == x;
                        assert(r[j] == x);
                    }
                } else {
                    assert(r[r.len() - 1] == x);
                }
            }
            if r.contains(x) {
                let j = choose|j: int| 0 <= j < r.len() && r[j] == x;
                if l.last().0 != k && j == r.len() - 1 {
                    assert(l[l.len() - 1] == x);
                } else {
                    assert(r0[j] == x);
                    assert(r0.contains(x));
                    let i = choose|i: int| 0 <= i < l.drop_last().len() && l.drop_last()[i] == x;
                    assert(l[i] == x);
                }
            }
        }
    }
}

/// Removing names keeps exactly the entries whose names are not removed.
proof fn lemma_remove_all(l: Seq<(Seq<char>, NetworkView)>, names: Seq<Seq<char>>)
    ensures
        forall|x: (Seq<char>, NetworkView)| #[trigger] remove_all(l, names).contains(x) <==> (l.contains(x) && !names.contains(x.0)),
    decreases names.len(),
{
    if names.len() > 0 {
        lemma_remove_all(l, names.drop_last());
        lemma_remove_name(remove_all(l, names.drop_last()), names.last());
        assert forall|x: (Seq<char>, NetworkView)| #[trigger] remove_all(l, names).contains(x) <==> (l.contains(x)
            && !names.contains(x.0)) by {
            assert(names == names.drop_last().push(names.last()));
            if names.contains(x.0) {
                let i = choose|i: int| 0 <= i < names.len() && names[i] == x.0;
                if i < names.len() - 1 {
                    assert(names.drop_last()[i] == x.0);
                }
            }
            if names.drop_last().contains(x.0) {
                let i = choose|i: int| 0 <= i < names.drop_last().len() && names.drop_last()[i] == x.0;
                assert(names[i] == x.0);
            }
        }
    }
}

/// Setting a name gives an entry with that name and value, and keeps
/// exactly the entries of other names.
proof fn lemma_set_name(l: Seq<(Seq<char>, NetworkView)>, k: Seq<char>, v: NetworkView)
    ensures
        set_name(l, k, v).contains((k, v)),
        forall|x: (Seq<char>, NetworkView)| x.0 != k ==> (#[trigger] set_name(l, k, v).contains(x) <==> l.contains(x)),
{
    let r = set_name(l, k, v);
    if exists|i: int| is_first_name(l, k, i) {
        let i = choose|i: int| is_first_name(l, k, i);
        assert(r[i] == (k, v));
        assert forall|x: (Seq<char>, NetworkView)| x.0 != k implies (#[trigger] r.contains(x) <==> l.contains(x)) by {
            if l.contains(x) {
                let j = choose|j: int| 0 <= j < l.len() && l[j] == x;
                assert(r[j] == x);
            }
            if r.contains(x) {
                let j = choose|j: int| 0 <= j < r.len() && r[j] == x;
                assert(l[j] == x);
            }
        }
    } else {
        assert(r[l.len() as int] == (k, v));
        assert forall|x: (Seq<char>, NetworkView)| x.0 != k implies (#[trigger] r.contains(x) <==> l.contains(x)) by {
            if l.contains(x) {
                let j = choose|j: int| 0 <= j < l.len() && l[j] == x;
                assert(r[j] == x);
            }
            if r.contains(x) {
                let j = choose|j: int| 0 <= j < r.len() && r[j] == x;
                assert(l[j] == x);
            }
        }
    }
}

/// Setting entries keeps exactly the entries of names not set.
proof fn lemma_set_all_others(l: Seq<(Seq<char>, NetworkView)>, ov: Seq<(Seq<char>, NetworkView)>, x: (Seq<char>, NetworkView))
    requires
        !names_of(ov).contains(x.0),
    ensures
        set_all(l, ov).contains(x) <==> l.contains(x),
    decreases ov.len(),
{
    if ov.len() > 0 {
        assert(names_of(ov)[ov.len() - 1] == ov.last().0);
        assert(!names_of(ov.drop_last()).contains(x.0)) by {
            if names_of(ov.drop_last()).contains(x.0) {
                let i = choose|i: int| 0 <= i < names_of(ov.drop_last()).len() && names_of(ov.drop_last())[i] == x.0;
                assert(names_of(ov)[i] == x.0);
            }
        }
        lemma_set_all_others(l, ov.drop_last(), x);
        lemma_set_name(set_all(l, ov.drop_last()), ov.last().0, ov.last().1);
    }
}

/// An entry set last under its name is in the result.
proof fn lemma_set_all_last(l: Seq<(Seq<char>, NetworkView)>, ov: Seq<(Seq<char>, NetworkView)>, i: int)
    requires
        0 <= i < ov.len(),
        forall|j: int| i < j < ov.len() ==> ov[j].0 != ov[i].0,
    ensures
        set_all(l, ov).contains(ov[i]),
    decreases ov.len(),
{
    lemma_set_name(set_all(l, ov.drop_last()), ov.last().0, ov.last().1);
    if i < ov.len() - 1 {
        assert(ov.drop_last()[i] == ov[i]);
        lemma_set_all_last(l, ov.drop_last(), i);
        assert(ov.last().0 != ov[i].0);
    }
}

impl ProvisionConfig {
    /// The keyed tables are maps: the default networks, the device
    /// overrides and each override's networks have distinct keys.
    pub open spec fn well_formed(&self) -> bool {
        &&& distinct_keys(self.networks@)
        &&& distinct_keys(self.devices@)
        &&& forall|i: int| 0 <= i < self.devices@.len() ==> distinct_keys(#[trigger] self.devices@[i].1.networks@)
    }

    /// Whether the keyed tables have distinct keys.
    pub fn is_well_formed(&self) -> (r: bool)
        ensures
            r == self.well_formed(),
    {
        if !has_distinct_keys(&self.networks) || !has_distinct_keys(&self.devices) {
            return false;
        }
        let mut i: usize = 0;
        while i < self.devices.len()
            invariant
                i <= self.devices@.len(),
                forall|j: int| 0 <= j < i ==> distinct_keys(#[trigger] self.devices@[j].1.networks@),
            decreases self.devices.len() - i,
        {
            if !has_distinct_keys(&self.devices[i].1.networks) {
                return false;
            }
            i = i + 1;
        }
        true
    }
}

/// No two networks of the list share a name.
pub open spec fn distinct_names(l: Seq<(Seq<char>, NetworkView)>) -> bool {
    forall|i: int, j: int| 0 <= i < j < l.len() ==> l[i].0 != l[j].0
}

proof fn lemma_net_views_distinct(l: Seq<(String, NetworkConfig)>)
    requires
        distinct_keys(l),
    ensures
        distinct_names(net_views(l)),
{
    assert forall|i: int, j: int| 0 <= i < j < net_views(l).len() implies net_views(l)[i].0 != net_views(l)[j].0 by {
        assert(net_views(l)[i].0 == l[i].0@);
        assert(net_views(l)[j].0 == l[j].0@);
    }
}

proof fn lemma_remove_name_distinct(l: Seq<(Seq<char>, NetworkView)>, k: Seq<char>)
    requires
        distinct_names(l),
    ensures
        distinct_names(remove_name(l, k)),
        forall|i: int| 0 <= i < remove_name(l, k).len() ==> exists|j: int| 0 <= j < l.len() && #[trigger] remove_name(l, k)[i] == l[j],
    decreases l.len(),
{
    if l.len() > 0 {
        let p = l.drop_last();
        assert(distinct_names(p));
        lemma_remove_name_distinct(p, k);
        let r = remove_name(p, k);
        assert forall|i: int| 0 <= i < r.len() implies exists|j: int| 0 <= j < l.len() && #[trigger] r[i] == l[j] by {
            let j = choose|j: int| 0 <= j < p.len() && r[i] == p[j];
            assert(r[i] == l[j]);
        }
        if l.last().0 != k {
            let q = r.push(l.last());
            assert forall|i: int, j: int| 0 <= i < j < q.len() implies q[i].0 != q[j].0 by {
                if j == r.len() {
                    let m = choose|m: int| 0 <= m < p.len() && r[i] == p[m];
                    assert(l[m].0 != l[l.len() - 1].0);
                }
            }
            assert forall|i: int| 0 <= i < q.len() implies exists|j: int| 0 <= j < l.len() && #[trigger] q[i] == l[j] by {
                if i == r.len() {
                    assert(q[i] == l[l.len() - 1]);
                } else {
                    assert(q[i] == r[i]);
                }
            }
        }
    }
}

proof fn lemma_remove_all_distinct(l: Seq<(Seq<char>, NetworkView)>, names: Seq<Seq<char>>)
    requires
        distinct_names(l),
    ensures
        distinct_names(remove_all(l, names)),
    decreases names.len(),
{
    if names.len() > 0 {
        lemma_remove_all_distinct(l, names.drop_last());
        lemma_remove_name_distinct(remove_all(l, names.drop_last()), names.last());
    }
}

proof fn lemma_first_name_exists(l: Seq<(Seq<char>, NetworkView)>, k: Seq<char>, m: int)
    requires
        0 <= m < l.len(),
        l[m].0 == k,
    ensures
        exists|i: int| is_first_name(l, k, i),
    decreases m,
{
    if exists|j: int| 0 <= j < m && l[j].0 == k {
        let j = choose|j: int| 0 <= j < m && l[j].0 == k;
        lemma_first_name_exists(l, k, j);
    } else {
        assert(is_first_name(l, k, m));
    }
}

proof fn lemma_set_all_distinct(l: Seq<(Seq<char>, NetworkView)>, ov: Seq<(Seq<char>, NetworkView)>)
    requires
        distinct_names(l),
    ensures
        distinct_names(set_all(l, ov)),
    decreases ov.len(),
{
    if ov.len() > 0 {
        lemma_set_all_distinct(l, ov.drop_last());
        let r = set_all(l, ov.drop_last());
        let k = ov.last().0;
        let v = ov.last().1;
        if exists|i: int| is_first_name(r, k, i) {
            let c = choose|i: int| is_first_name(r, k, i);
            let q = r.update(c, (k, v));
            assert forall|i: int, j: int| 0 <= i < j < q.len() implies q[i].0 != q[j].0 by {
                assert(q[i].0 == r[i].0);
                assert(q[j].0 == r[j].0);
            }
        } else {
            let q = r.push((k, v));
            assert forall|i: int, j: int| 0 <= i < j < q.len() implies q[i].0 != q[j].0 by {
                if j == r.len() && r[i].0 == k {
                    lemma_first_name_exists(r, k, i);
                }
            }
        }
    }
}

/// A device's networks read as a map: when the configuration's tables do,
/// no two networks of any device share a name.
pub proof fn lemma_merged_distinct(c: ProvisionConfig, mac: Seq<char>)
    requires
        c.well_formed(),
    ensures
        distinct_names(merged_networks(c, mac)),
{
    lemma_net_views_distinct(c.networks@);
    match lookup(c.devices@, override_key(mac)) {
        Some(d) => {
            lemma_remove_all_distinct(net_views(c.networks@), views(d.disabled_networks@));
            lemma_set_all_distinct(remove_all(net_views(c.networks@), views(d.disabled_networks@)), net_views(d.networks@));
        },
        None => {},
    }
}

/// A device without an override broadcasts exactly the default networks.
pub proof fn lemma_no_override_defaults(c: ProvisionConfig, mac: Seq<char>)
    requires
        lookup(c.devices@, override_key(mac)) is None,
    ensures
        merged_networks(c, mac) == net_views(c.networks@),
{
}

/// A default network that a device disables, and does not set itself, is
/// not broadcast by that device.
pub proof fn lemma_disabled_network_absent(c: ProvisionConfig, mac: Seq<char>, d: DeviceOverride, k: Seq<char>)
    requires
        lookup(c.devices@, override_key(mac)) == Some(d),
        views(d.disabled_networks@).contains(k),
        !names_of(net_views(d.networks@)).contains(k),
    ensures
        forall|i: int| 0 <= i < merged_networks(c, mac).len() ==> (#[trigger] merged_networks(c, mac)[i]).0 != k,
{
    let base = remove_all(net_views(c.networks@), views(d.disabled_networks@));
    let ov = net_views(d.networks@);
    lemma_remove_all(net_views(c.networks@), views(d.disabled_networks@));
    assert forall|i: int| 0 <= i < merged_networks(c, mac).len() implies (#[trigger] merged_networks(c, mac)[i]).0
        != k by {
        let x = merged_networks(c, mac)[i];
        if x.0 == k {
            assert(set_all(base, ov).contains(x));
            lemma_set_all_others(base, ov, x);
            assert(base.contains(x));
        }
    }
}

/// A network that a device sets (the last setting under its name) is
/// broadcast by that device with the device's values.
pub proof fn lemma_device_network_present(c: ProvisionConfig, mac: Seq<char>, d: DeviceOverride, i: int)
    requires
        lookup(c.devices@, override_key(mac)) == Some(d),
        0 <= i < d.networks@.len(),
        forall|j: int| i < j < d.networks@.len() ==> d.networks@[j].0@ != d.networks@[i].0@,
    ensures
        merged_networks(c, mac).contains((d.networks@[i].0@, d.networks@[i].1@)),
{
    let base = remove_all(net_views(c.networks@), views(d.disabled_networks@));
    let ov = net_views(d.networks@);
    assert forall|j: int| i < j < ov.len() implies ov[j].0 != ov[i].0 by {
        assert(d.networks@[j].0@ != d.networks@[i].0@);
    }
    lemma_set_all_last(base, ov, i);
}

/// A default network that a device neither disables nor sets is broadcast
/// by that device unchanged.
pub proof fn lemma_default_network_kept(c: ProvisionConfig, mac: Seq<char>, d: DeviceOverride, x: (Seq<char>, NetworkView))
    requires
        lookup(c.devices@, override_key(mac)) == Some(d),
        net_views(c.networks@).contains(x),
        !views(d.disabled_networks@).contains(x.0),
        !names_of(net_views(d.networks@)).contains(x.0),
    ensures
        merged_networks(c, mac).contains(x),
{
    let base = remove_all(net_views(c.networks@), views(d.disabled_networks@));
    lemma_remove_all(net_views(c.networks@), views(d.disabled_networks@));
    assert(base.contains(x));
    lemma_set_all_others(base, net_views(d.networks@), x);
}

} // verus!
