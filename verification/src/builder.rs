//! The system configuration of a device: all sections, grouped by header
//! and rendered in header order.

use vstd::prelude::*;
use crate::ini::{pair_views, render_emitted, render_ini};
use crate::models::{effective_tz, needs_system_tz, ProvisionConfig};
use crate::network::{all_vaps, bridge_members, build_defs, collect_vaps, def_views, members_of, network_fits,
    network_section, seen_of, sort_vids, tagged_of, vap_views, vid_list, vlan_defs, NetworkSection};
use crate::radios::{band_nets, get_phys_radios, phys_radios, radio_section, radio_views, radios_numbered, select_band,
    sort_networks, sorted_nets, vap_dev_idx, RadioSection};
use crate::services::{services_section, ServicesSection};
use crate::state::DeviceState;
use crate::system_section::{core_section, given_password, needs_hash, password_entry_ok, raw_password, system_section, user_name_for,
    users_section, CoreSystemSection, SystemSection, UsersSection};
use crate::wireless::{vap_indices_fit, wireless_section, WirelessSection};

verus! {

/// All emitted lines, section by section, with `sys` the system's time
/// zone and `pw` the management user's password entry.
pub open spec fn system_ini_lines(
    c: ProvisionConfig,
    d: DeviceState,
    mac: Seq<char>,
    sys: Option<Seq<char>>,
    pw: Seq<char>,
) -> Seq<(Seq<char>, Seq<char>)> {
    system_section(c, mac) + core_section(effective_tz(c, sys)) + users_section(user_name_for(c), pw) + radio_section(
        c,
        d,
        mac,
    ) + wireless_section(c, d, mac) + network_section(c, d, mac) + services_section(c, mac)
}

/// The system configuration text.
pub open spec fn system_ini_text(
    c: ProvisionConfig,
    d: DeviceState,
    mac: Seq<char>,
    sys: Option<Seq<char>>,
    pw: Seq<char>,
) -> Seq<char> {
    render_ini(system_ini_lines(c, d, mac, sys, pw))
}

/// The numbering of radios, interfaces, VLANs and ports fits the
/// configuration's byte-sized indices.
pub open spec fn ini_fits(c: ProvisionConfig, d: DeviceState, mac: Seq<char>) -> bool {
    &&& radios_numbered(c, d, mac)
    &&& vap_indices_fit(c, d, mac)
    &&& network_fits(c, d, mac)
    &&& c.networks@.len() < 0xffff_ffff
}

fn append_pairs(out: &mut Vec<(String, String)>, more: Vec<(String, String)>)
    ensures
        pair_views(final(out)@) == pair_views(old(out)@) + pair_views(more@),
{
    let ghost a = pair_views(out@);
    let ghost b = pair_views(more@);
    let mut more = more;
    out.append(&mut more);
    assert(pair_views(out@) =~= a + b);
}

impl ProvisionConfig {
    /// The system configuration of a device: the controller, system, user,
    /// radio, Wi-Fi, wired and service lines, grouped under their headers,
    /// headers in sorted order.
    pub fn generate_system_ini(&self, mac: &str, device_state: &DeviceState) -> (r: String)
        requires
            ini_fits(*self, *device_state, mac@),
        ensures
            exists|sys: Option<Seq<char>>, pw: Seq<char>|
                password_entry_ok(*self, pw) && r@ == system_ini_text(*self, *device_state, mac@, sys, pw),
            !needs_system_tz(*self) ==> exists|pw: Seq<char>|
                password_entry_ok(*self, pw) && r@ == system_ini_text(*self, *device_state, mac@, None, pw),
            !needs_hash(*self) ==> exists|sys: Option<Seq<char>>|
                r@ == system_ini_text(*self, *device_state, mac@, sys, given_password(*self)),
            !needs_hash(*self) && !needs_system_tz(*self) ==> r@ == system_ini_text(
                *self,
                *device_state,
                mac@,
                None,
                given_password(*self),
            ),
    {
        let mut all = SystemSection.generate(self, device_state, mac);
        let ghost s1 = pair_views(all@);
        let core = CoreSystemSection.generate(self, device_state, mac);
        let ghost sys = choose|sys: Option<Seq<char>>| pair_views(core@) == core_section(effective_tz(*self, sys));
        let ghost sys_used = if needs_system_tz(*self) {
            sys
        } else {
            None
        };
        assert(pair_views(core@) == core_section(effective_tz(*self, sys_used)));
        append_pairs(&mut all, core);
        let users = UsersSection.generate(self, device_state, mac);
        let ghost pw = choose|pw: Seq<char>|
            password_entry_ok(*self, pw) && pair_views(users@) == users_section(user_name_for(*self), pw);
        let ghost pw_used = if needs_hash(*self) {
            pw
        } else {
            given_password(*self)
        };
        assert(password_entry_ok(*self, pw_used) && pair_views(users@) == users_section(user_name_for(*self), pw_used));
        append_pairs(&mut all, users);
        assert(pair_views(all@) == system_section(*self, mac@) + core_section(effective_tz(*self, sys_used))
            + users_section(user_name_for(*self), pw_used));
        append_pairs(&mut all, RadioSection.generate(self, device_state, mac));
        append_pairs(&mut all, WirelessSection.generate(self, device_state, mac));
        append_pairs(&mut all, NetworkSection.generate(self, device_state, mac));
        append_pairs(&mut all, ServicesSection.generate(self, device_state, mac));
        assert(pair_views(all@) == system_ini_lines(*self, *device_state, mac@, sys_used, pw_used));
        let text = render_emitted(&all);
        assert(password_entry_ok(*self, pw_used) && text@ == system_ini_text(
            *self,
            *device_state,
            mac@,
            sys_used,
            pw_used,
        ));
        text
    }
}

fn radios_all_numbered(radios: &Vec<crate::radios::PhysRadio>) -> (r: bool)
    ensures
        r == forall|k: int| 0 <= k < radios@.len() ==> #[trigger] radios@[k].idx >= 1,
{
    let mut i: usize = 0;
    while i < radios.len()
        invariant
            i <= radios.len(),
            forall|k: int| 0 <= k < i ==> #[trigger] radios@[k].idx >= 1,
        decreases radios.len() - i,
    {
        if radios[i].idx < 1 {
            return false;
        }
        i = i + 1;
    }
    true
}

fn low_bytes_fit(idx: u8, n: usize) -> (r: bool)
    requires
        idx >= 1,
        n < 0xffff_ffff,
    ensures
        r == forall|k: int| 0 <= k < n ==> (#[trigger] vap_dev_idx(idx, k) as u8) < 255,
{
    let mut k: usize = 0;
    while k < n
        invariant
            idx >= 1,
            n < 0xffff_ffff,
            k <= n,
            forall|j: int| 0 <= j < k ==> (#[trigger] vap_dev_idx(idx, j) as u8) < 255,
        decreases n - k,
    {
        let dev: u64 = (idx as u64 - 1) * 3 + k as u64;
        assert(dev == vap_dev_idx(idx, k as int));
        if (dev as u8) >= 255 {
            return false;
        }
        k = k + 1;
    }
    true
}

/// Whether the numbering of a device's configuration fits its byte-sized
/// indices, so that its system configuration can be generated.
pub fn ini_fits_check(config: &ProvisionConfig, device_state: &DeviceState, mac: &str) -> (r: bool)
    ensures
        r == ini_fits(*config, *device_state, mac@),
{
    if config.networks.len() >= 0xffff_ffff {
        return false;
    }
    let radios = get_phys_radios(config, device_state, mac);
    let ghost rv = radio_views(radios@);
    if !radios_all_numbered(&radios) {
        assert(!radios_numbered(*config, *device_state, mac@)) by {
            let k = choose|k: int| 0 <= k < radios@.len() && !(#[trigger] radios@[k].idx >= 1);
            assert(rv[k].idx == radios@[k].idx);
        }
        return false;
    }
    assert(radios_numbered(*config, *device_state, mac@)) by {
        assert forall|k: int| 0 <= k < rv.len() implies #[trigger] rv[k].idx >= 1 by {
            assert(radios@[k].idx >= 1);
        }
    }
    let nets = config.get_networks_for_device(mac);
    let order = sort_networks(nets);
    let mut ri: usize = 0;
    while ri < radios.len()
        invariant
            rv == radio_views(radios@),
            rv == phys_radios(*config, *device_state, mac@),
            radios_numbered(*config, *device_state, mac@),
            nets@ == config.networks@,
            nets@.len() < 0xffff_ffff,
            order@ == sorted_nets(nets@),
            order@.len() == nets@.len(),
            forall|k: int| 0 <= k < order@.len() ==> order@[k] < nets@.len(),
            ri <= radios.len(),
            forall|p: int, k: int|
                0 <= p < ri && 0 <= k < band_nets(nets@, order@, rv[p].band).len() ==> (#[trigger] vap_dev_idx(
                    rv[p].idx,
                    k,
                ) as u8) < 255,
        decreases radios.len() - ri,
    {
        assert(rv[ri as int] == radios@[ri as int]@);
        assert(phys_radios(*config, *device_state, mac@)[ri as int].idx >= 1);
        let rn = select_band(nets, &order, radios[ri].band);
        if !low_bytes_fit(radios[ri].idx, rn.len()) {
            assert(!crate::wireless::vap_indices_fit(*config, *device_state, mac@)) by {
                let k = choose|k: int| 0 <= k < rn@.len() && !((#[trigger] vap_dev_idx(radios@[ri as int].idx, k) as u8) < 255);
                assert(!((vap_dev_idx(rv[ri as int].idx, k) as u8) < 255));
            }
            return false;
        }
        ri = ri + 1;
    }
    assert(crate::wireless::vap_indices_fit(*config, *device_state, mac@));
    let vaps = collect_vaps(config, device_state, mac);
    let ghost vv = vap_views(vaps@);
    let seen = seen_of(&vaps);
    let vids = sort_vids(&seen);
    assert(vids@ == vid_list(vv));
    if vids.len() > 253 {
        return false;
    }
    let tags = tagged_of(&vaps);
    let defs = build_defs(&tags, &vids);
    assert(def_views(defs@) == vlan_defs(vv, vids@));
    let mut j: usize = 0;
    while j < vids.len()
        invariant
            vv == all_vaps(phys_radios(*config, *device_state, mac@), config.networks@, sorted_nets(config.networks@)),
            vids@ == vid_list(vv),
            def_views(defs@) == vlan_defs(vv, vids@),
            j <= vids.len(),
            forall|i: int| 0 <= i < j ==> #[trigger] bridge_members(vlan_defs(vv, vids@), vids@[i]).len() <= 254,
        decreases vids.len() - j,
    {
        let m = members_of(&defs, vids[j]);
        if m.len() > 254 {
            assert(crate::text::views(m@).len() == m@.len());
            return false;
        }
        j = j + 1;
    }
    true
}

} // verus!
