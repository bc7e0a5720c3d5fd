//! The Wi-Fi part of the system configuration: for each radio, one
//! wireless interface and one authenticator entry per network of its band.

use vstd::prelude::*;
use crate::ini::ToUnifiConfig;
use crate::config::opt_view;
use crate::ini::{idx_key, kv, kv_lines, pair_views, push_kv, push_kvs, push_line, unifi_of, unifi_text, UnifiBool};
use crate::models::{device_key, mac_key, NetworkConfig, ProvisionConfig};
use crate::radios::{ath_name, band_nets, get_phys_radios, phys_radios, radio_header, radio_views, radios_numbered,
    select_band, sort_networks, sorted_nets, vap_dev_idx, PhysRadio, PhysRadioView};
use crate::state::DeviceState;
use crate::text::{bool_str, bool_text, dec, dec_string, hex_lower, hex_string, push_dec};
use crate::types::{Band, SecurityMode};

verus! {

/// The MD5 digest of the UTF-8 bytes of a text.
pub uninterp spec fn md5_of(text: Seq<char>) -> Seq<u8>;

/// `md5::compute` on the bytes of `text`: the contract claims only that the
/// 16 bytes are the digest of the text.
#[verifier::external_body]
fn md5_digest(text: &str) -> (d: [u8; 16])
    ensures
        d@ == md5_of(text@),
{
    md5::compute(text).0
}

/// An optional value as zero or one pair.
pub open spec fn opt_kv(k: Seq<char>, v: Option<Seq<char>>) -> Seq<(Seq<char>, Seq<char>)> {
    match v {
        Some(x) => seq![(k, x)],
        None => Seq::empty(),
    }
}

/// The text of an optional number.
pub open spec fn opt_dec(o: Option<u32>) -> Option<Seq<char>> {
    match o {
        Some(n) => Some(dec(n as nat)),
        None => None,
    }
}

/// The text of an optional UniFi boolean.
pub open spec fn opt_unifi(o: Option<UnifiBool>) -> Option<Seq<char>> {
    match o {
        Some(b) => Some(unifi_text(b)),
        None => None,
    }
}

/// The values of a wireless interface.
pub struct WirelessConfigView {
    pub idx: u8,
    pub devname: Seq<char>,
    pub status: UnifiBool,
    pub ssid: Seq<char>,
    pub mode: Seq<char>,
    pub security: Seq<char>,
    pub hide_ssid: bool,
    pub parent: Seq<char>,
    pub usage: Seq<char>,
    pub l2_isolation: UnifiBool,
    pub mac_acl_status: UnifiBool,
    pub mac_acl_policy: Seq<char>,
    pub wmm: UnifiBool,
    pub uapsd: UnifiBool,
    pub authmode: u8,
    pub autowds: UnifiBool,
    pub beacon_rate: Option<u32>,
    pub dtim_period: u8,
    pub element_adopt: UnifiBool,
    pub is_guest: bool,
    pub mcast_enhance: u8,
    pub mcastrate: Seq<char>,
    pub mgmt_rate: Option<u32>,
    pub minrate_cck_rates_status: Option<bool>,
    pub minrate_data: Option<u32>,
    pub no2ghz_oui: UnifiBool,
    pub puren: u8,
    pub pureg: u8,
    pub schedule_enabled: UnifiBool,
    pub vport: UnifiBool,
    pub vwire: UnifiBool,
    pub wds: UnifiBool,
    pub addmtikie: UnifiBool,
    pub iot: Option<UnifiBool>,
    pub qbssload: Option<UnifiBool>,
    pub unique_id: Seq<char>,
}

/// A wireless interface.
#[derive(Debug)]
pub struct WirelessConfig {
    pub idx: u8,
    pub devname: String,
    pub status: UnifiBool,
    pub ssid: String,
    pub mode: String,
    pub security: String,
    pub hide_ssid: bool,
    pub parent: String,
    pub usage: String,
    pub l2_isolation: UnifiBool,
    pub mac_acl_status: UnifiBool,
    pub mac_acl_policy: String,
    pub wmm: UnifiBool,
    pub uapsd: UnifiBool,
    pub authmode: u8,
    pub autowds: UnifiBool,
    pub beacon_rate: Option<u32>,
    pub dtim_period: u8,
    pub element_adopt: UnifiBool,
    pub is_guest: bool,
    pub mcast_enhance: u8,
    pub mcastrate: String,
    pub mgmt_rate: Option<u32>,
    pub minrate_cck_rates_status: Option<bool>,
    pub minrate_data: Option<u32>,
    pub no2ghz_oui: UnifiBool,
    pub puren: u8,
    pub pureg: u8,
    pub schedule_enabled: UnifiBool,
    pub vport: UnifiBool,
    pub vwire: UnifiBool,
    pub wds: UnifiBool,
    pub addmtikie: UnifiBool,
    pub iot: Option<UnifiBool>,
    pub qbssload: Option<UnifiBool>,
    pub unique_id: String,
}

impl View for WirelessConfig {
    type V = WirelessConfigView;

    open spec fn view(&self) -> WirelessConfigView {
        WirelessConfigView {
            idx: self.idx,
            devname: self.devname@,
            status: self.status,
            ssid: self.ssid@,
            mode: self.mode@,
            security: self.security@,
            hide_ssid: self.hide_ssid,
            parent: self.parent@,
            usage: self.usage@,
            l2_isolation: self.l2_isolation,
            mac_acl_status: self.mac_acl_status,
            mac_acl_policy: self.mac_acl_policy@,
            wmm: self.wmm,
            uapsd: self.uapsd,
            authmode: self.authmode,
            autowds: self.autowds,
            beacon_rate: self.beacon_rate,
            dtim_period: self.dtim_period,
            element_adopt: self.element_adopt,
            is_guest: self.is_guest,
            mcast_enhance: self.mcast_enhance,
            mcastrate: self.mcastrate@,
            mgmt_rate: self.mgmt_rate,
            minrate_cck_rates_status: self.minrate_cck_rates_status,
            minrate_data: self.minrate_data,
            no2ghz_oui: self.no2ghz_oui,
            puren: self.puren,
            pureg: self.pureg,
            schedule_enabled: self.schedule_enabled,
            vport: self.vport,
            vwire: self.vwire,
            wds: self.wds,
            addmtikie: self.addmtikie,
            iot: self.iot,
            qbssload: self.qbssload,
            unique_id: self.unique_id@,
        }
    }
}

/// The wireless key `wireless.<idx><field>`.
pub open spec fn wkey(i: u8, field: Seq<char>) -> Seq<char> {
    "wireless."@ + dec(i as nat) + field
}

/// The identity and access keys of a wireless interface.
pub open spec fn wireless_kvs_a(w: WirelessConfigView) -> Seq<(Seq<char>, Seq<char>)> {
    let i = w.idx;
    seq![
        (wkey(i, ".devname"@), w.devname),
        (wkey(i, ".status"@), unifi_text(w.status)),
        (wkey(i, ".ssid"@), w.ssid),
        (wkey(i, ".mode"@), w.mode),
        (wkey(i, ".security"@), w.security),
        (wkey(i, ".hide_ssid"@), bool_text(w.hide_ssid)),
        (wkey(i, ".parent"@), w.parent),
        (wkey(i, ".usage"@), w.usage),
        (wkey(i, ".l2_isolation"@), unifi_text(w.l2_isolation)),
        (wkey(i, ".mac_acl.status"@), unifi_text(w.mac_acl_status)),
        (wkey(i, ".mac_acl.policy"@), w.mac_acl_policy),
    ]
}

/// The radio behaviour keys of a wireless interface.
pub open spec fn wireless_kvs_b(w: WirelessConfigView) -> Seq<(Seq<char>, Seq<char>)> {
    let i = w.idx;
    seq![
        (wkey(i, ".wmm"@), unifi_text(w.wmm)),
        (wkey(i, ".uapsd"@), unifi_text(w.uapsd)),
        (wkey(i, ".authmode"@), dec(w.authmode as nat)),
        (wkey(i, ".autowds"@), unifi_text(w.autowds)),
        (wkey(i, ".dtim_period"@), dec(w.dtim_period as nat)),
        (wkey(i, ".element_adopt"@), unifi_text(w.element_adopt)),
        (wkey(i, ".is_guest"@), bool_text(w.is_guest)),
        (wkey(i, ".mcast.enhance"@), dec(w.mcast_enhance as nat)),
        (wkey(i, ".mcastrate"@), w.mcastrate),
    ]
}

/// The mode switches and the id of a wireless interface.
pub open spec fn wireless_kvs_c(w: WirelessConfigView) -> Seq<(Seq<char>, Seq<char>)> {
    let i = w.idx;
    seq![
        (wkey(i, ".no2ghz_oui"@), unifi_text(w.no2ghz_oui)),
        (wkey(i, ".puren"@), dec(w.puren as nat)),
        (wkey(i, ".pureg"@), dec(w.pureg as nat)),
        (wkey(i, ".schedule_enabled"@), unifi_text(w.schedule_enabled)),
        (wkey(i, ".vport"@), unifi_text(w.vport)),
        (wkey(i, ".vwire"@), unifi_text(w.vwire)),
        (wkey(i, ".wds"@), unifi_text(w.wds)),
        (wkey(i, ".addmtikie"@), unifi_text(w.addmtikie)),
        (wkey(i, ".id"@), w.unique_id),
    ]
}

/// The optional keys of a wireless interface that are set.
pub open spec fn wireless_kvs_opt(w: WirelessConfigView) -> Seq<(Seq<char>, Seq<char>)> {
    let i = w.idx;
    opt_kv(wkey(i, ".beacon_rate"@), opt_dec(w.beacon_rate)) + opt_kv(wkey(i, ".mgmt_rate"@), opt_dec(w.mgmt_rate))
        + opt_kv(
        wkey(i, ".minrate_cck_rates.status"@),
        match w.minrate_cck_rates_status {
            Some(b) => Some(bool_text(b)),
            None => None,
        },
    ) + opt_kv(wkey(i, ".minrate_data"@), opt_dec(w.minrate_data)) + opt_kv(wkey(i, ".iot"@), opt_unifi(w.iot))
        + opt_kv(wkey(i, ".qbssload"@), opt_unifi(w.qbssload))
}

/// The key-value pairs of a wireless interface: the fixed keys, then the
/// optional rates and IoT settings that are set.
pub open spec fn wireless_kvs(w: WirelessConfigView) -> Seq<(Seq<char>, Seq<char>)> {
    wireless_kvs_a(w) + wireless_kvs_b(w) + wireless_kvs_c(w) + wireless_kvs_opt(w)
}

fn push_opt_dec(kvs: &mut Vec<(String, String)>, i: u8, field: &str, o: Option<u32>)
    ensures
        pair_views(final(kvs)@) == pair_views(old(kvs)@) + opt_kv(wkey(i, field@), opt_dec(o)),
{
    let ghost before = pair_views(kvs@);
    match o {
        Some(n) => {
            push_kv(kvs, idx_key("wireless.", i as u64, field), dec_string(n as u64).as_str());
        },
        None => {},
    }
    assert(pair_views(kvs@) =~= before + opt_kv(wkey(i, field@), opt_dec(o)));
}

fn push_opt_unifi(kvs: &mut Vec<(String, String)>, i: u8, field: &str, o: Option<UnifiBool>)
    ensures
        pair_views(final(kvs)@) == pair_views(old(kvs)@) + opt_kv(wkey(i, field@), opt_unifi(o)),
{
    let ghost before = pair_views(kvs@);
    match o {
        Some(b) => {
            push_kv(kvs, idx_key("wireless.", i as u64, field), b.to_string().as_str());
        },
        None => {},
    }
    assert(pair_views(kvs@) =~= before + opt_kv(wkey(i, field@), opt_unifi(o)));
}

impl WirelessConfig {
    fn push_a(&self, kvs: &mut Vec<(String, String)>)
        ensures
            pair_views(final(kvs)@) == pair_views(old(kvs)@) + wireless_kvs_a(self@),
    {
        let ghost before = pair_views(kvs@);
        let i = self.idx as u64;
        push_kv(kvs, idx_key("wireless.", i, ".devname"), self.devname.as_str());
        push_kv(kvs, idx_key("wireless.", i, ".status"), self.status.to_string().as_str());
        push_kv(kvs, idx_key("wireless.", i, ".ssid"), self.ssid.as_str());
        push_kv(kvs, idx_key("wireless.", i, ".mode"), self.mode.as_str());
        push_kv(kvs, idx_key("wireless.", i, ".security"), self.security.as_str());
        push_kv(kvs, idx_key("wireless.", i, ".hide_ssid"), bool_str(self.hide_ssid));
        push_kv(kvs, idx_key("wireless.", i, ".parent"), self.parent.as_str());
        push_kv(kvs, idx_key("wireless.", i, ".usage"), self.usage.as_str());
        push_kv(kvs, idx_key("wireless.", i, ".l2_isolation"), self.l2_isolation.to_string().as_str());
        push_kv(kvs, idx_key("wireless.", i, ".mac_acl.status"), self.mac_acl_status.to_string().as_str());
        push_kv(kvs, idx_key("wireless.", i, ".mac_acl.policy"), self.mac_acl_policy.as_str());
        assert(pair_views(kvs@) =~~= before + wireless_kvs_a(self@));
    }

    fn push_b(&self, kvs: &mut Vec<(String, String)>)
        ensures
            pair_views(final(kvs)@) == pair_views(old(kvs)@) + wireless_kvs_b(self@),
    {
        let ghost before = pair_views(kvs@);
        let i = self.idx as u64;
        push_kv(kvs, idx_key("wireless.", i, ".wmm"), self.wmm.to_string().as_str());
        push_kv(kvs, idx_key("wireless.", i, ".uapsd"), self.uapsd.to_string().as_str());
        push_kv(kvs, idx_key("wireless.", i, ".authmode"), dec_string(self.authmode as u64).as_str());
        push_kv(kvs, idx_key("wireless.", i, ".autowds"), self.autowds.to_string().as_str());
        push_kv(kvs, idx_key("wireless.", i, ".dtim_period"), dec_string(self.dtim_period as u64).as_str());
        push_kv(kvs, idx_key("wireless.", i, ".element_adopt"), self.element_adopt.to_string().as_str());
        push_kv(kvs, idx_key("wireless.", i, ".is_guest"), bool_str(self.is_guest));
        push_kv(kvs, idx_key("wireless.", i, ".mcast.enhance"), dec_string(self.mcast_enhance as u64).as_str());
        push_kv(kvs, idx_key("wireless.", i, ".mcastrate"), self.mcastrate.as_str());
        assert(pair_views(kvs@) =~~= before + wireless_kvs_b(self@));
    }

    fn push_c(&self, kvs: &mut Vec<(String, String)>)
        ensures
            pair_views(final(kvs)@) == pair_views(old(kvs)@) + wireless_kvs_c(self@),
    {
        let ghost before = pair_views(kvs@);
        let i = self.idx as u64;
        push_kv(kvs, idx_key("wireless.", i, ".no2ghz_oui"), self.no2ghz_oui.to_string().as_str());
        push_kv(kvs, idx_key("wireless.", i, ".puren"), dec_string(self.puren as u64).as_str());
        push_kv(kvs, idx_key("wireless.", i, ".pureg"), dec_string(self.pureg as u64).as_str());
        push_kv(kvs, idx_key("wireless.", i, ".schedule_enabled"), self.schedule_enabled.to_string().as_str());
        push_kv(kvs, idx_key("wireless.", i, ".vport"), self.vport.to_string().as_str());
        push_kv(kvs, idx_key("wireless.", i, ".vwire"), self.vwire.to_string().as_str());
        push_kv(kvs, idx_key("wireless.", i, ".wds"), self.wds.to_string().as_str());
        push_kv(kvs, idx_key("wireless.", i, ".addmtikie"), self.addmtikie.to_string().as_str());
        push_kv(kvs, idx_key("wireless.", i, ".id"), self.unique_id.as_str());
        assert(pair_views(kvs@) =~~= before + wireless_kvs_c(self@));
    }

    fn push_opt(&self, kvs: &mut Vec<(String, String)>)
        ensures
            pair_views(final(kvs)@) == pair_views(old(kvs)@) + wireless_kvs_opt(self@),
    {
        let ghost start = pair_views(kvs@);
        let i = self.idx as u64;
        push_opt_dec(kvs, self.idx, ".beacon_rate", self.beacon_rate);
        push_opt_dec(kvs, self.idx, ".mgmt_rate", self.mgmt_rate);
        let ghost before = pair_views(kvs@);
        match self.minrate_cck_rates_status {
            Some(b) => {
                push_kv(kvs, idx_key("wireless.", i, ".minrate_cck_rates.status"), bool_str(b));
            },
            None => {},
        }
        assert(pair_views(kvs@) =~= before + opt_kv(
            wkey(self.idx, ".minrate_cck_rates.status"@),
            match self.minrate_cck_rates_status {
                Some(b) => Some(bool_text(b)),
                None => None,
            },
        ));
        push_opt_dec(kvs, self.idx, ".minrate_data", self.minrate_data);
        push_opt_unifi(kvs, self.idx, ".iot", self.iot);
        push_opt_unifi(kvs, self.idx, ".qbssload", self.qbssload);
        assert(pair_views(kvs@) =~= start + wireless_kvs_opt(self@));
    }

}

impl ToUnifiConfig for WirelessConfig {
    /// The key-value pairs of this interface.
    fn to_config(&self) -> (r: Vec<(String, String)>)
        ensures
            pair_views(r@) == wireless_kvs(self@),
    {
        let mut kvs: Vec<(String, String)> = Vec::new();
        assert(pair_views(kvs@) =~= Seq::empty());
        self.push_a(&mut kvs);
        self.push_b(&mut kvs);
        self.push_c(&mut kvs);
        self.push_opt(&mut kvs);
        assert(pair_views(kvs@) =~= wireless_kvs(self@));
        kvs
    }
}

/// The values of an authenticator entry.
pub struct AaaConfigView {
    pub idx: u8,
    pub devname: Seq<char>,
    pub status: UnifiBool,
    pub ssid: Seq<char>,
    pub br_devname: Seq<char>,
    pub driver: Seq<char>,
    pub verbose: u8,
    pub k11_status: UnifiBool,
    pub bss_transition: UnifiBool,
    pub country_beacon: UnifiBool,
    pub eapol_version: u8,
    pub ft_status: UnifiBool,
    pub hide_ssid: bool,
    pub is_guest: bool,
    pub p2p: UnifiBool,
    pub p2p_cross_connect: UnifiBool,
    pub proxy_arp: UnifiBool,
    pub radius_macacl_status: UnifiBool,
    pub tdls_prohibit: UnifiBool,
    pub wpa_group_rekey: u32,
    pub unique_id: Seq<char>,
    pub wpa: u8,
    pub wpa_key_mgmt: Option<Seq<char>>,
    pub wpa_psk: Option<Seq<char>>,
    pub wpa_pairwise: Option<Seq<char>>,
    pub wpa3_support: Option<UnifiBool>,
    pub wpa3_transition: Option<UnifiBool>,
    pub wpa3_ft_status: Option<UnifiBool>,
    pub pmf_status: UnifiBool,
    pub pmf_mode: u8,
    pub pmf_cipher: Seq<char>,
    pub sae_psk_mac: Option<Seq<char>>,
    pub sae_psk_psk: Option<Seq<char>>,
    pub sae_anti_clogging: Option<u8>,
    pub sae_sync: Option<u8>,
}

/// An authenticator (hostapd) entry: the security of one interface.
#[derive(Debug)]
pub struct AaaConfig {
    pub idx: u8,
    pub devname: String,
    pub status: UnifiBool,
    pub ssid: String,
    pub br_devname: String,
    pub driver: String,
    pub verbose: u8,
    pub k11_status: UnifiBool,
    pub bss_transition: UnifiBool,
    pub country_beacon: UnifiBool,
    pub eapol_version: u8,
    pub ft_status: UnifiBool,
    pub hide_ssid: bool,
    pub is_guest: bool,
    pub p2p: UnifiBool,
    pub p2p_cross_connect: UnifiBool,
    pub proxy_arp: UnifiBool,
    pub radius_macacl_status: UnifiBool,
    pub tdls_prohibit: UnifiBool,
    pub wpa_group_rekey: u32,
    pub unique_id: String,
    pub wpa: u8,
    pub wpa_key_mgmt: Option<String>,
    pub wpa_psk: Option<String>,
    pub wpa_pairwise: Option<String>,
    pub wpa3_support: Option<UnifiBool>,
    pub wpa3_transition: Option<UnifiBool>,
    pub wpa3_ft_status: Option<UnifiBool>,
    pub pmf_status: UnifiBool,
    pub pmf_mode: u8,
    pub pmf_cipher: String,
    pub sae_psk_mac: Option<String>,
    pub sae_psk_psk: Option<String>,
    pub sae_anti_clogging: Option<u8>,
    pub sae_sync: Option<u8>,
}

impl View for AaaConfig {
    type V = AaaConfigView;

    open spec fn view(&self) -> AaaConfigView {
        AaaConfigView {
            idx: self.idx,
            devname: self.devname@,
            status: self.status,
            ssid: self.ssid@,
            br_devname: self.br_devname@,
            driver: self.driver@,
            verbose: self.verbose,
            k11_status: self.k11_status,
            bss_transition: self.bss_transition,
            country_beacon: self.country_beacon,
            eapol_version: self.eapol_version,
            ft_status: self.ft_status,
            hide_ssid: self.hide_ssid,
            is_guest: self.is_guest,
            p2p: self.p2p,
            p2p_cross_connect: self.p2p_cross_connect,
            proxy_arp: self.proxy_arp,
            radius_macacl_status: self.radius_macacl_status,
            tdls_prohibit: self.tdls_prohibit,
            wpa_group_rekey: self.wpa_group_rekey,
            unique_id: self.unique_id@,
            wpa: self.wpa,
            wpa_key_mgmt: opt_view(self.wpa_key_mgmt),
            wpa_psk: opt_view(self.wpa_psk),
            wpa_pairwise: opt_view(self.wpa_pairwise),
            wpa3_support: self.wpa3_support,
            wpa3_transition: self.wpa3_transition,
            wpa3_ft_status: self.wpa3_ft_status,
            pmf_status: self.pmf_status,
            pmf_mode: self.pmf_mode,
            pmf_cipher: self.pmf_cipher@,
            sae_psk_mac: opt_view(self.sae_psk_mac),
            sae_psk_psk: opt_view(self.sae_psk_psk),
            sae_anti_clogging: self.sae_anti_clogging,
            sae_sync: self.sae_sync,
        }
    }
}

/// The authenticator key `aaa.<idx><field>`.
pub open spec fn akey(i: u8, field: Seq<char>) -> Seq<char> {
    "aaa."@ + dec(i as nat) + field
}

/// The text of an optional small number.
pub open spec fn opt_dec8(o: Option<u8>) -> Option<Seq<char>> {
    match o {
        Some(n) => Some(dec(n as nat)),
        None => None,
    }
}

/// The interface keys of an authenticator entry.
pub open spec fn aaa_kvs_a(a: AaaConfigView) -> Seq<(Seq<char>, Seq<char>)> {
    let i = a.idx;
    seq![
        (akey(i, ".devname"@), a.devname),
        (akey(i, ".status"@), unifi_text(a.status)),
        (akey(i, ".ssid"@), a.ssid),
        (akey(i, ".br.devname"@), a.br_devname),
        (akey(i, ".driver"@), a.driver),
        (akey(i, ".verbose"@), dec(a.verbose as nat)),
        (akey(i, ".11k.status"@), unifi_text(a.k11_status)),
        (akey(i, ".bss_transition"@), unifi_text(a.bss_transition)),
        (akey(i, ".country_beacon"@), unifi_text(a.country_beacon)),
        (akey(i, ".eapol_version"@), dec(a.eapol_version as nat)),
    ]
}

/// The behaviour keys, the id and the WPA version of an authenticator entry.
pub open spec fn aaa_kvs_b(a: AaaConfigView) -> Seq<(Seq<char>, Seq<char>)> {
    let i = a.idx;
    seq![
        (akey(i, ".ft.status"@), unifi_text(a.ft_status)),
        (akey(i, ".hide_ssid"@), bool_text(a.hide_ssid)),
        (akey(i, ".is_guest"@), bool_text(a.is_guest)),
        (akey(i, ".p2p"@), unifi_text(a.p2p)),
        (akey(i, ".p2p_cross_connect"@), unifi_text(a.p2p_cross_connect)),
        (akey(i, ".proxy_arp"@), unifi_text(a.proxy_arp)),
        (akey(i, ".radius.macacl.status"@), unifi_text(a.radius_macacl_status)),
        (akey(i, ".tdls_prohibit"@), unifi_text(a.tdls_prohibit)),
        (akey(i, ".wpa.group_rekey"@), dec(a.wpa_group_rekey as nat)),
        (akey(i, ".id"@), a.unique_id),
        (akey(i, ".wpa"@), dec(a.wpa as nat)),
    ]
}

/// The WPA settings of an authenticator entry that are set, then its PMF
/// settings.
pub open spec fn aaa_kvs_wpa(a: AaaConfigView) -> Seq<(Seq<char>, Seq<char>)> {
    let i = a.idx;
    opt_kv(akey(i, ".wpa.key.1.mgmt"@), a.wpa_key_mgmt) + opt_kv(akey(i, ".wpa.psk"@), a.wpa_psk) + opt_kv(
        akey(i, ".wpa.1.pairwise"@),
        a.wpa_pairwise,
    ) + seq![
        (akey(i, ".pmf.cipher"@), a.pmf_cipher),
        (akey(i, ".pmf.mode"@), dec(a.pmf_mode as nat)),
        (akey(i, ".pmf.status"@), unifi_text(a.pmf_status)),
    ]
}

/// The WPA3 settings of an authenticator entry that are set.
pub open spec fn aaa_kvs_wpa3(a: AaaConfigView) -> Seq<(Seq<char>, Seq<char>)> {
    let i = a.idx;
    opt_kv(akey(i, ".wpa3.support"@), opt_unifi(a.wpa3_support)) + opt_kv(
        akey(i, ".wpa3.transition"@),
        opt_unifi(a.wpa3_transition),
    ) + opt_kv(akey(i, ".wpa3.ft.status"@), opt_unifi(a.wpa3_ft_status))
}

/// The SAE settings of an authenticator entry that are set.
pub open spec fn aaa_kvs_sae(a: AaaConfigView) -> Seq<(Seq<char>, Seq<char>)> {
    let i = a.idx;
    opt_kv(akey(i, ".sae.psk.1.mac"@), a.sae_psk_mac) + opt_kv(akey(i, ".sae.psk.1.psk"@), a.sae_psk_psk) + opt_kv(
        akey(i, ".sae.anti_clogging"@),
        opt_dec8(a.sae_anti_clogging),
    ) + opt_kv(akey(i, ".sae.sync"@), opt_dec8(a.sae_sync))
}

/// The key-value pairs of an authenticator entry.
pub open spec fn aaa_kvs(a: AaaConfigView) -> Seq<(Seq<char>, Seq<char>)> {
    aaa_kvs_a(a) + aaa_kvs_b(a) + aaa_kvs_wpa(a) + aaa_kvs_wpa3(a) + aaa_kvs_sae(a)
}

fn push_aaa_opt(kvs: &mut Vec<(String, String)>, i: u8, field: &str, o: &Option<String>)
    ensures
        pair_views(final(kvs)@) == pair_views(old(kvs)@) + opt_kv(akey(i, field@), opt_view(*o)),
{
    let ghost before = pair_views(kvs@);
    match o {
        Some(v) => {
            push_kv(kvs, idx_key("aaa.", i as u64, field), v.as_str());
        },
        None => {},
    }
    assert(pair_views(kvs@) =~= before + opt_kv(akey(i, field@), opt_view(*o)));
}

fn push_aaa_unifi(kvs: &mut Vec<(String, String)>, i: u8, field: &str, o: Option<UnifiBool>)
    ensures
        pair_views(final(kvs)@) == pair_views(old(kvs)@) + opt_kv(akey(i, field@), opt_unifi(o)),
{
    let ghost before = pair_views(kvs@);
    match o {
        Some(b) => {
            push_kv(kvs, idx_key("aaa.", i as u64, field), b.to_string().as_str());
        },
        None => {},
    }
    assert(pair_views(kvs@) =~= before + opt_kv(akey(i, field@), opt_unifi(o)));
}

fn push_aaa_dec8(kvs: &mut Vec<(String, String)>, i: u8, field: &str, o: Option<u8>)
    ensures
        pair_views(final(kvs)@) == pair_views(old(kvs)@) + opt_kv(akey(i, field@), opt_dec8(o)),
{
    let ghost before = pair_views(kvs@);
    match o {
        Some(n) => {
            push_kv(kvs, idx_key("aaa.", i as u64, field), dec_string(n as u64).as_str());
        },
        None => {},
    }
    assert(pair_views(kvs@) =~= before + opt_kv(akey(i, field@), opt_dec8(o)));
}

impl AaaConfig {
    fn push_a(&self, kvs: &mut Vec<(String, String)>)
        ensures
            pair_views(final(kvs)@) == pair_views(old(kvs)@) + aaa_kvs_a(self@),
    {
        let ghost before = pair_views(kvs@);
        let i = self.idx as u64;
        push_kv(kvs, idx_key("aaa.", i, ".devname"), self.devname.as_str());
        push_kv(kvs, idx_key("aaa.", i, ".status"), self.status.to_string().as_str());
        push_kv(kvs, idx_key("aaa.", i, ".ssid"), self.ssid.as_str());
        push_kv(kvs, idx_key("aaa.", i, ".br.devname"), self.br_devname.as_str());
        push_kv(kvs, idx_key("aaa.", i, ".driver"), self.driver.as_str());
        push_kv(kvs, idx_key("aaa.", i, ".verbose"), dec_string(self.verbose as u64).as_str());
        push_kv(kvs, idx_key("aaa.", i, ".11k.status"), self.k11_status.to_string().as_str());
        push_kv(kvs, idx_key("aaa.", i, ".bss_transition"), self.bss_transition.to_string().as_str());
        push_kv(kvs, idx_key("aaa.", i, ".country_beacon"), self.country_beacon.to_string().as_str());
        push_kv(kvs, idx_key("aaa.", i, ".eapol_version"), dec_string(self.eapol_version as u64).as_str());
        assert(pair_views(kvs@) =~~= before + aaa_kvs_a(self@));
    }

    fn push_b(&self, kvs: &mut Vec<(String, String)>)
        ensures
            pair_views(final(kvs)@) == pair_views(old(kvs)@) + aaa_kvs_b(self@),
    {
        let ghost before = pair_views(kvs@);
        let i = self.idx as u64;
        push_kv(kvs, idx_key("aaa.", i, ".ft.status"), self.ft_status.to_string().as_str());
        push_kv(kvs, idx_key("aaa.", i, ".hide_ssid"), bool_str(self.hide_ssid));
        push_kv(kvs, idx_key("aaa.", i, ".is_guest"), bool_str(self.is_guest));
        push_kv(kvs, idx_key("aaa.", i, ".p2p"), self.p2p.to_string().as_str());
        push_kv(kvs, idx_key("aaa.", i, ".p2p_cross_connect"), self.p2p_cross_connect.to_string().as_str());
        push_kv(kvs, idx_key("aaa.", i, ".proxy_arp"), self.proxy_arp.to_string().as_str());
        push_kv(kvs, idx_key("aaa.", i, ".radius.macacl.status"), self.radius_macacl_status.to_string().as_str());
        push_kv(kvs, idx_key("aaa.", i, ".tdls_prohibit"), self.tdls_prohibit.to_string().as_str());
        push_kv(kvs, idx_key("aaa.", i, ".wpa.group_rekey"), dec_string(self.wpa_group_rekey as u64).as_str());
        push_kv(kvs, idx_key("aaa.", i, ".id"), self.unique_id.as_str());
        push_kv(kvs, idx_key("aaa.", i, ".wpa"), dec_string(self.wpa as u64).as_str());
        assert(pair_views(kvs@) =~~= before + aaa_kvs_b(self@));
    }

    fn push_wpa(&self, kvs: &mut Vec<(String, String)>)
        ensures
            pair_views(final(kvs)@) == pair_views(old(kvs)@) + aaa_kvs_wpa(self@),
    {
        let ghost start = pair_views(kvs@);
        let i = self.idx as u64;
        push_aaa_opt(kvs, self.idx, ".wpa.key.1.mgmt", &self.wpa_key_mgmt);
        push_aaa_opt(kvs, self.idx, ".wpa.psk", &self.wpa_psk);
        push_aaa_opt(kvs, self.idx, ".wpa.1.pairwise", &self.wpa_pairwise);
        let ghost mid = pair_views(kvs@);
        push_kv(kvs, idx_key("aaa.", i, ".pmf.cipher"), self.pmf_cipher.as_str());
        push_kv(kvs, idx_key("aaa.", i, ".pmf.mode"), dec_string(self.pmf_mode as u64).as_str());
        push_kv(kvs, idx_key("aaa.", i, ".pmf.status"), self.pmf_status.to_string().as_str());
        assert(pair_views(kvs@) =~~= mid + seq![
            (akey(self.idx, ".pmf.cipher"@), self.pmf_cipher@),
            (akey(self.idx, ".pmf.mode"@), dec(self.pmf_mode as nat)),
            (akey(self.idx, ".pmf.status"@), unifi_text(self.pmf_status)),
        ]);
        assert(pair_views(kvs@) =~= start + aaa_kvs_wpa(self@));
    }

    fn push_wpa3(&self, kvs: &mut Vec<(String, String)>)
        ensures
            pair_views(final(kvs)@) == pair_views(old(kvs)@) + aaa_kvs_wpa3(self@),
    {
        let ghost start = pair_views(kvs@);
        push_aaa_unifi(kvs, self.idx, ".wpa3.support", self.wpa3_support);
        push_aaa_unifi(kvs, self.idx, ".wpa3.transition", self.wpa3_transition);
        push_aaa_unifi(kvs, self.idx, ".wpa3.ft.status", self.wpa3_ft_status);
        assert(pair_views(kvs@) =~= start + aaa_kvs_wpa3(self@));
    }

    fn push_sae(&self, kvs: &mut Vec<(String, String)>)
        ensures
            pair_views(final(kvs)@) == pair_views(old(kvs)@) + aaa_kvs_sae(self@),
    {
        let ghost start = pair_views(kvs@);
        push_aaa_opt(kvs, self.idx, ".sae.psk.1.mac", &self.sae_psk_mac);
        push_aaa_opt(kvs, self.idx, ".sae.psk.1.psk", &self.sae_psk_psk);
        push_aaa_dec8(kvs, self.idx, ".sae.anti_clogging", self.sae_anti_clogging);
        push_aaa_dec8(kvs, self.idx, ".sae.sync", self.sae_sync);
        assert(pair_views(kvs@) =~= start + aaa_kvs_sae(self@));
    }

}

impl ToUnifiConfig for AaaConfig {
    /// The key-value pairs of this entry.
    fn to_config(&self) -> (r: Vec<(String, String)>)
        ensures
            pair_views(r@) == aaa_kvs(self@),
    {
        let mut kvs: Vec<(String, String)> = Vec::new();
        assert(pair_views(kvs@) =~= Seq::empty());
        self.push_a(&mut kvs);
        self.push_b(&mut kvs);
        self.push_wpa(&mut kvs);
        self.push_wpa3(&mut kvs);
        self.push_sae(&mut kvs);
        assert(pair_views(kvs@) =~= aaa_kvs(self@));
        kvs
    }
}

/// The wireless index of interface `dev`: one more than its low byte.
pub open spec fn w_index(dev: int) -> u8 {
    ((dev as u8) + 1) as u8
}

/// The text hashed into a network's id: device key, index and SSID.
pub open spec fn id_input(key: Seq<char>, w: u8, ssid: Seq<char>) -> Seq<char> {
    key + seq!['-'] + dec(w as nat) + seq!['-'] + ssid
}

/// The wireless interface of network `n` on radio `r`.
pub open spec fn wireless_config_for(
    r: PhysRadioView,
    n: NetworkConfig,
    w: u8,
    devname: Seq<char>,
    uid: Seq<char>,
) -> WirelessConfigView {
    let g2 = r.band == Band::Band2g;
    WirelessConfigView {
        idx: w,
        devname,
        status: UnifiBool::Enabled,
        ssid: n.ssid@,
        mode: "master"@,
        security: "none"@,
        hide_ssid: n.hidden,
        parent: r.phyname,
        usage: "user"@,
        l2_isolation: unifi_of(n.guest || n.client_device_isolation),
        mac_acl_status: UnifiBool::Enabled,
        mac_acl_policy: "deny"@,
        wmm: UnifiBool::Enabled,
        uapsd: UnifiBool::Disabled,
        authmode: 1,
        autowds: UnifiBool::Disabled,
        beacon_rate: if g2 {
            Some(1000u32)
        } else {
            None
        },
        dtim_period: if g2 {
            1
        } else {
            3
        },
        element_adopt: UnifiBool::Disabled,
        is_guest: false,
        mcast_enhance: 0,
        mcastrate: "auto"@,
        mgmt_rate: if g2 {
            Some(1000u32)
        } else {
            None
        },
        minrate_cck_rates_status: if g2 {
            Some(true)
        } else {
            None
        },
        minrate_data: if g2 {
            Some(1000u32)
        } else {
            None
        },
        no2ghz_oui: unifi_of(g2 && !n.iot),
        puren: 0,
        pureg: if g2 {
            0
        } else {
            1
        },
        schedule_enabled: UnifiBool::Disabled,
        vport: UnifiBool::Disabled,
        vwire: UnifiBool::Disabled,
        wds: UnifiBool::Disabled,
        addmtikie: UnifiBool::Disabled,
        iot: if n.iot {
            Some(UnifiBool::Enabled)
        } else {
            None
        },
        qbssload: if n.iot {
            Some(UnifiBool::Disabled)
        } else {
            None
        },
        unique_id: uid,
    }
}

/// The authenticator entry of network `n` on radio `r`, before its
/// security mode is applied: open, PMF off.
pub open spec fn aaa_base_for(n: NetworkConfig, w: u8, devname: Seq<char>, uid: Seq<char>) -> AaaConfigView {
    AaaConfigView {
        idx: w,
        devname,
        status: UnifiBool::Enabled,
        ssid: n.ssid@,
        br_devname: match n.vlan {
            Some(v) => "br0."@ + dec(v as nat),
            None => "br0"@,
        },
        driver: "madwifi"@,
        verbose: 2,
        k11_status: UnifiBool::Disabled,
        bss_transition: unifi_of(!n.iot),
        country_beacon: UnifiBool::Disabled,
        eapol_version: 2,
        ft_status: UnifiBool::Disabled,
        hide_ssid: n.hidden,
        is_guest: false,
        p2p: UnifiBool::Disabled,
        p2p_cross_connect: UnifiBool::Disabled,
        proxy_arp: UnifiBool::Disabled,
        radius_macacl_status: UnifiBool::Disabled,
        tdls_prohibit: UnifiBool::Disabled,
        wpa_group_rekey: 0,
        unique_id: uid,
        wpa: 0,
        wpa_key_mgmt: None,
        wpa_psk: None,
        wpa_pairwise: None,
        wpa3_support: None,
        wpa3_transition: None,
        wpa3_ft_status: None,
        pmf_status: UnifiBool::Disabled,
        pmf_mode: 0,
        pmf_cipher: "AES-128-CMAC"@,
        sae_psk_mac: None,
        sae_psk_psk: None,
        sae_anti_clogging: None,
        sae_sync: None,
    }
}

/// The authenticator entry of network `n` on radio `r`: WPA2 with a PSK;
/// WPA3 with SAE and PMF required; WPA2/WPA3 with SAE in transition mode
/// and PMF optional, except on 6 GHz, where it is WPA3 only. On 6 GHz,
/// SAE also gets the passphrase for all stations, and WPA2/WPA3 networks
/// with client isolation get SAE anti-clogging.
pub open spec fn aaa_config_for(r: PhysRadioView, n: NetworkConfig, w: u8, devname: Seq<char>, uid: Seq<char>) -> AaaConfigView {
    let base = aaa_base_for(n, w, devname, uid);
    let g6 = r.band == Band::Band6g;
    let psk = opt_view(n.passphrase);
    match n.security {
        SecurityMode::Open => base,
        SecurityMode::Wpa2 => AaaConfigView {
            wpa: 2,
            wpa_key_mgmt: Some("WPA-PSK"@),
            wpa_psk: psk,
            wpa_pairwise: Some("CCMP"@),
            ..base
        },
        SecurityMode::Wpa3 => AaaConfigView {
            wpa: 2,
            wpa_key_mgmt: Some("SAE"@),
            wpa_psk: psk,
            wpa_pairwise: Some("CCMP"@),
            wpa3_support: Some(UnifiBool::Enabled),
            wpa3_transition: Some(UnifiBool::Disabled),
            wpa3_ft_status: Some(UnifiBool::Disabled),
            pmf_status: UnifiBool::Enabled,
            pmf_mode: 2,
            sae_psk_mac: if g6 {
                Some("ff:ff:ff:ff:ff:ff"@)
            } else {
                None
            },
            sae_psk_psk: if g6 {
                psk
            } else {
                None
            },
            ..base
        },
        SecurityMode::Wpa2Wpa3 => AaaConfigView {
            wpa: 2,
            wpa_key_mgmt: Some("SAE"@),
            wpa_psk: psk,
            wpa_pairwise: Some("CCMP"@),
            wpa3_support: Some(UnifiBool::Enabled),
            wpa3_transition: Some(unifi_of(!g6)),
            wpa3_ft_status: Some(UnifiBool::Disabled),
            pmf_status: UnifiBool::Enabled,
            pmf_mode: if g6 {
                2
            } else {
                1
            },
            sae_psk_mac: if g6 {
                Some("ff:ff:ff:ff:ff:ff"@)
            } else {
                None
            },
            sae_psk_psk: if g6 {
                psk
            } else {
                None
            },
            sae_anti_clogging: if n.client_device_isolation {
                Some(5u8)
            } else {
                None
            },
            sae_sync: if n.client_device_isolation {
                Some(5u8)
            } else {
                None
            },
            ..base
        },
    }
}

/// The lines of the `k`-th network `n` of radio `r`, for the device key
/// `key`: its wireless interface, then its authenticator entry.
pub open spec fn net_lines(r: PhysRadioView, n: NetworkConfig, k: int, key: Seq<char>) -> Seq<(Seq<char>, Seq<char>)> {
    let dev = vap_dev_idx(r.idx, k);
    let w = w_index(dev);
    let devname = ath_name(dev as nat);
    let uid = hex_lower(md5_of(id_input(key, w, n.ssid@)));
    kv_lines(radio_header(), wireless_kvs(wireless_config_for(r, n, w, devname, uid))) + kv_lines(
        radio_header(),
        aaa_kvs(aaa_config_for(r, n, w, devname, uid)),
    )
}

/// The lines of the networks `sel` of radio `r`.
pub open spec fn wl_net_blocks(
    r: PhysRadioView,
    nets: Seq<(String, NetworkConfig)>,
    sel: Seq<usize>,
    key: Seq<char>,
) -> Seq<(Seq<char>, Seq<char>)>
    decreases sel.len(),
{
    if sel.len() == 0 {
        Seq::empty()
    } else {
        wl_net_blocks(r, nets, sel.drop_last(), key) + net_lines(r, nets[sel.last() as int].1, sel.len() - 1, key)
    }
}

/// The Wi-Fi lines of the radios in order.
pub open spec fn wl_radio_blocks(
    rs: Seq<PhysRadioView>,
    nets: Seq<(String, NetworkConfig)>,
    order: Seq<usize>,
    key: Seq<char>,
) -> Seq<(Seq<char>, Seq<char>)>
    decreases rs.len(),
{
    if rs.len() == 0 {
        Seq::empty()
    } else {
        wl_radio_blocks(rs.drop_last(), nets, order, key) + wl_net_blocks(
            rs.last(),
            nets,
            band_nets(nets, order, rs.last().band),
            key,
        )
    }
}

/// The Wi-Fi lines of a device.
pub open spec fn wireless_section(c: ProvisionConfig, d: DeviceState, mac: Seq<char>) -> Seq<(Seq<char>, Seq<char>)> {
    let h = radio_header();
    seq![(h, "aaa.status=enabled"@), (h, "wireless.status=enabled"@)] + wl_radio_blocks(
        phys_radios(c, d, mac),
        c.networks@,
        sorted_nets(c.networks@),
        mac_key(mac),
    )
}

/// Every interface index of the device has a low byte below 255, so that
/// its wireless index fits a byte.
pub open spec fn vap_indices_fit(c: ProvisionConfig, d: DeviceState, mac: Seq<char>) -> bool {
    let rs = phys_radios(c, d, mac);
    forall|p: int, k: int|
        0 <= p < rs.len() && 0 <= k < band_nets(c.networks@, sorted_nets(c.networks@), rs[p].band).len() ==> (
        #[trigger] vap_dev_idx(rs[p].idx, k) as u8) < 255
}

fn build_wireless(r: &PhysRadio, n: &NetworkConfig, w: u8, devname: &str, uid: &str) -> (c: WirelessConfig)
    ensures
        c@ == wireless_config_for(r@, *n, w, devname@, uid@),
{
    let g2 = r.band == Band::Band2g;
    WirelessConfig {
        idx: w,
        devname: String::from_str(devname),
        status: UnifiBool::Enabled,
        ssid: n.ssid.clone(),
        mode: String::from_str("master"),
        security: String::from_str("none"),
        hide_ssid: n.hidden,
        parent: r.phyname.clone(),
        usage: String::from_str("user"),
        l2_isolation: if n.guest || n.client_device_isolation {
            UnifiBool::Enabled
        } else {
            UnifiBool::Disabled
        },
        mac_acl_status: UnifiBool::Enabled,
        mac_acl_policy: String::from_str("deny"),
        wmm: UnifiBool::Enabled,
        uapsd: UnifiBool::Disabled,
        authmode: 1,
        autowds: UnifiBool::Disabled,
        beacon_rate: if g2 {
            Some(1000)
        } else {
            None
        },
        dtim_period: if g2 {
            1
        } else {
            3
        },
        element_adopt: UnifiBool::Disabled,
        is_guest: false,
        mcast_enhance: 0,
        mcastrate: String::from_str("auto"),
        mgmt_rate: if g2 {
            Some(1000)
        } else {
            None
        },
        minrate_cck_rates_status: if g2 {
            Some(true)
        } else {
            None
        },
        minrate_data: if g2 {
            Some(1000)
        } else {
            None
        },
        no2ghz_oui: if g2 && !n.iot {
            UnifiBool::Enabled
        } else {
            UnifiBool::Disabled
        },
        puren: 0,
        pureg: if g2 {
            0
        } else {
            1
        },
        schedule_enabled: UnifiBool::Disabled,
        vport: UnifiBool::Disabled,
        vwire: UnifiBool::Disabled,
        wds: UnifiBool::Disabled,
        addmtikie: UnifiBool::Disabled,
        iot: if n.iot {
            Some(UnifiBool::Enabled)
        } else {
            None
        },
        qbssload: if n.iot {
            Some(UnifiBool::Disabled)
        } else {
            None
        },
        unique_id: String::from_str(uid),
    }
}

fn build_aaa(r: &PhysRadio, n: &NetworkConfig, w: u8, devname: &str, uid: &str) -> (c: AaaConfig)
    ensures
        c@ == aaa_config_for(r@, *n, w, devname@, uid@),
{
    let br_devname = match n.vlan {
        Some(v) => {
            let mut b = String::from_str("br0.");
            push_dec(&mut b, v as u128);
            b
        },
        None => String::from_str("br0"),
    };
    let mut a = AaaConfig {
        idx: w,
        devname: String::from_str(devname),
        status: UnifiBool::Enabled,
        ssid: n.ssid.clone(),
        br_devname,
        driver: String::from_str("madwifi"),
        verbose: 2,
        k11_status: UnifiBool::Disabled,
        bss_transition: if n.iot {
            UnifiBool::Disabled
        } else {
            UnifiBool::Enabled
        },
        country_beacon: UnifiBool::Disabled,
        eapol_version: 2,
        ft_status: UnifiBool::Disabled,
        hide_ssid: n.hidden,
        is_guest: false,
        p2p: UnifiBool::Disabled,
        p2p_cross_connect: UnifiBool::Disabled,
        proxy_arp: UnifiBool::Disabled,
        radius_macacl_status: UnifiBool::Disabled,
        tdls_prohibit: UnifiBool::Disabled,
        wpa_group_rekey: 0,
        unique_id: String::from_str(uid),
        wpa: 0,
        wpa_key_mgmt: None,
        wpa_psk: None,
        wpa_pairwise: None,
        wpa3_support: None,
        wpa3_transition: None,
        wpa3_ft_status: None,
        pmf_status: UnifiBool::Disabled,
        pmf_mode: 0,
        pmf_cipher: String::from_str("AES-128-CMAC"),
        sae_psk_mac: None,
        sae_psk_psk: None,
        sae_anti_clogging: None,
        sae_sync: None,
    };
    assert(a@ == aaa_base_for(*n, w, devname@, uid@));
    let g6 = r.band == Band::Band6g;
    match n.security {
        SecurityMode::Open => {
            a.wpa = 0;
        },
        SecurityMode::Wpa2 => {
            a.wpa = 2;
            a.wpa_key_mgmt = Some(String::from_str("WPA-PSK"));
            a.wpa_psk = crate::config::clone_opt_string(&n.passphrase);
            a.wpa_pairwise = Some(String::from_str("CCMP"));
            a.pmf_cipher = String::from_str("AES-128-CMAC");
            a.pmf_mode = 0;
            a.pmf_status = UnifiBool::Disabled;
        },
        SecurityMode::Wpa3 => {
            a.wpa = 2;
            a.wpa_key_mgmt = Some(String::from_str("SAE"));
            a.wpa_psk = crate::config::clone_opt_string(&n.passphrase);
            a.wpa_pairwise = Some(String::from_str("CCMP"));
            a.wpa3_support = Some(UnifiBool::Enabled);
            a.wpa3_transition = Some(UnifiBool::Disabled);
            a.wpa3_ft_status = Some(UnifiBool::Disabled);
            a.pmf_status = UnifiBool::Enabled;
            a.pmf_mode = 2;
            a.pmf_cipher = String::from_str("AES-128-CMAC");
            if g6 {
                a.sae_psk_mac = Some(String::from_str("ff:ff:ff:ff:ff:ff"));
                a.sae_psk_psk = crate::config::clone_opt_string(&n.passphrase);
            }
        },
        SecurityMode::Wpa2Wpa3 => {
            a.wpa = 2;
            a.wpa_key_mgmt = Some(String::from_str("SAE"));
            a.wpa_psk = crate::config::clone_opt_string(&n.passphrase);
            a.wpa_pairwise = Some(String::from_str("CCMP"));
            a.wpa3_support = Some(UnifiBool::Enabled);
            a.wpa3_transition = if g6 {
                Some(UnifiBool::Disabled)
            } else {
                Some(UnifiBool::Enabled)
            };
            a.wpa3_ft_status = Some(UnifiBool::Disabled);
            a.pmf_status = UnifiBool::Enabled;
            a.pmf_mode = if g6 {
                2
            } else {
                1
            };
            a.pmf_cipher = String::from_str("AES-128-CMAC");
            if g6 {
                a.sae_psk_mac = Some(String::from_str("ff:ff:ff:ff:ff:ff"));
                a.sae_psk_psk = crate::config::clone_opt_string(&n.passphrase);
            }
            if n.client_device_isolation {
                a.sae_anti_clogging = Some(5);
                a.sae_sync = Some(5);
            }
        },
    }
    a
}

/// Appends the lines of the `k`-th network of a radio.
fn push_net_lines(
    out: &mut Vec<(String, String)>,
    h: &str,
    r: &PhysRadio,
    n: &NetworkConfig,
    k: usize,
    key: &str,
)
    requires
        h@ == radio_header(),
        r.idx >= 1,
        k < 0xffff_ffff,
        (vap_dev_idx(r.idx, k as int) as u8) < 255,
    ensures
        pair_views(final(out)@) == pair_views(old(out)@) + net_lines(r@, *n, k as int, key@),
{
    let dev_idx: u64 = (r.idx as u64 - 1) * 3 + k as u64;
    assert(dev_idx == vap_dev_idx(r.idx, k as int));
    let mut devname = String::from_str("ath");
    push_dec(&mut devname, dev_idx as u128);
    let w: u8 = (dev_idx as u8) + 1;
    let mut input = String::from_str(key);
    input.push('-');
    push_dec(&mut input, w as u128);
    input.push('-');
    input.append(n.ssid.as_str());
    assert(input@ =~= id_input(key@, w, n.ssid@));
    let digest = md5_digest(input.as_str());
    let uid = hex_string(&digest);
    let wc = build_wireless(r, n, w, devname.as_str(), uid.as_str());
    push_kvs(out, h, wc.to_config());
    let ac = build_aaa(r, n, w, devname.as_str(), uid.as_str());
    push_kvs(out, h, ac.to_config());
    assert(pair_views(out@) =~= pair_views(old(out)@) + net_lines(r@, *n, k as int, key@));
}

/// Appends the lines of the networks `rn` of a radio.
fn push_radio_nets(
    out: &mut Vec<(String, String)>,
    h: &str,
    radio: &PhysRadio,
    nets: &Vec<(String, NetworkConfig)>,
    rn: &Vec<usize>,
    key: &str,
)
    requires
        h@ == radio_header(),
        radio.idx >= 1,
        rn@.len() < 0xffff_ffff,
        forall|j: int| 0 <= j < rn@.len() ==> rn@[j] < nets@.len(),
        forall|k: int| 0 <= k < rn@.len() ==> (#[trigger] vap_dev_idx(radio.idx, k) as u8) < 255,
    ensures
        pair_views(final(out)@) == pair_views(old(out)@) + wl_net_blocks(radio@, nets@, rn@, key@),
{
    let ghost start = pair_views(out@);
    let mut k: usize = 0;
    assert(rn@.take(0) =~= Seq::<usize>::empty());
    while k < rn.len()
        invariant
            h@ == radio_header(),
            radio.idx >= 1,
            rn@.len() < 0xffff_ffff,
            forall|j: int| 0 <= j < rn@.len() ==> rn@[j] < nets@.len(),
            forall|k: int| 0 <= k < rn@.len() ==> (#[trigger] vap_dev_idx(radio.idx, k) as u8) < 255,
            k <= rn.len(),
            pair_views(out@) == start + wl_net_blocks(radio@, nets@, rn@.take(k as int), key@),
        decreases rn.len() - k,
    {
        assert((vap_dev_idx(radio.idx, k as int) as u8) < 255);
        let p = rn[k];
        push_net_lines(out, h, radio, &nets[p].1, k, key);
        proof {
            let t = rn@.take(k + 1);
            assert(t.drop_last() =~= rn@.take(k as int));
            assert(t.last() == p);
        }
        k = k + 1;
    }
    assert(rn@.take(rn@.len() as int) =~= rn@);
}

/// The Wi-Fi part of the system configuration.
pub struct WirelessSection;

impl WirelessSection {
    /// The Wi-Fi lines: for each radio, and each network of its band in
    /// VLAN then SSID order, a wireless interface and an authenticator
    /// entry.
    pub fn generate(&self, config: &ProvisionConfig, device_state: &DeviceState, mac: &str) -> (r: Vec<(String, String)>)
        requires
            radios_numbered(*config, *device_state, mac@),
            vap_indices_fit(*config, *device_state, mac@),
            config.networks@.len() < 0xffff_ffff,
        ensures
            pair_views(r@) == wireless_section(*config, *device_state, mac@),
    {
        let h = " wlans (radio)";
        assert(h@ == radio_header());
        let mut out: Vec<(String, String)> = Vec::new();
        push_line(&mut out, h, "aaa.status=enabled");
        push_line(&mut out, h, "wireless.status=enabled");
        let ghost head = pair_views(out@);
        let radios = get_phys_radios(config, device_state, mac);
        let nets = config.get_networks_for_device(mac);
        let order = sort_networks(nets);
        let key = device_key(mac);
        let ghost rv = radio_views(radios@);
        let mut ri: usize = 0;
        while ri < radios.len()
            invariant
                h@ == radio_header(),
                rv == radio_views(radios@),
                rv == phys_radios(*config, *device_state, mac@),
                radios_numbered(*config, *device_state, mac@),
                vap_indices_fit(*config, *device_state, mac@),
                nets@ == config.networks@,
                nets@.len() < 0xffff_ffff,
                order@ == sorted_nets(nets@),
                order@.len() == nets@.len(),
                forall|k: int| 0 <= k < order@.len() ==> order@[k] < nets@.len(),
                key@ == mac_key(mac@),
                ri <= radios.len(),
                pair_views(out@) == head + wl_radio_blocks(rv.take(ri as int), nets@, order@, key@),
            decreases radios.len() - ri,
        {
            let radio = &radios[ri];
            assert(rv[ri as int] == radio@);
            assert(phys_radios(*config, *device_state, mac@)[ri as int].idx >= 1);
            let rn = select_band(nets, &order, radio.band);
            proof {
                assert forall|k: int| 0 <= k < rn@.len() implies (#[trigger] vap_dev_idx(radio.idx, k) as u8) < 255 by {
                    assert((vap_dev_idx(rv[ri as int].idx, k) as u8) < 255);
                }
            }
            push_radio_nets(&mut out, h, radio, nets, &rn, key.as_str());
            proof {
                let t = rv.take(ri + 1);
                assert(t.drop_last() =~= rv.take(ri as int));
                assert(t.last() == radio@);
            }
            ri = ri + 1;
        }
        assert(rv.take(radios.len() as int) =~= rv);
        out
    }
}

/// The authenticator entry of a network follows its security mode: an
/// open network uses no WPA, no key and no frame protection; every other
/// mode uses WPA version 2 with CCMP and the network's passphrase, PSK key
/// management for WPA2 and SAE for WPA3 and WPA2/WPA3; WPA3 requires frame
/// protection, and WPA2/WPA3 requires it on 6 GHz (with no WPA2 fallback
/// there) and makes it optional elsewhere. The entry serves the given
/// interface, index and SSID, and hides the SSID exactly when the network
/// is hidden.
pub proof fn lemma_aaa_security(r: PhysRadioView, n: NetworkConfig, w: u8, devname: Seq<char>, uid: Seq<char>)
    ensures
        ({
            let a = aaa_config_for(r, n, w, devname, uid);
            let g6 = r.band == Band::Band6g;
            &&& a.idx == w && a.devname == devname && a.ssid == n.ssid@ && a.hide_ssid == n.hidden
            &&& n.security == SecurityMode::Open ==> a.wpa == 0 && a.wpa_psk is None && a.wpa_key_mgmt is None
                && a.pmf_status == UnifiBool::Disabled
            &&& n.security != SecurityMode::Open ==> a.wpa == 2 && a.wpa_psk == opt_view(n.passphrase)
                && a.wpa_pairwise == Some("CCMP"@)
            &&& n.security == SecurityMode::Wpa2 ==> a.wpa_key_mgmt == Some("WPA-PSK"@) && a.pmf_status
                == UnifiBool::Disabled && a.wpa3_support is None
            &&& (n.security == SecurityMode::Wpa3 || n.security == SecurityMode::Wpa2Wpa3) ==> a.wpa_key_mgmt == Some(
                "SAE"@,
            ) && a.pmf_status == UnifiBool::Enabled && a.wpa3_support == Some(UnifiBool::Enabled)
            &&& (a.pmf_mode == 2 <==> (n.security == SecurityMode::Wpa3 || (n.security == SecurityMode::Wpa2Wpa3 && g6)))
            &&& (a.pmf_mode == 1 <==> (n.security == SecurityMode::Wpa2Wpa3 && !g6))
            &&& n.security == SecurityMode::Wpa2Wpa3 ==> (a.wpa3_transition == Some(UnifiBool::Enabled) <==> !g6)
        }),
{
}

/// The wireless entry of a network serves the given interface and index
/// on the radio's own interface, with the network's SSID, hides the SSID
/// exactly when the network is hidden, and isolates clients exactly for
/// guest networks and networks that ask for client isolation.
pub proof fn lemma_wireless_entry(r: PhysRadioView, n: NetworkConfig, w: u8, devname: Seq<char>, uid: Seq<char>)
    ensures
        ({
            let c = wireless_config_for(r, n, w, devname, uid);
            &&& c.idx == w && c.devname == devname && c.parent == r.phyname && c.ssid == n.ssid@
            &&& c.hide_ssid == n.hidden
            &&& (c.l2_isolation == UnifiBool::Enabled <==> (n.guest || n.client_device_isolation))
        }),
{
}

} // verus!
