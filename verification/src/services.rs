//! The services part of the system configuration: DHCP client, NTP,
//! resolver, SSH daemon with its keys, and remote logging.

use vstd::prelude::*;
use crate::config::{key_views, opt_view, SshKey, SshKeyView};
use crate::ini::{idx_key, kv_lines, pair_views, push_kv, push_kvs, push_line, unifi_text, ToUnifiConfig, UnifiBool};
use crate::models::{device_key, find_key, lookup, mac_key, parse_ssh_pubkey, pubkey_of_line, ProvisionConfig};
use crate::state::DeviceState;
use crate::text::{dec, dec_string, push_dec, views};
use crate::wireless::opt_kv;

verus! {

/// DHCP client on an interface.
pub struct DhcpcConfig {
    pub idx: u8,
    pub devname: String,
    pub status: UnifiBool,
}

/// The pairs of a DHCP client.
pub open spec fn dhcpc_kvs(idx: u8, devname: Seq<char>, status: UnifiBool) -> Seq<(Seq<char>, Seq<char>)> {
    let p = "dhcpc."@ + dec(idx as nat);
    seq![(p + ".devname"@, devname), (p + ".status"@, unifi_text(status))]
}

impl ToUnifiConfig for DhcpcConfig {
    fn to_config(&self) -> (r: Vec<(String, String)>)
        ensures
            pair_views(r@) == dhcpc_kvs(self.idx, self.devname@, self.status),
    {
        let mut kvs: Vec<(String, String)> = Vec::new();
        push_kv(&mut kvs, idx_key("dhcpc.", self.idx as u64, ".devname"), self.devname.as_str());
        push_kv(&mut kvs, idx_key("dhcpc.", self.idx as u64, ".status"), self.status.to_string().as_str());
        assert(pair_views(kvs@) =~~= dhcpc_kvs(self.idx, self.devname@, self.status));
        kvs
    }
}

/// An NTP server.
pub struct NtpClientConfig {
    pub idx: u8,
    pub server: String,
    pub status: UnifiBool,
}

/// The pairs of an NTP server.
pub open spec fn ntp_kvs(idx: u8, server: Seq<char>, status: UnifiBool) -> Seq<(Seq<char>, Seq<char>)> {
    let p = "ntpclient."@ + dec(idx as nat);
    seq![(p + ".server"@, server), (p + ".status"@, unifi_text(status))]
}

impl ToUnifiConfig for NtpClientConfig {
    fn to_config(&self) -> (r: Vec<(String, String)>)
        ensures
            pair_views(r@) == ntp_kvs(self.idx, self.server@, self.status),
    {
        let mut kvs: Vec<(String, String)> = Vec::new();
        push_kv(&mut kvs, idx_key("ntpclient.", self.idx as u64, ".server"), self.server.as_str());
        push_kv(&mut kvs, idx_key("ntpclient.", self.idx as u64, ".status"), self.status.to_string().as_str());
        assert(pair_views(kvs@) =~~= ntp_kvs(self.idx, self.server@, self.status));
        kvs
    }
}

/// An authorised SSH key.
pub struct SshdKeyConfig {
    pub idx: u8,
    pub status: UnifiBool,
    pub value: String,
    pub key_type: String,
    pub comment: Option<String>,
}

/// The pairs of an authorised key: status, value, type and the comment
/// where there is one.
pub open spec fn key_config_kvs(
    idx: u8,
    status: UnifiBool,
    value: Seq<char>,
    key_type: Seq<char>,
    comment: Option<Seq<char>>,
) -> Seq<(Seq<char>, Seq<char>)> {
    let p = "sshd.auth.key."@ + dec(idx as nat);
    seq![(p + ".status"@, unifi_text(status)), (p + ".value"@, value), (p + ".type"@, key_type)] + opt_kv(
        p + ".comment"@,
        comment,
    )
}

impl ToUnifiConfig for SshdKeyConfig {
    fn to_config(&self) -> (r: Vec<(String, String)>)
        ensures
            pair_views(r@) == key_config_kvs(self.idx, self.status, self.value@, self.key_type@, opt_view(self.comment)),
    {
        let i = self.idx as u64;
        let mut kvs: Vec<(String, String)> = Vec::new();
        push_kv(&mut kvs, idx_key("sshd.auth.key.", i, ".status"), self.status.to_string().as_str());
        push_kv(&mut kvs, idx_key("sshd.auth.key.", i, ".value"), self.value.as_str());
        push_kv(&mut kvs, idx_key("sshd.auth.key.", i, ".type"), self.key_type.as_str());
        match &self.comment {
            Some(cm) => {
                push_kv(&mut kvs, idx_key("sshd.auth.key.", i, ".comment"), cm.as_str());
            },
            None => {},
        }
        assert(pair_views(kvs@) =~~= key_config_kvs(self.idx, self.status, self.value@, self.key_type@, opt_view(self.comment)));
        kvs
    }
}

/// The interface the SSH daemon listens on.
pub struct SshdInterfaceConfig {
    pub idx: u8,
    pub status: UnifiBool,
    pub ifname: String,
}

/// The pairs of an SSH daemon interface.
pub open spec fn sshd_if_kvs(idx: u8, status: UnifiBool, ifname: Seq<char>) -> Seq<(Seq<char>, Seq<char>)> {
    let p = "sshd."@ + dec(idx as nat);
    seq![(p + ".status"@, unifi_text(status)), (p + ".ifname"@, ifname)]
}

impl ToUnifiConfig for SshdInterfaceConfig {
    fn to_config(&self) -> (r: Vec<(String, String)>)
        ensures
            pair_views(r@) == sshd_if_kvs(self.idx, self.status, self.ifname@),
    {
        let mut kvs: Vec<(String, String)> = Vec::new();
        push_kv(&mut kvs, idx_key("sshd.", self.idx as u64, ".status"), self.status.to_string().as_str());
        push_kv(&mut kvs, idx_key("sshd.", self.idx as u64, ".ifname"), self.ifname.as_str());
        assert(pair_views(kvs@) =~~= sshd_if_kvs(self.idx, self.status, self.ifname@));
        kvs
    }
}

/// Remote syslog.
pub struct SyslogRemoteConfig {
    pub status: UnifiBool,
    pub ip: String,
    pub port: u16,
    pub encrypt: UnifiBool,
    pub key: Option<String>,
}

/// The pairs of remote syslog: status, address, port, encryption and the
/// key where there is one.
pub open spec fn syslog_config_kvs(
    status: UnifiBool,
    ip: Seq<char>,
    port: u16,
    encrypt: UnifiBool,
    key: Option<Seq<char>>,
) -> Seq<(Seq<char>, Seq<char>)> {
    seq![
        ("syslog.remote.status"@, unifi_text(status)),
        ("syslog.remote.ip"@, ip),
        ("syslog.remote.port"@, dec(port as nat)),
        ("syslog.remote.encrypt"@, unifi_text(encrypt)),
    ] + opt_kv("syslog.remote.key"@, key)
}

impl ToUnifiConfig for SyslogRemoteConfig {
    fn to_config(&self) -> (r: Vec<(String, String)>)
        ensures
            pair_views(r@) == syslog_config_kvs(self.status, self.ip@, self.port, self.encrypt, opt_view(self.key)),
    {
        let mut kvs: Vec<(String, String)> = Vec::new();
        push_kv(&mut kvs, String::from_str("syslog.remote.status"), self.status.to_string().as_str());
        push_kv(&mut kvs, String::from_str("syslog.remote.ip"), self.ip.as_str());
        push_kv(&mut kvs, String::from_str("syslog.remote.port"), dec_string(self.port as u64).as_str());
        push_kv(&mut kvs, String::from_str("syslog.remote.encrypt"), self.encrypt.to_string().as_str());
        match &self.key {
            Some(k) => {
                push_kv(&mut kvs, String::from_str("syslog.remote.key"), k.as_str());
            },
            None => {},
        }
        assert(pair_views(kvs@) =~~= syslog_config_kvs(self.status, self.ip@, self.port, self.encrypt, opt_view(self.key)));
        kvs
    }
}

/// The network console.
pub struct NetconsoleConfig {
    pub status: UnifiBool,
    pub host: String,
    pub port: u16,
}

/// The pairs of the network console.
pub open spec fn netconsole_config_kvs(status: UnifiBool, host: Seq<char>, port: u16) -> Seq<(Seq<char>, Seq<char>)> {
    seq![("netconsole.status"@, unifi_text(status)), ("netconsole.host"@, host), ("netconsole.port"@, dec(port as nat))]
}

impl ToUnifiConfig for NetconsoleConfig {
    fn to_config(&self) -> (r: Vec<(String, String)>)
        ensures
            pair_views(r@) == netconsole_config_kvs(self.status, self.host@, self.port),
    {
        let mut kvs: Vec<(String, String)> = Vec::new();
        push_kv(&mut kvs, String::from_str("netconsole.status"), self.status.to_string().as_str());
        push_kv(&mut kvs, String::from_str("netconsole.host"), self.host.as_str());
        push_kv(&mut kvs, String::from_str("netconsole.port"), dec_string(self.port as u64).as_str());
        assert(pair_views(kvs@) =~~= netconsole_config_kvs(self.status, self.host@, self.port));
        kvs
    }
}

/// A host name of the resolver.
pub struct ResolvHostConfig {
    pub idx: u8,
    pub name: String,
}

/// The pair of a resolver host name.
pub open spec fn resolv_host_kvs(idx: u8, name: Seq<char>) -> Seq<(Seq<char>, Seq<char>)> {
    seq![("resolv.host."@ + dec(idx as nat) + ".name"@, name)]
}

impl ToUnifiConfig for ResolvHostConfig {
    fn to_config(&self) -> (r: Vec<(String, String)>)
        ensures
            pair_views(r@) == resolv_host_kvs(self.idx, self.name@),
    {
        let mut kvs: Vec<(String, String)> = Vec::new();
        push_kv(&mut kvs, idx_key("resolv.host.", self.idx as u64, ".name"), self.name.as_str());
        assert(pair_views(kvs@) =~~= resolv_host_kvs(self.idx, self.name@));
        kvs
    }
}

/// The fixed service lines before the NTP servers.
pub open spec fn services_head() -> Seq<(Seq<char>, Seq<char>)> {
    seq![(" connectivity"@, "connectivity.status=disabled"@), (" dhcpc"@, "dhcpc.status=enabled"@)] + kv_lines(
        " dhcpc"@,
        dhcpc_kvs(1, "br0"@, UnifiBool::Enabled),
    ) + seq![
        (" dnsmasq"@, "dnsmasq.status=disabled"@),
        (" DPI Fingerprint"@, ""@),
        (" ipset"@, "ipset.status=disabled"@),
        (" iptables"@, "iptables.status=disabled"@),
        (" iptables"@, "ip6tables.status=disabled"@),
        (" mac acl"@, "macacl.status=disabled"@),
        (" mesh"@, "mesh.status=disabled"@),
        (" misc"@, ""@),
        (" ntpclient"@, "ntpclient.status=enabled"@),
    ]
}

/// The NTP server lines, numbered from 1.
pub open spec fn ntp_blocks(servers: Seq<Seq<char>>) -> Seq<(Seq<char>, Seq<char>)>
    decreases servers.len(),
{
    if servers.len() == 0 {
        Seq::empty()
    } else {
        ntp_blocks(servers.drop_last()) + kv_lines(
            " ntpclient"@,
            ntp_kvs(servers.len() as u8, servers.last(), UnifiBool::Enabled),
        )
    }
}

/// The four pool servers used where none are configured.
pub open spec fn default_ntp() -> Seq<Seq<char>> {
    Seq::new(4, |k: int| dec(k as nat) + ".ubnt.pool.ntp.org"@)
}

/// The NTP lines: the configured servers, else the pool servers.
pub open spec fn ntp_part(c: ProvisionConfig) -> Seq<(Seq<char>, Seq<char>)> {
    if c.ntp_servers@.len() > 0 {
        ntp_blocks(views(c.ntp_servers@))
    } else {
        ntp_blocks(default_ntp())
    }
}

/// The resolver lines: the device's name as host name, where set.
pub open spec fn resolv_part(c: ProvisionConfig, mac: Seq<char>) -> Seq<(Seq<char>, Seq<char>)> {
    seq![(" qos"@, "qos.status=disabled"@), (" redirector"@, "redirector.status=disabled"@), (" resolv"@, "resolv.status=enabled"@)]
        + (match lookup(c.devices@, mac_key(mac)) {
        Some(d) => match d.name {
            Some(n) => kv_lines(" resolv"@, resolv_host_kvs(1, n@)),
            None => Seq::empty(),
        },
        None => Seq::empty(),
    }) + seq![
        (" resolv"@, "resolv.nameserver.1.status=disabled"@),
        (" resolv"@, "resolv.nameserver.2.status=disabled"@),
        (" route"@, "route.status=enabled"@),
        (" sshd"@, "sshd.status=enabled"@),
        (" sshd"@, "sshd.auth.passwd=enabled"@),
    ]
}

/// The authorised keys: the configured ones, then the management key where
/// it parses.
pub open spec fn all_keys(c: ProvisionConfig) -> Seq<SshKeyView> {
    key_views(c.ssh_keys@) + match c.management.ssh_key {
        Some(k) => match pubkey_of_line(k@) {
            Some(v) => seq![v],
            None => Seq::empty(),
        },
        None => Seq::empty(),
    }
}

/// The key-value pairs of authorised key `idx`.
pub open spec fn sshd_key_kvs(idx: u8, k: SshKeyView) -> Seq<(Seq<char>, Seq<char>)> {
    key_config_kvs(idx, UnifiBool::Enabled, k.value, k.key_type, k.comment)
}

/// The authorised key lines, numbered from 1.
pub open spec fn sshd_blocks(keys: Seq<SshKeyView>) -> Seq<(Seq<char>, Seq<char>)>
    decreases keys.len(),
{
    if keys.len() == 0 {
        Seq::empty()
    } else {
        sshd_blocks(keys.drop_last()) + kv_lines(" sshd"@, sshd_key_kvs(keys.len() as u8, keys.last()))
    }
}

/// The SSH daemon lines after the fixed ones: the keys and the interface.
pub open spec fn sshd_part(c: ProvisionConfig) -> Seq<(Seq<char>, Seq<char>)> {
    sshd_blocks(all_keys(c)) + kv_lines(" sshd"@, sshd_if_kvs(1, UnifiBool::Enabled, "br0"@))
}

/// The remote syslog settings for a controller at `ip`: port 5514,
/// encrypted.
pub open spec fn syslog_kvs(ip: Seq<char>, key: Option<Seq<char>>) -> Seq<(Seq<char>, Seq<char>)> {
    syslog_config_kvs(UnifiBool::Enabled, ip, 5514, UnifiBool::Enabled, key)
}

/// The network console settings for a controller at `ip`: port 5514.
pub open spec fn netconsole_kvs(ip: Seq<char>) -> Seq<(Seq<char>, Seq<char>)> {
    netconsole_config_kvs(UnifiBool::Enabled, ip, 5514)
}

/// The logging lines: remote syslog and network console to the inform
/// address of the device record, where one is known.
pub open spec fn syslog_part(c: ProvisionConfig, mac: Seq<char>) -> Seq<(Seq<char>, Seq<char>)> {
    seq![
        (" stamgr"@, "stamgr.status=disabled"@),
        (" switch"@, "switch.status=disabled"@),
        (" syslog"@, "syslog.status=enabled"@),
        (" syslog"@, "syslog.level=7"@),
    ] + match lookup(c.devices_info@, mac_key(mac)) {
        Some(info) => match info.inform_ip {
            Some(ip) => kv_lines(" syslog"@, syslog_kvs(ip@, opt_view(info.syslog_remote_key))) + kv_lines(
                " syslog"@,
                netconsole_kvs(ip@),
            ),
            None => Seq::empty(),
        },
        None => Seq::empty(),
    }
}

/// The service lines of a device.
pub open spec fn services_section(c: ProvisionConfig, mac: Seq<char>) -> Seq<(Seq<char>, Seq<char>)> {
    services_head() + ntp_part(c) + resolv_part(c, mac) + sshd_part(c) + syslog_part(c, mac)
}

fn push_head(out: &mut Vec<(String, String)>)
    ensures
        pair_views(final(out)@) == pair_views(old(out)@) + services_head(),
{
    let ghost start = pair_views(out@);
    push_line(out, " connectivity", "connectivity.status=disabled");
    push_line(out, " dhcpc", "dhcpc.status=enabled");
    let dhcpc = DhcpcConfig { idx: 1, devname: String::from_str("br0"), status: UnifiBool::Enabled };
    push_kvs(out, " dhcpc", dhcpc.to_config());
    push_line(out, " dnsmasq", "dnsmasq.status=disabled");
    push_line(out, " DPI Fingerprint", "");
    push_line(out, " ipset", "ipset.status=disabled");
    push_line(out, " iptables", "iptables.status=disabled");
    push_line(out, " iptables", "ip6tables.status=disabled");
    push_line(out, " mac acl", "macacl.status=disabled");
    push_line(out, " mesh", "mesh.status=disabled");
    push_line(out, " misc", "");
    push_line(out, " ntpclient", "ntpclient.status=enabled");
    assert(pair_views(out@) =~~= start + services_head());
}

fn push_ntp_server(out: &mut Vec<(String, String)>, idx: u8, server: &str)
    ensures
        pair_views(final(out)@) == pair_views(old(out)@) + kv_lines(
            " ntpclient"@,
            ntp_kvs(idx, server@, UnifiBool::Enabled),
        ),
{
    let ntp = NtpClientConfig { idx, server: String::from_str(server), status: UnifiBool::Enabled };
    push_kvs(out, " ntpclient", ntp.to_config());
}

fn push_ntp(out: &mut Vec<(String, String)>, c: &ProvisionConfig)
    ensures
        pair_views(final(out)@) == pair_views(old(out)@) + ntp_part(*c),
{
    let ghost start = pair_views(out@);
    if c.ntp_servers.len() > 0 {
        let ghost sv = views(c.ntp_servers@);
        let mut i: usize = 0;
        assert(ntp_blocks(sv.take(0)) =~= Seq::<(Seq<char>, Seq<char>)>::empty());
        while i < c.ntp_servers.len()
            invariant
                sv == views(c.ntp_servers@),
                i <= c.ntp_servers.len(),
                pair_views(out@) == start + ntp_blocks(sv.take(i as int)),
            decreases c.ntp_servers.len() - i,
        {
            push_ntp_server(out, (i + 1) as u8, c.ntp_servers[i].as_str());
            proof {
                let t = sv.take(i + 1);
                assert(t.drop_last() =~= sv.take(i as int));
                assert(t.len() as u8 == (i + 1) as u8);
            }
            i = i + 1;
        }
        assert(sv.take(c.ntp_servers.len() as int) =~= sv);
    } else {
        let ghost dv = default_ntp();
        let mut i: u8 = 1;
        assert(ntp_blocks(dv.take(0)) =~= Seq::<(Seq<char>, Seq<char>)>::empty());
        while i <= 4
            invariant
                dv == default_ntp(),
                1 <= i <= 5,
                pair_views(out@) == start + ntp_blocks(dv.take(i - 1)),
            decreases 5 - i,
        {
            let mut server = String::new();
            push_dec(&mut server, (i - 1) as u128);
            server.append(".ubnt.pool.ntp.org");
            push_ntp_server(out, i, server.as_str());
            proof {
                let t = dv.take(i as int);
                assert(t.drop_last() =~= dv.take(i - 1));
                assert(t.last() =~= server@);
                assert(t.len() as u8 == i);
            }
            i = i + 1;
        }
        assert(dv.take(4) =~= dv);
    }
}

fn push_resolv(out: &mut Vec<(String, String)>, c: &ProvisionConfig, mac: &str)
    ensures
        pair_views(final(out)@) == pair_views(old(out)@) + resolv_part(*c, mac@),
{
    let ghost start = pair_views(out@);
    push_line(out, " qos", "qos.status=disabled");
    push_line(out, " redirector", "redirector.status=disabled");
    push_line(out, " resolv", "resolv.status=enabled");
    let ghost mid = pair_views(out@);
    let key = device_key(mac);
    match find_key(&c.devices, key.as_str()) {
        Some(i) => match &c.devices[i].1.name {
            Some(name) => {
                let host = ResolvHostConfig { idx: 1, name: name.clone() };
                push_kvs(out, " resolv", host.to_config());
            },
            None => {},
        },
        None => {},
    }
    let ghost mid2 = pair_views(out@);
    push_line(out, " resolv", "resolv.nameserver.1.status=disabled");
    push_line(out, " resolv", "resolv.nameserver.2.status=disabled");
    push_line(out, " route", "route.status=enabled");
    push_line(out, " sshd", "sshd.status=enabled");
    push_line(out, " sshd", "sshd.auth.passwd=enabled");
    assert(pair_views(out@) =~~= start + resolv_part(*c, mac@));
}

/// The authorised keys of the configuration.
pub(crate) fn collect_keys(c: &ProvisionConfig) -> (r: Vec<SshKey>)
    ensures
        key_views(r@) == all_keys(*c),
{
    let mut r: Vec<SshKey> = Vec::new();
    let mut i: usize = 0;
    while i < c.ssh_keys.len()
        invariant
            i <= c.ssh_keys.len(),
            key_views(r@) == key_views(c.ssh_keys@).take(i as int),
        decreases c.ssh_keys.len() - i,
    {
        let ghost before = key_views(r@);
        r.push(c.ssh_keys[i].clone());
        assert(key_views(r@) =~= before.push(c.ssh_keys@[i as int]@));
        assert(key_views(c.ssh_keys@).take(i + 1) =~= key_views(c.ssh_keys@).take(i as int).push(c.ssh_keys@[i as int]@));
        i = i + 1;
    }
    assert(key_views(c.ssh_keys@).take(c.ssh_keys.len() as int) =~= key_views(c.ssh_keys@));
    let ghost before = key_views(r@);
    match &c.management.ssh_key {
        Some(k) => match parse_ssh_pubkey(k.as_str()) {
            Some(parsed) => {
                let ghost pv = parsed@;
                r.push(parsed);
                assert(key_views(r@) =~= before.push(pv));
            },
            None => {},
        },
        None => {},
    }
    assert(key_views(r@) =~= all_keys(*c));
    r
}

fn push_key(out: &mut Vec<(String, String)>, idx: u8, k: &SshKey)
    ensures
        pair_views(final(out)@) == pair_views(old(out)@) + kv_lines(" sshd"@, sshd_key_kvs(idx, k@)),
{
    let kcfg = SshdKeyConfig {
        idx,
        status: UnifiBool::Enabled,
        value: k.value.clone(),
        key_type: k.key_type.clone(),
        comment: crate::config::clone_opt_string(&k.comment),
    };
    push_kvs(out, " sshd", kcfg.to_config());
}

fn push_sshd(out: &mut Vec<(String, String)>, c: &ProvisionConfig)
    ensures
        pair_views(final(out)@) == pair_views(old(out)@) + sshd_part(*c),
{
    let ghost start = pair_views(out@);
    let keys = collect_keys(c);
    let ghost kv = key_views(keys@);
    let mut i: usize = 0;
    assert(sshd_blocks(kv.take(0)) =~= Seq::<(Seq<char>, Seq<char>)>::empty());
    while i < keys.len()
        invariant
            kv == key_views(keys@),
            i <= keys.len(),
            pair_views(out@) == start + sshd_blocks(kv.take(i as int)),
        decreases keys.len() - i,
    {
        push_key(out, (i + 1) as u8, &keys[i]);
        proof {
            let t = kv.take(i + 1);
            assert(t.drop_last() =~= kv.take(i as int));
            assert(t.len() as u8 == (i + 1) as u8);
        }
        i = i + 1;
    }
    assert(kv.take(keys.len() as int) =~= kv);
    let sshd_if = SshdInterfaceConfig { idx: 1, status: UnifiBool::Enabled, ifname: String::from_str("br0") };
    push_kvs(out, " sshd", sshd_if.to_config());
    assert(pair_views(out@) =~~= start + sshd_part(*c));
}

fn push_syslog(out: &mut Vec<(String, String)>, c: &ProvisionConfig, mac: &str)
    ensures
        pair_views(final(out)@) == pair_views(old(out)@) + syslog_part(*c, mac@),
{
    let ghost start = pair_views(out@);
    push_line(out, " stamgr", "stamgr.status=disabled");
    push_line(out, " switch", "switch.status=disabled");
    push_line(out, " syslog", "syslog.status=enabled");
    push_line(out, " syslog", "syslog.level=7");
    let ghost mid = pair_views(out@);
    let key = device_key(mac);
    match find_key(&c.devices_info, key.as_str()) {
        Some(i) => {
            let info = &c.devices_info[i].1;
            match &info.inform_ip {
                Some(ip) => {
                    let syslog = SyslogRemoteConfig {
                        status: UnifiBool::Enabled,
                        ip: ip.clone(),
                        port: 5514,
                        encrypt: UnifiBool::Enabled,
                        key: crate::config::clone_opt_string(&info.syslog_remote_key),
                    };
                    push_kvs(out, " syslog", syslog.to_config());
                    let netconsole = NetconsoleConfig { status: UnifiBool::Enabled, host: ip.clone(), port: 5514 };
                    push_kvs(out, " syslog", netconsole.to_config());
                },
                None => {},
            }
        },
        None => {},
    }
    assert(pair_views(out@) =~~= start + syslog_part(*c, mac@));
}

/// The services part of the system configuration.
pub struct ServicesSection;

impl ServicesSection {
    /// The service lines: DHCP client on the bridge, NTP servers, resolver,
    /// SSH daemon with the authorised keys, and logging to the controller.
    pub fn generate(&self, config: &ProvisionConfig, _device_state: &DeviceState, mac: &str) -> (r: Vec<(String, String)>)
        ensures
            pair_views(r@) == services_section(*config, mac@),
    {
        let mut out: Vec<(String, String)> = Vec::new();
        assert(pair_views(out@) =~= Seq::<(Seq<char>, Seq<char>)>::empty());
        push_head(&mut out);
        push_ntp(&mut out, config);
        push_resolv(&mut out, config, mac);
        push_sshd(&mut out, config);
        push_syslog(&mut out, config, mac);
        assert(pair_views(out@) =~= services_section(*config, mac@));
        out
    }
}

} // verus!
