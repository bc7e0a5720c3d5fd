//! The management configuration of a device: capabilities, configuration
//! version, LED, management and STUN URLs, and the authorised SSH keys.

use vstd::prelude::*;
use crate::config::{SshKey, SshKeyView};
use crate::ini::str_eq;
use crate::models::{device_key, find_key, led_for, lookup, mac_key, ProvisionConfig};
use crate::services::all_keys;
use crate::text::{bool_str, bool_text, dec, join_lines, join_lines_exec, push_dec, views};

verus! {

/// `s` with every occurrence of `from` (scanning left to right, without
/// overlap) replaced by `to`.
pub open spec fn replace_all(s: Seq<char>, from: Seq<char>, to: Seq<char>) -> Seq<char>
    recommends
        from.len() > 0,
    decreases s.len(),
{
    if s.len() == 0 || from.len() == 0 {
        s
    } else if from.len() <= s.len() && s.subrange(0, from.len() as int) == from {
        to + replace_all(s.skip(from.len() as int), from, to)
    } else {
        seq![s[0]] + replace_all(s.drop_first(), from, to)
    }
}

/// `str::replace` for a non-empty pattern.
pub fn replace_str(s: &str, from: &str, to: &str) -> (r: String)
    requires
        from@.len() > 0,
    ensures
        r@ == replace_all(s@, from@, to@),
{
    let n = s.unicode_len();
    let m = from.unicode_len();
    let mut out = String::new();
    let mut i: usize = 0;
    assert(s@.skip(0) =~= s@);
    while i < n
        invariant
            n == s@.len(),
            m == from@.len(),
            m > 0,
            i <= n,
            replace_all(s@, from@, to@) == out@ + replace_all(s@.skip(i as int), from@, to@),
        decreases n - i,
    {
        let rest = s.substring_char(i, n);
        assert(rest@ =~= s@.skip(i as int));
        if m <= n - i && str_eq(rest.substring_char(0, m), from) {
            out.append(to);
            proof {
                assert(rest@.skip(m as int) =~= s@.skip(i + m));
            }
            i = i + m;
        } else {
            out.push(s.get_char(i));
            proof {
                assert(rest@.drop_first() =~= s@.skip(i + 1));
                assert(rest@[0] == s@[i as int]);
            }
            i = i + 1;
        }
    }
    assert(s@.skip(n as int) =~= Seq::<char>::empty());
    assert(out@ + Seq::<char>::empty() =~= out@);
    out
}

/// The key lines of the management configuration, numbered from 1.
pub open spec fn mgmt_key_lines(keys: Seq<SshKeyView>) -> Seq<Seq<char>>
    decreases keys.len(),
{
    if keys.len() == 0 {
        Seq::empty()
    } else {
        let k = keys.last();
        let p = "mgmt.sshkeys."@ + dec(keys.len());
        mgmt_key_lines(keys.drop_last()) + seq![p + ".type="@ + k.key_type, p + ".value="@ + k.value] + match k.comment {
            Some(c) => seq![p + ".comment="@ + c],
            None => Seq::empty(),
        }
    }
}

/// The configuration version written: the given one, else the device
/// record's, else the given (empty) one.
pub open spec fn effective_cfgversion(c: ProvisionConfig, mac: Seq<char>, cfgversion: Seq<char>) -> Seq<char> {
    if cfgversion.len() > 0 {
        cfgversion
    } else {
        match lookup(c.devices_info@, mac_key(mac)) {
            Some(d) => d.cfgversion@,
            None => cfgversion,
        }
    }
}

/// The URL lines from the device record: the management URL derived from
/// the inform URL, and the STUN URL (configured, else on the inform IP).
pub open spec fn url_lines(c: ProvisionConfig, mac: Seq<char>) -> Seq<Seq<char>> {
    match lookup(c.devices_info@, mac_key(mac)) {
        Some(d) => (match d.inform_url {
            Some(u) => seq!["mgmt_url="@ + replace_all(u@, ":8081/inform"@, ":8443/manage/site/default"@)],
            None => Seq::empty(),
        }) + (match d.inform_ip {
            Some(ip) => seq![
                "stun_url="@ + match c.management.stun_url {
                    Some(s) => s@,
                    None => "stun://"@ + ip@ + ":3478/"@,
                },
            ],
            None => Seq::empty(),
        }),
        None => Seq::empty(),
    }
}

/// The lines of the management configuration.
pub open spec fn mgmt_lines(c: ProvisionConfig, mac: Seq<char>, cfgversion: Seq<char>) -> Seq<Seq<char>> {
    seq![
        "capability=notif,notif-assoc-stat"@,
        "cfgversion="@ + effective_cfgversion(c, mac, cfgversion),
        "led_enabled="@ + bool_text(led_for(c, mac)),
        "report_crash=true"@,
        "selfrun_guest_mode=pass"@,
    ] + url_lines(c, mac) + seq!["use_aes_gcm=true"@] + mgmt_key_lines(all_keys(c))
}

/// The management configuration text.
pub open spec fn mgmt_text(c: ProvisionConfig, mac: Seq<char>, cfgversion: Seq<char>) -> Seq<char> {
    join_lines(mgmt_lines(c, mac, cfgversion))
}

fn line2(a: &str, b: &str) -> (s: String)
    ensures
        s@ == a@ + b@,
{
    let mut s = String::from_str(a);
    s.append(b);
    s
}

fn push_url_lines(lines: &mut Vec<String>, c: &ProvisionConfig, mac: &str)
    ensures
        views(final(lines)@) == views(old(lines)@) + url_lines(*c, mac@),
{
    let ghost start = views(lines@);
    let key = device_key(mac);
    match find_key(&c.devices_info, key.as_str()) {
        Some(i) => {
            let d = &c.devices_info[i].1;
            match &d.inform_url {
                Some(u) => {
                    proof {
                        reveal_strlit(":8081/inform");
                    }
                    let m = replace_str(u.as_str(), ":8081/inform", ":8443/manage/site/default");
                    lines.push(line2("mgmt_url=", m.as_str()));
                },
                None => {},
            }
            match &d.inform_ip {
                Some(ip) => {
                    let stun = match &c.management.stun_url {
                        Some(s) => s.clone(),
                        None => {
                            let mut t = String::from_str("stun://");
                            t.append(ip.as_str());
                            t.append(":3478/");
                            t
                        },
                    };
                    lines.push(line2("stun_url=", stun.as_str()));
                },
                None => {},
            }
        },
        None => {},
    }
    assert(views(lines@) =~= start + url_lines(*c, mac@));
}

fn push_key_lines(lines: &mut Vec<String>, keys: &Vec<SshKey>)
    ensures
        views(final(lines)@) == views(old(lines)@) + mgmt_key_lines(crate::config::key_views(keys@)),
{
    let ghost start = views(lines@);
    let ghost kv = crate::config::key_views(keys@);
    let mut i: usize = 0;
    assert(mgmt_key_lines(kv.take(0)) =~= Seq::<Seq<char>>::empty());
    while i < keys.len()
        invariant
            kv == crate::config::key_views(keys@),
            i <= keys.len(),
            views(lines@) == start + mgmt_key_lines(kv.take(i as int)),
        decreases keys.len() - i,
    {
        let k = &keys[i];
        let ghost before = views(lines@);
        let mut p = String::from_str("mgmt.sshkeys.");
        push_dec(&mut p, (i + 1) as u128);
        let mut t = p.clone();
        t.append(".type=");
        t.append(k.key_type.as_str());
        lines.push(t);
        let mut v = p.clone();
        v.append(".value=");
        v.append(k.value.as_str());
        lines.push(v);
        match &k.comment {
            Some(cm) => {
                let mut c2 = p.clone();
                c2.append(".comment=");
                c2.append(cm.as_str());
                lines.push(c2);
            },
            None => {},
        }
        proof {
            let tk = kv.take(i + 1);
            let pp = "mgmt.sshkeys."@ + dec((i + 1) as nat);
            assert(p@ == pp);
            let add = seq![pp + ".type="@ + k.key_type@, pp + ".value="@ + k.value@] + match k@.comment {
                Some(c) => seq![pp + ".comment="@ + c],
                None => Seq::empty(),
            };
            assert(views(lines@) =~= before + add);
            assert(tk.drop_last() =~= kv.take(i as int));
            assert(tk.last() == k@);
            assert(tk.len() == i + 1);
            assert(mgmt_key_lines(tk) == mgmt_key_lines(kv.take(i as int)) + add);
            assert(views(lines@) =~= start + mgmt_key_lines(tk));
        }
        i = i + 1;
    }
    assert(kv.take(keys.len() as int) =~= kv);
}

impl ProvisionConfig {
    /// The management configuration of a device with the placeholder
    /// configuration version `0000000000000000`.
    pub fn generate_mgmt_cfg(&self, mac: &str) -> (r: String)
        ensures
            r@ == mgmt_text(*self, mac@, "0000000000000000"@),
    {
        self.generate_mgmt_cfg_with_auth(mac, None, None, "0000000000000000")
    }

    /// The management configuration of a device: capabilities, the
    /// configuration version (the given one, else the device record's), the
    /// LED setting, the management and STUN URLs from the device record,
    /// AES-GCM, and the authorised keys. The key and inform URL arguments
    /// are not written: adoption sets them on the device.
    pub fn generate_mgmt_cfg_with_auth(
        &self,
        mac: &str,
        _auth_key: Option<&str>,
        _inform_url: Option<&str>,
        cfgversion: &str,
    ) -> (r: String)
        ensures
            r@ == mgmt_text(*self, mac@, cfgversion@),
    {
        let led = self.get_led_for_device(mac);
        let key = device_key(mac);
        let mut lines: Vec<String> = Vec::new();
        lines.push(String::from_str("capability=notif,notif-assoc-stat"));
        let eff = if cfgversion.unicode_len() > 0 {
            String::from_str(cfgversion)
        } else {
            match find_key(&self.devices_info, key.as_str()) {
                Some(i) => self.devices_info[i].1.cfgversion.clone(),
                None => String::from_str(cfgversion),
            }
        };
        lines.push(line2("cfgversion=", eff.as_str()));
        lines.push(line2("led_enabled=", bool_str(led)));
        lines.push(String::from_str("report_crash=true"));
        lines.push(String::from_str("selfrun_guest_mode=pass"));
        let ghost head = views(lines@);
        assert(head =~= seq![
            "capability=notif,notif-assoc-stat"@,
            "cfgversion="@ + effective_cfgversion(*self, mac@, cfgversion@),
            "led_enabled="@ + bool_text(led_for(*self, mac@)),
            "report_crash=true"@,
            "selfrun_guest_mode=pass"@,
        ]);
        push_url_lines(&mut lines, self, mac);
        lines.push(String::from_str("use_aes_gcm=true"));
        let ghost mid = views(lines@);
        let keys = crate::services::collect_keys(self);
        push_key_lines(&mut lines, &keys);
        assert(views(lines@) =~= mgmt_lines(*self, mac@, cfgversion@));
        join_lines_exec(&lines)
    }
}

/// When the device record has an inform IP, the management configuration
/// has a STUN URL line: the configured STUN URL where one is set, else one
/// on the device's inform IP, port 3478.
pub proof fn lemma_stun_url_line(c: ProvisionConfig, mac: Seq<char>, cfgversion: Seq<char>, i: int)
    requires
        0 <= i < c.devices_info@.len(),
        c.devices_info@[i].0@ == mac_key(mac),
        crate::models::distinct_keys(c.devices_info@),
        c.devices_info@[i].1.inform_ip is Some,
    ensures
        mgmt_lines(c, mac, cfgversion).contains(
            "stun_url="@ + match c.management.stun_url {
                Some(s) => s@,
                None => "stun://"@ + c.devices_info@[i].1.inform_ip.unwrap()@ + ":3478/"@,
            },
        ),
{
    crate::models::lemma_lookup_distinct(c.devices_info@, i);
    let d = c.devices_info@[i].1;
    let line = "stun_url="@ + match c.management.stun_url {
        Some(s) => s@,
        None => "stun://"@ + d.inform_ip.unwrap()@ + ":3478/"@,
    };
    let head = seq![
        "capability=notif,notif-assoc-stat"@,
        "cfgversion="@ + effective_cfgversion(c, mac, cfgversion),
        "led_enabled="@ + bool_text(led_for(c, mac)),
        "report_crash=true"@,
        "selfrun_guest_mode=pass"@,
    ];
    let mu: Seq<Seq<char>> = match d.inform_url {
        Some(u) => seq!["mgmt_url="@ + replace_all(u@, ":8081/inform"@, ":8443/manage/site/default"@)],
        None => Seq::empty(),
    };
    let ul = url_lines(c, mac);
    assert(ul == mu + seq![line]);
    assert(ul[mu.len() as int] == line);
    let tail = seq!["use_aes_gcm=true"@] + mgmt_key_lines(all_keys(c));
    assert(mgmt_lines(c, mac, cfgversion) == head + ul + tail);
    assert((head + ul + tail)[(head.len() + mu.len()) as int] == line);
}

} // verus!
