//! The controller, system and user parts of the system configuration.

use vstd::prelude::*;
use crate::ini::ToUnifiConfig;
use crate::config::opt_view;
use crate::ini::{idx_key, kv_lines, pair_views, push_kv, push_kvs, push_line, unifi_text, UnifiBool};
use crate::models::{device_key, effective_tz, find_key, lookup, mac_key, needs_system_tz, ProvisionConfig};
use crate::state::DeviceState;
use crate::text::dec;
use crate::wireless::opt_kv;

verus! {

/// The controller key used where the device record has none.
pub open spec fn default_unifi_key() -> Seq<char> {
    "cb1aca606688a98bc453add57acb3589"@
}

/// The controller key of a device: that of its record, else the default.
pub open spec fn unifi_key_for(c: ProvisionConfig, mac: Seq<char>) -> Seq<char> {
    match lookup(c.devices_info@, mac_key(mac)) {
        Some(info) => match info.auth_key {
            Some(k) => k@,
            None => default_unifi_key(),
        },
        None => default_unifi_key(),
    }
}

/// The controller settings.
#[derive(Debug)]
pub struct UnifiConfig {
    pub version: String,
    pub anonymous_controller_id: String,
    pub anonymous_site_id: String,
    pub reporterid: String,
    pub siteid: String,
    pub idp: UnifiBool,
    pub mcip: String,
    pub key: String,
    pub feature_always_send_crash_logs: UnifiBool,
    pub cfgcap_info: String,
}

/// The key-value pairs of the controller settings.
pub open spec fn unifi_kvs(u: UnifiConfig) -> Seq<(Seq<char>, Seq<char>)> {
    seq![
        ("unifi.version"@, u.version@),
        ("unifi.anonymous_controller_id"@, u.anonymous_controller_id@),
        ("unifi.anonymous_site_id"@, u.anonymous_site_id@),
        ("unifi.reporterid"@, u.reporterid@),
        ("unifi.siteid"@, u.siteid@),
        ("unifi.idp"@, unifi_text(u.idp)),
        ("unifi.mcip"@, u.mcip@),
        ("unifi.key"@, u.key@),
        ("unifi.feature.always_send_crash_logs"@, unifi_text(u.feature_always_send_crash_logs)),
        ("unifi.cfgcap_info"@, u.cfgcap_info@),
    ]
}

impl ToUnifiConfig for UnifiConfig {
    /// The key-value pairs of these settings.
    fn to_config(&self) -> (r: Vec<(String, String)>)
        ensures
            pair_views(r@) == unifi_kvs(*self),
    {
        let mut kvs: Vec<(String, String)> = Vec::new();
        push_kv(&mut kvs, String::from_str("unifi.version"), self.version.as_str());
        push_kv(&mut kvs, String::from_str("unifi.anonymous_controller_id"), self.anonymous_controller_id.as_str());
        push_kv(&mut kvs, String::from_str("unifi.anonymous_site_id"), self.anonymous_site_id.as_str());
        push_kv(&mut kvs, String::from_str("unifi.reporterid"), self.reporterid.as_str());
        push_kv(&mut kvs, String::from_str("unifi.siteid"), self.siteid.as_str());
        push_kv(&mut kvs, String::from_str("unifi.idp"), self.idp.to_string().as_str());
        push_kv(&mut kvs, String::from_str("unifi.mcip"), self.mcip.as_str());
        push_kv(&mut kvs, String::from_str("unifi.key"), self.key.as_str());
        push_kv(
            &mut kvs,
            String::from_str("unifi.feature.always_send_crash_logs"),
            self.feature_always_send_crash_logs.to_string().as_str(),
        );
        push_kv(&mut kvs, String::from_str("unifi.cfgcap_info"), self.cfgcap_info.as_str());
        assert(pair_views(kvs@) =~~= unifi_kvs(*self));
        kvs
    }
}

/// The controller lines of a device.
pub open spec fn system_section(c: ProvisionConfig, mac: Seq<char>) -> Seq<(Seq<char>, Seq<char>)> {
    kv_lines(
        " unifi"@,
        seq![
            ("unifi.version"@, "9.5.21"@),
            ("unifi.anonymous_controller_id"@, "d5dcfdb7-f8e2-49e5-92b2-e7723cba1885"@),
            ("unifi.anonymous_site_id"@, "ef8b8b11-ba0f-4e6f-b297-287e2ac93630"@),
            ("unifi.reporterid"@, "d5dcfdb7-f8e2-49e5-92b2-e7723cba1885"@),
            ("unifi.siteid"@, "692911c5ca49482e1a75e911"@),
            ("unifi.idp"@, unifi_text(UnifiBool::Enabled)),
            ("unifi.mcip"@, "239.254.127.63"@),
            ("unifi.key"@, unifi_key_for(c, mac)),
            ("unifi.feature.always_send_crash_logs"@, unifi_text(UnifiBool::Enabled)),
            ("unifi.cfgcap_info"@, "0x7"@),
        ],
    )
}

/// The controller part of the system configuration.
pub struct SystemSection;

impl SystemSection {
    /// The controller lines: fixed identifiers and the device's key.
    pub fn generate(&self, config: &ProvisionConfig, _device: &DeviceState, mac: &str) -> (r: Vec<(String, String)>)
        ensures
            pair_views(r@) == system_section(*config, mac@),
    {
        let key = device_key(mac);
        let unifi_key = match find_key(&config.devices_info, key.as_str()) {
            Some(i) => match &config.devices_info[i].1.auth_key {
                Some(k) => k.clone(),
                None => String::from_str("cb1aca606688a98bc453add57acb3589"),
            },
            None => String::from_str("cb1aca606688a98bc453add57acb3589"),
        };
        let cfg = UnifiConfig {
            version: String::from_str("9.5.21"),
            anonymous_controller_id: String::from_str("d5dcfdb7-f8e2-49e5-92b2-e7723cba1885"),
            anonymous_site_id: String::from_str("ef8b8b11-ba0f-4e6f-b297-287e2ac93630"),
            reporterid: String::from_str("d5dcfdb7-f8e2-49e5-92b2-e7723cba1885"),
            siteid: String::from_str("692911c5ca49482e1a75e911"),
            idp: UnifiBool::Enabled,
            mcip: String::from_str("239.254.127.63"),
            key: unifi_key,
            feature_always_send_crash_logs: UnifiBool::Enabled,
            cfgcap_info: String::from_str("0x7"),
        };
        let mut out: Vec<(String, String)> = Vec::new();
        assert(pair_views(out@) =~= Seq::<(Seq<char>, Seq<char>)>::empty());
        push_kvs(&mut out, " unifi", cfg.to_config());
        assert(pair_views(out@) =~= system_section(*config, mac@));
        out
    }
}

/// The core system settings.
#[derive(Debug)]
pub struct SystemConfig {
    pub analytics_status: UnifiBool,
    pub timezone: String,
}

impl ToUnifiConfig for SystemConfig {
    /// The key-value pairs of these settings.
    fn to_config(&self) -> (r: Vec<(String, String)>)
        ensures
            pair_views(r@) == seq![
                ("system.analytics.status"@, unifi_text(self.analytics_status)),
                ("system.timezone"@, self.timezone@),
                ("locale.timezone"@, self.timezone@),
            ],
    {
        let mut kvs: Vec<(String, String)> = Vec::new();
        push_kv(&mut kvs, String::from_str("system.analytics.status"), self.analytics_status.to_string().as_str());
        push_kv(&mut kvs, String::from_str("system.timezone"), self.timezone.as_str());
        push_kv(&mut kvs, String::from_str("locale.timezone"), self.timezone.as_str());
        assert(pair_views(kvs@) =~~= seq![
            ("system.analytics.status"@, unifi_text(self.analytics_status)),
            ("system.timezone"@, self.timezone@),
            ("locale.timezone"@, self.timezone@),
        ]);
        kvs
    }
}

/// The core system lines for the POSIX time zone `tz`.
pub open spec fn core_section(tz: Seq<char>) -> Seq<(Seq<char>, Seq<char>)> {
    kv_lines(
        " system"@,
        seq![
            ("system.analytics.status"@, unifi_text(UnifiBool::Disabled)),
            ("system.timezone"@, tz),
            ("locale.timezone"@, tz),
        ],
    )
}

/// The core system lines for the POSIX time zone `tz`.
pub fn core_system_lines(tz: String) -> (r: Vec<(String, String)>)
    ensures
        pair_views(r@) == core_section(tz@),
{
    let cfg = SystemConfig { analytics_status: UnifiBool::Disabled, timezone: tz };
    let mut out: Vec<(String, String)> = Vec::new();
    assert(pair_views(out@) =~= Seq::<(Seq<char>, Seq<char>)>::empty());
    push_kvs(&mut out, " system", cfg.to_config());
    assert(pair_views(out@) =~= core_section(cfg.timezone@));
    out
}

/// The core system part of the system configuration.
pub struct CoreSystemSection;

impl CoreSystemSection {
    /// The core system lines: analytics off and the effective time zone.
    /// The system's zone is read only where the configuration gives none.
    pub fn generate(&self, config: &ProvisionConfig, _device: &DeviceState, _mac: &str) -> (r: Vec<(String, String)>)
        ensures
            !needs_system_tz(*config) ==> pair_views(r@) == core_section(effective_tz(*config, None)),
            exists|sys: Option<Seq<char>>| pair_views(r@) == core_section(effective_tz(*config, sys)),
    {
        let tz = config.get_effective_timezone_posix();
        let ghost t = tz@;
        let r = core_system_lines(tz);
        assert(pair_views(r@) == core_section(t));
        r
    }
}

/// A crypt entry made with SHA-512 (`$6$...`).
pub open spec fn is_sha512_entry(s: Seq<char>) -> bool {
    s.len() >= 3 && s[0] == '$' && s[1] == '6' && s[2] == '$'
}

/// The SHA-512 crypt entry (`$6$<salt>$<hash>`, default rounds) of
/// `password` with `salt`: what `pwhash::sha512_crypt` computes once the
/// salt is fixed.
pub uninterp spec fn sha512_salted(password: Seq<char>, salt: Seq<char>) -> Seq<char>;

/// `pwhash::sha512_crypt::hash`: draws a random salt from the operating
/// system and returns the SHA-512 crypt entry of `password` with that salt
/// and the default rounds. Claimed: it returns an entry, which starts with
/// `$6$` and is the entry of `password` for some salt. Which salt is left
/// unsaid: it is random. The crate documents an error where the random
/// source cannot be opened; in this version that source panics instead,
/// and the salt it draws always passes the crypt step, so no error comes
/// back.
#[verifier::external_body]
pub(crate) fn sha512_crypt(password: &str) -> (r: Option<String>)
    ensures
        r is Some,
        r matches Some(h) ==> is_sha512_entry(h@) && exists|salt: Seq<char>| h@ == sha512_salted(password@, salt),
{
    pwhash::sha512_crypt::hash(password).ok()
}

/// One user account.
#[derive(Debug)]
pub struct UserConfig {
    pub idx: u8,
    pub name: String,
    pub password: String,
    pub status: UnifiBool,
    pub shell: Option<String>,
}

/// The key-value pairs of user `idx`.
pub open spec fn user_kvs(idx: u8, name: Seq<char>, pw: Seq<char>, st: UnifiBool, shell: Option<Seq<char>>) -> Seq<
    (Seq<char>, Seq<char>),
> {
    let p = "users."@ + dec(idx as nat);
    seq![(p + ".name"@, name), (p + ".password"@, pw), (p + ".status"@, unifi_text(st))] + opt_kv(p + ".shell"@, shell)
}

impl ToUnifiConfig for UserConfig {
    /// The key-value pairs of this account.
    fn to_config(&self) -> (r: Vec<(String, String)>)
        ensures
            pair_views(r@) == user_kvs(self.idx, self.name@, self.password@, self.status, opt_view(self.shell)),
    {
        let i = self.idx as u64;
        let mut kvs: Vec<(String, String)> = Vec::new();
        push_kv(&mut kvs, idx_key("users.", i, ".name"), self.name.as_str());
        push_kv(&mut kvs, idx_key("users.", i, ".password"), self.password.as_str());
        push_kv(&mut kvs, idx_key("users.", i, ".status"), self.status.to_string().as_str());
        match &self.shell {
            Some(sh) => {
                push_kv(&mut kvs, idx_key("users.", i, ".shell"), sh.as_str());
            },
            None => {},
        }
        assert(pair_views(kvs@) =~~= user_kvs(self.idx, self.name@, self.password@, self.status, opt_view(self.shell)));
        kvs
    }
}

/// The user lines: the management user with password entry `pw`, and the
/// locked `nobody` account.
pub open spec fn users_section(name: Seq<char>, pw: Seq<char>) -> Seq<(Seq<char>, Seq<char>)> {
    seq![(" users"@, "users.status=enabled"@)] + kv_lines(" users"@, user_kvs(1, name, pw, UnifiBool::Enabled, None))
        + kv_lines(" users"@, user_kvs(2, "nobody"@, "x"@, UnifiBool::Enabled, Some("/bin/false"@)))
}

/// The management user name: the configured one, else `ubnt`.
pub open spec fn user_name_for(c: ProvisionConfig) -> Seq<char> {
    match c.management.username {
        Some(u) => u@,
        None => "ubnt"@,
    }
}

/// The configured password, else `ubnt`.
pub open spec fn raw_password(c: ProvisionConfig) -> Seq<char> {
    match c.management.password {
        Some(p) => p@,
        None => "ubnt"@,
    }
}

/// The password entry when no hashing is needed: the configured one, or
/// `ubnt` without a configured user.
pub open spec fn given_password(c: ProvisionConfig) -> Seq<char> {
    if c.management.username is None {
        "ubnt"@
    } else {
        raw_password(c)
    }
}

/// The password must be hashed: a user is configured and the password is
/// not already a crypt entry (one starting with `$`).
pub open spec fn needs_hash(c: ProvisionConfig) -> bool {
    c.management.username is Some && !(raw_password(c).len() > 0 && raw_password(c)[0] == '$')
}

/// `pw` is a password entry the configuration allows: `ubnt` without a
/// configured user, the given crypt entry, or a SHA-512 entry of the
/// configured password.
pub open spec fn password_entry_ok(c: ProvisionConfig, pw: Seq<char>) -> bool {
    if c.management.username is None {
        pw == "ubnt"@
    } else if needs_hash(c) {
        is_sha512_entry(pw) && exists|salt: Seq<char>| pw == sha512_salted(raw_password(c), salt)
    } else {
        pw == raw_password(c)
    }
}

/// The user lines for a management user `name` with password entry `pw`.
pub fn users_lines(name: String, pw: String) -> (r: Vec<(String, String)>)
    ensures
        pair_views(r@) == users_section(name@, pw@),
{
    let u1 = UserConfig { idx: 1, name, password: pw, status: UnifiBool::Enabled, shell: None };
    let u2 = UserConfig {
        idx: 2,
        name: String::from_str("nobody"),
        password: String::from_str("x"),
        status: UnifiBool::Enabled,
        shell: Some(String::from_str("/bin/false")),
    };
    let mut out: Vec<(String, String)> = Vec::new();
    assert(pair_views(out@) =~= Seq::<(Seq<char>, Seq<char>)>::empty());
    push_line(&mut out, " users", "users.status=enabled");
    push_kvs(&mut out, " users", u1.to_config());
    push_kvs(&mut out, " users", u2.to_config());
    assert(pair_views(out@) =~= users_section(u1.name@, u1.password@));
    out
}

/// The user part of the system configuration.
pub struct UsersSection;

impl UsersSection {
    /// The user lines. A configured password that is not already a crypt
    /// entry is hashed with SHA-512 crypt and a random salt.
    pub fn generate(&self, config: &ProvisionConfig, _device: &DeviceState, _mac: &str) -> (r: Vec<(String, String)>)
        ensures
            exists|pw: Seq<char>|
                password_entry_ok(*config, pw) && pair_views(r@) == users_section(user_name_for(*config), pw),
            !needs_hash(*config) ==> pair_views(r@) == users_section(user_name_for(*config), given_password(*config)),
            needs_hash(*config) ==> exists|salt: Seq<char>| pair_views(r@) == users_section(
                user_name_for(*config),
                sha512_salted(raw_password(*config), salt),
            ),
    {
        match &config.management.username {
            Some(u) => {
                let raw = match &config.management.password {
                    Some(p) => p.clone(),
                    None => String::from_str("ubnt"),
                };
                let hashed = raw.unicode_len() > 0 && raw.as_str().get_char(0) == '$';
                if hashed {
                    let ghost pw = raw@;
                    let r = users_lines(u.clone(), raw);
                    assert(password_entry_ok(*config, pw));
                    r
                } else {
                    let h = match sha512_crypt(raw.as_str()) {
                        Some(h) => h,
                        None => raw,
                    };
                    let ghost pw = h@;
                    let r = users_lines(u.clone(), h);
                    assert(password_entry_ok(*config, pw));
                    r
                }
            },
            None => {
                let r = users_lines(String::from_str("ubnt"), String::from_str("ubnt"));
                assert(password_entry_ok(*config, "ubnt"@));
                r
            },
        }
    }
}

} // verus!
