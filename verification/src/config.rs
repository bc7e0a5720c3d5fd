//! Management and system configuration records and their INI text, and
//! SSH public key parsing.

use vstd::prelude::*;
use crate::system_section::{is_sha512_entry, sha512_crypt, sha512_salted};
use crate::text::{bool_str, bool_text, cat, dec, enabled_str, enabled_text, find_char, first_index, idx_line,
    join_lines, join_lines_exec, trim_str, trim_ws, views};

verus! {

/// Clones an optional string.
pub fn clone_opt_string(s: &Option<String>) -> (r: Option<String>)
    ensures
        opt_view(r) == opt_view(*s),
{
    match s {
        Some(x) => Some(x.clone()),
        None => None,
    }
}

/// The text of an optional string.
pub open spec fn opt_view(s: Option<String>) -> Option<Seq<char>> {
    match s {
        Some(x) => Some(x@),
        None => None,
    }
}

/// The text fields of an SSH key.
pub struct SshKeyView {
    pub key_type: Seq<char>,
    pub value: Seq<char>,
    pub comment: Option<Seq<char>>,
}

/// SSH public key.
#[derive(Debug)]
pub struct SshKey {
    /// Key type (ssh-rsa, ssh-ed25519, ...).
    pub key_type: String,
    /// Public key value (base64).
    pub value: String,
    /// Optional comment.
    pub comment: Option<String>,
}

impl View for SshKey {
    type V = SshKeyView;

    open spec fn view(&self) -> SshKeyView {
        SshKeyView { key_type: self.key_type@, value: self.value@, comment: opt_view(self.comment) }
    }
}

impl Clone for SshKey {
    fn clone(&self) -> (r: SshKey)
        ensures
            r@ == self@,
    {
        SshKey { key_type: self.key_type.clone(), value: self.value.clone(), comment: clone_opt_string(&self.comment) }
    }
}

/// The views of a list of keys.
pub open spec fn key_views(keys: Seq<SshKey>) -> Seq<SshKeyView> {
    keys.map_values(|k: SshKey| k@)
}

/// User account.
#[derive(Debug)]
pub struct UserConfig {
    /// Username.
    pub name: String,
    /// Password, already hashed.
    pub password: Option<String>,
    /// SSH public keys of the user.
    pub ssh_keys: Vec<SshKey>,
}

/// SSH daemon settings.
#[derive(Debug)]
pub struct SshdConfig {
    /// SSH enabled.
    pub enabled: bool,
    /// Password authentication enabled.
    pub password_auth: bool,
    /// Interface to bind to.
    pub interface: String,
}

impl Default for SshdConfig {
    fn default() -> (c: SshdConfig)
        ensures
            !c.enabled,
            !c.password_auth,
            c.interface@ == Seq::<char>::empty(),
    {
        SshdConfig { enabled: false, password_auth: false, interface: String::new() }
    }
}

/// The default of flags that are on unless configured: `true`.
pub fn default_true() -> (b: bool)
    ensures
        b,
{
    true
}

/// The default SSH interface: `br0`.
pub fn default_interface() -> (s: String)
    ensures
        s@ == "br0"@,
{
    String::from_str("br0")
}

/// Management configuration (`mgmt_cfg`).
#[derive(Debug)]
pub struct MgmtConfig {
    /// Configuration version.
    pub cfgversion: String,
    /// Management URL.
    pub mgmt_url: Option<String>,
    /// STUN URL.
    pub stun_url: Option<String>,
    /// LED enabled.
    pub led_enabled: bool,
    /// AES-GCM for inform encryption.
    pub use_aes_gcm: bool,
    /// Management SSH keys.
    pub ssh_keys: Vec<SshKey>,
}

impl Default for MgmtConfig {
    fn default() -> (c: MgmtConfig)
        ensures
            c.cfgversion@ == Seq::<char>::empty(),
            c.mgmt_url is None,
            c.stun_url is None,
            !c.led_enabled,
            !c.use_aes_gcm,
            c.ssh_keys@.len() == 0,
    {
        MgmtConfig {
            cfgversion: String::new(),
            mgmt_url: None,
            stun_url: None,
            led_enabled: false,
            use_aes_gcm: false,
            ssh_keys: Vec::new(),
        }
    }
}

/// The lines of one SSH key at 1-based index `idx`: `{p}{idx}.type=`,
/// `{p}{idx}.value=` and, with a comment, `{p}{idx}.comment=`.
pub open spec fn key_lines(p: Seq<char>, idx: nat, k: SshKeyView) -> Seq<Seq<char>> {
    seq![p + dec(idx) + ".type="@ + k.key_type, p + dec(idx) + ".value="@ + k.value] + match k.comment {
        Some(c) => seq![p + dec(idx) + ".comment="@ + c],
        None => Seq::empty(),
    }
}

/// The lines of a list of SSH keys, numbered from 1.
pub open spec fn keys_lines(p: Seq<char>, keys: Seq<SshKeyView>) -> Seq<Seq<char>>
    decreases keys.len(),
{
    if keys.len() == 0 {
        Seq::empty()
    } else {
        keys_lines(p, keys.drop_last()) + key_lines(p, keys.len(), keys.last())
    }
}

/// Appends the lines of the SSH key at 1-based index `idx`.
pub fn push_key_lines(lines: &mut Vec<String>, p: &str, idx: u128, key: &SshKey)
    ensures
        views(final(lines)@) == views(old(lines)@) + key_lines(p@, idx as nat, key@),
{
    let ghost before = views(lines@);
    lines.push(idx_line(p, idx, ".type=", key.key_type.as_str()));
    lines.push(idx_line(p, idx, ".value=", key.value.as_str()));
    match &key.comment {
        Some(c) => {
            lines.push(idx_line(p, idx, ".comment=", c.as_str()));
        },
        None => {},
    }
    assert(views(lines@) =~= before + key_lines(p@, idx as nat, key@));
}

/// Appends the lines of all the keys, numbered from 1.
pub fn push_keys_lines(lines: &mut Vec<String>, p: &str, keys: &Vec<SshKey>)
    ensures
        views(final(lines)@) == views(old(lines)@) + keys_lines(p@, key_views(keys@)),
{
    let ghost before = views(lines@);
    let mut i: usize = 0;
    while i < keys.len()
        invariant
            i <= keys@.len(),
            views(lines@) == before + keys_lines(p@, key_views(keys@).take(i as int)),
        decreases keys.len() - i,
    {
        push_key_lines(lines, p, (i + 1) as u128, &keys[i]);
        proof {
            let t = key_views(keys@).take(i + 1);
            assert(t.drop_last() =~= key_views(keys@).take(i as int));
            assert(t.last() == keys@[i as int]@);
        }
        i = i + 1;
    }
    assert(key_views(keys@).take(keys@.len() as int) =~= key_views(keys@));
}

/// The lines of a management configuration: `cfgversion`, the URLs that
/// are set, `led_enabled`, `use_aes_gcm`, then its SSH keys.
pub open spec fn mgmt_lines(c: MgmtConfig) -> Seq<Seq<char>> {
    seq!["cfgversion="@ + c.cfgversion@] + match c.mgmt_url {
        Some(u) => seq!["mgmt_url="@ + u@],
        None => Seq::empty(),
    } + match c.stun_url {
        Some(u) => seq!["stun_url="@ + u@],
        None => Seq::empty(),
    } + seq!["led_enabled="@ + bool_text(c.led_enabled), "use_aes_gcm="@ + bool_text(c.use_aes_gcm)]
        + keys_lines("mgmt.sshkeys."@, key_views(c.ssh_keys@))
}

impl MgmtConfig {
    /// The INI text: the lines joined with newlines.
    pub fn to_ini(&self) -> (s: String)
        ensures
            s@ == join_lines(mgmt_lines(*self)),
    {
        let mut lines: Vec<String> = Vec::new();
        lines.push(cat("cfgversion=", self.cfgversion.as_str()));
        match &self.mgmt_url {
            Some(url) => lines.push(cat("mgmt_url=", url.as_str())),
            None => {},
        }
        match &self.stun_url {
            Some(url) => lines.push(cat("stun_url=", url.as_str())),
            None => {},
        }
        lines.push(cat("led_enabled=", bool_str(self.led_enabled)));
        lines.push(cat("use_aes_gcm=", bool_str(self.use_aes_gcm)));
        let ghost mid = views(lines@);
        push_keys_lines(&mut lines, "mgmt.sshkeys.", &self.ssh_keys);
        assert(views(lines@) =~= mgmt_lines(*self));
        join_lines_exec(&lines)
    }
}

/// System configuration (`system_cfg`), the parts that are managed.
#[derive(Debug)]
pub struct SystemConfig {
    /// SSH daemon settings.
    pub sshd: SshdConfig,
    /// Users.
    pub users: Vec<UserConfig>,
    /// Timezone.
    pub timezone: Option<String>,
}

impl Default for SystemConfig {
    fn default() -> (c: SystemConfig)
        ensures
            !c.sshd.enabled,
            !c.sshd.password_auth,
            c.sshd.interface@ == Seq::<char>::empty(),
            c.users@.len() == 0,
            c.timezone is None,
    {
        SystemConfig { sshd: SshdConfig::default(), users: Vec::new(), timezone: None }
    }
}

/// The lines of the user at 1-based index `idx`: name, password if set,
/// status, then the user's SSH keys.
pub open spec fn user_lines(idx: nat, u: UserConfig) -> Seq<Seq<char>> {
    seq!["users."@ + dec(idx) + ".name="@ + u.name@] + match u.password {
        Some(p) => seq!["users."@ + dec(idx) + ".password="@ + p@],
        None => Seq::empty(),
    } + seq!["users."@ + dec(idx) + ".status=enabled"@] + keys_lines(
        "users."@ + dec(idx) + ".sshkeys."@,
        key_views(u.ssh_keys@),
    )
}

/// The lines of a list of users, numbered from 1.
pub open spec fn users_lines(users: Seq<UserConfig>) -> Seq<Seq<char>>
    decreases users.len(),
{
    if users.len() == 0 {
        Seq::empty()
    } else {
        users_lines(users.drop_last()) + user_lines(users.len(), users.last())
    }
}

/// The lines of a system configuration: the SSH daemon settings, the users
/// (if any) and the timezone (if set).
pub open spec fn system_lines(c: SystemConfig) -> Seq<Seq<char>> {
    seq![
        "sshd.status="@ + enabled_text(c.sshd.enabled),
        "sshd.1.ifname="@ + c.sshd.interface@,
        "sshd.1.status="@ + enabled_text(c.sshd.enabled),
        "sshd.auth.passwd="@ + enabled_text(c.sshd.password_auth),
    ] + (if c.users@.len() > 0 {
        seq!["users.status=enabled"@] + users_lines(c.users@)
    } else {
        Seq::empty()
    }) + match c.timezone {
        Some(tz) => seq!["system.timezone="@ + tz@],
        None => Seq::empty(),
    }
}

impl SystemConfig {
    /// The INI text: the lines joined with newlines.
    pub fn to_ini(&self) -> (s: String)
        ensures
            s@ == join_lines(system_lines(*self)),
    {
        let mut lines: Vec<String> = Vec::new();
        lines.push(cat("sshd.status=", enabled_str(self.sshd.enabled)));
        lines.push(cat("sshd.1.ifname=", self.sshd.interface.as_str()));
        lines.push(cat("sshd.1.status=", enabled_str(self.sshd.enabled)));
        lines.push(cat("sshd.auth.passwd=", enabled_str(self.sshd.password_auth)));
        let ghost head = views(lines@);
        assert(head =~= seq![
            "sshd.status="@ + enabled_text(self.sshd.enabled),
            "sshd.1.ifname="@ + self.sshd.interface@,
            "sshd.1.status="@ + enabled_text(self.sshd.enabled),
            "sshd.auth.passwd="@ + enabled_text(self.sshd.password_auth),
        ]);
        if self.users.len() > 0 {
            lines.push(String::from_str("users.status=enabled"));
            let ghost base = views(lines@);
            let mut i: usize = 0;
            while i < self.users.len()
                invariant
                    i <= self.users@.len(),
                    views(lines@) == base + users_lines(self.users@.take(i as int)),
                decreases self.users.len() - i,
            {
                let user = &self.users[i];
                let idx = (i + 1) as u128;
                let ghost before = views(lines@);
                lines.push(idx_line("users.", idx, ".name=", user.name.as_str()));
                match &user.password {
                    Some(pass) => lines.push(idx_line("users.", idx, ".password=", pass.as_str())),
                    None => {},
                }
                lines.push(idx_line("users.", idx, ".status=enabled", ""));
                let prefix = idx_line("users.", idx, ".sshkeys.", "");
                push_keys_lines(&mut lines, prefix.as_str(), &user.ssh_keys);
                proof {
                    reveal_strlit("");
                    assert(prefix@ =~= "users."@ + dec(idx as nat) + ".sshkeys."@);
                    assert(views(lines@) =~= before + user_lines(idx as nat, *user));
                    let t = self.users@.take(i + 1);
                    assert(t.drop_last() =~= self.users@.take(i as int));
                }
                i = i + 1;
            }
            assert(self.users@.take(self.users@.len() as int) =~= self.users@);
            assert(views(lines@) =~= head + seq!["users.status=enabled"@] + users_lines(self.users@));
        } else {
            assert(views(lines@) =~= head + Seq::<Seq<char>>::empty());
        }
        let ghost mid = views(lines@);
        match &self.timezone {
            Some(tz) => lines.push(cat("system.timezone=", tz.as_str())),
            None => {},
        }
        assert(views(lines@) =~= mid + match self.timezone {
            Some(tz) => seq!["system.timezone="@ + tz@],
            None => Seq::<Seq<char>>::empty(),
        });
        assert(views(lines@) =~= system_lines(*self));
        join_lines_exec(&lines)
    }
}

/// The key that a public key line describes: after trimming, the text up
/// to the first space is the type, the text up to the next space the value,
/// and the rest, if there is a second space, the comment. `None` without a
/// space.
pub open spec fn ssh_key_of(line: Seq<char>) -> Option<SshKeyView> {
    let t = trim_ws(line);
    match first_index(t, ' ') {
        None => None,
        Some(i) => {
            let rest = t.skip(i + 1);
            match first_index(rest, ' ') {
                None => Some(SshKeyView { key_type: t.take(i), value: rest, comment: None }),
                Some(j) => Some(
                    SshKeyView { key_type: t.take(i), value: rest.take(j), comment: Some(rest.skip(j + 1)) },
                ),
            }
        },
    }
}

/// Parses an SSH public key line (`ssh-ed25519 AAAA... comment`).
pub fn parse_ssh_pubkey(pubkey: &str) -> (r: Option<SshKey>)
    ensures
        match ssh_key_of(pubkey@) {
            Some(k) => r matches Some(key) && key@ == k,
            None => r is None,
        },
{
    let t = trim_str(pubkey);
    let n = t.unicode_len();
    match find_char(t, ' ') {
        None => None,
        Some(i) => {
            let key_type = t.substring_char(0, i);
            let rest = t.substring_char(i + 1, n);
            assert(rest@ =~= t@.skip(i + 1));
            assert(key_type@ =~= t@.take(i as int));
            let m = rest.unicode_len();
            match find_char(rest, ' ') {
                None => Some(SshKey { key_type: String::from_str(key_type), value: String::from_str(rest), comment: None }),
                Some(j) => {
                    let value = rest.substring_char(0, j);
                    let comment = rest.substring_char(j + 1, m);
                    assert(value@ =~= rest@.take(j as int));
                    assert(comment@ =~= rest@.skip(j + 1));
                    Some(SshKey {
                        key_type: String::from_str(key_type),
                        value: String::from_str(value),
                        comment: Some(String::from_str(comment)),
                    })
                },
            }
        },
    }
}

#[verifier::external_type_specification]
#[verifier::external_body]
pub struct ExSystemTime(std::time::SystemTime);

/// `SystemTime::now`: the system clock; nothing is claimed of it.
#[verifier::external_body]
fn system_now() -> std::time::SystemTime {
    std::time::SystemTime::now()
}

/// `SystemTime::duration_since` the Unix epoch; `None` for a time before
/// it. Nothing is claimed of the value.
#[verifier::external_body]
fn since_epoch(t: &std::time::SystemTime) -> Option<std::time::Duration> {
    t.duration_since(std::time::UNIX_EPOCH).ok()
}

/// `Duration::as_nanos`: the whole duration in nanoseconds; nothing is
/// claimed of the value.
#[verifier::external_body]
fn duration_nanos(d: &std::time::Duration) -> u128 {
    d.as_nanos()
}

/// The current time in nanoseconds since the Unix epoch, 0 for a clock set
/// before it.
pub(crate) fn unix_time_nanos() -> u128 {
    let now = system_now();
    match since_epoch(&now) {
        Some(d) => duration_nanos(&d),
        None => 0,
    }
}

/// A SHA-512 crypt entry of `password` (as `mkpasswd -m sha-512` writes
/// one), with a random salt.
pub fn hash_password(password: &str) -> (s: String)
    ensures
        is_sha512_entry(s@),
        exists|salt: Seq<char>| s@ == sha512_salted(password@, salt),
{
    match sha512_crypt(password) {
        Some(h) => h,
        None => String::new(),
    }
}

} // verus!
