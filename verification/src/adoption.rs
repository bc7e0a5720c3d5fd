//! Adoption of devices over SSH and the other per-device decisions of the
//! controller: keys, commands and their outcomes, record updates on
//! discovery, adoption and reset, stale adoptions, credentials, inform
//! URLs and the configuration hash.

use vstd::prelude::*;
use rand::Rng;
use sha2::Digest;
use crate::config::{clone_opt_string, opt_view};
use crate::ini::{int_string, int_text, str_eq};
use crate::mac::{hex_encode, MacAddress};
use crate::models::ProvisionConfig;
use crate::network::{contains_str, has_sub};
use crate::state::{DeviceState, DeviceStatus, DeviceView};
use crate::text::{dec, hex_lower, hex_string, lowercase, push_dec, to_lower, trim_str, trim_ws};

verus! {

/// Sixteen random bytes (`rand::rng().fill`); nothing is claimed of them.
#[verifier::external_body]
fn random_bytes16() -> [u8; 16] {
    let mut key = [0u8; 16];
    rand::rng().fill(&mut key);
    key
}

/// A fresh authentication key: 16 random bytes as 32 lower-case hex digits.
pub fn generate_auth_key() -> (k: String)
    ensures
        exists|b: Seq<u8>| b.len() == 16 && k@ == hex_lower(b),
{
    let key = random_bytes16();
    let k = hex_encode(&key);
    assert(key@.len() == 16 && k@ == hex_lower(key@));
    k
}

/// The command that adopts a device.
pub open spec fn set_adopt_text(inform_url: Seq<char>, auth_key: Seq<char>) -> Seq<char> {
    "/usr/bin/syswrapper.sh set-adopt "@ + inform_url + seq![' '] + auth_key
}

/// The command that adopts a device: it then informs `inform_url` with
/// `auth_key`.
pub fn set_adopt_command(inform_url: &str, auth_key: &str) -> (c: String)
    ensures
        c@ == set_adopt_text(inform_url@, auth_key@),
{
    let mut c = String::from_str("/usr/bin/syswrapper.sh set-adopt ");
    c.append(inform_url);
    c.push(' ');
    c.append(auth_key);
    c
}

/// The command that resets a device to its factory state.
pub const RESET_COMMAND: &'static str = "/usr/bin/syswrapper.sh restore-default";

/// The outcome of an adoption command run as `what`: exit code 0 succeeds;
/// another code fails with it and the output; no code (the connection
/// closed) fails only where the output mentions an error.
pub open spec fn adopt_outcome_spec(exit: Option<i32>, output: Seq<char>, what: Seq<char>) -> Result<(), Seq<char>> {
    match exit {
        Some(0) => Ok(()),
        Some(code) => Err(what + " exited with code "@ + int_text(code as int) + ": "@ + trim_ws(output)),
        None => if has_sub(lowercase(output), "error"@) {
            Err(what + " may have failed: "@ + trim_ws(output))
        } else {
            Ok(())
        },
    }
}

/// The outcome of an adoption command run as `what` (`set-adopt` or
/// `Command`), from its exit code and output.
pub fn adopt_outcome(exit_code: Option<i32>, output: &str, what: &str) -> (r: Result<(), String>)
    ensures
        match adopt_outcome_spec(exit_code, output@, what@) {
            Ok(()) => r is Ok,
            Err(m) => r matches Err(e) && e@ == m,
        },
{
    match exit_code {
        Some(0) => Ok(()),
        Some(code) => {
            let mut m = String::from_str(what);
            m.append(" exited with code ");
            m.append(int_string(code as i64).as_str());
            m.append(": ");
            m.append(trim_str(output));
            Err(m)
        },
        None => {
            let low = to_lower(output);
            if contains_str(low.as_str(), "error") {
                let mut m = String::from_str(what);
                m.append(" may have failed: ");
                m.append(trim_str(output));
                Err(m)
            } else {
                Ok(())
            }
        },
    }
}

/// The outcome of a reset command: a non-zero exit code fails; no code (the
/// device rebooted) succeeds.
pub open spec fn reset_outcome_spec(exit: Option<i32>, output: Seq<char>) -> Result<(), Seq<char>> {
    match exit {
        Some(code) => if code != 0 {
            Err("Command exited with code "@ + int_text(code as int) + ": "@ + trim_ws(output))
        } else {
            Ok(())
        },
        None => Ok(()),
    }
}

/// The outcome of a reset command, from its exit code and output.
pub fn reset_outcome(exit_code: Option<i32>, output: &str) -> (r: Result<(), String>)
    ensures
        match reset_outcome_spec(exit_code, output@) {
            Ok(()) => r is Ok,
            Err(m) => r matches Err(e) && e@ == m,
        },
{
    match exit_code {
        Some(code) => {
            if code != 0 {
                let mut m = String::from_str("Command exited with code ");
                m.append(int_string(code as i64).as_str());
                m.append(": ");
                m.append(trim_str(output));
                return Err(m);
            }
            Ok(())
        },
        None => Ok(()),
    }
}

/// Starts an adoption: a device being adopted or adopted already is left
/// alone (`false`); any other is marked as being adopted (`true`).
pub fn begin_adoption(device: &mut DeviceState) -> (proceed: bool)
    ensures
        proceed == !(old(device).status == DeviceStatus::Adopting || old(device).status == DeviceStatus::Adopted),
        proceed ==> final(device)@ == (DeviceView { status: DeviceStatus::Adopting, ..old(device)@ }),
        !proceed ==> final(device)@ == old(device)@,
{
    if device.status == DeviceStatus::Adopting || device.status == DeviceStatus::Adopted {
        return false;
    }
    device.status = DeviceStatus::Adopting;
    true
}

/// The record while an adoption runs: the key and inform URL it sets.
pub open spec fn adopting_view(d: DeviceView, auth_key: Seq<char>, inform_url: Seq<char>) -> DeviceView {
    DeviceView { status: DeviceStatus::Adopting, auth_key: Some(auth_key), inform_url: Some(inform_url), ..d }
}

/// Records the key and inform URL of an adoption before the command runs,
/// so that an inform that follows at once finds them.
pub fn record_adoption_key(device: &mut DeviceState, auth_key: &str, inform_url: &str)
    ensures
        final(device)@ == adopting_view(old(device)@, auth_key@, inform_url@),
{
    device.status = DeviceStatus::Adopting;
    device.auth_key = Some(String::from_str(auth_key));
    device.inform_url = Some(String::from_str(inform_url));
}

/// A failed adoption is tried again with the default credentials, unless
/// those were used.
pub fn should_retry_default(first_succeeded: bool, ssh_user: &str) -> (r: bool)
    ensures
        r == (!first_succeeded && ssh_user@ != "ubnt"@),
{
    !first_succeeded && !str_eq(ssh_user, "ubnt")
}

/// How an adoption attempt ended.
#[derive(Debug, Clone, Copy, PartialEq, Eq, Structural)]
pub enum AdoptionResult {
    Succeeded,
    Failed,
    TimedOut,
}

/// The record after an adoption attempt: adopted at `now`, or back to
/// discovered without a key.
pub open spec fn finished_view(d: DeviceView, result: AdoptionResult, now: i64) -> DeviceView {
    match result {
        AdoptionResult::Succeeded => DeviceView { status: DeviceStatus::Adopted, adopted_at: Some(now), ..d },
        _ => DeviceView { status: DeviceStatus::Discovered, auth_key: None, ..d },
    }
}

/// Records how an adoption attempt ended.
pub fn finish_adoption(device: &mut DeviceState, result: AdoptionResult, now: i64)
    ensures
        final(device)@ == finished_view(old(device)@, result, now),
{
    match result {
        AdoptionResult::Succeeded => {
            device.status = DeviceStatus::Adopted;
            device.adopted_at = Some(now);
        },
        _ => {
            device.status = DeviceStatus::Discovered;
            device.auth_key = None;
        },
    }
}

/// Records a successful adoption run from the command line.
pub fn record_local_adoption(device: &mut DeviceState, auth_key: String, inform_url: &str, now: i64)
    ensures
        final(device)@ == (DeviceView {
            status: DeviceStatus::Adopted,
            auth_key: Some(auth_key@),
            inform_url: Some(inform_url@),
            adopted_at: Some(now),
            ..old(device)@
        }),
{
    device.status = DeviceStatus::Adopted;
    device.auth_key = Some(auth_key);
    device.inform_url = Some(String::from_str(inform_url));
    device.adopted_at = Some(now);
}

/// Why a device cannot be reached over SSH.
#[derive(Debug, Clone, Copy, PartialEq, Eq, Structural)]
pub enum TargetError {
    /// The device is not known.
    NotFound,
    /// Its address is not known.
    NoAddress,
}

/// Where to reach a device over SSH: its last address and its SSH port
/// (22 where none was announced).
pub fn ssh_target(device: Option<&DeviceState>) -> (r: Result<(String, u16), TargetError>)
    ensures
        device is None ==> r == Err::<(String, u16), TargetError>(TargetError::NotFound),
        device matches Some(d) ==> match d.last_ip {
            None => r == Err::<(String, u16), TargetError>(TargetError::NoAddress),
            Some(ip) => r matches Ok(t) && t.0@ == ip@ && t.1 == match d.ssh_port {
                Some(p) => p,
                None => 22u16,
            },
        },
{
    match device {
        None => Err(TargetError::NotFound),
        Some(d) => match &d.last_ip {
            None => Err(TargetError::NoAddress),
            Some(ip) => {
                let port = match d.ssh_port {
                    Some(p) => p,
                    None => 22,
                };
                Ok((ip.clone(), port))
            },
        },
    }
}

/// An adoption has stalled: the device is being adopted and was last seen
/// more than five whole minutes before `now` (or never).
pub open spec fn stale_at(d: DeviceView, now: i64) -> bool {
    d.status == DeviceStatus::Adopting && match d.last_seen {
        Some(t) => now - t >= 360_000_000_000,
        None => true,
    }
}

/// Whether the device's adoption has stalled at `now`.
pub fn is_stale_adoption(device: &DeviceState, now: i64) -> (r: bool)
    ensures
        r == stale_at(device@, now),
{
    if device.status != DeviceStatus::Adopting {
        return false;
    }
    match device.last_seen {
        Some(t) => (now as i128) - (t as i128) >= 360_000_000_000i128,
        None => true,
    }
}

/// Abandons a stalled adoption: a device still being adopted goes back to
/// discovered, without a key.
pub fn reset_stale(device: &mut DeviceState)
    ensures
        old(device).status == DeviceStatus::Adopting ==> final(device)@ == (DeviceView {
            status: DeviceStatus::Discovered,
            auth_key: None,
            ..old(device)@
        }),
        old(device).status != DeviceStatus::Adopting ==> final(device)@ == old(device)@,
{
    if device.status == DeviceStatus::Adopting {
        device.status = DeviceStatus::Discovered;
        device.auth_key = None;
    }
}

/// The dotted text of an IPv4 address.
pub open spec fn ipv4_text(ip: Seq<u8>) -> Seq<char> {
    dec(ip[0] as nat) + seq!['.'] + dec(ip[1] as nat) + seq!['.'] + dec(ip[2] as nat) + seq!['.'] + dec(ip[3] as nat)
}

/// The dotted text of an IPv4 address.
pub fn ipv4_string(ip: [u8; 4]) -> (s: String)
    ensures
        s@ == ipv4_text(ip@),
{
    let mut s = String::new();
    push_dec(&mut s, ip[0] as u128);
    s.push('.');
    push_dec(&mut s, ip[1] as u128);
    s.push('.');
    push_dec(&mut s, ip[2] as u128);
    s.push('.');
    push_dec(&mut s, ip[3] as u128);
    assert(s@ =~= ipv4_text(ip@));
    s
}

/// The record after a discovery announcement at `now`.
pub open spec fn discovered_view(
    d: DeviceView,
    ip: Seq<char>,
    model: Option<Seq<char>>,
    hostname: Option<Seq<char>>,
    is_default: bool,
    ssh_port: u16,
    now: i64,
) -> DeviceView {
    DeviceView {
        last_ip: Some(ip),
        model,
        hostname,
        is_default,
        ssh_port: Some(ssh_port),
        last_seen: Some(now),
        ..d
    }
}

/// Whether an announcement starts an adoption: with automatic adoption on,
/// a factory-state device that is new or merely discovered.
pub open spec fn adopt_on_discovery(d: DeviceView, is_default: bool, auto_adopt: bool) -> bool {
    auto_adopt && is_default && ((d.status == DeviceStatus::Discovered && d.last_seen is None) || d.status
        == DeviceStatus::Discovered)
}

/// Updates the record of an announcing device, and tells whether to adopt
/// it: with automatic adoption on, a factory-state device that is new or
/// merely discovered.
pub fn apply_discovery(
    device: &mut DeviceState,
    ip: &str,
    model: Option<String>,
    hostname: Option<String>,
    is_default: bool,
    ssh_port: u16,
    now: i64,
    auto_adopt: bool,
) -> (adopt: bool)
    ensures
        final(device)@ == discovered_view(old(device)@, ip@, opt_view(model), opt_view(hostname), is_default, ssh_port, now),
        adopt == adopt_on_discovery(old(device)@, is_default, auto_adopt),
{
    let was_unknown = device.status == DeviceStatus::Discovered && device.last_seen.is_none();
    let current_status = device.status;
    device.last_ip = Some(String::from_str(ip));
    device.model = model;
    device.hostname = hostname;
    device.is_default = is_default;
    device.ssh_port = Some(ssh_port);
    device.last_seen = Some(now);
    auto_adopt && is_default && (was_unknown || current_status == DeviceStatus::Discovered)
}

/// SSH credentials for adoption.
#[derive(Debug)]
pub struct ResolvedCredentials {
    pub user: String,
    pub pass: String,
}

/// A credential: the given one, else the configured one, else `ubnt`.
pub open spec fn credential(arg: Option<Seq<char>>, configured: Option<Seq<char>>) -> Seq<char> {
    match arg {
        Some(a) => a,
        None => match configured {
            Some(c) => c,
            None => "ubnt"@,
        },
    }
}

impl ResolvedCredentials {
    /// The credentials: those given, else those of the configuration's
    /// management section, else `ubnt`/`ubnt`.
    pub fn resolve(arg_user: Option<String>, arg_pass: Option<String>, config: &Option<ProvisionConfig>) -> (r:
        ResolvedCredentials)
        ensures
            r.user@ == credential(
                opt_view(arg_user),
                match *config {
                    Some(c) => opt_view(c.management.username),
                    None => None,
                },
            ),
            r.pass@ == credential(
                opt_view(arg_pass),
                match *config {
                    Some(c) => opt_view(c.management.password),
                    None => None,
                },
            ),
    {
        let mut user = arg_user;
        let mut pass = arg_pass;
        match config {
            Some(cfg) => {
                if user.is_none() {
                    user = clone_opt_string(&cfg.management.username);
                }
                if pass.is_none() {
                    pass = clone_opt_string(&cfg.management.password);
                }
            },
            None => {},
        }
        ResolvedCredentials {
            user: match user {
                Some(u) => u,
                None => String::from_str("ubnt"),
            },
            pass: match pass {
                Some(p) => p,
                None => String::from_str("ubnt"),
            },
        }
    }
}

/// The inform URL on a local address and port.
pub open spec fn inform_url_text(local_ip: Seq<char>, port: u16) -> Seq<char> {
    "http://"@ + local_ip + seq![':'] + dec(port as nat) + "/inform"@
}

/// The inform URL on a local address and port.
pub fn local_inform_url(local_ip: &str, port: u16) -> (u: String)
    ensures
        u@ == inform_url_text(local_ip@, port),
{
    let mut u = String::from_str("http://");
    u.append(local_ip);
    u.push(':');
    push_dec(&mut u, port as u128);
    u.append("/inform");
    u
}

/// The inform URL to give a device: the override, else one on the local
/// address that routes to it, if there is one.
pub fn inform_url_for(override_url: Option<String>, local_ip: Option<String>, port: u16) -> (r: Option<String>)
    ensures
        override_url is Some ==> opt_view(r) == opt_view(override_url),
        override_url is None ==> opt_view(r) == match local_ip {
            Some(l) => Some(inform_url_text(l@, port)),
            None => None,
        },
{
    match override_url {
        Some(url) => Some(url),
        None => match local_ip {
            Some(l) => Some(local_inform_url(l.as_str(), port)),
            None => None,
        },
    }
}

/// The SHA-256 digest of a byte string.
pub uninterp spec fn sha256_of(data: Seq<u8>) -> Seq<u8>;

/// `sha2::Sha256` over the bytes: the contract claims only that the 32
/// bytes are the digest of `data`.
#[verifier::external_body]
fn sha256_digest(data: &[u8]) -> (d: [u8; 32])
    ensures
        d@ == sha256_of(data@),
{
    let out = sha2::Sha256::digest(data);
    out.into()
}

/// The configuration hash of a configuration file: the first eight bytes
/// of its SHA-256 digest, in lower-case hex.
pub fn config_hash(bytes: &[u8]) -> (h: String)
    ensures
        h@ == hex_lower(sha256_of(bytes@).take(8)),
{
    let d = sha256_digest(bytes);
    let first = crate::bytes::slice_take(&d, 8);
    hex_string(first)
}

/// An announcement changes neither the adoption state of a device nor the
/// key it is reached with.
pub proof fn lemma_discovery_keeps_adoption(
    d: DeviceView,
    ip: Seq<char>,
    model: Option<Seq<char>>,
    hostname: Option<Seq<char>>,
    is_default: bool,
    ssh_port: u16,
    now: i64,
)
    ensures
        discovered_view(d, ip, model, hostname, is_default, ssh_port, now).status == d.status,
        discovered_view(d, ip, model, hostname, is_default, ssh_port, now).auth_key == d.auth_key,
        discovered_view(d, ip, model, hostname, is_default, ssh_port, now).adopted_at == d.adopted_at,
{
}

/// After a successful adoption with a generated key (the hex of 16
/// bytes), the device is adopted and its informs are decrypted with those
/// bytes.
pub proof fn lemma_adopted_key_decrypts(d: DeviceView, b: Seq<u8>, inform_url: Seq<char>, now: i64)
    requires
        b.len() == 16,
    ensures
        finished_view(adopting_view(d, hex_lower(b), inform_url), AdoptionResult::Succeeded, now).status
            == DeviceStatus::Adopted,
        crate::controller::inform_key_for(
            finished_view(adopting_view(d, hex_lower(b), inform_url), AdoptionResult::Succeeded, now).auth_key,
        ) == b,
{
    crate::controller::lemma_adoption_key_selected(b);
}

/// A failed or timed-out adoption, and an abandoned stalled one, leave the
/// device discovered and without a key, so that its next factory-state
/// announcement adopts it again when automatic adoption is on.
pub proof fn lemma_failed_adoption_retried(d: DeviceView, result: AdoptionResult, now: i64)
    requires
        result != AdoptionResult::Succeeded,
    ensures
        finished_view(d, result, now).status == DeviceStatus::Discovered,
        finished_view(d, result, now).auth_key is None,
        adopt_on_discovery(finished_view(d, result, now), true, true),
{
}

/// With automatic adoption off, no announcement starts an adoption,
/// whatever the device and its state.
pub proof fn lemma_no_auto_adopt(d: DeviceView, is_default: bool)
    ensures
        !adopt_on_discovery(d, is_default, false),
{
}

/// With automatic adoption on, an announcement from a device in its
/// factory state that is known only as discovered starts an adoption, and
/// one from a device not in its factory state, or already adopting or
/// adopted, does not.
pub proof fn lemma_auto_adopt_factory_only(d: DeviceView, is_default: bool)
    ensures
        adopt_on_discovery(d, is_default, true) <==> (is_default && d.status == DeviceStatus::Discovered),
{
}

} // verus!
