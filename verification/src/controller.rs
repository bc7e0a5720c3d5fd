//! The controller's answers to informs: which key decrypts a device, how
//! an inform updates the device record, what the device is told next, and
//! the responses that carry it.

use vstd::prelude::*;
use crate::config::{clone_opt_string, opt_view};
use crate::crypto::{AesKey, DEFAULT_KEY};
use crate::ini::{int_string, int_text, str_eq};
use crate::mac::hex_decode;
use crate::text::hex_lower;
use crate::state::{clone_table, table_views, DeviceState, DeviceStatus, DeviceView, RadioTableEntry};
use crate::types::ADOPT_CFG_VERSION;
use crate::builder::{ini_fits, ini_fits_check, system_ini_text};
use crate::mgmt::mgmt_text;
use crate::models::ProvisionConfig;
use crate::system_section::password_entry_ok;

verus! {

/// The bytes of the default key.
pub open spec fn default_key_bytes() -> Seq<u8> {
    match hex_decode(DEFAULT_KEY@) {
        Some(b) => b,
        None => Seq::empty(),
    }
}

/// The key of a device's informs: its own key where that is the hex of 16
/// bytes, else the default key.
pub open spec fn inform_key_for(auth: Option<Seq<char>>) -> Seq<u8> {
    match auth {
        Some(k) => match hex_decode(k) {
            Some(b) => if b.len() == 16 {
                b
            } else {
                default_key_bytes()
            },
            None => default_key_bytes(),
        },
        None => default_key_bytes(),
    }
}

/// The key to decrypt a device's informs with.
pub fn select_key(auth_key: &Option<String>) -> (k: AesKey)
    ensures
        k@ == inform_key_for(opt_view(*auth_key)),
{
    match auth_key {
        Some(h) => match AesKey::from_hex(h.as_str()) {
            Ok(k) => k,
            Err(_) => AesKey::default_key(),
        },
        None => AesKey::default_key(),
    }
}

/// The key to try again with when an inform cannot be read with the
/// device's own key: the default key, for a device that has a key of its
/// own (it may have been reset to its factory state).
pub fn retry_key(device: &DeviceState) -> (k: Option<AesKey>)
    ensures
        device.auth_key is Some <==> k is Some,
        k matches Some(key) ==> key@ == default_key_bytes(),
{
    match &device.auth_key {
        Some(_) => Some(AesKey::default_key()),
        None => None,
    }
}

/// Records that a device was read with the default key after its own key
/// failed: it was reset, so its key is dropped.
pub fn record_key_reset(device: &mut DeviceState)
    ensures
        final(device)@ == (DeviceView { auth_key: None, ..old(device)@ }),
{
    device.auth_key = None;
}

/// What an inform reports, as the controller reads it.
#[derive(Debug)]
pub struct InformRequest {
    pub mac: String,
    /// The device's address, as text.
    pub ip: String,
    pub model: String,
    pub version: String,
    pub state: u8,
    pub cfgversion: String,
    /// The device is in its factory state.
    pub default: bool,
    pub hostname: String,
    pub inform_url: String,
    pub model_display: String,
    pub serial: String,
    pub isolated: bool,
    pub uptime: u64,
    pub locating: bool,
    pub fingerprint_req: bool,
    /// The inform is an event notification, not a periodic report.
    pub inform_as_notif: bool,
    /// The radio table entries that could be read, where the device
    /// reported a radio table.
    pub radio_table: Option<Vec<RadioTableEntry>>,
}

/// What the controller tells a device after an inform.
#[derive(Debug, Clone, Copy, PartialEq, Eq, Structural)]
pub enum InformAction {
    /// Acknowledge a notification at once (no save).
    NotifAck,
    /// Send the management configuration that completes adoption.
    PushMgmt,
    /// A configuration is due but the radios are not known yet: wait.
    WaitRadioTable,
    /// Send the system and management configuration.
    PushSystem,
    /// A factory-state device without our key: wait for adoption.
    AwaitAdoption,
    /// Acknowledge.
    Ack,
}

/// The record after an inform's report: model, version, host name,
/// address, time, reported configuration version, factory flag and the
/// radio table (where reported), with the current configuration hash as
/// the target.
pub open spec fn reported_view(d: DeviceView, r: InformRequest, hash: Seq<char>, now: i64) -> DeviceView {
    DeviceView {
        model: Some(r.model@),
        version: Some(r.version@),
        hostname: Some(r.hostname@),
        last_ip: Some(r.ip@),
        last_seen: Some(now),
        current_cfgversion: Some(r.cfgversion@),
        is_default: r.default,
        radio_table: match r.radio_table {
            Some(t) => table_views(t@),
            None => d.radio_table,
        },
        target_cfgversion: Some(hash),
        ..d
    }
}

/// A configuration is to be pushed: the device reports the adoption
/// version, or its version differs from the target, or it has none while
/// a target is set.
pub open spec fn should_push(d: DeviceView, reported: Seq<char>) -> bool {
    reported == ADOPT_CFG_VERSION@ || match (d.current_cfgversion, d.target_cfgversion) {
        (Some(c), Some(t)) => c != t,
        (None, Some(_)) => true,
        _ => false,
    }
}

/// The record after an inform and what the device is told: notifications
/// are acknowledged; a factory-state device with our key gets its
/// management configuration; an adopted device whose configuration is due
/// gets its system configuration once its radios are known; a
/// factory-state device without our key waits; otherwise the inform is
/// acknowledged, which completes a provisioning.
pub open spec fn inform_step(d0: DeviceView, r: InformRequest, hash: Seq<char>, now: i64) -> (DeviceView, InformAction) {
    let d1 = reported_view(d0, r, hash, now);
    let has_key = d1.auth_key is Some;
    if r.inform_as_notif {
        (d1, InformAction::NotifAck)
    } else if has_key && r.default {
        (DeviceView { status: DeviceStatus::Provisioning, ..d1 }, InformAction::PushMgmt)
    } else if has_key && should_push(d1, r.cfgversion@) {
        if d1.radio_table.len() == 0 {
            (d1, InformAction::WaitRadioTable)
        } else {
            (DeviceView { status: DeviceStatus::Provisioning, ..d1 }, InformAction::PushSystem)
        }
    } else if !has_key && r.default {
        (d1, InformAction::AwaitAdoption)
    } else if d1.status == DeviceStatus::Provisioning {
        (DeviceView { status: DeviceStatus::Adopted, target_cfgversion: d1.current_cfgversion, ..d1 }, InformAction::Ack)
    } else {
        (d1, InformAction::Ack)
    }
}

/// Whether a configuration is to be pushed to the device.
pub fn should_push_config(device: &DeviceState, device_reported_cfgversion: &str) -> (r: bool)
    ensures
        r == should_push(device@, device_reported_cfgversion@),
{
    if str_eq(device_reported_cfgversion, ADOPT_CFG_VERSION) {
        return true;
    }
    match (&device.current_cfgversion, &device.target_cfgversion) {
        (Some(current), Some(target)) => {
            if !str_eq(current.as_str(), target.as_str()) {
                return true;
            }
        },
        _ => {},
    }
    if device.current_cfgversion.is_none() && device.target_cfgversion.is_some() {
        return true;
    }
    false
}

/// Updates the device record from an inform and decides what the device
/// is told next.
pub fn apply_inform(device: &mut DeviceState, request: &InformRequest, config_hash: &str, now: i64) -> (a: InformAction)
    ensures
        (final(device)@, a) == inform_step(old(device)@, *request, config_hash@, now),
{
    device.model = Some(request.model.clone());
    device.version = Some(request.version.clone());
    device.hostname = Some(request.hostname.clone());
    device.last_ip = Some(request.ip.clone());
    device.last_seen = Some(now);
    device.current_cfgversion = Some(request.cfgversion.clone());
    device.is_default = request.default;
    match &request.radio_table {
        Some(t) => {
            device.radio_table = clone_table(t);
        },
        None => {},
    }
    let has_our_key = device.auth_key.is_some();
    device.target_cfgversion = Some(String::from_str(config_hash));
    assert(device@ == reported_view(old(device)@, *request, config_hash@, now));
    if request.inform_as_notif {
        return InformAction::NotifAck;
    }
    let should_update = has_our_key && !request.default && should_push_config(device, request.cfgversion.as_str());
    if has_our_key && request.default {
        device.status = DeviceStatus::Provisioning;
        InformAction::PushMgmt
    } else if should_update {
        if device.radio_table.len() == 0 {
            InformAction::WaitRadioTable
        } else {
            device.status = DeviceStatus::Provisioning;
            InformAction::PushSystem
        }
    } else if !has_our_key && request.default {
        InformAction::AwaitAdoption
    } else {
        if device.status == DeviceStatus::Provisioning {
            device.status = DeviceStatus::Adopted;
            device.target_cfgversion = clone_opt_string(&device.current_cfgversion);
        }
        InformAction::Ack
    }
}

/// A response to an inform.
#[derive(Debug)]
pub enum InformResponse {
    /// Heartbeat: inform again after `interval` seconds.
    Noop { interval: u32, server_time_in_utc: String, fingerprint: Option<Vec<String>> },
    /// Configuration update.
    Setparam {
        cfgversion: Option<String>,
        system_cfg: Option<String>,
        mgmt_cfg: Option<String>,
        interval: Option<u32>,
        server_time_in_utc: String,
    },
    /// A command.
    Cmd { cmd: String, server_time_in_utc: String },
    /// Firmware upgrade.
    Upgrade { url: String, server_time_in_utc: String, md5: Option<String> },
}

/// The whole seconds, rounded down, of a time in nanoseconds, in decimal.
pub open spec fn secs_text(nanos: int) -> Seq<char> {
    int_text(nanos / 1_000_000_000)
}

/// A decimal Unix time in whole seconds, read from a nanosecond clock.
pub open spec fn is_time_text(s: Seq<char>) -> bool {
    exists|n: i64| s == secs_text(n as int)
}

/// The whole seconds of a time in nanoseconds (rounded down, also before
/// the epoch), in decimal.
pub fn time_text(nanos: i64) -> (s: String)
    ensures
        s@ == secs_text(nanos as int),
{
    let t: i64 = if nanos >= 0 {
        nanos / 1_000_000_000
    } else {
        let m: i128 = -(nanos as i128) + 999_999_999;
        let q: i128 = m / 1_000_000_000;
        proof {
            let n = nanos as int;
            let fq = n / 1_000_000_000;
            let fr = n % 1_000_000_000;
            assert(n == 1_000_000_000 * fq + fr && 0 <= fr < 1_000_000_000);
            assert(m == 1_000_000_000 * (-fq) + (999_999_999 - fr));
            assert(q == -fq) by (nonlinear_arith)
                requires
                    m == 1_000_000_000 * (-fq) + (999_999_999 - fr),
                    0 <= 999_999_999 - fr < 1_000_000_000,
                    q == m / 1_000_000_000,
            ;
        }
        -q as i64
    };
    assert(t as int == nanos as int / 1_000_000_000);
    let s = int_string(t);
    s
}

/// The current Unix time in whole seconds, in decimal.
pub fn utc_timestamp() -> (s: String)
    ensures
        is_time_text(s@),
{
    let nanos = crate::state::utc_now_nanos();
    time_text(nanos)
}

/// The time stamp of a response.
pub open spec fn response_time(r: InformResponse) -> Seq<char> {
    match r {
        InformResponse::Noop { server_time_in_utc, .. } => server_time_in_utc@,
        InformResponse::Setparam { server_time_in_utc, .. } => server_time_in_utc@,
        InformResponse::Cmd { server_time_in_utc, .. } => server_time_in_utc@,
        InformResponse::Upgrade { server_time_in_utc, .. } => server_time_in_utc@,
    }
}

/// A heartbeat response with the given interval and no fingerprint.
pub open spec fn is_noop(r: InformResponse, interval: u32) -> bool {
    r matches InformResponse::Noop { interval: i, fingerprint: None, .. } && i == interval
}

/// A configuration update with the given texts.
pub open spec fn is_setparam(
    r: InformResponse,
    cfgversion: Option<Seq<char>>,
    system_cfg: Option<Seq<char>>,
    mgmt_cfg: Option<Seq<char>>,
    interval: Option<u32>,
) -> bool {
    r matches InformResponse::Setparam { cfgversion: c, system_cfg: s, mgmt_cfg: m, interval: i, .. } && opt_view(c)
        == cfgversion && opt_view(s) == system_cfg && opt_view(m) == mgmt_cfg && i == interval
}

impl InformResponse {
    /// A heartbeat response.
    pub fn noop(interval: u32) -> (r: InformResponse)
        ensures
            is_noop(r, interval),
            is_time_text(response_time(r)),
    {
        InformResponse::Noop { interval, server_time_in_utc: utc_timestamp(), fingerprint: None }
    }

    /// A heartbeat response carrying the controller's SSH fingerprint.
    pub fn noop_with_fingerprint(interval: u32, fingerprint: Vec<String>) -> (r: InformResponse)
        ensures
            r matches InformResponse::Noop { interval: i, fingerprint: Some(f), .. } && i == interval && f@
                == fingerprint@,
            is_time_text(response_time(r)),
    {
        InformResponse::Noop { interval, server_time_in_utc: utc_timestamp(), fingerprint: Some(fingerprint) }
    }

    /// A configuration update without a top-level version.
    pub fn set_config(system_cfg: Option<String>, mgmt_cfg: Option<String>, interval: Option<u32>) -> (r: InformResponse)
        ensures
            is_setparam(r, None, opt_view(system_cfg), opt_view(mgmt_cfg), interval),
            is_time_text(response_time(r)),
    {
        InformResponse::Setparam { cfgversion: None, system_cfg, mgmt_cfg, interval, server_time_in_utc: utc_timestamp() }
    }

    /// A configuration update with an explicit version.
    pub fn set_config_with_version(
        cfgversion: Option<String>,
        system_cfg: Option<String>,
        mgmt_cfg: Option<String>,
        interval: Option<u32>,
    ) -> (r: InformResponse)
        ensures
            is_setparam(r, opt_view(cfgversion), opt_view(system_cfg), opt_view(mgmt_cfg), interval),
            is_time_text(response_time(r)),
    {
        InformResponse::Setparam { cfgversion, system_cfg, mgmt_cfg, interval, server_time_in_utc: utc_timestamp() }
    }

    /// The reboot command.
    pub fn reboot() -> (r: InformResponse)
        ensures
            r matches InformResponse::Cmd { cmd, .. } && cmd@ == "reboot"@,
            is_time_text(response_time(r)),
    {
        InformResponse::Cmd { cmd: String::from_str("reboot"), server_time_in_utc: utc_timestamp() }
    }

    /// The command that starts or stops the locating LED flash.
    pub fn locate(enabled: bool) -> (r: InformResponse)
        ensures
            r matches InformResponse::Cmd { cmd, .. } && cmd@ == (if enabled {
                "set-locate"@
            } else {
                "unset-locate"@
            }),
            is_time_text(response_time(r)),
    {
        let cmd = if enabled {
            String::from_str("set-locate")
        } else {
            String::from_str("unset-locate")
        };
        InformResponse::Cmd { cmd, server_time_in_utc: utc_timestamp() }
    }
}

/// The response that carries an action to a device `mac_text`: heartbeats
/// (at once for notifications, else in ten seconds), the management
/// configuration with the adoption version, or the system and management
/// configuration with the configuration hash as version. `None` where the
/// system configuration cannot be generated: its numbering does not fit.
pub fn inform_response(
    action: InformAction,
    provision: &ProvisionConfig,
    device: &DeviceState,
    mac_text: &str,
    inform_url: &str,
    config_hash: &str,
) -> (r: Option<InformResponse>)
    ensures
        action == InformAction::NotifAck ==> (r matches Some(x) && is_noop(x, 0)),
        (action == InformAction::WaitRadioTable || action == InformAction::AwaitAdoption || action == InformAction::Ack)
            ==> (r matches Some(x) && is_noop(x, 10)),
        action == InformAction::PushMgmt ==> (r matches Some(x) && is_setparam(
            x,
            None,
            None,
            Some(mgmt_text(*provision, mac_text@, ADOPT_CFG_VERSION@)),
            None,
        )),
        action == InformAction::PushSystem ==> {
            &&& !ini_fits(*provision, *device, mac_text@) ==> r is None
            &&& ini_fits(*provision, *device, mac_text@) ==> r is Some
            &&& r matches Some(x) ==> exists|sys: Option<Seq<char>>, pw: Seq<char>|
                password_entry_ok(*provision, pw) && is_setparam(
                    x,
                    Some(config_hash@),
                    Some(system_ini_text(*provision, *device, mac_text@, sys, pw)),
                    Some(mgmt_text(*provision, mac_text@, config_hash@)),
                    None,
                )
        },
        r matches Some(x) ==> is_time_text(response_time(x)),
{
    match action {
        InformAction::NotifAck => Some(InformResponse::noop(0)),
        InformAction::PushMgmt => {
            let auth = match &device.auth_key {
                Some(k) => Some(k.as_str()),
                None => None,
            };
            let mgmt = provision.generate_mgmt_cfg_with_auth(mac_text, auth, Some(inform_url), ADOPT_CFG_VERSION);
            Some(InformResponse::set_config_with_version(None, None, Some(mgmt), None))
        },
        InformAction::PushSystem => {
            if !ini_fits_check(provision, device, mac_text) {
                return None;
            }
            let system = provision.generate_system_ini(mac_text, device);
            let ghost sv = system@;
            let auth = match &device.auth_key {
                Some(k) => Some(k.as_str()),
                None => None,
            };
            let mgmt = provision.generate_mgmt_cfg_with_auth(mac_text, auth, Some(inform_url), config_hash);
            let r = InformResponse::set_config_with_version(
                Some(String::from_str(config_hash)),
                Some(system),
                Some(mgmt),
                None,
            );
            Some(r)
        },
        _ => Some(InformResponse::noop(10)),
    }
}

/// The key generated at adoption, the lower-case hex of 16 bytes, is the
/// key the device's informs are decrypted with.
pub proof fn lemma_adoption_key_selected(b: Seq<u8>)
    requires
        b.len() == 16,
    ensures
        inform_key_for(Some(hex_lower(b))) == b,
{
    crate::mac::lemma_hex_roundtrip(b);
}

/// A device that does not hold our key is never sent a configuration.
pub proof fn lemma_no_push_without_key(d0: DeviceView, r: InformRequest, hash: Seq<char>, now: i64)
    requires
        d0.auth_key is None,
    ensures
        inform_step(d0, r, hash, now).1 != InformAction::PushMgmt,
        inform_step(d0, r, hash, now).1 != InformAction::PushSystem,
{
}

/// The system configuration is sent only to a device whose radios are
/// known.
pub proof fn lemma_push_needs_radios(d0: DeviceView, r: InformRequest, hash: Seq<char>, now: i64)
    requires
        inform_step(d0, r, hash, now).1 == InformAction::PushSystem,
    ensures
        inform_step(d0, r, hash, now).0.radio_table.len() > 0,
{
}

/// Every inform is recorded: the time it came and the configuration
/// version the device reported.
pub proof fn lemma_inform_recorded(d0: DeviceView, r: InformRequest, hash: Seq<char>, now: i64)
    ensures
        inform_step(d0, r, hash, now).0.last_seen == Some(now),
        inform_step(d0, r, hash, now).0.current_cfgversion == Some(r.cfgversion@),
        inform_step(d0, r, hash, now).0.auth_key == d0.auth_key,
{
}

/// A device with our key that runs the current configuration is only
/// acknowledged, and a provisioning in progress is then complete.
pub proof fn lemma_converged_device_acked(d0: DeviceView, r: InformRequest, hash: Seq<char>, now: i64)
    requires
        d0.auth_key is Some,
        !r.inform_as_notif,
        !r.default,
        r.cfgversion@ == hash,
        hash != ADOPT_CFG_VERSION@,
    ensures
        inform_step(d0, r, hash, now).1 == InformAction::Ack,
        d0.status == DeviceStatus::Provisioning ==> inform_step(d0, r, hash, now).0.status == DeviceStatus::Adopted,
{
}

/// A configuration is pushed exactly when the device reports the adoption
/// version or when its record says an update is due.
pub proof fn lemma_push_iff_update_due(d: DeviceState, reported: Seq<char>)
    ensures
        should_push(d@, reported) == (reported == ADOPT_CFG_VERSION@ || crate::state::needs_update(d)),
{
}

/// A device that holds our key, is not in its factory state and reports
/// the adoption version or a version other than the current configuration
/// hash is sent the system configuration once its radio table is known,
/// whatever state its record is in, and its record is then provisioning.
pub proof fn lemma_due_device_pushed(d0: DeviceView, r: InformRequest, hash: Seq<char>, now: i64)
    requires
        d0.auth_key is Some,
        !r.inform_as_notif,
        !r.default,
        r.cfgversion@ == ADOPT_CFG_VERSION@ || r.cfgversion@ != hash,
        match r.radio_table {
            Some(t) => t@.len() > 0,
            None => d0.radio_table.len() > 0,
        },
    ensures
        inform_step(d0, r, hash, now).1 == InformAction::PushSystem,
        inform_step(d0, r, hash, now).0.status == DeviceStatus::Provisioning,
{
}

} // verus!
