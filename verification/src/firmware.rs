//! Firmware versions and upgrades: version order, the update for a
//! device model, and the upgrade requests of the API.

use vstd::prelude::*;
use crate::config::{clone_opt_string, opt_view};
use crate::models::{find_key, lookup};
use crate::state::{firmware_view, DeviceState, DeviceView, FirmwareUpdateInfo};

verus! {

/// Whether a character is numeric (general category Nd, Nl or No), as
/// `char::is_numeric` says.
pub uninterp spec fn numeric_char(c: char) -> bool;

/// `char::is_numeric`: the result is named; of the ASCII characters
/// exactly the digits are numeric.
#[verifier::external_body]
fn char_numeric(c: char) -> (r: bool)
    ensures
        r == numeric_char(c),
        ('0' <= c && c <= '9') ==> r,
        (c as u32) < 128 && !('0' <= c && c <= '9') ==> !r,
{
    c.is_numeric()
}

/// An ASCII digit.
pub open spec fn is_digit(c: char) -> bool {
    '0' <= c && c <= '9'
}

/// The value of a text of ASCII digits.
pub open spec fn digits_value(p: Seq<char>) -> nat
    decreases p.len(),
{
    if p.len() == 0 {
        0
    } else {
        digits_value(p.drop_last()) * 10 + ((p.last() as int) - 48) as nat
    }
}

/// `str::parse::<u64>` of a run of numeric characters: its value where it
/// is a non-empty run of ASCII digits whose value fits 64 bits.
pub open spec fn parse_part(p: Seq<char>) -> Option<u64> {
    if p.len() > 0 && (forall|i: int| 0 <= i < p.len() ==> is_digit(#[trigger] p[i])) && digits_value(p)
        <= u64::MAX {
        Some(digits_value(p) as u64)
    } else {
        None
    }
}

/// The parts so far, with the run `p` ended.
pub open spec fn end_part(acc: Seq<u64>, p: Seq<char>) -> Seq<u64> {
    match parse_part(p) {
        Some(v) => acc.push(v),
        None => acc,
    }
}

/// The numbers of a version text, scanning with the run `cur` begun and
/// the numbers `acc` found: the text is split at every non-numeric
/// character and each run that parses as a number is kept.
pub open spec fn parts_from(s: Seq<char>, cur: Seq<char>, acc: Seq<u64>) -> Seq<u64>
    decreases s.len(),
{
    if s.len() == 0 {
        end_part(acc, cur)
    } else if numeric_char(s[0]) {
        parts_from(s.drop_first(), cur.push(s[0]), acc)
    } else {
        parts_from(s.drop_first(), Seq::empty(), end_part(acc, cur))
    }
}

/// The numbers of a version text (`4.3.28.11361`, `6.0.14+13634`).
pub open spec fn version_parts(s: Seq<char>) -> Seq<u64> {
    parts_from(s, Seq::empty(), Seq::empty())
}

/// Lexicographic order of number sequences: a proper prefix comes first.
pub open spec fn parts_lt(a: Seq<u64>, b: Seq<u64>) -> bool
    decreases a.len(),
{
    if a.len() == 0 {
        b.len() > 0
    } else if b.len() == 0 {
        false
    } else if a[0] != b[0] {
        a[0] < b[0]
    } else {
        parts_lt(a.drop_first(), b.drop_first())
    }
}

/// `remote` is a newer version than `local`.
pub open spec fn newer(remote: Seq<char>, local: Seq<char>) -> bool {
    parts_lt(version_parts(local), version_parts(remote))
}

fn parse_digits(p: &Vec<char>) -> (r: Option<u64>)
    ensures
        r == parse_part(p@),
{
    let mut v: u128 = 0;
    let mut over = false;
    let mut all = true;
    let mut i: usize = 0;
    while i < p.len()
        invariant
            i <= p.len(),
            all == (forall|k: int| 0 <= k < i ==> is_digit(#[trigger] p@[k])),
            all && !over ==> v == digits_value(p@.take(i as int)) && v <= u64::MAX,
            all && over ==> digits_value(p@.take(i as int)) > u64::MAX,
        decreases p.len() - i,
    {
        let c = p[i];
        proof {
            assert(p@.take(i + 1).drop_last() =~= p@.take(i as int));
        }
        if '0' <= c && c <= '9' {
            if all && !over {
                let d = (c as u32 - 48) as u128;
                let nv = v * 10 + d;
                if nv > u64::MAX as u128 {
                    over = true;
                } else {
                    v = nv;
                }
            }
        } else {
            all = false;
        }
        i = i + 1;
    }
    assert(p@.take(p.len() as int) =~= p@);
    if p.len() > 0 && all && !over {
        Some(v as u64)
    } else {
        None
    }
}

fn end_run(acc: &mut Vec<u64>, cur: &Vec<char>)
    ensures
        final(acc)@ == end_part(old(acc)@, cur@),
{
    match parse_digits(cur) {
        Some(v) => acc.push(v),
        None => {},
    }
}

/// The numbers of a version text.
pub fn version_numbers(s: &str) -> (r: Vec<u64>)
    ensures
        r@ == version_parts(s@),
{
    let n = s.unicode_len();
    let mut acc: Vec<u64> = Vec::new();
    let mut cur: Vec<char> = Vec::new();
    let mut i: usize = 0;
    assert(s@.skip(0) =~= s@);
    while i < n
        invariant
            n == s@.len(),
            i <= n,
            version_parts(s@) == parts_from(s@.skip(i as int), cur@, acc@),
        decreases n - i,
    {
        let c = s.get_char(i);
        proof {
            assert(s@.skip(i as int).drop_first() =~= s@.skip(i + 1));
            assert(s@.skip(i as int)[0] == c);
        }
        if char_numeric(c) {
            cur.push(c);
        } else {
            end_run(&mut acc, &cur);
            cur = Vec::new();
        }
        i = i + 1;
    }
    assert(s@.skip(n as int) =~= Seq::<char>::empty());
    end_run(&mut acc, &cur);
    acc
}

/// Whether `a` comes before `b` in lexicographic order.
pub fn parts_less(a: &Vec<u64>, b: &Vec<u64>) -> (r: bool)
    ensures
        r == parts_lt(a@, b@),
{
    let mut i: usize = 0;
    assert(a@.skip(0) =~= a@);
    assert(b@.skip(0) =~= b@);
    while i < a.len() && i < b.len()
        invariant
            i <= a.len(),
            i <= b.len(),
            parts_lt(a@, b@) == parts_lt(a@.skip(i as int), b@.skip(i as int)),
        decreases a.len() - i,
    {
        if a[i] != b[i] {
            return a[i] < b[i];
        }
        proof {
            assert(a@.skip(i as int).drop_first() =~= a@.skip(i + 1));
            assert(b@.skip(i as int).drop_first() =~= b@.skip(i + 1));
        }
        i = i + 1;
    }
    i == a.len() && i < b.len()
}

/// Whether `remote` is a newer version than `local`: their numbers
/// compared in order, a longer list winning a tie.
pub fn is_newer(remote: &str, local: &str) -> (r: bool)
    ensures
        r == newer(remote@, local@),
{
    let r_parts = version_numbers(remote);
    let l_parts = version_numbers(local);
    parts_less(&l_parts, &r_parts)
}

/// A firmware release for one platform.
#[derive(Debug)]
pub struct FirmwareInfo {
    pub version: String,
    pub url: String,
    pub md5: Option<String>,
    pub platform: String,
}

/// The values of a firmware release.
pub open spec fn info_view(f: FirmwareInfo) -> (Seq<char>, Seq<char>, Option<Seq<char>>, Seq<char>) {
    (f.version@, f.url@, opt_view(f.md5), f.platform@)
}

impl Clone for FirmwareInfo {
    fn clone(&self) -> (r: FirmwareInfo)
        ensures
            info_view(r) == info_view(*self),
    {
        FirmwareInfo {
            version: self.version.clone(),
            url: self.url.clone(),
            md5: clone_opt_string(&self.md5),
            platform: self.platform.clone(),
        }
    }
}

/// The update for a device: the release cached for its model, where that
/// is newer than the version it runs.
pub open spec fn update_for_spec(cache: Seq<(String, FirmwareInfo)>, model: Seq<char>, current: Seq<char>) -> Option<
    (Seq<char>, Seq<char>, Option<Seq<char>>, Seq<char>),
> {
    match lookup(cache, model) {
        Some(fw) => if newer(fw.version@, current) {
            Some(info_view(fw))
        } else {
            None
        },
        None => None,
    }
}

/// The update for a device of `model` running `current_version`, from the
/// releases cached by platform.
pub fn update_for(cache: &Vec<(String, FirmwareInfo)>, model: &str, current_version: &str) -> (r: Option<
    FirmwareInfo,
>)
    ensures
        match r {
            Some(f) => update_for_spec(cache@, model@, current_version@) == Some(info_view(f)),
            None => update_for_spec(cache@, model@, current_version@) is None,
        },
{
    match find_key(cache, model) {
        Some(i) => {
            if is_newer(cache[i].1.version.as_str(), current_version) {
                Some(cache[i].1.clone())
            } else {
                None
            }
        },
        None => None,
    }
}

/// An upgrade request: a release given by hand, or none (the newest known).
#[derive(Debug)]
pub struct UpgradeRequest {
    pub url: Option<String>,
    pub version: Option<String>,
}

/// Parameters of a forget request.
#[derive(Debug, Clone, Copy, PartialEq, Eq, Structural)]
pub struct ForgetParams {
    /// Reset the device to its factory state first.
    pub reset: Option<bool>,
}

/// Whether a forget request asks for a factory reset.
pub fn wants_reset(p: &ForgetParams) -> (r: bool)
    ensures
        r == (p.reset == Some(true)),
{
    match p.reset {
        Some(b) => b,
        None => false,
    }
}

/// The release given by hand: `(url, version)` where both are given.
pub fn manual_override(req: &UpgradeRequest) -> (r: Option<(String, String)>)
    ensures
        match (req.url, req.version) {
            (Some(u), Some(v)) => r matches Some(p) && p.0@ == u@ && p.1@ == v@,
            _ => r is None,
        },
{
    match (&req.url, &req.version) {
        (Some(u), Some(v)) => Some((u.clone(), v.clone())),
        _ => None,
    }
}

/// Why an upgrade cannot be looked up.
#[derive(Debug, Clone, Copy, PartialEq, Eq, Structural)]
pub enum UpgradeError {
    /// The device is not known.
    NotFound,
    /// Its model is not known.
    NoModel,
}

/// What to look an upgrade up by: the device's model and the version it
/// runs (`0.0.0` where unknown).
pub fn upgrade_query(device: Option<&DeviceState>) -> (r: Result<(String, String), UpgradeError>)
    ensures
        device is None ==> r == Err::<(String, String), UpgradeError>(UpgradeError::NotFound),
        device matches Some(d) ==> match d.model {
            None => r == Err::<(String, String), UpgradeError>(UpgradeError::NoModel),
            Some(m) => r matches Ok(q) && q.0@ == m@ && q.1@ == match d.version {
                Some(v) => v@,
                None => "0.0.0"@,
            },
        },
{
    match device {
        None => Err(UpgradeError::NotFound),
        Some(d) => match &d.model {
            None => Err(UpgradeError::NoModel),
            Some(m) => {
                let current = match &d.version {
                    Some(v) => v.clone(),
                    None => String::from_str("0.0.0"),
                };
                Ok((m.clone(), current))
            },
        },
    }
}

/// Sets the firmware a device should move to.
pub fn set_target_firmware(device: &mut DeviceState, version: String, url: String, md5: Option<String>)
    ensures
        final(device)@ == (DeviceView { target_firmware: Some((version@, url@, opt_view(md5))), ..old(device)@ }),
{
    device.target_firmware = Some(FirmwareUpdateInfo { version, url, md5 });
}

/// No number sequence precedes itself.
proof fn lemma_parts_lt_irreflexive(a: Seq<u64>)
    ensures
        !parts_lt(a, a),
    decreases a.len(),
{
    if a.len() > 0 {
        lemma_parts_lt_irreflexive(a.drop_first());
    }
}

/// Of two number sequences at most one precedes the other.
proof fn lemma_parts_lt_asymmetric(a: Seq<u64>, b: Seq<u64>)
    ensures
        !(parts_lt(a, b) && parts_lt(b, a)),
    decreases a.len(),
{
    if a.len() > 0 && b.len() > 0 && a[0] == b[0] {
        lemma_parts_lt_asymmetric(a.drop_first(), b.drop_first());
    }
}

/// The order of number sequences is transitive.
proof fn lemma_parts_lt_transitive(a: Seq<u64>, b: Seq<u64>, c: Seq<u64>)
    requires
        parts_lt(a, b),
        parts_lt(b, c),
    ensures
        parts_lt(a, c),
    decreases a.len(),
{
    if a.len() > 0 && b.len() > 0 && c.len() > 0 && a[0] == b[0] && b[0] == c[0] {
        lemma_parts_lt_transitive(a.drop_first(), b.drop_first(), c.drop_first());
    }
}

/// A version is never newer than itself, so a device already on the
/// offered firmware is not upgraded.
pub proof fn lemma_newer_irreflexive(v: Seq<char>)
    ensures
        !newer(v, v),
{
    lemma_parts_lt_irreflexive(version_parts(v));
}

/// Of two versions at most one is newer than the other.
pub proof fn lemma_newer_asymmetric(a: Seq<char>, b: Seq<char>)
    ensures
        !(newer(a, b) && newer(b, a)),
{
    lemma_parts_lt_asymmetric(version_parts(b), version_parts(a));
}

/// A version newer than a newer version is newer.
pub proof fn lemma_newer_transitive(a: Seq<char>, b: Seq<char>, c: Seq<char>)
    requires
        newer(a, b),
        newer(b, c),
    ensures
        newer(a, c),
{
    lemma_parts_lt_transitive(version_parts(c), version_parts(b), version_parts(a));
}

} // verus!
