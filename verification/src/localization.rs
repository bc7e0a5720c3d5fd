//! Country and time-zone localization: ISO 3166 numeric codes, the POSIX
//! time-zone strings of common IANA zones, and a default zone per country.

use vstd::prelude::*;
use crate::ini::str_eq;

verus! {

/// The ISO 3166-1 numeric code of an alpha-2 country code, if the code is
/// known to `rust_iso3166`.
pub uninterp spec fn iso_numeric(alpha2: Seq<char>) -> Option<i32>;

/// `rust_iso3166::from_alpha2`, reduced to the numeric code: the contract
/// claims only that the result is the table entry for `alpha2`.
#[verifier::external_body]
fn iso_numeric_of(alpha2: &str) -> (r: Option<i32>)
    ensures
        r == iso_numeric(alpha2@),
{
    rust_iso3166::from_alpha2(alpha2).map(|c| c.numeric)
}

/// The upper-case form of a text, as `str::to_uppercase` gives it.
pub uninterp spec fn uppercase(s: Seq<char>) -> Seq<char>;

/// `str::to_uppercase`: the contract names the result and claims no more.
#[verifier::external_body]
fn to_upper(s: &str) -> (r: String)
    ensures
        r@ == uppercase(s@),
{
    s.to_uppercase()
}

/// The numeric country code: the ISO 3166 code cut to 16 bits, or 840 (US)
/// for an unknown code.
pub open spec fn numeric_country(alpha2: Seq<char>) -> u16 {
    match iso_numeric(alpha2) {
        Some(n) => n as u16,
        None => 840,
    }
}

/// The numeric country code of an ISO alpha-2 code (840 if unknown).
pub fn get_numeric_country_code(iso: &str) -> (r: u16)
    ensures
        r == numeric_country(iso@),
{
    match iso_numeric_of(iso) {
        Some(n) => n as u16,
        None => 840,
    }
}

/// The POSIX time-zone string of an IANA zone, where the table has one.
pub open spec fn iana_posix(z: Seq<char>) -> Option<Seq<char>> {
    if z == "Europe/Berlin"@ || z == "Europe/Amsterdam"@ || z == "Europe/Stockholm"@ || z == "Europe/Vienna"@
        || z == "Europe/Zurich"@ || z == "Europe/Copenhagen"@ || z == "Europe/Oslo"@ || z == "Europe/Paris"@
        || z == "Europe/Rome"@ || z == "Europe/Warsaw"@ || z == "Europe/Madrid"@ || z == "Europe/Brussels"@
        || z == "Europe/Budapest"@ || z == "Europe/Prague"@ || z == "Europe/Belgrade"@ {
        Some("CET-1CEST,M3.5.0,M10.5.0/3"@)
    } else if z == "Europe/London"@ || z == "Europe/Dublin"@ || z == "Europe/Lisbon"@ {
        Some("GMT0BST,M3.5.0/1,M10.5.0"@)
    } else if z == "Europe/Helsinki"@ || z == "Europe/Athens"@ || z == "Europe/Bucharest"@
        || z == "Europe/Istanbul"@ || z == "Europe/Kiev"@ || z == "Europe/Riga"@ || z == "Europe/Sofia"@
        || z == "Europe/Tallinn"@ || z == "Europe/Vilnius"@ {
        Some("EET-2EEST,M3.5.0/3,M10.5.0/4"@)
    } else if z == "Europe/Moscow"@ {
        Some("MSK-3"@)
    } else if z == "America/New_York"@ || z == "America/Detroit"@ || z == "America/Toronto"@
        || z == "America/Montreal"@ {
        Some("EST5EDT,M3.2.0,M11.1.0"@)
    } else if z == "America/Chicago"@ || z == "America/Winnipeg"@ || z == "America/Mexico_City"@ {
        Some("CST6CDT,M3.2.0,M11.1.0"@)
    } else if z == "America/Denver"@ || z == "America/Edmonton"@ {
        Some("MST7MDT,M3.2.0,M11.1.0"@)
    } else if z == "America/Los_Angeles"@ || z == "America/Vancouver"@ || z == "America/Tijuana"@ {
        Some("PST8PDT,M3.2.0,M11.1.0"@)
    } else if z == "America/Phoenix"@ {
        Some("MST7"@)
    } else if z == "America/Anchorage"@ {
        Some("AKST9AKDT,M3.2.0,M11.1.0"@)
    } else if z == "Pacific/Honolulu"@ {
        Some("HST10"@)
    } else if z == "America/Sao_Paulo"@ {
        Some("BRT3"@)
    } else if z == "America/Argentina/Buenos_Aires"@ {
        Some("ART3"@)
    } else if z == "Asia/Tokyo"@ {
        Some("JST-9"@)
    } else if z == "Asia/Shanghai"@ || z == "Asia/Hong_Kong"@ || z == "Asia/Singapore"@ || z == "Asia/Taipei"@ {
        Some("CST-8"@)
    } else if z == "Asia/Seoul"@ {
        Some("KST-9"@)
    } else if z == "Asia/Bangkok"@ || z == "Asia/Jakarta"@ || z == "Asia/Ho_Chi_Minh"@ {
        Some("ICT-7"@)
    } else if z == "Asia/Kolkata"@ {
        Some("IST-5:30"@)
    } else if z == "Australia/Sydney"@ || z == "Australia/Melbourne"@ {
        Some("AEST-10AEDT,M10.1.0,M4.1.0/3"@)
    } else if z == "Australia/Brisbane"@ {
        Some("AEST-10"@)
    } else if z == "Australia/Adelaide"@ {
        Some("ACST-9:30ACDT,M10.1.0,M4.1.0/3"@)
    } else if z == "Australia/Perth"@ {
        Some("AWST-8"@)
    } else if z == "Pacific/Auckland"@ {
        Some("NZST-12NZDT,M9.5.0,M4.1.0/3"@)
    } else if z == "UTC"@ || z == "Etc/UTC"@ || z == "GMT"@ {
        Some("UTC0"@)
    } else {
        None
    }
}

/// The POSIX time-zone string of an IANA zone name, where known.
pub fn iana_to_posix_tz(iana: &str) -> (r: Option<&'static str>)
    ensures
        match r {
            Some(p) => iana_posix(iana@) == Some(p@),
            None => iana_posix(iana@) is None,
        },
{
    let z = iana;
    if str_eq(z, "Europe/Berlin") || str_eq(z, "Europe/Amsterdam") || str_eq(z, "Europe/Stockholm")
        || str_eq(z, "Europe/Vienna") || str_eq(z, "Europe/Zurich") || str_eq(z, "Europe/Copenhagen")
        || str_eq(z, "Europe/Oslo") || str_eq(z, "Europe/Paris") || str_eq(z, "Europe/Rome")
        || str_eq(z, "Europe/Warsaw") || str_eq(z, "Europe/Madrid") || str_eq(z, "Europe/Brussels")
        || str_eq(z, "Europe/Budapest") || str_eq(z, "Europe/Prague") || str_eq(z, "Europe/Belgrade") {
        Some("CET-1CEST,M3.5.0,M10.5.0/3")
    } else if str_eq(z, "Europe/London") || str_eq(z, "Europe/Dublin") || str_eq(z, "Europe/Lisbon") {
        Some("GMT0BST,M3.5.0/1,M10.5.0")
    } else if str_eq(z, "Europe/Helsinki") || str_eq(z, "Europe/Athens") || str_eq(z, "Europe/Bucharest")
        || str_eq(z, "Europe/Istanbul") || str_eq(z, "Europe/Kiev") || str_eq(z, "Europe/Riga")
        || str_eq(z, "Europe/Sofia") || str_eq(z, "Europe/Tallinn") || str_eq(z, "Europe/Vilnius") {
        Some("EET-2EEST,M3.5.0/3,M10.5.0/4")
    } else if str_eq(z, "Europe/Moscow") {
        Some("MSK-3")
    } else if str_eq(z, "America/New_York") || str_eq(z, "America/Detroit") || str_eq(z, "America/Toronto")
        || str_eq(z, "America/Montreal") {
        Some("EST5EDT,M3.2.0,M11.1.0")
    } else if str_eq(z, "America/Chicago") || str_eq(z, "America/Winnipeg") || str_eq(z, "America/Mexico_City") {
        Some("CST6CDT,M3.2.0,M11.1.0")
    } else if str_eq(z, "America/Denver") || str_eq(z, "America/Edmonton") {
        Some("MST7MDT,M3.2.0,M11.1.0")
    } else if str_eq(z, "America/Los_Angeles") || str_eq(z, "America/Vancouver") || str_eq(z, "America/Tijuana") {
        Some("PST8PDT,M3.2.0,M11.1.0")
    } else if str_eq(z, "America/Phoenix") {
        Some("MST7")
    } else if str_eq(z, "America/Anchorage") {
        Some("AKST9AKDT,M3.2.0,M11.1.0")
    } else if str_eq(z, "Pacific/Honolulu") {
        Some("HST10")
    } else if str_eq(z, "America/Sao_Paulo") {
        Some("BRT3")
    } else if str_eq(z, "America/Argentina/Buenos_Aires") {
        Some("ART3")
    } else if str_eq(z, "Asia/Tokyo") {
        Some("JST-9")
    } else if str_eq(z, "Asia/Shanghai") || str_eq(z, "Asia/Hong_Kong") || str_eq(z, "Asia/Singapore")
        || str_eq(z, "Asia/Taipei") {
        Some("CST-8")
    } else if str_eq(z, "Asia/Seoul") {
        Some("KST-9")
    } else if str_eq(z, "Asia/Bangkok") || str_eq(z, "Asia/Jakarta") || str_eq(z, "Asia/Ho_Chi_Minh") {
        Some("ICT-7")
    } else if str_eq(z, "Asia/Kolkata") {
        Some("IST-5:30")
    } else if str_eq(z, "Australia/Sydney") || str_eq(z, "Australia/Melbourne") {
        Some("AEST-10AEDT,M10.1.0,M4.1.0/3")
    } else if str_eq(z, "Australia/Brisbane") {
        Some("AEST-10")
    } else if str_eq(z, "Australia/Adelaide") {
        Some("ACST-9:30ACDT,M10.1.0,M4.1.0/3")
    } else if str_eq(z, "Australia/Perth") {
        Some("AWST-8")
    } else if str_eq(z, "Pacific/Auckland") {
        Some("NZST-12NZDT,M9.5.0,M4.1.0/3")
    } else if str_eq(z, "UTC") || str_eq(z, "Etc/UTC") || str_eq(z, "GMT") {
        Some("UTC0")
    } else {
        None
    }
}

/// The default IANA zone of an upper-case country code.
pub open spec fn country_zone(up: Seq<char>) -> Seq<char> {
    if up == "DE"@ || up == "AT"@ || up == "CH"@ || up == "NL"@ || up == "BE"@ || up == "LU"@ || up == "FR"@
        || up == "ES"@ || up == "IT"@ || up == "PL"@ || up == "CZ"@ || up == "DK"@ || up == "NO"@ || up == "SE"@ {
        "Europe/Berlin"@
    } else if up == "GB"@ || up == "IE"@ || up == "PT"@ {
        "Europe/London"@
    } else if up == "FI"@ || up == "GR"@ || up == "EE"@ || up == "LV"@ || up == "LT"@ || up == "RO"@
        || up == "BG"@ || up == "UA"@ || up == "TR"@ {
        "Europe/Helsinki"@
    } else if up == "RU"@ {
        "Europe/Moscow"@
    } else if up == "US"@ {
        "America/New_York"@
    } else if up == "CA"@ {
        "America/Toronto"@
    } else if up == "AU"@ {
        "Australia/Sydney"@
    } else if up == "NZ"@ {
        "Pacific/Auckland"@
    } else if up == "JP"@ {
        "Asia/Tokyo"@
    } else if up == "CN"@ {
        "Asia/Shanghai"@
    } else if up == "IN"@ {
        "Asia/Kolkata"@
    } else if up == "BR"@ {
        "America/Sao_Paulo"@
    } else {
        "UTC"@
    }
}

/// The zones a country can default to.
pub open spec fn default_zones() -> Set<Seq<char>> {
    set![
        "Europe/Berlin"@, "Europe/London"@, "Europe/Helsinki"@, "Europe/Moscow"@, "America/New_York"@,
        "America/Toronto"@, "Australia/Sydney"@, "Pacific/Auckland"@, "Asia/Tokyo"@, "Asia/Shanghai"@,
        "Asia/Kolkata"@, "America/Sao_Paulo"@, "UTC"@
    ]
}

/// Every country, known or not, defaults to one of the default zones, and
/// that zone has a POSIX string in the zone table.
pub proof fn lemma_country_zone_known(up: Seq<char>)
    ensures
        default_zones().contains(country_zone(up)),
        iana_posix(country_zone(up)) is Some,
{
}

/// The default IANA zone of a country, by its code in any case.
pub fn get_default_timezone_for_country(iso: &str) -> (r: &'static str)
    ensures
        r@ == country_zone(uppercase(iso@)),
{
    let u = to_upper(iso);
    let up = u.as_str();
    if str_eq(up, "DE") || str_eq(up, "AT") || str_eq(up, "CH") || str_eq(up, "NL") || str_eq(up, "BE")
        || str_eq(up, "LU") || str_eq(up, "FR") || str_eq(up, "ES") || str_eq(up, "IT") || str_eq(up, "PL")
        || str_eq(up, "CZ") || str_eq(up, "DK") || str_eq(up, "NO") || str_eq(up, "SE") {
        "Europe/Berlin"
    } else if str_eq(up, "GB") || str_eq(up, "IE") || str_eq(up, "PT") {
        "Europe/London"
    } else if str_eq(up, "FI") || str_eq(up, "GR") || str_eq(up, "EE") || str_eq(up, "LV") || str_eq(up, "LT")
        || str_eq(up, "RO") || str_eq(up, "BG") || str_eq(up, "UA") || str_eq(up, "TR") {
        "Europe/Helsinki"
    } else if str_eq(up, "RU") {
        "Europe/Moscow"
    } else if str_eq(up, "US") {
        "America/New_York"
    } else if str_eq(up, "CA") {
        "America/Toronto"
    } else if str_eq(up, "AU") {
        "Australia/Sydney"
    } else if str_eq(up, "NZ") {
        "Pacific/Auckland"
    } else if str_eq(up, "JP") {
        "Asia/Tokyo"
    } else if str_eq(up, "CN") {
        "Asia/Shanghai"
    } else if str_eq(up, "IN") {
        "Asia/Kolkata"
    } else if str_eq(up, "BR") {
        "America/Sao_Paulo"
    } else {
        "UTC"
    }
}

/// The system's IANA time zone (`iana_time_zone::get_timezone`), if it can
/// be read; it depends on the machine, so nothing is claimed of it.
#[verifier::external_body]
pub fn detect_system_timezone() -> Option<String> {
    iana_time_zone::get_timezone().ok()
}

/// A letter of a POSIX zone name.
pub open spec fn is_zone_letter(c: char) -> bool {
    ('A' <= c && c <= 'Z') || ('a' <= c && c <= 'z')
}

/// A decimal digit.
pub open spec fn is_digit_char(c: char) -> bool {
    '0' <= c && c <= '9'
}

/// The number of letters at the start of `s`.
pub open spec fn letter_prefix(s: Seq<char>) -> nat
    decreases s.len(),
{
    if s.len() > 0 && is_zone_letter(s[0]) {
        1 + letter_prefix(s.drop_first())
    } else {
        0
    }
}

/// The number of digits at the start of `s`.
pub open spec fn digit_prefix(s: Seq<char>) -> nat
    decreases s.len(),
{
    if s.len() > 0 && is_digit_char(s[0]) {
        1 + digit_prefix(s.drop_first())
    } else {
        0
    }
}

/// The value of a string of decimal digits.
pub open spec fn digits_value(s: Seq<char>) -> int
    decreases s.len(),
{
    if s.len() == 0 {
        0
    } else {
        digits_value(s.drop_last()) * 10 + (s.last() as int - '0' as int)
    }
}

/// The standard-time offset of a POSIX time-zone string, in minutes west
/// of Greenwich: after the zone's name, an optional `-`, hours and an
/// optional `:` and minutes.
pub open spec fn posix_west_minutes(p: Seq<char>) -> int {
    let q = p.skip(letter_prefix(p) as int);
    let neg = q.len() > 0 && q[0] == '-';
    let r = if neg { q.drop_first() } else { q };
    let hn = digit_prefix(r);
    let h = digits_value(r.take(hn as int));
    let after = r.skip(hn as int);
    let m = if after.len() > 0 && after[0] == ':' {
        let t = after.drop_first();
        digits_value(t.take(digit_prefix(t) as int))
    } else {
        0
    };
    if neg { -(60 * h + m) } else { 60 * h + m }
}

proof fn lemma_posix_offsets_a()
    ensures
        posix_west_minutes("CET-1CEST,M3.5.0,M10.5.0/3"@) == -60,
        posix_west_minutes("GMT0BST,M3.5.0/1,M10.5.0"@) == 0,
        posix_west_minutes("EET-2EEST,M3.5.0/3,M10.5.0/4"@) == -120,
        posix_west_minutes("MSK-3"@) == -180,
        posix_west_minutes("EST5EDT,M3.2.0,M11.1.0"@) == 300,
        posix_west_minutes("CST6CDT,M3.2.0,M11.1.0"@) == 360,
{
    reveal_strlit("CET-1CEST,M3.5.0,M10.5.0/3");
    reveal_strlit("GMT0BST,M3.5.0/1,M10.5.0");
    reveal_strlit("EET-2EEST,M3.5.0/3,M10.5.0/4");
    reveal_strlit("MSK-3");
    reveal_strlit("EST5EDT,M3.2.0,M11.1.0");
    reveal_strlit("CST6CDT,M3.2.0,M11.1.0");
    reveal_with_fuel(letter_prefix, 6);
    reveal_with_fuel(digit_prefix, 3);
    reveal_with_fuel(digits_value, 3);
}

proof fn lemma_posix_offsets_b()
    ensures
        posix_west_minutes("MST7MDT,M3.2.0,M11.1.0"@) == 420,
        posix_west_minutes("PST8PDT,M3.2.0,M11.1.0"@) == 480,
        posix_west_minutes("MST7"@) == 420,
        posix_west_minutes("AKST9AKDT,M3.2.0,M11.1.0"@) == 540,
        posix_west_minutes("HST10"@) == 600,
        posix_west_minutes("BRT3"@) == 180,
{
    reveal_strlit("MST7MDT,M3.2.0,M11.1.0");
    reveal_strlit("PST8PDT,M3.2.0,M11.1.0");
    reveal_strlit("MST7");
    reveal_strlit("AKST9AKDT,M3.2.0,M11.1.0");
    reveal_strlit("HST10");
    reveal_strlit("BRT3");
    reveal_with_fuel(letter_prefix, 6);
    reveal_with_fuel(digit_prefix, 3);
    reveal_with_fuel(digits_value, 3);
}

proof fn lemma_posix_offsets_c()
    ensures
        posix_west_minutes("ART3"@) == 180,
        posix_west_minutes("JST-9"@) == -540,
        posix_west_minutes("CST-8"@) == -480,
        posix_west_minutes("KST-9"@) == -540,
        posix_west_minutes("ICT-7"@) == -420,
        posix_west_minutes("IST-5:30"@) == -330,
{
    reveal_strlit("ART3");
    reveal_strlit("JST-9");
    reveal_strlit("CST-8");
    reveal_strlit("KST-9");
    reveal_strlit("ICT-7");
    reveal_strlit("IST-5:30");
    reveal_with_fuel(letter_prefix, 6);
    reveal_with_fuel(digit_prefix, 3);
    reveal_with_fuel(digits_value, 3);
}

proof fn lemma_posix_offsets_d()
    ensures
        posix_west_minutes("AEST-10AEDT,M10.1.0,M4.1.0/3"@) == -600,
        posix_west_minutes("AEST-10"@) == -600,
        posix_west_minutes("ACST-9:30ACDT,M10.1.0,M4.1.0/3"@) == -570,
        posix_west_minutes("AWST-8"@) == -480,
        posix_west_minutes("NZST-12NZDT,M9.5.0,M4.1.0/3"@) == -720,
        posix_west_minutes("UTC0"@) == 0,
{
    reveal_strlit("AEST-10AEDT,M10.1.0,M4.1.0/3");
    reveal_strlit("AEST-10");
    reveal_strlit("ACST-9:30ACDT,M10.1.0,M4.1.0/3");
    reveal_strlit("AWST-8");
    reveal_strlit("NZST-12NZDT,M9.5.0,M4.1.0/3");
    reveal_strlit("UTC0");
    reveal_with_fuel(letter_prefix, 6);
    reveal_with_fuel(digit_prefix, 3);
    reveal_with_fuel(digits_value, 3);
}


/// The standard-time UTC offset, in minutes east of Greenwich, of the
/// IANA zones that the zone table knows.
pub open spec fn zone_utc_offset(z: Seq<char>) -> Option<int> {
    if "Europe/Belgrade"@ == z || "Europe/Prague"@ == z || "Europe/Budapest"@ == z || "Europe/Brussels"@ == z
        || "Europe/Madrid"@ == z || "Europe/Warsaw"@ == z || "Europe/Rome"@ == z || "Europe/Paris"@ == z
        || "Europe/Oslo"@ == z || "Europe/Copenhagen"@ == z || "Europe/Zurich"@ == z || "Europe/Vienna"@ == z
        || "Europe/Stockholm"@ == z || "Europe/Amsterdam"@ == z || "Europe/Berlin"@ == z {
        Some(60)
    } else if "Europe/Lisbon"@ == z || "Europe/Dublin"@ == z || "Europe/London"@ == z {
        Some(0)
    } else if "Europe/Vilnius"@ == z || "Europe/Tallinn"@ == z || "Europe/Sofia"@ == z || "Europe/Riga"@ == z
        || "Europe/Kiev"@ == z || "Europe/Istanbul"@ == z || "Europe/Bucharest"@ == z || "Europe/Athens"@ == z
        || "Europe/Helsinki"@ == z {
        Some(120)
    } else if "Europe/Moscow"@ == z {
        Some(180)
    } else if "America/Montreal"@ == z || "America/Toronto"@ == z || "America/Detroit"@ == z
        || "America/New_York"@ == z {
        Some(-300)
    } else if "America/Mexico_City"@ == z || "America/Winnipeg"@ == z || "America/Chicago"@ == z {
        Some(-360)
    } else if "America/Edmonton"@ == z || "America/Denver"@ == z {
        Some(-420)
    } else if "America/Tijuana"@ == z || "America/Vancouver"@ == z || "America/Los_Angeles"@ == z {
        Some(-480)
    } else if "America/Phoenix"@ == z {
        Some(-420)
    } else if "America/Anchorage"@ == z {
        Some(-540)
    } else if "Pacific/Honolulu"@ == z {
        Some(-600)
    } else if "America/Sao_Paulo"@ == z {
        Some(-180)
    } else if "America/Argentina/Buenos_Aires"@ == z {
        Some(-180)
    } else if "Asia/Tokyo"@ == z {
        Some(540)
    } else if "Asia/Taipei"@ == z || "Asia/Singapore"@ == z || "Asia/Hong_Kong"@ == z || "Asia/Shanghai"@ == z {
        Some(480)
    } else if "Asia/Seoul"@ == z {
        Some(540)
    } else if "Asia/Ho_Chi_Minh"@ == z || "Asia/Jakarta"@ == z || "Asia/Bangkok"@ == z {
        Some(420)
    } else if "Asia/Kolkata"@ == z {
        Some(330)
    } else if "Australia/Melbourne"@ == z || "Australia/Sydney"@ == z {
        Some(600)
    } else if "Australia/Brisbane"@ == z {
        Some(600)
    } else if "Australia/Adelaide"@ == z {
        Some(570)
    } else if "Australia/Perth"@ == z {
        Some(480)
    } else if "Pacific/Auckland"@ == z {
        Some(720)
    } else if "GMT"@ == z || "Etc/UTC"@ == z || "UTC"@ == z {
        Some(0)
    } else {
        None
    }
}

/// Each IANA zone that the table knows maps to a POSIX string whose
/// standard offset is that zone's own UTC offset (POSIX counts west of
/// Greenwich), and the table knows exactly the zones with a listed offset.
pub proof fn lemma_posix_offset_matches(z: Seq<char>)
    ensures
        iana_posix(z) is Some <==> zone_utc_offset(z) is Some,
        iana_posix(z) matches Some(p) ==> posix_west_minutes(p) == -zone_utc_offset(z).unwrap(),
{
    lemma_posix_offsets_a();
    lemma_posix_offsets_b();
    lemma_posix_offsets_c();
    lemma_posix_offsets_d();
}

/// The IANA zones of the table that observe daylight saving time.
pub open spec fn zone_observes_dst(z: Seq<char>) -> bool {
    if "Europe/Belgrade"@ == z || "Europe/Prague"@ == z || "Europe/Budapest"@ == z || "Europe/Brussels"@ == z
        || "Europe/Madrid"@ == z || "Europe/Warsaw"@ == z || "Europe/Rome"@ == z || "Europe/Paris"@ == z
        || "Europe/Oslo"@ == z || "Europe/Copenhagen"@ == z || "Europe/Zurich"@ == z || "Europe/Vienna"@ == z
        || "Europe/Stockholm"@ == z || "Europe/Amsterdam"@ == z || "Europe/Berlin"@ == z {
        true
    } else if "Europe/Lisbon"@ == z || "Europe/Dublin"@ == z || "Europe/London"@ == z {
        true
    } else if "Europe/Vilnius"@ == z || "Europe/Tallinn"@ == z || "Europe/Sofia"@ == z || "Europe/Riga"@ == z
        || "Europe/Kiev"@ == z || "Europe/Istanbul"@ == z || "Europe/Bucharest"@ == z || "Europe/Athens"@ == z
        || "Europe/Helsinki"@ == z {
        true
    } else if "Europe/Moscow"@ == z {
        false
    } else if "America/Montreal"@ == z || "America/Toronto"@ == z || "America/Detroit"@ == z
        || "America/New_York"@ == z {
        true
    } else if "America/Mexico_City"@ == z || "America/Winnipeg"@ == z || "America/Chicago"@ == z {
        true
    } else if "America/Edmonton"@ == z || "America/Denver"@ == z {
        true
    } else if "America/Tijuana"@ == z || "America/Vancouver"@ == z || "America/Los_Angeles"@ == z {
        true
    } else if "America/Phoenix"@ == z {
        false
    } else if "America/Anchorage"@ == z {
        true
    } else if "Pacific/Honolulu"@ == z {
        false
    } else if "America/Sao_Paulo"@ == z {
        false
    } else if "America/Argentina/Buenos_Aires"@ == z {
        false
    } else if "Asia/Tokyo"@ == z {
        false
    } else if "Asia/Taipei"@ == z || "Asia/Singapore"@ == z || "Asia/Hong_Kong"@ == z || "Asia/Shanghai"@ == z {
        false
    } else if "Asia/Seoul"@ == z {
        false
    } else if "Asia/Ho_Chi_Minh"@ == z || "Asia/Jakarta"@ == z || "Asia/Bangkok"@ == z {
        false
    } else if "Asia/Kolkata"@ == z {
        false
    } else if "Australia/Melbourne"@ == z || "Australia/Sydney"@ == z {
        true
    } else if "Australia/Brisbane"@ == z {
        false
    } else if "Australia/Adelaide"@ == z {
        true
    } else if "Australia/Perth"@ == z {
        false
    } else if "Pacific/Auckland"@ == z {
        true
    } else if "GMT"@ == z || "Etc/UTC"@ == z || "UTC"@ == z {
        false
    } else {
        false
    }
}

proof fn lemma_posix_dst_marks()
    ensures
        "CET-1CEST,M3.5.0,M10.5.0/3"@.contains(','),
        "GMT0BST,M3.5.0/1,M10.5.0"@.contains(','),
        "EET-2EEST,M3.5.0/3,M10.5.0/4"@.contains(','),
        "EST5EDT,M3.2.0,M11.1.0"@.contains(','),
        "CST6CDT,M3.2.0,M11.1.0"@.contains(','),
        "MST7MDT,M3.2.0,M11.1.0"@.contains(','),
        "PST8PDT,M3.2.0,M11.1.0"@.contains(','),
        "AKST9AKDT,M3.2.0,M11.1.0"@.contains(','),
        "AEST-10AEDT,M10.1.0,M4.1.0/3"@.contains(','),
        "ACST-9:30ACDT,M10.1.0,M4.1.0/3"@.contains(','),
        "NZST-12NZDT,M9.5.0,M4.1.0/3"@.contains(','),
        !"MSK-3"@.contains(','),
        !"MST7"@.contains(','),
        !"HST10"@.contains(','),
        !"BRT3"@.contains(','),
        !"ART3"@.contains(','),
        !"JST-9"@.contains(','),
        !"CST-8"@.contains(','),
        !"KST-9"@.contains(','),
        !"ICT-7"@.contains(','),
        !"IST-5:30"@.contains(','),
        !"AEST-10"@.contains(','),
        !"AWST-8"@.contains(','),
        !"UTC0"@.contains(','),
{
    reveal_strlit("CET-1CEST,M3.5.0,M10.5.0/3");
    assert("CET-1CEST,M3.5.0,M10.5.0/3"@[9] == ',');
    reveal_strlit("GMT0BST,M3.5.0/1,M10.5.0");
    assert("GMT0BST,M3.5.0/1,M10.5.0"@[7] == ',');
    reveal_strlit("EET-2EEST,M3.5.0/3,M10.5.0/4");
    assert("EET-2EEST,M3.5.0/3,M10.5.0/4"@[9] == ',');
    reveal_strlit("EST5EDT,M3.2.0,M11.1.0");
    assert("EST5EDT,M3.2.0,M11.1.0"@[7] == ',');
    reveal_strlit("CST6CDT,M3.2.0,M11.1.0");
    assert("CST6CDT,M3.2.0,M11.1.0"@[7] == ',');
    reveal_strlit("MST7MDT,M3.2.0,M11.1.0");
    assert("MST7MDT,M3.2.0,M11.1.0"@[7] == ',');
    reveal_strlit("PST8PDT,M3.2.0,M11.1.0");
    assert("PST8PDT,M3.2.0,M11.1.0"@[7] == ',');
    reveal_strlit("AKST9AKDT,M3.2.0,M11.1.0");
    assert("AKST9AKDT,M3.2.0,M11.1.0"@[9] == ',');
    reveal_strlit("AEST-10AEDT,M10.1.0,M4.1.0/3");
    assert("AEST-10AEDT,M10.1.0,M4.1.0/3"@[11] == ',');
    reveal_strlit("ACST-9:30ACDT,M10.1.0,M4.1.0/3");
    assert("ACST-9:30ACDT,M10.1.0,M4.1.0/3"@[13] == ',');
    reveal_strlit("NZST-12NZDT,M9.5.0,M4.1.0/3");
    assert("NZST-12NZDT,M9.5.0,M4.1.0/3"@[11] == ',');
    reveal_strlit("MSK-3");
    reveal_strlit("MST7");
    reveal_strlit("HST10");
    reveal_strlit("BRT3");
    reveal_strlit("ART3");
    reveal_strlit("JST-9");
    reveal_strlit("CST-8");
    reveal_strlit("KST-9");
    reveal_strlit("ICT-7");
    reveal_strlit("IST-5:30");
    reveal_strlit("AEST-10");
    reveal_strlit("AWST-8");
    reveal_strlit("UTC0");
}

/// A zone's POSIX string carries a daylight saving rule (after a comma)
/// exactly when the zone observes daylight saving time.
pub proof fn lemma_posix_dst_matches(z: Seq<char>)
    ensures
        iana_posix(z) matches Some(p) ==> (p.contains(',') <==> zone_observes_dst(z)),
{
    lemma_posix_dst_marks();
}

} // verus!
