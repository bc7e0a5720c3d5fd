//! MAC addresses: construction from bytes, text forms and parsing.

use vstd::prelude::*;
use crate::text::{hex_byte, hex_char, hex_lower, push_hex_byte};

verus! {

/// A 6-byte MAC address.
#[derive(Clone, Copy, Eq, Hash, Default, Debug)]
pub struct MacAddress(pub [u8; 6]);

/// Whether `c` is an ASCII hex digit (either case).
pub open spec fn is_hex_digit(c: char) -> bool {
    ('0' <= c && c <= '9') || ('a' <= c && c <= 'f') || ('A' <= c && c <= 'F')
}

/// The value of an ASCII hex digit.
pub open spec fn hex_value(c: char) -> int {
    if '0' <= c && c <= '9' {
        c as int - 48
    } else if 'a' <= c && c <= 'f' {
        c as int - 87
    } else {
        c as int - 55
    }
}

/// Hex decoding of a text: `None` unless it has an even number of
/// characters that are all hex digits; otherwise one byte per digit pair.
pub open spec fn hex_decode(cs: Seq<char>) -> Option<Seq<u8>> {
    if cs.len() % 2 == 0 && (forall|i: int| 0 <= i < cs.len() ==> #[trigger] is_hex_digit(cs[i])) {
        Some(Seq::new((cs.len() / 2) as nat, |i: int| (hex_value(cs[2 * i]) * 16 + hex_value(cs[2 * i + 1])) as u8))
    } else {
        None
    }
}

/// The hex digits of a text, in order, all other characters dropped.
pub open spec fn hex_digits_of(s: Seq<char>) -> Seq<char> {
    s.filter(|c: char| is_hex_digit(c))
}

/// Colon-separated lower-case form of six bytes, e.g. `1c:0b:8b:8e:17:7f`.
pub open spec fn colon_hex(b: Seq<u8>) -> Seq<char> {
    hex_byte(b[0]) + seq![':'] + hex_byte(b[1]) + seq![':'] + hex_byte(b[2]) + seq![':']
        + hex_byte(b[3]) + seq![':'] + hex_byte(b[4]) + seq![':'] + hex_byte(b[5])
}

/// `hex::encode`: each byte becomes two lower-case hex digits.
#[verifier::external_body]
pub(crate) fn hex_encode(data: &[u8]) -> (s: String)
    ensures
        s@ == hex_lower(data@),
{
    hex::encode(data)
}

/// `hex::decode`: succeeds exactly on texts of an even number of hex digits
/// (either case), giving one byte per pair.
#[verifier::external_body]
pub(crate) fn hex_decode_str(s: &str) -> (r: Result<Vec<u8>, hex::FromHexError>)
    ensures
        r is Ok <==> hex_decode(s@) is Some,
        r matches Ok(v) ==> hex_decode(s@) == Some(v@),
{
    hex::decode(s)
}

impl MacAddress {
    /// Spec view: the six bytes.
    pub open spec fn bytes(&self) -> Seq<u8> {
        self.0@
    }

    /// The address made of the first six bytes, if there are six.
    pub fn from_bytes(bytes: &[u8]) -> (r: Option<MacAddress>)
        ensures
            match r {
                Some(m) => bytes@.len() >= 6 && m.0@ == bytes@.take(6),
                None => bytes@.len() < 6,
            },
    {
        if bytes.len() >= 6 {
            let m = MacAddress([bytes[0], bytes[1], bytes[2], bytes[3], bytes[4], bytes[5]]);
            assert(m.0@ =~= bytes@.take(6));
            Some(m)
        } else {
            None
        }
    }

    /// The six bytes.
    pub fn as_bytes(&self) -> (r: &[u8; 6])
        ensures
            r@ == self.0@,
    {
        &self.0
    }

    /// Lower-case hex without separators, e.g. `1c0b8b8e177f`.
    pub fn to_hex_string(&self) -> (s: String)
        ensures
            s@ == hex_lower(self.0@),
    {
        hex_encode(self.0.as_slice())
    }

    /// Colon-separated lower-case hex, e.g. `1c:0b:8b:8e:17:7f`.
    pub fn to_colon_string(&self) -> (s: String)
        ensures
            s@ == colon_hex(self.0@),
    {
        let mut s = String::new();
        let mut i: usize = 0;
        while i < 6
            invariant
                i <= 6,
                s@ == colon_prefix(self.0@, i as int),
            decreases 6 - i,
        {
            if i > 0 {
                s.push(':');
            }
            push_hex_byte(&mut s, self.0[i]);
            i = i + 1;
        }
        assert(s@ =~= colon_hex(self.0@)) by {
            reveal_with_fuel(colon_prefix, 7);
        }
        s
    }

    /// Parses `1c0b8b8e177f`, `1c:0b:8b:8e:17:7f` or any other text whose
    /// hex digits, taken in order, number exactly twelve.
    pub fn parse(s: &str) -> (r: Result<MacAddress, String>)
        ensures
            match r {
                Ok(m) => hex_digits_of(s@).len() == 12 && hex_decode(hex_digits_of(s@)) == Some(m.0@),
                Err(e) => hex_digits_of(s@).len() != 12 && e@ == "Invalid MAC address format: "@ + s@,
            },
    {
        let n = s.unicode_len();
        let mut clean = String::new();
        let mut i: usize = 0;
        while i < n
            invariant
                n == s@.len(),
                i <= n,
                clean@ == hex_digits_of(s@.take(i as int)),
            decreases n - i,
        {
            let c = s.get_char(i);
            proof {
                let t = s@.take(i + 1);
                assert(t.drop_last() =~= s@.take(i as int));
                assert(t.last() == c);
                reveal(Seq::filter);
                assert(t.filter(|c: char| is_hex_digit(c)) == t.drop_last().filter(|c: char| is_hex_digit(c)) + (if is_hex_digit(c) { seq![c] } else { Seq::empty() }));
            }
            if ('0' <= c && c <= '9') || ('a' <= c && c <= 'f') || ('A' <= c && c <= 'F') {
                clean.push(c);
            }
            proof {
                let t = s@.take(i + 1);
                if is_hex_digit(c) {
                    assert(clean@ =~= hex_digits_of(t));
                } else {
                    assert(clean@ =~= hex_digits_of(t));
                }
            }
            i = i + 1;
        }
        assert(s@.take(n as int) =~= s@);
        let clean_len = clean.as_str().unicode_len();
        if clean_len != 12 {
            let mut msg = String::from_str("Invalid MAC address format: ");
            msg.append(s);
            proof {
                reveal_strlit("Invalid MAC address format: ");
            }
            return Err(msg);
        }
        proof {
            lemma_filter_all(s@);
        }
        match hex_decode_str(clean.as_str()) {
            Ok(bytes) => {
                let m = MacAddress([bytes[0], bytes[1], bytes[2], bytes[3], bytes[4], bytes[5]]);
                assert(m.0@ =~= bytes@);
                Ok(m)
            },
            Err(_) => {
                assert(false);
                Err(String::new())
            },
        }
    }
}

/// The colon form of the first `i` bytes.
pub open spec fn colon_prefix(b: Seq<u8>, i: int) -> Seq<char>
    decreases i,
{
    if i <= 0 {
        Seq::empty()
    } else if i == 1 {
        hex_byte(b[0])
    } else {
        colon_prefix(b, i - 1) + seq![':'] + hex_byte(b[i - 1])
    }
}

/// Every character kept by the hex-digit filter is a hex digit.
proof fn lemma_filter_all(s: Seq<char>)
    ensures
        forall|i: int| 0 <= i < hex_digits_of(s).len() ==> #[trigger] is_hex_digit(hex_digits_of(s)[i]),
{
    let f = |c: char| is_hex_digit(c);
    assert forall|i: int| 0 <= i < s.filter(f).len() implies #[trigger] is_hex_digit(s.filter(f)[i]) by {
        broadcast use vstd::seq_lib::group_filter_ensures;
        assert(f(s.filter(f)[i]));
    }
}

impl PartialEq for MacAddress {
    fn eq(&self, other: &MacAddress) -> (r: bool) {
        let mut i: usize = 0;
        while i < 6
            invariant
                i <= 6,
                forall|j: int| 0 <= j < i ==> self.0@[j] == other.0@[j],
            decreases 6 - i,
        {
            if self.0[i] != other.0[i] {
                return false;
            }
            i = i + 1;
        }
        assert(self.0@ =~= other.0@);
        true
    }
}

impl vstd::std_specs::cmp::PartialEqSpecImpl for MacAddress {
    open spec fn obeys_eq_spec() -> bool {
        true
    }

    open spec fn eq_spec(&self, other: &MacAddress) -> bool {
        self.0@ == other.0@
    }
}

impl std::str::FromStr for MacAddress {
    type Err = String;

    fn from_str(s: &str) -> (r: Result<MacAddress, String>)
        ensures
            match r {
                Ok(m) => hex_digits_of(s@).len() == 12 && hex_decode(hex_digits_of(s@)) == Some(m.0@),
                Err(e) => hex_digits_of(s@).len() != 12 && e@ == "Invalid MAC address format: "@ + s@,
            },
    {
        MacAddress::parse(s)
    }
}

/// Character `2i` and `2i + 1` of a lower-case hex encoding are the two
/// digits of byte `i`.
proof fn lemma_hex_lower_at(b: Seq<u8>, i: int)
    requires
        0 <= i < b.len(),
    ensures
        hex_lower(b).len() == 2 * b.len(),
        hex_lower(b)[2 * i] == hex_char(b[i] as int / 16),
        hex_lower(b)[2 * i + 1] == hex_char(b[i] as int % 16),
    decreases b.len(),
{
    if i > 0 {
        lemma_hex_lower_at(b.drop_first(), i - 1);
    } else if b.len() > 1 {
        lemma_hex_lower_at(b.drop_first(), 0);
    } else {
        assert(b.drop_first().len() == 0);
    }
}

/// A lower-case hex digit is a hex digit of its own value.
proof fn lemma_hex_char(n: int)
    requires
        0 <= n < 16,
    ensures
        is_hex_digit(hex_char(n)),
        hex_value(hex_char(n)) == n,
{
}

/// Decoding the lower-case hex encoding of bytes gives the bytes back.
pub proof fn lemma_hex_roundtrip(b: Seq<u8>)
    ensures
        hex_decode(hex_lower(b)) == Some(b),
{
    let h = hex_lower(b);
    if b.len() == 0 {
        assert(h.len() == 0);
        assert(hex_decode(h).unwrap() =~= b);
    } else {
        lemma_hex_lower_at(b, 0);
        assert forall|i: int| 0 <= i < h.len() implies #[trigger] is_hex_digit(h[i]) by {
            let j = i / 2;
            lemma_hex_lower_at(b, j);
            lemma_hex_char(b[j] as int / 16);
            lemma_hex_char(b[j] as int % 16);
            assert(i == 2 * j || i == 2 * j + 1);
        }
        assert forall|j: int| 0 <= j < b.len() implies (hex_value(h[2 * j]) * 16 + hex_value(h[2 * j + 1])) as u8
            == b[j] by {
            lemma_hex_lower_at(b, j);
            lemma_hex_char(b[j] as int / 16);
            lemma_hex_char(b[j] as int % 16);
        }
        assert(hex_decode(h).unwrap() =~= b);
    }
}

/// The two digits of a byte are hex digits.
proof fn lemma_hex_byte_digits(b: u8)
    ensures
        hex_byte(b).filter(|c: char| is_hex_digit(c)) == hex_byte(b),
{
    lemma_hex_char(b as int / 16);
    lemma_hex_char(b as int % 16);
    reveal_with_fuel(Seq::filter, 3);
    assert(hex_byte(b).filter(|c: char| is_hex_digit(c)) =~= hex_byte(b));
}

/// The lower-case hex of six bytes, byte by byte.
proof fn lemma_hex_lower_six(b: Seq<u8>)
    requires
        b.len() == 6,
    ensures
        hex_lower(b) == hex_byte(b[0]) + hex_byte(b[1]) + hex_byte(b[2]) + hex_byte(b[3]) + hex_byte(b[4])
            + hex_byte(b[5]),
{
    let t1 = b.drop_first();
    let t2 = t1.drop_first();
    let t3 = t2.drop_first();
    let t4 = t3.drop_first();
    let t5 = t4.drop_first();
    let t6 = t5.drop_first();
    assert(hex_lower(t6) == Seq::<char>::empty());
    assert(hex_lower(t5) == hex_byte(b[5]) + hex_lower(t6));
    assert(hex_lower(t4) == hex_byte(b[4]) + hex_lower(t5));
    assert(hex_lower(t3) == hex_byte(b[3]) + hex_lower(t4));
    assert(hex_lower(t2) == hex_byte(b[2]) + hex_lower(t3));
    assert(hex_lower(t1) == hex_byte(b[1]) + hex_lower(t2));
    assert(hex_lower(b) == hex_byte(b[0]) + hex_lower(t1));
    assert(hex_lower(b) =~= hex_byte(b[0]) + hex_byte(b[1]) + hex_byte(b[2]) + hex_byte(b[3]) + hex_byte(b[4])
        + hex_byte(b[5]));
}

/// Reading the colon form of an address back gives the address: its hex
/// digits are the twelve digits of the six bytes.
pub proof fn lemma_colon_text_roundtrip(b: Seq<u8>)
    requires
        b.len() == 6,
    ensures
        hex_digits_of(colon_hex(b)) == hex_lower(b),
        hex_digits_of(colon_hex(b)).len() == 12,
        hex_decode(hex_digits_of(colon_hex(b))) == Some(b),
{
    broadcast use Seq::filter_distributes_over_add;
    let f = |c: char| is_hex_digit(c);
    lemma_hex_byte_digits(b[0]);
    lemma_hex_byte_digits(b[1]);
    lemma_hex_byte_digits(b[2]);
    lemma_hex_byte_digits(b[3]);
    lemma_hex_byte_digits(b[4]);
    lemma_hex_byte_digits(b[5]);
    assert(seq![':'].filter(f) =~= Seq::<char>::empty()) by {
        reveal_with_fuel(Seq::filter, 2);
    }
    lemma_hex_lower_six(b);
    assert(colon_hex(b).filter(f) =~= hex_lower(b));
    lemma_hex_lower_at(b, 0);
    lemma_hex_roundtrip(b);
}

/// The plain hex form of an address reads back as the address.
pub proof fn lemma_hex_text_roundtrip(b: Seq<u8>)
    requires
        b.len() == 6,
    ensures
        hex_digits_of(hex_lower(b)) == hex_lower(b),
        hex_decode(hex_digits_of(hex_lower(b))) == Some(b),
{
    broadcast use Seq::filter_distributes_over_add;
    let f = |c: char| is_hex_digit(c);
    lemma_hex_byte_digits(b[0]);
    lemma_hex_byte_digits(b[1]);
    lemma_hex_byte_digits(b[2]);
    lemma_hex_byte_digits(b[3]);
    lemma_hex_byte_digits(b[4]);
    lemma_hex_byte_digits(b[5]);
    lemma_hex_lower_six(b);
    assert(hex_lower(b).filter(f) =~= hex_lower(b));
    lemma_hex_roundtrip(b);
}

} // verus!
