//! Discovery packets: the TLV (type, length, value) announcements that
//! devices broadcast on UDP port 10001.

use vstd::prelude::*;
use std::collections::HashMap;
use vstd::std_specs::hash::spec_hash_map_iter;
use vstd::std_specs::iter::IteratorSpec;
use crate::bytes::{be16, be16_bytes, copy_bytes, extend_bytes, push_be16, read_be16, slice_range, slice_take};
use crate::error::Error;
use crate::mac::MacAddress;
use crate::text::{dec, push_dec};
use crate::types::DISCOVERY_TYPE_BROADCAST;

verus! {

broadcast use vstd::std_specs::hash::group_hash_axioms;

/// What `String::from_utf8_lossy` makes of a byte string.
pub uninterp spec fn utf8_lossy(b: Seq<u8>) -> Seq<char>;

/// `String::from_utf8_lossy`: the text of the bytes, invalid sequences
/// replaced; ASCII bytes are the characters of the same codes.
#[verifier::external_body]
fn lossy_string(b: &[u8]) -> (s: String)
    ensures
        s@ == utf8_lossy(b@),
        (forall|i: int| 0 <= i < b@.len() ==> b@[i] < 128) ==> s@ == b@.map_values(|x: u8| x as char),
{
    String::from_utf8_lossy(b).to_string()
}

/// The payloads of a packet, each as its bytes.
pub open spec fn payload_view(m: Map<u8, Vec<u8>>) -> Map<u8, Seq<u8>> {
    m.map_values(|v: Vec<u8>| v@)
}

/// Reading TLV entries from index `idx` while it is below `total`, each
/// later entry of a type replacing an earlier one. An entry header that
/// would run past the data ends the reading; an entry whose value runs
/// past the data is an error that names the index where the value ends.
pub open spec fn tlv_parse(d: Seq<u8>, idx: int, total: int, acc: Map<u8, Seq<u8>>) -> Result<Map<u8, Seq<u8>>, int>
    decreases d.len() - idx,
{
    if idx >= total || idx < 0 || idx + 3 > d.len() {
        Ok(acc)
    } else {
        let t = d[idx];
        let end = idx + 3 + be16(d[idx + 1], d[idx + 2]);
        if end > d.len() {
            Err(end)
        } else {
            tlv_parse(d, end, total, acc.insert(t, d.subrange(idx + 3, end)))
        }
    }
}

/// The declared total length of a discovery packet, header included.
pub open spec fn discovery_total(d: Seq<u8>) -> int {
    be16(d[2], d[3]) + 4
}

/// One TLV entry: type byte, 16-bit big-endian length (truncated), value.
pub open spec fn tlv(t: u8, v: Seq<u8>) -> Seq<u8> {
    seq![t] + be16_bytes(v.len() as u16) + v
}

/// The TLV entries of a listing of payloads, in order.
pub open spec fn tlvs(s: Seq<(u8, Vec<u8>)>) -> Seq<u8>
    decreases s.len(),
{
    if s.len() == 0 {
        Seq::empty()
    } else {
        tlv(s[0].0, s[0].1@) + tlvs(s.drop_first())
    }
}

/// The map that a listing of payloads describes, later entries winning.
pub open spec fn map_of(s: Seq<(u8, Vec<u8>)>) -> Map<u8, Seq<u8>>
    decreases s.len(),
{
    if s.len() == 0 {
        Map::empty()
    } else {
        map_of(s.drop_first()).insert(s[0].0, s[0].1@)
    }
}

/// A listing names each type at most once.
pub open spec fn distinct_types(s: Seq<(u8, Vec<u8>)>) -> bool {
    forall|i: int, j: int| 0 <= i < j < s.len() ==> s[i].0 != s[j].0
}

/// `s` lists exactly the entries of the map, each once.
pub open spec fn lists_map(s: Seq<(u8, Vec<u8>)>, m: Map<u8, Vec<u8>>) -> bool {
    &&& distinct_types(s)
    &&& forall|i: int| 0 <= i < s.len() ==> #[trigger] m.contains_key(s[i].0) && m[s[i].0] == s[i].1
    &&& forall|k: u8| #[trigger] m.contains_key(k) ==> exists|i: int| 0 <= i < s.len() && s[i].0 == k
}

/// The bytes of a packet that lists its payloads in the order `s`.
pub open spec fn discovery_bytes(version: u8, discovery_type: u8, s: Seq<(u8, Vec<u8>)>) -> Seq<u8> {
    seq![version, discovery_type] + be16_bytes(tlvs(s).len() as u16) + tlvs(s)
}

/// Parsed discovery packet.
#[derive(Debug, Clone)]
pub struct DiscoveryPacket {
    /// Protocol version.
    pub version: u8,
    /// Discovery type (0x06 for device broadcasts).
    pub discovery_type: u8,
    /// TLV payloads by type.
    pub payloads: HashMap<u8, Vec<u8>>,
}

/// The "Payload extends beyond packet" message.
pub open spec fn beyond_message(end: int, len: int) -> Seq<char> {
    "Payload extends beyond packet: end "@ + dec(end as nat) + " > len "@ + dec(len as nat)
}

impl DiscoveryPacket {
    /// An empty packet: version 1, broadcast type, no payloads.
    pub fn new() -> (p: DiscoveryPacket)
        ensures
            p.version == 1,
            p.discovery_type == DISCOVERY_TYPE_BROADCAST,
            p.payloads@ == Map::<u8, Vec<u8>>::empty(),
    {
        DiscoveryPacket { version: 1, discovery_type: DISCOVERY_TYPE_BROADCAST, payloads: HashMap::new() }
    }

    /// Decodes a discovery packet.
    pub fn decode(data: &[u8]) -> (r: Result<DiscoveryPacket, Error>)
        ensures
            data@.len() < 4 ==> (r matches Err(Error::PacketTooShort { expected, actual }) && expected == 4
                && actual == data@.len()),
            data@.len() >= 4 && data@.len() < discovery_total(data@) ==> (r matches Err(
                Error::PacketTooShort { expected, actual },
            ) && expected == discovery_total(data@) && actual == data@.len()),
            data@.len() >= 4 && data@.len() >= discovery_total(data@) ==> match tlv_parse(
                data@,
                4,
                discovery_total(data@),
                Map::empty(),
            ) {
                Ok(m) => r matches Ok(p) && p.version == data@[0] && p.discovery_type == data@[1]
                    && payload_view(p.payloads@) == m,
                Err(end) => r matches Err(Error::InvalidPacket(msg)) && msg@ == beyond_message(end, data@.len() as int),
            },
    {
        if data.len() < 4 {
            return Err(Error::PacketTooShort { expected: 4, actual: data.len() });
        }
        let version = data[0];
        let discovery_type = data[1];
        let total_length = read_be16(data[2], data[3]) as usize + 4;
        if data.len() < total_length {
            return Err(Error::PacketTooShort { expected: total_length, actual: data.len() });
        }
        let mut payloads: HashMap<u8, Vec<u8>> = HashMap::new();
        let mut index: usize = 4;
        let ghost full = tlv_parse(data@, 4, total_length as int, Map::empty());
        assert(payload_view(payloads@) =~= Map::<u8, Seq<u8>>::empty());
        while index < total_length
            invariant_except_break
                4 <= index <= data@.len(),
                total_length <= data@.len(),
                total_length == discovery_total(data@),
                full == tlv_parse(data@, 4, discovery_total(data@), Map::empty()),
                full == tlv_parse(data@, index as int, total_length as int, payload_view(payloads@)),
            ensures
                full == Ok::<Map<u8, Seq<u8>>, int>(payload_view(payloads@)),
            decreases data.len() - index,
        {
            if index + 3 > data.len() {
                break;
            }
            let payload_type = data[index];
            let payload_length = read_be16(data[index + 1], data[index + 2]) as usize;
            let payload_start = index + 3;
            if payload_length > data.len() - payload_start {
                let mut msg = String::from_str("Payload extends beyond packet: end ");
                push_dec(&mut msg, payload_start as u128 + payload_length as u128);
                msg.append(" > len ");
                push_dec(&mut msg, data.len() as u128);
                proof {
                    reveal_strlit("Payload extends beyond packet: end ");
                    reveal_strlit(" > len ");
                    assert(msg@ =~= beyond_message(payload_start + payload_length, data@.len() as int));
                    assert(payload_length == be16(data@[index + 1], data@[index + 2]));
                    assert(full == Err::<Map<u8, Seq<u8>>, int>(payload_start + payload_length));
                }
                return Err(Error::InvalidPacket(msg));
            }
            let payload_end = payload_start + payload_length;
            let payload_data = copy_bytes(slice_range(data, payload_start, payload_end));
            let ghost before = payload_view(payloads@);
            payloads.insert(payload_type, payload_data);
            assert(payload_view(payloads@) =~= before.insert(payload_type, data@.subrange(payload_start as int, payload_end as int)));
            index = payload_end;
        }
        Ok(DiscoveryPacket { version, discovery_type, payloads })
    }
}

impl DiscoveryPacket {
    /// Encodes the packet: version, type, 16-bit length of the entries
    /// (truncated), then one TLV entry per payload, each type once, in the
    /// order in which the map is walked.
    pub fn encode(&self) -> (r: Vec<u8>)
        ensures
            exists|s: Seq<(u8, Vec<u8>)>| lists_map(s, self.payloads@) && r@ == discovery_bytes(self.version, self.discovery_type, s),
    {
        let mut payload_bytes: Vec<u8> = Vec::new();
        let ghost walk = spec_hash_map_iter(&self.payloads).remaining();
        let ghost mut n: int = 0;
        for item in it: self.payloads.iter()
            invariant
                it.seq() == walk,
                walk.no_duplicates(),
                n == it.index(),
                payload_bytes@ == tlvs(walk.take(n).unref()),
        {
            let (payload_type, payload_data) = item;
            let ghost before = walk.take(n).unref();
            payload_bytes.push(*payload_type);
            push_be16(&mut payload_bytes, payload_data.len() as u16);
            extend_bytes(&mut payload_bytes, payload_data.as_slice());
            proof {
                lemma_tlvs_push(before, (*payload_type, *payload_data));
                assert(walk.take(n + 1).unref() =~= before.push((*payload_type, *payload_data)));
                n = n + 1;
            }
        }
        let ghost listing = walk.unref();
        proof {
            assert(n == walk.len());
            assert(walk.take(n) =~= walk);
            lemma_iter_lists_map(&self.payloads, walk);
        }
        let mut result: Vec<u8> = Vec::new();
        result.push(self.version);
        result.push(self.discovery_type);
        push_be16(&mut result, payload_bytes.len() as u16);
        extend_bytes(&mut result, payload_bytes.as_slice());
        assert(result@ =~= discovery_bytes(self.version, self.discovery_type, listing));
        result
    }
}

/// The walk of a map lists it.
proof fn lemma_iter_lists_map(m: &HashMap<u8, Vec<u8>>, v: Seq<(&u8, &Vec<u8>)>)
    requires
        v == spec_hash_map_iter(m).remaining(),
        v.no_duplicates(),
    ensures
        lists_map(v.unref(), m@),
{
    let s = v.unref();
    assert forall|i: int| 0 <= i < s.len() implies #[trigger] m@.contains_key(s[i].0) && m@[s[i].0] == s[i].1 by {
        assert(m@.contains_key(*v[i].0));
    }
    assert forall|i: int, j: int| 0 <= i < j < s.len() implies s[i].0 != s[j].0 by {
        assert(m@.contains_key(*v[i].0));
        assert(m@.contains_key(*v[j].0));
        if s[i].0 == s[j].0 {
            assert(v[i] == v[j]);
        }
    }
    assert forall|k: u8| #[trigger] m@.contains_key(k) implies exists|i: int| 0 <= i < s.len() && s[i].0 == k by {
        assert(v.contains((&k, &m@[k])));
        let i = choose|i: int| 0 <= i < v.len() && v[i] == (&k, &m@[k]);
        assert(s[i].0 == k);
    }
}

/// Appending an entry to a listing appends its TLV bytes.
pub proof fn lemma_tlvs_push(s: Seq<(u8, Vec<u8>)>, e: (u8, Vec<u8>))
    ensures
        tlvs(s.push(e)) == tlvs(s) + tlv(e.0, e.1@),
    decreases s.len(),
{
    if s.len() == 0 {
        assert(s.push(e).drop_first() =~= Seq::<(u8, Vec<u8>)>::empty());
        assert(tlvs(s.push(e).drop_first()) == Seq::<u8>::empty());
        assert(tlvs(s.push(e)) =~= tlv(e.0, e.1@));
    } else {
        lemma_tlvs_push(s.drop_first(), e);
        assert(s.push(e).drop_first() =~= s.drop_first().push(e));
        assert(tlvs(s.push(e)) =~= tlvs(s) + tlv(e.0, e.1@));
    }
}

/// The types named in a listing are the keys of the map it describes.
proof fn lemma_map_of_keys(s: Seq<(u8, Vec<u8>)>, k: u8)
    ensures
        map_of(s).contains_key(k) <==> exists|i: int| 0 <= i < s.len() && s[i].0 == k,
    decreases s.len(),
{
    if s.len() > 0 {
        lemma_map_of_keys(s.drop_first(), k);
        if exists|i: int| 0 <= i < s.len() && s[i].0 == k {
            let i = choose|i: int| 0 <= i < s.len() && s[i].0 == k;
            if i > 0 {
                assert(s.drop_first()[i - 1].0 == k);
            }
        }
        if exists|i: int| 0 <= i < s.drop_first().len() && s.drop_first()[i].0 == k {
            let i = choose|i: int| 0 <= i < s.drop_first().len() && s.drop_first()[i].0 == k;
            assert(s[i + 1].0 == k);
        }
    }
}

/// Reading the TLV entries of a listing with distinct types, placed after
/// any prefix, adds exactly the listing's entries to what was read before.
proof fn lemma_parse_tlvs(p: Seq<u8>, s: Seq<(u8, Vec<u8>)>, acc: Map<u8, Seq<u8>>)
    requires
        distinct_types(s),
        forall|i: int| 0 <= i < s.len() ==> (#[trigger] s[i]).1@.len() <= 0xffff,
    ensures
        tlv_parse(p + tlvs(s), p.len() as int, (p.len() + tlvs(s).len()) as int, acc) == Ok::<Map<u8, Seq<u8>>, int>(
            acc.union_prefer_right(map_of(s)),
        ),
    decreases s.len(),
{
    let d = p + tlvs(s);
    if s.len() == 0 {
        assert(acc.union_prefer_right(map_of(s)) =~= acc);
    } else {
        let k = s[0].0;
        let v = s[0].1@;
        let rest = s.drop_first();
        let e = tlv(k, v);
        let p2 = p + e;
        assert(tlvs(s) == e + tlvs(rest));
        assert(d =~= p2 + tlvs(rest));
        let len = v.len() as u16;
        let pl = p.len() as int;
        crate::bytes::lemma_be16_roundtrip(len);
        assert(d[pl] == k);
        assert(d[pl + 1] == be16_bytes(len)[0]);
        assert(d[pl + 2] == be16_bytes(len)[1]);
        assert(be16(d[pl + 1], d[pl + 2]) == v.len());
        assert(d.subrange(pl + 3, pl + 3 + v.len()) =~= v);
        assert forall|i: int| 0 <= i < rest.len() implies (#[trigger] rest[i]).1@.len() <= 0xffff by {
            assert(rest[i] == s[i + 1]);
        }
        assert(distinct_types(rest)) by {
            assert forall|i: int, j: int| 0 <= i < j < rest.len() implies rest[i].0 != rest[j].0 by {
                assert(rest[i] == s[i + 1]);
                assert(rest[j] == s[j + 1]);
            }
        }
        lemma_parse_tlvs(p2, rest, acc.insert(k, v));
        lemma_map_of_keys(rest, k);
        if map_of(rest).contains_key(k) {
            let i = choose|i: int| 0 <= i < rest.len() && rest[i].0 == k;
            assert(s[i + 1].0 == k);
        }
        assert(acc.insert(k, v).union_prefer_right(map_of(rest)) =~= acc.union_prefer_right(map_of(s)));
    }
}

/// A listing of a map describes the map.
proof fn lemma_map_of_lists(s: Seq<(u8, Vec<u8>)>, m: Map<u8, Vec<u8>>)
    requires
        lists_map(s, m),
    ensures
        map_of(s) == payload_view(m),
{
    assert forall|k: u8| #[trigger] map_of(s).contains_key(k) <==> payload_view(m).contains_key(k) by {
        lemma_map_of_keys(s, k);
    }
    assert forall|k: u8| #[trigger] map_of(s).contains_key(k) implies map_of(s)[k] == payload_view(m)[k] by {
        lemma_map_of_keys(s, k);
        let i = choose|i: int| 0 <= i < s.len() && s[i].0 == k;
        lemma_map_of_value(s, i);
    }
    assert(map_of(s) =~= payload_view(m));
}

/// In a listing with distinct types, the map it describes holds each
/// entry's value.
proof fn lemma_map_of_value(s: Seq<(u8, Vec<u8>)>, i: int)
    requires
        distinct_types(s),
        0 <= i < s.len(),
    ensures
        map_of(s).contains_key(s[i].0),
        map_of(s)[s[i].0] == s[i].1@,
    decreases s.len(),
{
    if i > 0 {
        let rest = s.drop_first();
        assert(distinct_types(rest)) by {
            assert forall|a: int, b: int| 0 <= a < b < rest.len() implies rest[a].0 != rest[b].0 by {
                assert(rest[a] == s[a + 1]);
                assert(rest[b] == s[b + 1]);
            }
        }
        assert(rest[i - 1] == s[i]);
        lemma_map_of_value(rest, i - 1);
        assert(s[0].0 != s[i].0);
    }
}

/// Decoding the encoding of a packet reads back its version, type and
/// payloads, whatever order the payloads were written in, as long as every
/// payload and all of them together fit the 16-bit length fields.
pub proof fn lemma_discovery_roundtrip(version: u8, discovery_type: u8, s: Seq<(u8, Vec<u8>)>, m: Map<u8, Vec<u8>>)
    requires
        lists_map(s, m),
        tlvs(s).len() <= 0xffff,
        forall|i: int| 0 <= i < s.len() ==> (#[trigger] s[i]).1@.len() <= 0xffff,
    ensures
        ({
            let d = discovery_bytes(version, discovery_type, s);
            &&& d.len() >= 4
            &&& d.len() >= discovery_total(d)
            &&& d[0] == version
            &&& d[1] == discovery_type
            &&& tlv_parse(d, 4, discovery_total(d), Map::empty()) == Ok::<Map<u8, Seq<u8>>, int>(payload_view(m))
        }),
{
    let d = discovery_bytes(version, discovery_type, s);
    let h = seq![version, discovery_type] + be16_bytes(tlvs(s).len() as u16);
    assert(d =~= h + tlvs(s));
    crate::bytes::lemma_be16_roundtrip(tlvs(s).len() as u16);
    assert(d[2] == be16_bytes(tlvs(s).len() as u16)[0]);
    assert(d[3] == be16_bytes(tlvs(s).len() as u16)[1]);
    assert(discovery_total(d) == 4 + tlvs(s).len());
    lemma_parse_tlvs(h, s, Map::empty());
    lemma_map_of_lists(s, m);
    assert(Map::<u8, Seq<u8>>::empty().union_prefer_right(map_of(s)) =~= map_of(s));
}

/// The MAC address a packet carries: the first six bytes of the MAC+IP
/// payload, else the MAC payload when it has six bytes.
pub open spec fn discovery_mac(pv: Map<u8, Seq<u8>>) -> Option<Seq<u8>> {
    if pv.contains_key(0x02) {
        Some(pv[0x02].take(6))
    } else if pv.contains_key(0x01) && pv[0x01].len() >= 6 {
        Some(pv[0x01].take(6))
    } else {
        None
    }
}

/// The IPv4 address a packet carries: bytes 6 to 10 of the MAC+IP payload.
pub open spec fn discovery_ip(pv: Map<u8, Seq<u8>>) -> Option<Seq<u8>> {
    if pv.contains_key(0x02) && pv[0x02].len() >= 10 {
        Some(pv[0x02].subrange(6, 10))
    } else {
        None
    }
}

/// The first of two payloads that is present.
pub open spec fn first_payload(pv: Map<u8, Seq<u8>>, a: u8, b: u8) -> Option<Seq<u8>> {
    if pv.contains_key(a) {
        Some(pv[a])
    } else if pv.contains_key(b) {
        Some(pv[b])
    } else {
        None
    }
}

/// The SSH port a packet carries: the first two bytes of its payload.
pub open spec fn discovery_ssh_port(pv: Map<u8, Seq<u8>>) -> Option<u16> {
    if pv.contains_key(0x1c) && pv[0x1c].len() >= 2 {
        Some(be16(pv[0x1c][0], pv[0x1c][1]))
    } else {
        None
    }
}

/// A flag payload is set: present, non-empty, first byte non-zero.
pub open spec fn flag_set(pv: Map<u8, Seq<u8>>, t: u8) -> bool {
    pv.contains_key(t) && pv[t].len() > 0 && pv[t][0] != 0
}

/// A text payload read as text.
pub open spec fn lossy_option(b: Option<Seq<u8>>, r: Option<String>) -> bool {
    match b {
        Some(bytes) => r matches Some(s) && s@ == utf8_lossy(bytes),
        None => r is None,
    }
}

impl DiscoveryPacket {
    /// The packet's payloads, each as its bytes.
    pub open spec fn payloads_view(&self) -> Map<u8, Seq<u8>> {
        payload_view(self.payloads@)
    }

    /// The device MAC address.
    pub fn mac(&self) -> (r: Option<MacAddress>)
        requires
            self.payloads_view().contains_key(0x02) ==> self.payloads_view()[0x02].len() >= 6,
        ensures
            match discovery_mac(self.payloads_view()) {
                Some(b) => r matches Some(m) && m.0@ == b,
                None => r is None,
            },
    {
        match self.payloads.get(&0x02u8) {
            Some(data) => MacAddress::from_bytes(slice_take(data.as_slice(), 6)),
            None => match self.payloads.get(&0x01u8) {
                Some(data) => MacAddress::from_bytes(data.as_slice()),
                None => None,
            },
        }
    }

    /// The device IPv4 address.
    pub fn ip(&self) -> (r: Option<[u8; 4]>)
        ensures
            match discovery_ip(self.payloads_view()) {
                Some(b) => r matches Some(a) && a@ == b,
                None => r is None,
            },
    {
        match self.payloads.get(&0x02u8) {
            Some(data) => {
                if data.len() >= 10 {
                    let a = [data[6], data[7], data[8], data[9]];
                    assert(a@ =~= data@.subrange(6, 10));
                    Some(a)
                } else {
                    None
                }
            },
            None => None,
        }
    }

    /// The device model (short model, else second short model).
    pub fn model(&self) -> (r: Option<String>)
        ensures
            lossy_option(first_payload(self.payloads_view(), 0x15, 0x0c), r),
    {
        match self.payloads.get(&0x15u8) {
            Some(data) => Some(lossy_string(data.as_slice())),
            None => match self.payloads.get(&0x0cu8) {
                Some(data) => Some(lossy_string(data.as_slice())),
                None => None,
            },
        }
    }

    /// The device hostname.
    pub fn hostname(&self) -> (r: Option<String>)
        ensures
            lossy_option(first_payload(self.payloads_view(), 0x0b, 0x0b), r),
    {
        match self.payloads.get(&0x0bu8) {
            Some(data) => Some(lossy_string(data.as_slice())),
            None => None,
        }
    }

    /// The firmware version (version, else firmware payload).
    pub fn firmware_version(&self) -> (r: Option<String>)
        ensures
            lossy_option(first_payload(self.payloads_view(), 0x16, 0x03), r),
    {
        match self.payloads.get(&0x16u8) {
            Some(data) => Some(lossy_string(data.as_slice())),
            None => match self.payloads.get(&0x03u8) {
                Some(data) => Some(lossy_string(data.as_slice())),
                None => None,
            },
        }
    }

    /// The SSH port.
    pub fn ssh_port(&self) -> (r: Option<u16>)
        ensures
            r == discovery_ssh_port(self.payloads_view()),
    {
        match self.payloads.get(&0x1cu8) {
            Some(data) => {
                if data.len() >= 2 {
                    Some(read_be16(data[0], data[1]))
                } else {
                    None
                }
            },
            None => None,
        }
    }

    /// Whether the device is in its default (not adopted) state.
    pub fn is_default(&self) -> (r: bool)
        ensures
            r == flag_set(self.payloads_view(), 0x17),
    {
        match self.payloads.get(&0x17u8) {
            Some(data) => data.len() > 0 && data[0] != 0,
            None => false,
        }
    }

    /// Whether the device is locating (LED flashing).
    pub fn is_locating(&self) -> (r: bool)
        ensures
            r == flag_set(self.payloads_view(), 0x18),
    {
        match self.payloads.get(&0x18u8) {
            Some(data) => data.len() > 0 && data[0] != 0,
            None => false,
        }
    }

    /// Sets the MAC payload.
    pub fn set_mac(&mut self, mac: MacAddress)
        ensures
            final(self).version == old(self).version,
            final(self).discovery_type == old(self).discovery_type,
            final(self).payloads_view() == old(self).payloads_view().insert(0x01, mac.0@),
    {
        let ghost before = self.payloads_view();
        let data = copy_bytes(mac.as_bytes().as_slice());
        self.payloads.insert(0x01u8, data);
        assert(self.payloads_view() =~= before.insert(0x01, mac.0@));
    }

    /// Sets the MAC+IP payload: the MAC followed by the IPv4 address, if
    /// there is one.
    pub fn set_mac_ip(&mut self, mac: MacAddress, ip: Option<[u8; 4]>)
        ensures
            final(self).version == old(self).version,
            final(self).discovery_type == old(self).discovery_type,
            final(self).payloads_view() == old(self).payloads_view().insert(
                0x02,
                match ip {
                    Some(a) => mac.0@ + a@,
                    None => mac.0@,
                },
            ),
    {
        let ghost before = self.payloads_view();
        let mut data = copy_bytes(mac.as_bytes().as_slice());
        match ip {
            Some(a) => extend_bytes(&mut data, a.as_slice()),
            None => {},
        }
        self.payloads.insert(0x02u8, data);
        assert(self.payloads_view() =~= before.insert(
            0x02,
            match ip {
                Some(a) => mac.0@ + a@,
                None => mac.0@,
            },
        ));
    }

    /// Sets the SSH port payload (big-endian).
    pub fn set_ssh_port(&mut self, port: u16)
        ensures
            final(self).version == old(self).version,
            final(self).discovery_type == old(self).discovery_type,
            final(self).payloads_view() == old(self).payloads_view().insert(0x1c, be16_bytes(port)),
    {
        let ghost before = self.payloads_view();
        let mut data: Vec<u8> = Vec::new();
        push_be16(&mut data, port);
        self.payloads.insert(0x1cu8, data);
        assert(self.payloads_view() =~= before.insert(0x1c, be16_bytes(port)));
    }

    /// Sets the serial payload to the MAC address bytes.
    pub fn set_serial(&mut self, mac: MacAddress)
        ensures
            final(self).version == old(self).version,
            final(self).discovery_type == old(self).discovery_type,
            final(self).payloads_view() == old(self).payloads_view().insert(0x13, mac.0@),
    {
        let ghost before = self.payloads_view();
        let data = copy_bytes(mac.as_bytes().as_slice());
        self.payloads.insert(0x13u8, data);
        assert(self.payloads_view() =~= before.insert(0x13, mac.0@));
    }
}

impl Default for DiscoveryPacket {
    fn default() -> (p: DiscoveryPacket)
        ensures
            p.version == 1,
            p.discovery_type == DISCOVERY_TYPE_BROADCAST,
            p.payloads@ == Map::<u8, Vec<u8>>::empty(),
    {
        DiscoveryPacket::new()
    }
}

/// The port a written SSH port payload reads back as.
pub proof fn lemma_ssh_port_roundtrip(pv: Map<u8, Seq<u8>>, port: u16)
    ensures
        discovery_ssh_port(pv.insert(0x1c, be16_bytes(port))) == Some(port),
{
    crate::bytes::lemma_be16_roundtrip(port);
}

/// The MAC and IPv4 address that a written MAC+IP payload reads back as.
pub proof fn lemma_mac_ip_roundtrip(pv: Map<u8, Seq<u8>>, mac: Seq<u8>, ip: Seq<u8>)
    requires
        mac.len() == 6,
        ip.len() == 4,
    ensures
        discovery_mac(pv.insert(0x02, mac + ip)) == Some(mac),
        discovery_ip(pv.insert(0x02, mac + ip)) == Some(ip),
{
    assert((mac + ip).take(6) =~= mac);
    assert((mac + ip).subrange(6, 10) =~= ip);
}

/// A written MAC payload reads back as the MAC when there is no MAC+IP
/// payload, which takes precedence.
pub proof fn lemma_mac_roundtrip(pv: Map<u8, Seq<u8>>, mac: Seq<u8>)
    requires
        mac.len() == 6,
        !pv.contains_key(0x02),
    ensures
        discovery_mac(pv.insert(0x01, mac)) == Some(mac),
{
    assert(mac.take(6) =~= mac);
}

/// Information about a discovered device.
#[derive(Debug, Clone)]
pub struct DiscoveredDevice {
    pub mac: MacAddress,
    pub ip: [u8; 4],
    pub model: Option<String>,
    pub hostname: Option<String>,
    pub firmware_version: Option<String>,
    pub ssh_port: u16,
    pub is_default: bool,
    pub is_locating: bool,
}

impl DiscoveredDevice {
    /// The device a packet announces; it must carry a MAC and an IPv4
    /// address. The SSH port defaults to 22.
    pub fn from_packet(packet: DiscoveryPacket) -> (r: Result<DiscoveredDevice, Error>)
        requires
            packet.payloads_view().contains_key(0x02) ==> packet.payloads_view()[0x02].len() >= 6,
        ensures
            discovery_mac(packet.payloads_view()) is None ==> (r matches Err(Error::InvalidPacket(m))
                && m@ == "Missing MAC address"@),
            discovery_mac(packet.payloads_view()) is Some && discovery_ip(packet.payloads_view()) is None ==> (
            r matches Err(Error::InvalidPacket(m)) && m@ == "Missing IP address"@),
            r matches Ok(d) ==> ({
                let pv = packet.payloads_view();
                &&& discovery_mac(pv) == Some(d.mac.0@)
                &&& discovery_ip(pv) == Some(d.ip@)
                &&& lossy_option(first_payload(pv, 0x15, 0x0c), d.model)
                &&& lossy_option(first_payload(pv, 0x0b, 0x0b), d.hostname)
                &&& lossy_option(first_payload(pv, 0x16, 0x03), d.firmware_version)
                &&& d.ssh_port == match discovery_ssh_port(pv) {
                    Some(p) => p,
                    None => 22u16,
                }
                &&& d.is_default == flag_set(pv, 0x17)
                &&& d.is_locating == flag_set(pv, 0x18)
            }),
            discovery_mac(packet.payloads_view()) is Some && discovery_ip(packet.payloads_view()) is Some ==> r is Ok,
    {
        let mac = match packet.mac() {
            Some(m) => m,
            None => {
                proof {
                    reveal_strlit("Missing MAC address");
                }
                return Err(Error::InvalidPacket(String::from_str("Missing MAC address")));
            },
        };
        let ip = match packet.ip() {
            Some(a) => a,
            None => {
                proof {
                    reveal_strlit("Missing IP address");
                }
                return Err(Error::InvalidPacket(String::from_str("Missing IP address")));
            },
        };
        let ssh_port = match packet.ssh_port() {
            Some(p) => p,
            None => 22,
        };
        Ok(DiscoveredDevice {
            mac,
            ip,
            model: packet.model(),
            hostname: packet.hostname(),
            firmware_version: packet.firmware_version(),
            ssh_port,
            is_default: packet.is_default(),
            is_locating: packet.is_locating(),
        })
    }
}

} // verus!
