//! Inform packets: the binary header around the encrypted JSON payload that
//! devices POST to the controller, and the builder of encrypted responses.

use vstd::prelude::*;
use crate::bytes::{be16, be16_bytes, be32, be32_bytes, copy_bytes, extend_bytes, lemma_be16_bytes_of_value,
    lemma_be16_roundtrip, lemma_be32_bytes_of_value, lemma_be32_roundtrip, push_be16, push_be32, read_be16, read_be32,
    slice_range};
use crate::crypto::{cbc_decrypt_pkcs7, cbc_encrypt_blocks, decrypt_cbc, decrypt_gcm_aad, decompress_zlib,
    compress_zlib, encrypt_cbc, encrypt_gcm_aad, gcm_decrypt, gcm_seal, pkcs7_pad, zlib_compress, zlib_decompress,
    AesKey, GCM_MAX};
use crate::error::Error;
use crate::mac::MacAddress;
use crate::types::{flags_of_raw, inform_magic, raw_of_flags, InformFlags, INFORM_MAGIC, lemma_flags_roundtrip};

verus! {

/// Length of the inform header.
pub const HEADER_SIZE: usize = 40;

/// The 40-byte inform header: magic, version, MAC, flags, IV, payload
/// version and payload length, integers big-endian.
pub open spec fn header_bytes(version: u32, mac: Seq<u8>, flags: InformFlags, iv: Seq<u8>, payload_version: u32, len: u32) -> Seq<u8> {
    inform_magic() + be32_bytes(version) + mac + be16_bytes(raw_of_flags(flags)) + iv + be32_bytes(payload_version)
        + be32_bytes(len)
}

/// The bytes of a packet: its header (the length field the payload length,
/// truncated to 32 bits) followed by the payload.
pub open spec fn inform_bytes(p: InformPacket) -> Seq<u8> {
    header_bytes(p.version, p.mac.0@, p.flags, p.iv@, p.payload_version, p.payload@.len() as u32) + p.payload@
}

/// The payload length that a header declares.
pub open spec fn declared_len(d: Seq<u8>) -> u32 {
    be32(d[36], d[37], d[38], d[39])
}

/// A byte string is an inform packet: a full header with the magic, and at
/// least as many payload bytes as the header declares.
pub open spec fn inform_decodes(d: Seq<u8>) -> bool {
    &&& d.len() >= 40
    &&& d.take(4) == inform_magic()
    &&& d.len() >= 40 + declared_len(d)
}

/// `p` is what decoding the bytes `d` reads.
pub open spec fn decoded_from(p: InformPacket, d: Seq<u8>) -> bool {
    &&& p.version == be32(d[4], d[5], d[6], d[7])
    &&& p.mac.0@ == d.subrange(8, 14)
    &&& p.flags == flags_of_raw(be16(d[14], d[15]))
    &&& p.iv@ == d.subrange(16, 32)
    &&& p.payload_version == be32(d[32], d[33], d[34], d[35])
    &&& p.payload@ == d.subrange(40, 40 + declared_len(d))
    &&& p.header_view() == d.take(40)
}

/// What decrypting a payload gives: decryption as the flags ask (GCM with
/// the header as additional data, or CBC), then ZLIB decompression if
/// flagged; `None` on any failure, and always for Snappy compression.
pub open spec fn decrypt_model(key: Seq<u8>, f: InformFlags, iv: Seq<u8>, header: Seq<u8>, payload: Seq<u8>) -> Option<Seq<u8>> {
    match cipher_stage(key, f, iv, header, payload) {
        None => None,
        Some(d) => {
            let d2 = if f.zlib_compressed { zlib_decompress(d) } else { Some(d) };
            if f.snappy_compressed { None } else { d2 }
        },
    }
}

/// The payload after its decryption step alone: AES-GCM over the header,
/// AES-CBC with PKCS#7, or the payload itself when it is not encrypted.
pub open spec fn cipher_stage(key: Seq<u8>, f: InformFlags, iv: Seq<u8>, header: Seq<u8>, payload: Seq<u8>) -> Option<Seq<u8>> {
    if f.encrypted {
        if f.aes_gcm {
            gcm_decrypt(key, iv, header, payload)
        } else {
            cbc_decrypt_pkcs7(key, iv, payload)
        }
    } else {
        Some(payload)
    }
}

/// The payload is short enough for AES-GCM decryption where the flags ask
/// for it: the ciphertext before the tag fits a C `int`.
pub open spec fn gcm_len_ok(f: InformFlags, len: nat) -> bool {
    f.encrypted && f.aes_gcm ==> len <= i32::MAX + 16
}

/// A raw inform packet.
#[derive(Debug, Clone)]
pub struct InformPacket {
    /// Packet version.
    pub version: u32,
    /// MAC address of the device.
    pub mac: MacAddress,
    /// Encryption and compression flags.
    pub flags: InformFlags,
    /// IV of the encryption.
    pub iv: [u8; 16],
    /// Payload version.
    pub payload_version: u32,
    /// Encrypted, possibly compressed, payload.
    pub payload: Vec<u8>,
    /// The header bytes the packet was read from, additional data of GCM.
    pub header: [u8; 40],
}

/// Writes a 40-byte header.
fn write_header(version: u32, mac: &MacAddress, flags: &InformFlags, iv: &[u8; 16], payload_version: u32, len: u32) -> (v: Vec<u8>)
    ensures
        v@ == header_bytes(version, mac.0@, *flags, iv@, payload_version, len),
        v@.len() == 40,
{
    let mut result: Vec<u8> = Vec::new();
    extend_bytes(&mut result, INFORM_MAGIC.as_slice());
    push_be32(&mut result, version);
    extend_bytes(&mut result, mac.as_bytes().as_slice());
    push_be16(&mut result, flags.to_raw());
    extend_bytes(&mut result, iv.as_slice());
    push_be32(&mut result, payload_version);
    push_be32(&mut result, len);
    assert(INFORM_MAGIC@ =~= inform_magic());
    assert(result@ =~= header_bytes(version, mac.0@, *flags, iv@, payload_version, len));
    result
}

impl InformPacket {
    /// The header bytes kept for use as additional data of GCM.
    pub open spec fn header_view(&self) -> Seq<u8> {
        self.header@
    }

    /// Decodes an inform packet.
    pub fn decode(data: &[u8]) -> (r: Result<InformPacket, Error>)
        ensures
            data@.len() < 40 ==> (r matches Err(Error::PacketTooShort { expected, actual }) && expected == 40
                && actual == data@.len()),
            data@.len() >= 40 && data@.take(4) != inform_magic() ==> (r matches Err(Error::InvalidMagic)),
            data@.len() >= 40 && data@.take(4) == inform_magic() && data@.len() < 40 + declared_len(data@) ==> (
            r matches Err(Error::PacketTooShort { expected, actual }) && actual == data@.len()
                && (40 + declared_len(data@) <= usize::MAX ==> expected == 40 + declared_len(data@))),
            inform_decodes(data@) ==> (r matches Ok(p) && decoded_from(p, data@)),
    {
        if data.len() < HEADER_SIZE {
            return Err(Error::PacketTooShort { expected: HEADER_SIZE, actual: data.len() });
        }
        if !(data[0] == INFORM_MAGIC[0] && data[1] == INFORM_MAGIC[1] && data[2] == INFORM_MAGIC[2] && data[3]
            == INFORM_MAGIC[3]) {
            proof {
                if data@.take(4) == inform_magic() {
                    assert(data@.take(4)[0] == data@[0]);
                    assert(data@.take(4)[1] == data@[1]);
                    assert(data@.take(4)[2] == data@[2]);
                    assert(data@.take(4)[3] == data@[3]);
                }
            }
            return Err(Error::InvalidMagic);
        }
        assert(data@.take(4) =~= inform_magic());
        let mut header = [0u8; 40];
        let mut i: usize = 0;
        while i < 40
            invariant
                i <= 40,
                data@.len() >= 40,
                forall|j: int| 0 <= j < i ==> header@[j] == data@[j],
            decreases 40 - i,
        {
            header[i] = data[i];
            i = i + 1;
        }
        assert(header@ =~= data@.take(40));
        let version = read_be32(data[4], data[5], data[6], data[7]);
        let mac = match MacAddress::from_bytes(slice_range(data, 8, 14)) {
            Some(m) => m,
            None => {
                assert(false);
                return Err(Error::InvalidMagic);
            },
        };
        let flags = InformFlags::from_raw(read_be16(data[14], data[15]));
        let iv = [
            data[16], data[17], data[18], data[19], data[20], data[21], data[22], data[23],
            data[24], data[25], data[26], data[27], data[28], data[29], data[30], data[31],
        ];
        assert(iv@ =~= data@.subrange(16, 32));
        let payload_version = read_be32(data[32], data[33], data[34], data[35]);
        let payload_length = read_be32(data[36], data[37], data[38], data[39]) as usize;
        if data.len() - HEADER_SIZE < payload_length {
            let expected = if payload_length <= usize::MAX - HEADER_SIZE {
                HEADER_SIZE + payload_length
            } else {
                usize::MAX
            };
            return Err(Error::PacketTooShort { expected, actual: data.len() });
        }
        let payload_end = HEADER_SIZE + payload_length;
        let payload = copy_bytes(slice_range(data, HEADER_SIZE, payload_end));
        assert(mac.0@ =~= data@.subrange(8, 14));
        Ok(InformPacket { version, mac, flags, iv, payload_version, payload, header })
    }

    /// Encodes the packet.
    pub fn encode(&self) -> (r: Vec<u8>)
        ensures
            r@ == inform_bytes(*self),
    {
        let mut result = write_header(
            self.version,
            &self.mac,
            &self.flags,
            &self.iv,
            self.payload_version,
            self.payload.len() as u32,
        );
        extend_bytes(&mut result, self.payload.as_slice());
        result
    }

    /// Decrypts and decompresses the payload with the given key.
    pub fn decrypt(&self, key: &AesKey) -> (r: Result<Vec<u8>, Error>)
        requires
            gcm_len_ok(self.flags, self.payload@.len()),
        ensures
            match decrypt_model(key@, self.flags, self.iv@, self.header_view(), self.payload@) {
                Some(v) => r matches Ok(d) && d@ == v,
                None => r is Err,
            },
            match cipher_stage(key@, self.flags, self.iv@, self.header_view(), self.payload@) {
                None => r matches Err(e) && e is Decryption,
                Some(d) => if self.flags.zlib_compressed && zlib_decompress(d) is None {
                    r matches Err(e) && e is Decompression
                } else if self.flags.snappy_compressed {
                    r matches Err(Error::Decompression(m)) && m@ == "Snappy compression not implemented"@
                } else {
                    r is Ok
                },
            },
    {
        let mut data = if self.flags.encrypted {
            if self.flags.aes_gcm {
                decrypt_gcm_aad(key, &self.iv, self.payload.as_slice(), self.header.as_slice())?
            } else {
                decrypt_cbc(key, &self.iv, self.payload.as_slice())?
            }
        } else {
            copy_bytes(self.payload.as_slice())
        };
        if self.flags.zlib_compressed {
            data = decompress_zlib(data.as_slice())?;
        }
        if self.flags.snappy_compressed {
            proof {
                reveal_strlit("Snappy compression not implemented");
            }
            return Err(Error::Decompression(String::from_str("Snappy compression not implemented")));
        }
        Ok(data)
    }
}

/// Decoding the encoding of a packet reads back every public field, as long
/// as the payload length fits the 32-bit length field.
pub proof fn lemma_decode_encode(p: InformPacket, q: InformPacket)
    requires
        p.payload@.len() <= u32::MAX,
        decoded_from(q, inform_bytes(p)),
    ensures
        inform_decodes(inform_bytes(p)),
        q.version == p.version,
        q.mac.0@ == p.mac.0@,
        q.flags == p.flags,
        q.iv@ == p.iv@,
        q.payload_version == p.payload_version,
        q.payload@ == p.payload@,
{
    let d = inform_bytes(p);
    let len = p.payload@.len() as u32;
    let fb = be16_bytes(raw_of_flags(p.flags));
    assert(d.subrange(4, 8) =~= be32_bytes(p.version));
    assert(d.subrange(8, 14) =~= p.mac.0@);
    assert(d.subrange(14, 16) =~= fb);
    assert(d.subrange(16, 32) =~= p.iv@);
    assert(d.subrange(32, 36) =~= be32_bytes(p.payload_version));
    assert(d.subrange(36, 40) =~= be32_bytes(len));
    lemma_be32_roundtrip(p.version);
    lemma_be32_roundtrip(p.payload_version);
    lemma_be32_roundtrip(len);
    lemma_be16_roundtrip(raw_of_flags(p.flags));
    lemma_flags_roundtrip(p.flags);
    assert(d[4] == d.subrange(4, 8)[0]);
    assert(d[5] == d.subrange(4, 8)[1]);
    assert(d[6] == d.subrange(4, 8)[2]);
    assert(d[7] == d.subrange(4, 8)[3]);
    assert(d[14] == fb[0]);
    assert(d[15] == fb[1]);
    assert(d[32] == d.subrange(32, 36)[0]);
    assert(d[33] == d.subrange(32, 36)[1]);
    assert(d[34] == d.subrange(32, 36)[2]);
    assert(d[35] == d.subrange(32, 36)[3]);
    assert(d[36] == d.subrange(36, 40)[0]);
    assert(d[37] == d.subrange(36, 40)[1]);
    assert(d[38] == d.subrange(36, 40)[2]);
    assert(d[39] == d.subrange(36, 40)[3]);
    assert(declared_len(d) == len);
    assert(d.take(4) =~= inform_magic());
    assert(d.subrange(40, 40 + declared_len(d)) =~= p.payload@);
}

/// Encoding a decoded packet gives back the bytes that were read, when the
/// flags field used no bits beyond the four known flags.
pub proof fn lemma_encode_decode(d: Seq<u8>, q: InformPacket)
    requires
        inform_decodes(d),
        decoded_from(q, d),
        be16(d[14], d[15]) <= 0x0f,
    ensures
        inform_bytes(q) == d.take(40 + declared_len(d)),
{
    let raw = be16(d[14], d[15]);
    crate::types::lemma_raw_roundtrip(raw);
    assert(raw & 0x0f == raw) by (bit_vector)
        requires
            raw <= 0x0f,
    ;
    lemma_be32_bytes_of_value(d[4], d[5], d[6], d[7]);
    lemma_be32_bytes_of_value(d[32], d[33], d[34], d[35]);
    lemma_be32_bytes_of_value(d[36], d[37], d[38], d[39]);
    lemma_be16_bytes_of_value(d[14], d[15]);
    assert(q.payload@.len() == declared_len(d));
    assert(d.take(4) =~= seq![d[0], d[1], d[2], d[3]]);
    assert(inform_bytes(q) =~= d.take(40 + declared_len(d)));
}

/// Builder of encrypted response packets.
pub struct InformResponseBuilder {
    mac: MacAddress,
    key: AesKey,
    use_gcm: bool,
    use_compression: bool,
}

/// The payload that a response carries before encryption.
pub open spec fn response_payload(json: Seq<u8>, compress: bool) -> Seq<u8> {
    if compress {
        zlib_compress(json)
    } else {
        json
    }
}

/// The flags of a response.
pub open spec fn response_flags(gcm: bool, compress: bool) -> InformFlags {
    InformFlags { encrypted: true, zlib_compressed: compress, snappy_compressed: false, aes_gcm: gcm }
}

/// The encrypted payload of a response: GCM with the response header as
/// additional data, or CBC over the PKCS#7-padded payload.
pub open spec fn response_ciphertext(mac: Seq<u8>, key: Seq<u8>, gcm: bool, compress: bool, iv: Seq<u8>, json: Seq<u8>) -> Seq<u8> {
    let payload = response_payload(json, compress);
    if gcm {
        gcm_seal(
            key,
            iv,
            header_bytes(0, mac, response_flags(gcm, compress), iv, 1, (payload.len() + 16) as u32),
            payload,
        )
    } else {
        cbc_encrypt_blocks(key, iv, pkcs7_pad(payload))
    }
}

impl InformResponseBuilder {
    /// MAC address of the responses.
    pub closed spec fn mac_spec(&self) -> MacAddress {
        self.mac
    }

    /// Key of the responses.
    pub closed spec fn key_spec(&self) -> Seq<u8> {
        self.key@
    }

    /// Whether responses use AES-GCM.
    pub closed spec fn gcm_spec(&self) -> bool {
        self.use_gcm
    }

    /// Whether responses are ZLIB compressed.
    pub closed spec fn compression_spec(&self) -> bool {
        self.use_compression
    }

    /// A builder for the device's MAC and key: AES-GCM on, compression off.
    pub fn new(mac: MacAddress, key: AesKey) -> (b: InformResponseBuilder)
        ensures
            b.mac_spec() == mac,
            b.key_spec() == key@,
            b.gcm_spec(),
            !b.compression_spec(),
    {
        InformResponseBuilder { mac, key, use_gcm: true, use_compression: false }
    }

    /// The builder with AES-GCM switched as given.
    pub fn use_gcm(self, use_gcm: bool) -> (b: InformResponseBuilder)
        ensures
            b.mac_spec() == self.mac_spec(),
            b.key_spec() == self.key_spec(),
            b.gcm_spec() == use_gcm,
            b.compression_spec() == self.compression_spec(),
    {
        InformResponseBuilder { use_gcm, ..self }
    }

    /// The builder with compression switched as given.
    pub fn use_compression(self, compress: bool) -> (b: InformResponseBuilder)
        ensures
            b.mac_spec() == self.mac_spec(),
            b.key_spec() == self.key_spec(),
            b.gcm_spec() == self.gcm_spec(),
            b.compression_spec() == compress,
    {
        InformResponseBuilder { use_compression: compress, ..self }
    }

    /// Builds an encrypted response packet around the JSON bytes of a
    /// response, with the given IV. Decoding the packet and decrypting it
    /// with the builder's key gives the JSON back.
    pub fn build(&self, json: &[u8], iv: &[u8; 16]) -> (r: Result<Vec<u8>, Error>)
        ensures
            ({
                let payload = response_payload(json@, self.compression_spec());
                &&& self.gcm_spec() ==> (payload.len() <= GCM_MAX <==> r is Ok)
                &&& !self.gcm_spec() ==> (payload.len() + 16 <= usize::MAX <==> r is Ok)
            }),
            r matches Ok(b) ==> ({
                let payload = response_payload(json@, self.compression_spec());
                let flags = response_flags(self.gcm_spec(), self.compression_spec());
                let ct = response_ciphertext(self.mac_spec().0@, self.key_spec(), self.gcm_spec(), self.compression_spec(), iv@, json@);
                &&& b@ == header_bytes(0, self.mac_spec().0@, flags, iv@, 1, ct.len() as u32) + ct
                &&& ct.len() == if self.gcm_spec() {
                    payload.len() + 16
                } else {
                    16 * (payload.len() / 16 + 1)
                }
                &&& ct.len() <= u32::MAX ==> inform_decodes(b@) && decrypt_model(self.key_spec(), flags_of_raw(be16(b@[14], b@[15])), b@.subrange(16, 32), b@.take(40), b@.subrange(40, 40 + declared_len(b@))) == Some(json@)
            }),
    {
        let payload = if self.use_compression {
            compress_zlib(json)?
        } else {
            copy_bytes(json)
        };
        let flags = InformFlags {
            encrypted: true,
            zlib_compressed: self.use_compression,
            snappy_compressed: false,
            aes_gcm: self.use_gcm,
        };
        let ghost ct_spec = response_ciphertext(self.mac.0@, self.key@, self.use_gcm, self.use_compression, iv@, json@);
        let (encrypted, header) = if self.use_gcm {
            if payload.len() as u64 > GCM_MAX {
                return Err(Error::Encryption(String::from_str("payload too large")));
            }
            let ct_len = (payload.len() as u64 + 16) as u32;
            let header = write_header(0, &self.mac, &flags, iv, 1, ct_len);
            let c = encrypt_gcm_aad(&self.key, iv, payload.as_slice(), header.as_slice())?;
            (c, header)
        } else {
            if payload.len() > usize::MAX - 16 {
                return Err(Error::Encryption(String::from_str("payload too large")));
            }
            let c = encrypt_cbc(&self.key, iv, payload.as_slice())?;
            let header = write_header(0, &self.mac, &flags, iv, 1, c.len() as u32);
            (c, header)
        };
        let mut hdr = [0u8; 40];
        let mut i: usize = 0;
        while i < 40
            invariant
                i <= 40,
                header@.len() == 40,
                forall|j: int| 0 <= j < i ==> hdr@[j] == header@[j],
            decreases 40 - i,
        {
            hdr[i] = header[i];
            i = i + 1;
        }
        assert(hdr@ =~= header@);
        let packet = InformPacket {
            version: 0,
            mac: self.mac,
            flags,
            iv: *iv,
            payload_version: 1,
            payload: encrypted,
            header: hdr,
        };
        let out = packet.encode();
        proof {
            let b = out@;
            assert(packet.payload@ == ct_spec);
            assert(b =~= header_bytes(0, self.mac.0@, flags, iv@, 1, ct_spec.len() as u32) + ct_spec);
            if ct_spec.len() <= u32::MAX {
                let ghost q = InformPacket {
                    version: 0,
                    mac: self.mac,
                    flags,
                    iv: *iv,
                    payload_version: 1,
                    payload: packet.payload,
                    header: hdr,
                };
                lemma_decode_encode_fields(packet);
                assert(b.take(40) =~= header@);
                assert(b.subrange(40, 40 + declared_len(b)) =~= ct_spec);
                assert(b.subrange(16, 32) =~= iv@);
            }
        }
        Ok(out)
    }
}

/// The fields that decoding reads from the encoding of a packet.
proof fn lemma_decode_encode_fields(p: InformPacket)
    requires
        p.payload@.len() <= u32::MAX,
    ensures
        inform_decodes(inform_bytes(p)),
        declared_len(inform_bytes(p)) == p.payload@.len(),
        flags_of_raw(be16(inform_bytes(p)[14], inform_bytes(p)[15])) == p.flags,
{
    let d = inform_bytes(p);
    let len = p.payload@.len() as u32;
    let fb = be16_bytes(raw_of_flags(p.flags));
    assert(d.subrange(14, 16) =~= fb);
    assert(d.subrange(36, 40) =~= be32_bytes(len));
    lemma_be32_roundtrip(len);
    lemma_be16_roundtrip(raw_of_flags(p.flags));
    lemma_flags_roundtrip(p.flags);
    assert(d[14] == fb[0]);
    assert(d[15] == fb[1]);
    assert(d[36] == d.subrange(36, 40)[0]);
    assert(d[37] == d.subrange(36, 40)[1]);
    assert(d[38] == d.subrange(36, 40)[2]);
    assert(d[39] == d.subrange(36, 40)[3]);
    assert(d.take(4) =~= inform_magic());
}

} // verus!
