//! Cryptographic framing of the inform protocol: AES-128 keys, AES-GCM
//! with 16-byte IVs (optionally with additional authenticated data),
//! AES-CBC with PKCS#7 padding, and ZLIB compression.

use vstd::prelude::*;
use aes_gcm::aead::{Aead, KeyInit};
use cbc::cipher::{BlockDecryptMut, BlockEncryptMut, KeyIvInit};
use std::io::{Read, Write};
use crate::error::Error;
use crate::mac::{hex_decode, hex_decode_str, is_hex_digit};
use crate::bytes::{copy_bytes, slice_skip, slice_take};

verus! {

/// Default encryption key used before device adoption.
pub const DEFAULT_KEY: &'static str = "ba86f2bbe107c7c57eb5f2690775c712";

/// Largest plaintext (and additional data) that AES-GCM accepts: 2^36 bytes.
pub const GCM_MAX: u64 = 0x10_0000_0000;

/// What AES-GCM (16-byte IV) produces for a plaintext: ciphertext followed
/// by the 16-byte tag, as computed by the `aes-gcm` crate.
pub uninterp spec fn gcm_seal(key: Seq<u8>, iv: Seq<u8>, aad: Seq<u8>, pt: Seq<u8>) -> Seq<u8>;

/// What OpenSSL's AES-128-GCM decryption (16-byte IV) gives for a ciphertext
/// and tag: the plaintext, or `None` when the tag does not authenticate.
pub uninterp spec fn gcm_open(key: Seq<u8>, iv: Seq<u8>, aad: Seq<u8>, ct: Seq<u8>, tag: Seq<u8>) -> Option<Seq<u8>>;

/// What AES-128-CBC encryption without padding produces for whole blocks.
pub uninterp spec fn cbc_encrypt_blocks(key: Seq<u8>, iv: Seq<u8>, data: Seq<u8>) -> Seq<u8>;

/// What AES-128-CBC decryption followed by PKCS#7 unpadding gives, or
/// `None` when the data is not whole blocks or the padding is malformed.
pub uninterp spec fn cbc_decrypt_pkcs7(key: Seq<u8>, iv: Seq<u8>, data: Seq<u8>) -> Option<Seq<u8>>;

/// What ZLIB compression at the default level produces.
pub uninterp spec fn zlib_compress(data: Seq<u8>) -> Seq<u8>;

/// What ZLIB decompression gives, or `None` for a malformed stream.
pub uninterp spec fn zlib_decompress(data: Seq<u8>) -> Option<Seq<u8>>;

/// The PKCS#7 padding of `pt` to 16-byte blocks: `n` copies of the byte `n`,
/// where `n = 16 - len % 16` (a whole block when already aligned).
pub open spec fn pkcs7_pad(pt: Seq<u8>) -> Seq<u8> {
    let n = 16 - pt.len() % 16;
    pt + Seq::new(n as nat, |i: int| n as u8)
}

/// Removal of PKCS#7 padding from whole 16-byte blocks.
pub open spec fn pkcs7_unpad(data: Seq<u8>) -> Option<Seq<u8>> {
    if data.len() == 0 || data.len() % 16 != 0 {
        None
    } else {
        let n = data.last() as int;
        if n == 0 || n > 16 || exists|i: int| data.len() - n <= i < data.len() && data[i] != n as u8 {
            None
        } else {
            Some(data.take(data.len() - n))
        }
    }
}

/// AES-GCM decryption of ciphertext-with-tag: `None` when it is shorter
/// than the 16-byte tag.
pub open spec fn gcm_decrypt(key: Seq<u8>, iv: Seq<u8>, aad: Seq<u8>, data: Seq<u8>) -> Option<Seq<u8>> {
    if data.len() < 16 {
        None
    } else {
        gcm_open(key, iv, aad, data.take(data.len() - 16), data.skip(data.len() - 16))
    }
}

/// AES-GCM with a 16-byte IV (`aes-gcm` crate): ciphertext followed by the
/// tag, 16 bytes longer than the plaintext; it fails only when the plaintext
/// or the additional data exceed 2^36 bytes. What it produces is what
/// AES-GCM decryption with the same key, IV and additional data reverses.
#[verifier::external_body]
fn aes_gcm_seal(key: &[u8; 16], iv: &[u8; 16], aad: &[u8], pt: &[u8]) -> (r: Result<Vec<u8>, String>)
    ensures
        pt@.len() <= GCM_MAX && aad@.len() <= GCM_MAX ==> r is Ok,
        r matches Ok(c) ==> {
            &&& c@ == gcm_seal(key@, iv@, aad@, pt@)
            &&& c@.len() == pt@.len() + 16
            &&& gcm_open(key@, iv@, aad@, c@.take(pt@.len() as int), c@.skip(pt@.len() as int)) == Some(pt@)
        },
{
    let cipher = aes_gcm::AesGcm::<aes::Aes128, aes_gcm::aead::consts::U16>::new(key.into());
    let payload = aes_gcm::aead::Payload { msg: pt, aad };
    cipher.encrypt(aes_gcm::Nonce::from_slice(iv), payload).map_err(|e| e.to_string())
}

/// `openssl::symm::decrypt_aead` with AES-128-GCM and a 16-byte IV. The
/// crate hands each input to OpenSSL with its length as a C `int` and
/// panics on a longer one, so every input is at most `i32::MAX` bytes.
#[verifier::external_body]
fn openssl_gcm_open(key: &[u8; 16], iv: &[u8; 16], aad: &[u8], ct: &[u8], tag: &[u8]) -> (r: Result<Vec<u8>, String>)
    requires
        aad@.len() <= i32::MAX,
        ct@.len() <= i32::MAX,
        tag@.len() <= i32::MAX,
    ensures
        r is Ok <==> gcm_open(key@, iv@, aad@, ct@, tag@) is Some,
        r matches Ok(p) ==> gcm_open(key@, iv@, aad@, ct@, tag@) == Some(p@),
{
    openssl::symm::decrypt_aead(openssl::symm::Cipher::aes_128_gcm(), key, Some(iv), aad, ct, tag).map_err(
        |e| e.to_string(),
    )
}

/// AES-128-CBC encryption of whole blocks without padding (`cbc` crate);
/// it does not fail on whole blocks and keeps the length. CBC decryption with
/// PKCS#7 unpadding of the result reverses it, down to the unpadded data.
#[verifier::external_body]
fn cbc_encrypt_nopad(key: &[u8; 16], iv: &[u8; 16], data: &[u8]) -> (r: Result<Vec<u8>, String>)
    requires
        data@.len() % 16 == 0,
    ensures
        r is Ok,
        r matches Ok(c) ==> c@ == cbc_encrypt_blocks(key@, iv@, data@) && c@.len() == data@.len()
            && cbc_decrypt_pkcs7(key@, iv@, c@) == pkcs7_unpad(data@),
{
    let mut buffer = data.to_vec();
    let n = buffer.len();
    let enc = cbc::Encryptor::<aes::Aes128>::new(key.into(), iv.into());
    enc.encrypt_padded_mut::<cbc::cipher::block_padding::NoPadding>(&mut buffer, n).map_err(|e| e.to_string())?;
    Ok(buffer)
}

/// AES-128-CBC decryption with PKCS#7 unpadding (`cbc` crate).
#[verifier::external_body]
fn cbc_decrypt_unpad(key: &[u8; 16], iv: &[u8; 16], data: &[u8]) -> (r: Result<Vec<u8>, String>)
    ensures
        r is Ok <==> cbc_decrypt_pkcs7(key@, iv@, data@) is Some,
        r matches Ok(p) ==> cbc_decrypt_pkcs7(key@, iv@, data@) == Some(p@),
{
    let mut buffer = data.to_vec();
    let dec = cbc::Decryptor::<aes::Aes128>::new(key.into(), iv.into());
    let plain = dec.decrypt_padded_mut::<cbc::cipher::block_padding::Pkcs7>(&mut buffer).map_err(|e| e.to_string())?;
    Ok(plain.to_vec())
}

/// ZLIB compression at the default level into memory (`flate2`): writing
/// to a vector does not fail; decompressing the result gives the data back.
#[verifier::external_body]
fn zlib_encode(data: &[u8]) -> (r: Result<Vec<u8>, String>)
    ensures
        r is Ok,
        r matches Ok(c) ==> c@ == zlib_compress(data@) && zlib_decompress(c@) == Some(data@),
{
    let mut encoder = flate2::write::ZlibEncoder::new(Vec::new(), flate2::Compression::default());
    encoder.write_all(data).map_err(|e| e.to_string())?;
    encoder.finish().map_err(|e| e.to_string())
}

/// ZLIB decompression into memory (`flate2`).
#[verifier::external_body]
fn zlib_decode(data: &[u8]) -> (r: Result<Vec<u8>, String>)
    ensures
        r is Ok <==> zlib_decompress(data@) is Some,
        r matches Ok(p) ==> zlib_decompress(data@) == Some(p@),
{
    let mut decoder = flate2::read::ZlibDecoder::new(data);
    let mut out = Vec::new();
    decoder.read_to_end(&mut out).map_err(|e| e.to_string())?;
    Ok(out)
}

/// AES key (16 bytes).
#[derive(Clone, Copy)]
pub struct AesKey([u8; 16]);

impl View for AesKey {
    type V = Seq<u8>;

    closed spec fn view(&self) -> Seq<u8> {
        self.0@
    }
}

impl AesKey {
    /// The key whose bytes a hex text encodes.
    pub fn from_hex(hex_str: &str) -> (r: Result<AesKey, Error>)
        ensures
            match hex_decode(hex_str@) {
                None => r matches Err(Error::HexDecode(_)),
                Some(b) => if b.len() == 16 {
                    r matches Ok(k) && k@ == b
                } else {
                    r matches Err(Error::InvalidKeyLength { expected, actual }) && expected == 16
                        && actual == b.len()
                },
            },
    {
        match hex_decode_str(hex_str) {
            Ok(bytes) => AesKey::from_bytes(bytes.as_slice()),
            Err(e) => Err(Error::HexDecode(e)),
        }
    }

    /// The key made of exactly 16 bytes.
    pub fn from_bytes(bytes: &[u8]) -> (r: Result<AesKey, Error>)
        ensures
            bytes@.len() == 16 ==> (r matches Ok(k) && k@ == bytes@),
            bytes@.len() != 16 ==> (r matches Err(Error::InvalidKeyLength { expected, actual })
                && expected == 16 && actual == bytes@.len()),
    {
        if bytes.len() != 16 {
            return Err(Error::InvalidKeyLength { expected: 16, actual: bytes.len() });
        }
        let key = [
            bytes[0], bytes[1], bytes[2], bytes[3], bytes[4], bytes[5], bytes[6], bytes[7],
            bytes[8], bytes[9], bytes[10], bytes[11], bytes[12], bytes[13], bytes[14], bytes[15],
        ];
        assert(key@ =~= bytes@);
        Ok(AesKey(key))
    }

    /// The key used before adoption, the bytes that `DEFAULT_KEY` encodes.
    pub fn default_key() -> (k: AesKey)
        ensures
            hex_decode(DEFAULT_KEY@) == Some(k@),
    {
        proof {
            reveal_strlit("ba86f2bbe107c7c57eb5f2690775c712");
            lemma_all_hex(DEFAULT_KEY@);
        }
        match AesKey::from_hex(DEFAULT_KEY) {
            Ok(k) => k,
            Err(_) => {
                assert(false);
                AesKey([0u8; 16])
            },
        }
    }

    /// The key bytes.
    pub fn as_bytes(&self) -> (r: &[u8; 16])
        ensures
            r@ == self@,
    {
        &self.0
    }
}

/// The default key text is 32 hex digits.
proof fn lemma_all_hex(s: Seq<char>)
    requires
        s == "ba86f2bbe107c7c57eb5f2690775c712"@,
        s.len() == 32,
    ensures
        forall|i: int| 0 <= i < s.len() ==> #[trigger] is_hex_digit(s[i]),
{
    reveal_strlit("ba86f2bbe107c7c57eb5f2690775c712");
    assert(is_hex_digit(s[0]));
    assert(is_hex_digit(s[1]));
    assert(is_hex_digit(s[2]));
    assert(is_hex_digit(s[3]));
    assert(is_hex_digit(s[4]));
    assert(is_hex_digit(s[5]));
    assert(is_hex_digit(s[6]));
    assert(is_hex_digit(s[7]));
    assert(is_hex_digit(s[8]));
    assert(is_hex_digit(s[9]));
    assert(is_hex_digit(s[10]));
    assert(is_hex_digit(s[11]));
    assert(is_hex_digit(s[12]));
    assert(is_hex_digit(s[13]));
    assert(is_hex_digit(s[14]));
    assert(is_hex_digit(s[15]));
    assert(is_hex_digit(s[16]));
    assert(is_hex_digit(s[17]));
    assert(is_hex_digit(s[18]));
    assert(is_hex_digit(s[19]));
    assert(is_hex_digit(s[20]));
    assert(is_hex_digit(s[21]));
    assert(is_hex_digit(s[22]));
    assert(is_hex_digit(s[23]));
    assert(is_hex_digit(s[24]));
    assert(is_hex_digit(s[25]));
    assert(is_hex_digit(s[26]));
    assert(is_hex_digit(s[27]));
    assert(is_hex_digit(s[28]));
    assert(is_hex_digit(s[29]));
    assert(is_hex_digit(s[30]));
    assert(is_hex_digit(s[31]));
    assert forall|i: int| 0 <= i < s.len() implies #[trigger] is_hex_digit(s[i]) by {
        assert(i == 0 || i == 1 || i == 2 || i == 3 || i == 4 || i == 5 || i == 6 || i == 7 || i == 8 || i == 9 || i == 10 || i == 11 || i == 12 || i == 13 || i == 14 || i == 15 || i == 16 || i == 17 || i == 18 || i == 19 || i == 20 || i == 21 || i == 22 || i == 23 || i == 24 || i == 25 || i == 26 || i == 27 || i == 28 || i == 29 || i == 30 || i == 31);
    }
}

/// Encrypts with AES-128-GCM and a 16-byte IV, without additional data.
pub fn encrypt_gcm(key: &AesKey, iv: &[u8; 16], plaintext: &[u8]) -> (r: Result<Vec<u8>, Error>)
    ensures
        plaintext@.len() <= GCM_MAX ==> r is Ok,
        r matches Ok(c) ==> c@ == gcm_seal(key@, iv@, Seq::empty(), plaintext@) && c@.len() == plaintext@.len() + 16
            && gcm_decrypt(key@, iv@, Seq::empty(), c@) == Some(plaintext@),
        r matches Err(e) ==> e is Encryption,
{
    let aad: &[u8] = &[];
    assert(aad@ =~= Seq::<u8>::empty());
    encrypt_gcm_aad(key, iv, plaintext, aad)
}

/// Encrypts with AES-128-GCM, a 16-byte IV and additional authenticated data;
/// decrypting with the same key, IV and data gives the plaintext back.
pub fn encrypt_gcm_aad(key: &AesKey, iv: &[u8; 16], plaintext: &[u8], aad: &[u8]) -> (r: Result<Vec<u8>, Error>)
    ensures
        plaintext@.len() <= GCM_MAX && aad@.len() <= GCM_MAX ==> r is Ok,
        r matches Ok(c) ==> c@ == gcm_seal(key@, iv@, aad@, plaintext@) && c@.len() == plaintext@.len() + 16
            && gcm_decrypt(key@, iv@, aad@, c@) == Some(plaintext@),
        r matches Err(e) ==> e is Encryption,
{
    match aes_gcm_seal(key.as_bytes(), iv, aad, plaintext) {
        Ok(c) => {
            assert(c@.take(c@.len() - 16) == c@.take(plaintext@.len() as int));
            Ok(c)
        },
        Err(msg) => Err(Error::Encryption(msg)),
    }
}

/// Decrypts AES-128-GCM ciphertext-with-tag without additional data.
pub fn decrypt_gcm(key: &AesKey, iv: &[u8; 16], ciphertext: &[u8]) -> (r: Result<Vec<u8>, Error>)
    requires
        ciphertext@.len() <= i32::MAX + 16,
    ensures
        match gcm_decrypt(key@, iv@, Seq::empty(), ciphertext@) {
            Some(p) => r matches Ok(v) && v@ == p,
            None => r matches Err(e) && e is Decryption,
        },
{
    let aad: &[u8] = &[];
    assert(aad@ =~= Seq::<u8>::empty());
    decrypt_gcm_aad(key, iv, ciphertext, aad)
}

/// Decrypts AES-128-GCM ciphertext-with-tag (the tag is the last 16 bytes)
/// with additional authenticated data.
pub fn decrypt_gcm_aad(key: &AesKey, iv: &[u8; 16], ciphertext: &[u8], aad: &[u8]) -> (r: Result<Vec<u8>, Error>)
    requires
        ciphertext@.len() <= i32::MAX + 16,
        aad@.len() <= i32::MAX,
    ensures
        match gcm_decrypt(key@, iv@, aad@, ciphertext@) {
            Some(p) => r matches Ok(v) && v@ == p,
            None => r matches Err(e) && e is Decryption,
        },
        ciphertext@.len() < 16 ==> (r matches Err(Error::Decryption(m)) && m@ == "Ciphertext too short for GCM tag"@),
{
    if ciphertext.len() < 16 {
        proof {
            reveal_strlit("Ciphertext too short for GCM tag");
        }
        return Err(Error::Decryption(String::from_str("Ciphertext too short for GCM tag")));
    }
    let split = ciphertext.len() - 16;
    let ct = slice_take(ciphertext, split);
    let tag = slice_skip(ciphertext, split);
    match openssl_gcm_open(key.as_bytes(), iv, aad, ct, tag) {
        Ok(p) => Ok(p),
        Err(msg) => Err(Error::Decryption(msg)),
    }
}

/// Pads the plaintext to whole 16-byte blocks (PKCS#7).
pub fn pkcs7_pad_exec(plaintext: &[u8]) -> (r: Vec<u8>)
    requires
        plaintext@.len() + 16 <= usize::MAX,
    ensures
        r@ == pkcs7_pad(plaintext@),
{
    let block_size: usize = 16;
    let padding_len = block_size - (plaintext.len() % block_size);
    let mut buffer = copy_bytes(plaintext);
    let mut i: usize = 0;
    while i < padding_len
        invariant
            i <= padding_len,
            padding_len == 16 - plaintext@.len() % 16,
            buffer@ == plaintext@ + Seq::new(i as nat, |j: int| padding_len as u8),
        decreases padding_len - i,
    {
        buffer.push(padding_len as u8);
        i = i + 1;
        assert(buffer@ =~= plaintext@ + Seq::new(i as nat, |j: int| padding_len as u8));
    }
    buffer
}

/// Padding then unpadding gives the data back.
pub proof fn lemma_pkcs7_roundtrip(pt: Seq<u8>)
    ensures
        pkcs7_unpad(pkcs7_pad(pt)) == Some(pt),
{
    let p = pkcs7_pad(pt);
    let n = 16 - pt.len() % 16;
    assert(p.len() == pt.len() + n);
    assert(p.len() % 16 == 0) by (nonlinear_arith)
        requires
            p.len() == pt.len() + n,
            n == 16 - pt.len() % 16,
    ;
    assert(p.last() == n as u8);
    assert(p.take(p.len() - n) =~= pt);
}

/// Encrypts with AES-128-CBC after PKCS#7 padding; decrypting gives the
/// plaintext back.
pub fn encrypt_cbc(key: &AesKey, iv: &[u8; 16], plaintext: &[u8]) -> (r: Result<Vec<u8>, Error>)
    requires
        plaintext@.len() + 16 <= usize::MAX,
    ensures
        r matches Ok(c) && c@ == cbc_encrypt_blocks(key@, iv@, pkcs7_pad(plaintext@))
            && cbc_decrypt_pkcs7(key@, iv@, c@) == Some(plaintext@),
        r matches Ok(c) && c@.len() == 16 * (plaintext@.len() / 16 + 1),
{
    let buffer = pkcs7_pad_exec(plaintext);
    proof {
        lemma_pkcs7_roundtrip(plaintext@);
        let n = 16 - plaintext@.len() % 16;
        assert(buffer@.len() % 16 == 0 && buffer@.len() == 16 * (plaintext@.len() / 16 + 1)) by (nonlinear_arith)
            requires
                buffer@.len() == plaintext@.len() + n,
                n == 16 - plaintext@.len() % 16,
        ;
    }
    match cbc_encrypt_nopad(key.as_bytes(), iv, buffer.as_slice()) {
        Ok(c) => Ok(c),
        Err(msg) => Err(Error::Encryption(msg)),
    }
}

/// Decrypts AES-128-CBC and removes the PKCS#7 padding.
pub fn decrypt_cbc(key: &AesKey, iv: &[u8; 16], ciphertext: &[u8]) -> (r: Result<Vec<u8>, Error>)
    ensures
        match cbc_decrypt_pkcs7(key@, iv@, ciphertext@) {
            Some(p) => r matches Ok(v) && v@ == p,
            None => r matches Err(e) && e is Decryption,
        },
{
    match cbc_decrypt_unpad(key.as_bytes(), iv, ciphertext) {
        Ok(p) => Ok(p),
        Err(msg) => Err(Error::Decryption(msg)),
    }
}

/// Compresses with ZLIB; decompressing gives the data back.
pub fn compress_zlib(data: &[u8]) -> (r: Result<Vec<u8>, Error>)
    ensures
        r matches Ok(c) && c@ == zlib_compress(data@) && zlib_decompress(c@) == Some(data@),
{
    match zlib_encode(data) {
        Ok(c) => Ok(c),
        Err(msg) => Err(Error::Compression(msg)),
    }
}

/// Decompresses a ZLIB stream.
pub fn decompress_zlib(data: &[u8]) -> (r: Result<Vec<u8>, Error>)
    ensures
        match zlib_decompress(data@) {
            Some(p) => r matches Ok(v) && v@ == p,
            None => r matches Err(e) && e is Decompression,
        },
{
    match zlib_decode(data) {
        Ok(p) => Ok(p),
        Err(msg) => Err(Error::Decompression(msg)),
    }
}

/// Byte `i` (little-endian) of `x`.
pub open spec fn le_byte(x: u64, i: int) -> u8 {
    ((x >> (8 * i) as u64) & 0xff) as u8
}

/// The IV made from a time stamp (nanoseconds) and a process id: the low
/// eight bytes of the time stamp, then the process id XOR the low 64 bits
/// of the time stamp, both little-endian.
pub open spec fn iv_bytes(timestamp: u128, pid: u32) -> Seq<u8> {
    let t = timestamp as u64;
    let r = (pid as u64) ^ t;
    Seq::new(16, |i: int| if i < 8 { le_byte(t, i) } else { le_byte(r, i - 8) })
}

/// The IV for a time stamp in nanoseconds and a process id.
pub fn iv_from(timestamp: u128, pid: u32) -> (iv: [u8; 16])
    ensures
        iv@ == iv_bytes(timestamp, pid),
{
    let t = timestamp as u64;
    let r = (pid as u64) ^ t;
    let mut iv = [0u8; 16];
    let mut i: usize = 0;
    while i < 8
        invariant
            i <= 8,
            t == timestamp as u64,
            r == (pid as u64) ^ t,
            iv@.len() == 16,
            forall|k: int| 0 <= k < i ==> iv@[k] == le_byte(t, k),
            forall|k: int| 8 <= k < 8 + i ==> iv@[k] == le_byte(r, k - 8),
        decreases 8 - i,
    {
        let sh: u64 = 8 * i as u64;
        iv[i] = ((t >> sh) & 0xff) as u8;
        iv[i + 8] = ((r >> sh) & 0xff) as u8;
        i = i + 1;
    }
    assert(iv@ =~= iv_bytes(timestamp, pid));
    iv
}

} // verus!
