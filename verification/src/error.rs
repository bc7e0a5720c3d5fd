//! Error type of the protocol layer.

use vstd::prelude::*;
use crate::text::{dec, push_dec};

verus! {

/// `hex::FromHexError`, the error of the hex decoder.
#[verifier::external_type_specification]
#[verifier::external_body]
pub struct ExFromHexError(hex::FromHexError);

/// Protocol error.
#[derive(Debug)]
pub enum Error {
    /// A MAC address could not be read.
    InvalidMacAddress(String),
    /// A packet is malformed.
    InvalidPacket(String),
    /// The inform magic bytes are wrong.
    InvalidMagic,
    /// A packet is shorter than its header or its declared length.
    PacketTooShort { expected: usize, actual: usize },
    /// Encryption failed.
    Encryption(String),
    /// Decryption failed.
    Decryption(String),
    /// Compression failed.
    Compression(String),
    /// Decompression failed.
    Decompression(String),
    /// A hex string could not be decoded.
    HexDecode(hex::FromHexError),
    /// A key has the wrong length.
    InvalidKeyLength { expected: usize, actual: usize },
}

/// The message of a hex decoding error (`hex::FromHexError`'s `Display`);
/// nothing is claimed of the text.
#[verifier::external_body]
fn hex_error_text(e: &hex::FromHexError) -> String {
    e.to_string()
}

/// `prefix`, then `m`.
fn with_prefix(prefix: &str, m: &str) -> (s: String)
    ensures
        s@ == prefix@ + m@,
{
    let mut s = String::from_str(prefix);
    s.append(m);
    s
}

/// `a`, the decimal `x`, `b`, then the decimal `y`.
fn two_numbers(a: &str, x: usize, b: &str, y: usize) -> (s: String)
    ensures
        s@ == a@ + dec(x as nat) + b@ + dec(y as nat),
{
    let mut s = String::from_str(a);
    push_dec(&mut s, x as u128);
    s.append(b);
    push_dec(&mut s, y as u128);
    s
}

impl Error {
    /// The message of the error.
    pub fn to_string(&self) -> (s: String)
        ensures
            match self {
                Error::InvalidMacAddress(m) => s@ == "Invalid MAC address: "@ + m@,
                Error::InvalidPacket(m) => s@ == "Invalid packet: "@ + m@,
                Error::InvalidMagic => s@ == "Invalid magic bytes"@,
                Error::PacketTooShort { expected, actual } => s@ == "Packet too short: expected at least "@ + dec(
                    *expected as nat,
                ) + " bytes, got "@ + dec(*actual as nat),
                Error::Encryption(m) => s@ == "Encryption error: "@ + m@,
                Error::Decryption(m) => s@ == "Decryption error: "@ + m@,
                Error::Compression(m) => s@ == "Compression error: "@ + m@,
                Error::Decompression(m) => s@ == "Decompression error: "@ + m@,
                Error::HexDecode(_) => exists|t: Seq<char>| s@ == "Hex decode error: "@ + t,
                Error::InvalidKeyLength { expected, actual } => s@ == "Invalid key length: expected "@ + dec(
                    *expected as nat,
                ) + ", got "@ + dec(*actual as nat),
            },
    {
        match self {
            Error::InvalidMacAddress(m) => with_prefix("Invalid MAC address: ", m.as_str()),
            Error::InvalidPacket(m) => with_prefix("Invalid packet: ", m.as_str()),
            Error::InvalidMagic => String::from_str("Invalid magic bytes"),
            Error::PacketTooShort { expected, actual } => two_numbers(
                "Packet too short: expected at least ",
                *expected,
                " bytes, got ",
                *actual,
            ),
            Error::Encryption(m) => with_prefix("Encryption error: ", m.as_str()),
            Error::Decryption(m) => with_prefix("Decryption error: ", m.as_str()),
            Error::Compression(m) => with_prefix("Compression error: ", m.as_str()),
            Error::Decompression(m) => with_prefix("Decompression error: ", m.as_str()),
            Error::HexDecode(e) => {
                let t = hex_error_text(e);
                let s = with_prefix("Hex decode error: ", t.as_str());
                assert(s@ == "Hex decode error: "@ + t@);
                s
            },
            Error::InvalidKeyLength { expected, actual } => two_numbers(
                "Invalid key length: expected ",
                *expected,
                ", got ",
                *actual,
            ),
        }
    }
}

} // verus!
