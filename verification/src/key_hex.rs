//! Reading a 16-byte image encryption key from its hexadecimal text.
use vstd::prelude::*;
use vstd::string::StringSliceAdditionalSpecFns;

verus! {

/// The value of a hexadecimal digit, in either case.
pub open spec fn hex_digit(b: u8) -> Option<u8> {
    if 0x30 <= b <= 0x39 {
        Some((b - 0x30) as u8)
    } else if 0x41 <= b <= 0x46 {
        Some((b - 0x41 + 10) as u8)
    } else if 0x61 <= b <= 0x66 {
        Some((b - 0x61 + 10) as u8)
    } else {
        None
    }
}

/// Whether `src` is hexadecimal text of at most `max` bytes: an even number
/// of hexadecimal digits.
pub open spec fn hex_decodable(src: Seq<u8>, max: nat) -> bool {
    &&& src.len() % 2 == 0
    &&& src.len() / 2 <= max
    &&& forall|i: int| 0 <= i < src.len() ==> (#[trigger] hex_digit(src[i])) is Some
}

/// The bytes that hexadecimal text stands for, two digits each.
pub open spec fn hex_bytes(src: Seq<u8>) -> Seq<u8> {
    Seq::new(
        src.len() / 2,
        |i: int| (hex_digit(src[2 * i])->0 * 16 + hex_digit(src[2 * i + 1])->0) as u8,
    )
}

/// Why a key could not be read.
#[derive(Debug, Clone, Copy, PartialEq, Eq)]
pub enum HexError {
    /// The text has an odd length, or stands for more bytes than the key holds.
    InvalidLength,
    /// The text holds a character that is not a hexadecimal digit.
    InvalidEncoding,
}

/// Whether every byte of `src` is ASCII.
pub open spec fn all_ascii(src: Seq<u8>) -> bool {
    forall|i: int| 0 <= i < src.len() ==> src[i] < 0x80
}

/// Calls `base16ct::mixed::decode`. The contract claims what its source shows:
/// the text decodes where it is an even number of hexadecimal digits, in either
/// case, that stand for at most `dst.len()` bytes; the bytes go to the front
/// of `dst`, whose other bytes stay. An odd length or one too long is a length
/// error, anything else that fails an encoding error. What `dst` holds after
/// an error is left unsaid: the crate may have written part of it.
#[verifier::external_body]
fn decode_hex(src: &[u8], dst: &mut [u8; 16]) -> (r: Result<usize, HexError>)
    ensures
        r is Ok == hex_decodable(src@, 16),
        match r {
            Ok(n) => n == src@.len() / 2 && final(dst)@.subrange(0, n as int) == hex_bytes(src@)
                && final(dst)@.subrange(n as int, 16) == old(dst)@.subrange(n as int, 16),
            Err(e) => e == (if src@.len() % 2 == 1 || src@.len() / 2 > 16 {
                HexError::InvalidLength
            } else {
                HexError::InvalidEncoding
            }),
        },
{
    match base16ct::mixed::decode(src, dst) {
        Ok(decoded) => Ok(decoded.len()),
        Err(base16ct::Error::InvalidLength) => Err(HexError::InvalidLength),
        Err(base16ct::Error::InvalidEncoding) => Err(HexError::InvalidEncoding),
    }
}

/// The key that hexadecimal text stands for: its bytes, then zeros up to
/// sixteen bytes.
pub open spec fn key_of_hex(src: Seq<u8>) -> Seq<u8> {
    hex_bytes(src) + Seq::new((16 - src.len() / 2) as nat, |i: int| 0u8)
}

/// Reads a 16-byte key from its hexadecimal text; shorter text leaves the
/// last bytes zero.
pub fn key_from_hex(key: &str) -> (r: Result<[u8; 16], HexError>)
    ensures
        r is Ok == hex_decodable(key.spec_bytes(), 16),
        match r {
            Ok(k) => k@ == key_of_hex(key.spec_bytes()),
            Err(e) => e == (if key.spec_bytes().len() % 2 == 1 || key.spec_bytes().len() / 2 > 16 {
                HexError::InvalidLength
            } else {
                HexError::InvalidEncoding
            }),
        },
{
    let mut k: [u8; 16] = [0; 16];
    assert(k@ =~= Seq::new(16, |i: int| 0u8));
    let n = decode_hex(key.as_bytes(), &mut k)?;
    assert(k@ =~= k@.subrange(0, n as int) + k@.subrange(n as int, 16));
    assert(k@ =~= key_of_hex(key.spec_bytes()));
    Ok(k)
}

} // verus!
