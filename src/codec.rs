use vstd::prelude::*;
use vstd::utf8::*;

use crate::format::LibraryError;

verus! {

/// The standard base64 alphabet.
pub open spec fn base64_alphabet() -> Seq<char> {
    seq![
        'A', 'B', 'C', 'D', 'E', 'F', 'G', 'H', 'I', 'J', 'K', 'L', 'M', 'N', 'O', 'P',
        'Q', 'R', 'S', 'T', 'U', 'V', 'W', 'X', 'Y', 'Z', 'a', 'b', 'c', 'd', 'e', 'f',
        'g', 'h', 'i', 'j', 'k', 'l', 'm', 'n', 'o', 'p', 'q', 'r', 's', 't', 'u', 'v',
        'w', 'x', 'y', 'z', '0', '1', '2', '3', '4', '5', '6', '7', '8', '9', '+', '/',
    ]
}

/// The base64 digit of a six-bit value.
pub open spec fn digit(v: int) -> char {
    base64_alphabet()[v]
}

/// The standard base64 text, with `=` padding, of a byte sequence: each
/// group of three bytes becomes four digits; a final group of one or two
/// bytes becomes two or three digits and padding.
pub open spec fn base64_of(b: Seq<u8>) -> Seq<char>
    decreases b.len(),
{
    let x = if b.len() > 0 { b[0] as int } else { 0 };
    let y = if b.len() > 1 { b[1] as int } else { 0 };
    let z = if b.len() > 2 { b[2] as int } else { 0 };
    if b.len() == 0 {
        Seq::empty()
    } else if b.len() == 1 {
        seq![digit(x / 4), digit((x % 4) * 16), '=', '=']
    } else if b.len() == 2 {
        seq![digit(x / 4), digit((x % 4) * 16 + y / 16), digit((y % 16) * 4), '=']
    } else {
        seq![
            digit(x / 4),
            digit((x % 4) * 16 + y / 16),
            digit((y % 16) * 4 + z / 64),
            digit(z % 64),
        ] + base64_of(b.subrange(3, b.len() as int))
    }
}

/// The CRC-32 checksum of a byte sequence.
pub uninterp spec fn crc32_of(bytes: Seq<u8>) -> u32;

/// The text that lossy UTF-8 decoding gives for a byte sequence.
pub uninterp spec fn utf8_lossy_of(bytes: Seq<u8>) -> Seq<char>;

/// Relies on base64's `STANDARD` engine `encode`: the RFC 4648 encoding with
/// the standard alphabet and padding. Its size computation cannot overflow
/// on inputs of at most half the address space.
#[verifier::external_body]
pub(crate) fn encode_base64(bytes: &[u8]) -> (r: String)
    requires
        bytes@.len() <= usize::MAX / 2,
    ensures
        r@ == base64_of(bytes@),
{
    base64::Engine::encode(&base64::engine::general_purpose::STANDARD, bytes)
}

/// Relies on `crc32fast::hash`: the CRC-32 of the bytes.
#[verifier::external_body]
pub(crate) fn crc32(bytes: &[u8]) -> (r: u32)
    ensures
        r == crc32_of(bytes@),
{
    crc32fast::hash(bytes)
}

/// Relies on `String::from_utf8_lossy`: invalid sequences become U+FFFD, and
/// valid input is decoded unchanged.
#[verifier::external_body]
pub(crate) fn decode_utf8_lossy(bytes: &[u8]) -> (r: String)
    ensures
        r@ == utf8_lossy_of(bytes@),
        valid_utf8(bytes@) ==> r@ == decode_utf8(bytes@),
{
    String::from_utf8_lossy(bytes).into_owned()
}

/// Relies on `std::str::from_utf8`: succeeds exactly on valid UTF-8.
#[verifier::external_body]
pub(crate) fn decode_utf8_strict(bytes: &[u8]) -> (r: Option<String>)
    ensures
        r is Some <==> valid_utf8(bytes@),
        r matches Some(s) ==> s@ == decode_utf8(bytes@),
{
    match std::str::from_utf8(bytes) {
        Ok(s) => Some(s.to_string()),
        Err(_) => None,
    }
}

/// How text bytes that are not valid UTF-8 are treated.
#[derive(Clone, Copy, Debug, PartialEq, Eq, Structural)]
pub enum DecodePolicy {
    /// Each invalid sequence becomes U+FFFD REPLACEMENT CHARACTER.
    Lossy,
    /// Invalid input is rejected with `ParseError`.
    Strict,
}

/// The outcome of decoding text bytes under a policy.
pub open spec fn decoded(bytes: Seq<u8>, policy: DecodePolicy) -> Result<Seq<char>, LibraryError> {
    match policy {
        DecodePolicy::Lossy => Ok(utf8_lossy_of(bytes)),
        DecodePolicy::Strict => if valid_utf8(bytes) {
            Ok(decode_utf8(bytes))
        } else {
            Err(LibraryError::ParseError)
        },
    }
}

/// Decodes the bytes of a plain-text book under the given policy.
pub fn decode_text(bytes: &[u8], policy: DecodePolicy) -> (r: Result<String, LibraryError>)
    ensures
        match decoded(bytes@, policy) {
            Ok(t) => r matches Ok(s) && s@ == t,
            Err(e) => r == Err::<String, LibraryError>(e),
        },
        valid_utf8(bytes@) ==> (r matches Ok(s) && s@ == decode_utf8(bytes@)),
{
    match policy {
        DecodePolicy::Lossy => Ok(decode_utf8_lossy(bytes)),
        DecodePolicy::Strict => match decode_utf8_strict(bytes) {
            Some(s) => Ok(s),
            None => Err(LibraryError::ParseError),
        },
    }
}

/// The checksum stored for a book: CRC-32 of its bytes.
pub fn checksum(bytes: &[u8]) -> (r: u32)
    ensures
        r == crc32_of(bytes@),
{
    crc32(bytes)
}

} // verus!
