//! Content digests.
use vstd::prelude::*;

verus! {

/// The lowercase hexadecimal BLAKE3 digest (32 bytes, 64 hex digits) of `input`.
pub uninterp spec fn blake3_hex_digest(input: Seq<u8>) -> Seq<char>;

pub open spec fn is_lower_hex_digit(c: char) -> bool {
    ('0' <= c <= '9') || ('a' <= c <= 'f')
}

/// `s` has the shape of a BLAKE3 hex digest: 64 lowercase hexadecimal digits.
pub open spec fn is_hex_digest(s: Seq<char>) -> bool {
    s.len() == 64 && forall|i: int| 0 <= i < 64 ==> is_lower_hex_digit(#[trigger] s[i])
}

/// Calls `blake3::hash` and renders the digest with `Hash::to_hex`.
///
/// Trusted: the result is `blake3_hex_digest` of the input; BLAKE3 produces a
/// 32-byte digest and `to_hex` writes each byte as two lowercase hex digits, so the
/// text has 64 characters from `0-9a-f`.
#[verifier::external_body]
pub(crate) fn blake3_hex(input: &[u8]) -> (hex: String)
    ensures
        hex@ == blake3_hex_digest(input@),
        hex@.len() == 64,
        forall|i: int| 0 <= i < 64 ==> is_lower_hex_digit(#[trigger] hex@[i]),
{
    blake3::hash(input).to_hex().to_string()
}

/// The MD5 digest (16 bytes) of `input`.
pub uninterp spec fn md5_digest(input: Seq<u8>) -> Seq<u8>;

/// The lowercase hexadecimal digit of `d` (below 16).
pub open spec fn lower_hex_digit(d: nat) -> char {
    if d < 10 {
        ((d + 48) as u8) as char
    } else {
        ((d + 87) as u8) as char
    }
}

/// Each byte as two lowercase hexadecimal digits, high half first.
pub open spec fn lower_hex(bytes: Seq<u8>) -> Seq<char>
    decreases bytes.len(),
{
    if bytes.len() == 0 {
        seq![]
    } else {
        lower_hex(bytes.drop_last()) + seq![
            lower_hex_digit((bytes.last() / 16) as nat),
            lower_hex_digit((bytes.last() % 16) as nat),
        ]
    }
}

/// Calls `md5::compute` and renders the digest with its `LowerHex` formatting.
///
/// Trusted: the result is `lower_hex` of `md5_digest` of the input; the digest is a
/// 16-byte array and the formatting writes each byte as `{:02x}`, so the text has 32
/// characters.
#[verifier::external_body]
pub(crate) fn md5_hex(input: &[u8]) -> (hex: String)
    ensures
        hex@ == lower_hex(md5_digest(input@)),
        hex@.len() == 32,
{
    format!("{:x}", md5::compute(input))
}

} // verus!
