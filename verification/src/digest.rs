//! The digest under which the lock password is stored: the SHA-256 of the
//! password's UTF-8 bytes, written as lowercase hexadecimal text.

use vstd::prelude::*;
use sha2::Digest;

verus! {

/// The SHA-256 digest of a sequence of bytes, as `sha2` computes it.
pub uninterp spec fn sha256_of(data: Seq<u8>) -> Seq<u8>;

/// Calls `sha2::Sha256::digest`. The contract names the result, which is a
/// function of the data alone, and states its length: the 32 bytes that the
/// hasher's output type holds.
#[verifier::external_body]
fn sha256(data: &[u8]) -> (digest: Vec<u8>)
    ensures
        digest@ == sha256_of(data@),
        digest@.len() == 32,
{
    sha2::Sha256::digest(data).to_vec()
}

/// The lowercase hexadecimal digit for a value below 16.
pub open spec fn hex_digit_of(nibble: int) -> char {
    "0123456789abcdef"@[nibble]
}

/// The lowercase hexadecimal text of a sequence of bytes: two digits for
/// each byte, the high half first.
pub open spec fn hex_of(bytes: Seq<u8>) -> Seq<char> {
    Seq::new(
        2 * bytes.len(),
        |i: int|
            if i % 2 == 0 {
                hex_digit_of(bytes[i / 2] as int / 16)
            } else {
                hex_digit_of(bytes[i / 2] as int % 16)
            },
    )
}

/// Calls `hex::encode`, which writes each byte as two lowercase hexadecimal
/// digits, the high half first.
#[verifier::external_body]
fn hex_encode(bytes: &Vec<u8>) -> (text: String)
    ensures
        text@ == hex_of(bytes@),
{
    hex::encode(bytes)
}

/// The text under which a password is stored.
pub open spec fn password_digest_of(password: Seq<char>) -> Seq<char> {
    hex_of(sha256_of(vstd::utf8::encode_utf8(password)))
}

/// The text under which `password` is stored: 64 hexadecimal digits.
pub fn hash_password(password: &str) -> (digest: String)
    ensures
        digest@ == password_digest_of(password@),
        digest@.len() == 64,
{
    let bytes = sha256(password.as_bytes());
    hex_encode(&bytes)
}

} // verus!
