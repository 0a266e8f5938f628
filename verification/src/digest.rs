//! The commitment key of a solution: the lowercase hexadecimal rendering of
//! its SHA-256 digest.

use vstd::prelude::*;

verus! {

/// The SHA-256 digest of a solution's UTF-8 bytes, as an abstract function of
/// the solution text alone.
pub uninterp spec fn sha256_of(s: Seq<char>) -> Seq<u8>;

/// The lowercase hexadecimal digit for a nibble.
pub open spec fn hex_digit(n: u8) -> char
    recommends
        n < 16,
{
    if n < 10 {
        (('0' as u8) + n) as char
    } else {
        (('a' as u8) + (n - 10)) as char
    }
}

/// Lowercase hexadecimal rendering of a byte string: two digits per byte,
/// high nibble first.
pub open spec fn hex_of(bytes: Seq<u8>) -> Seq<char>
    decreases bytes.len(),
{
    if bytes.len() == 0 {
        Seq::empty()
    } else {
        hex_of(bytes.drop_last()).push(hex_digit(bytes.last() / 16)).push(
            hex_digit(bytes.last() % 16),
        )
    }
}

/// The commitment key under which a puzzle with this solution is stored.
pub open spec fn commitment_of(s: Seq<char>) -> Seq<char> {
    hex_of(sha256_of(s))
}

/// Relies on near_sdk::env::sha256: the SHA-256 digest of the input bytes,
/// 32 bytes long, a function of the input alone.
#[verifier::external_body]
fn sha256_digest(solution: &str) -> (r: Vec<u8>)
    ensures
        r@ == sha256_of(solution@),
        r@.len() == 32,
{
    near_sdk::env::sha256(solution.as_bytes())
}

/// Relies on hex::encode: lowercase hexadecimal, two digits per byte, high
/// nibble first.
#[verifier::external_body]
fn hex_encode(bytes: &Vec<u8>) -> (r: String)
    ensures
        r@ == hex_of(bytes@),
{
    hex::encode(bytes)
}

/// The commitment key for a solution: lowercase hex of its SHA-256 digest.
pub fn solution_digest(solution: &str) -> (r: String)
    ensures
        r@ == commitment_of(solution@),
{
    let bytes = sha256_digest(solution);
    hex_encode(&bytes)
}

} // verus!
