//! Checksums of downloaded bytes: the SHA-256 digest, written in lowercase
//! hexadecimal.

use crate::text::str_eq;
use vstd::prelude::*;

verus! {

/// The SHA-256 digest of a byte string, as the `sha2` crate computes it.
pub uninterp spec fn sha256(data: Seq<u8>) -> Seq<u8>;

/// The lowercase hexadecimal digits, in order of value.
pub open spec fn hex_digits() -> Seq<char> {
    seq!['0', '1', '2', '3', '4', '5', '6', '7', '8', '9', 'a', 'b', 'c', 'd', 'e', 'f']
}

/// The two digits that stand for each byte, high half first.
pub open spec fn hex_lower(bytes: Seq<u8>) -> Seq<char> {
    Seq::new(
        2 * bytes.len(),
        |i: int|
            if i % 2 == 0 {
                hex_digits()[bytes[i / 2] as int / 16]
            } else {
                hex_digits()[bytes[i / 2] as int % 16]
            },
    )
}

/// The checksum of a byte string: its digest in hexadecimal.
pub open spec fn checksum_text(data: Seq<u8>) -> Seq<char> {
    hex_lower(sha256(data))
}

/// `checksum` is exactly the checksum of `input`.
pub open spec fn checksum_verifies(input: Seq<u8>, checksum: Seq<char>) -> bool {
    checksum_text(input) == checksum
}

/// Calls `sha2::Sha256::digest` (the `Digest` trait's one-shot function) and
/// copies the digest out. Trusted: the result is the digest that [`sha256`]
/// names for the same bytes.
#[verifier::external_body]
fn sha256_of(data: &[u8]) -> (digest: Vec<u8>)
    ensures
        digest@ == sha256(data@),
{
    <sha2::Sha256 as sha2::Digest>::digest(data).to_vec()
}

/// Calls `hex::encode`. Trusted: the result holds two lowercase hexadecimal
/// digits for each byte, in the bytes' order, the high half of a byte first.
#[verifier::external_body]
fn hex_of(bytes: &Vec<u8>) -> (text: String)
    ensures
        text@ == hex_lower(bytes@),
{
    hex::encode(bytes)
}

/// The checksum of `input`, as a lockfile would declare it.
pub fn calculate_checksum(input: &[u8]) -> (checksum: String)
    ensures
        checksum@ == checksum_text(input@),
{
    let digest = sha256_of(input);
    hex_of(&digest)
}

/// Whether `checksum` is exactly the checksum of `input`.
pub fn verify_checksum(input: &[u8], checksum: &str) -> (checksums_match: bool)
    ensures
        checksums_match == checksum_verifies(input@, checksum@),
{
    let calculated_checksum = calculate_checksum(input);
    str_eq(calculated_checksum.as_str(), checksum)
}

/// Each byte can be read back from its two digits.
proof fn lemma_hex_digits_of_byte(a: u8, b: u8)
    requires
        hex_digits()[a as int / 16] == hex_digits()[b as int / 16],
        hex_digits()[a as int % 16] == hex_digits()[b as int % 16],
    ensures
        a == b,
{
    let d = hex_digits();
    assert forall|x: int, y: int| 0 <= x < 16 && 0 <= y < 16 && d[x] == d[y] implies x == y by {
        assert(d[0] == '0' && d[1] == '1' && d[2] == '2' && d[3] == '3' && d[4] == '4' && d[5]
            == '5' && d[6] == '6' && d[7] == '7' && d[8] == '8' && d[9] == '9' && d[10] == 'a'
            && d[11] == 'b' && d[12] == 'c' && d[13] == 'd' && d[14] == 'e' && d[15] == 'f');
    }
    assert(a as int / 16 == b as int / 16);
    assert(a as int % 16 == b as int % 16);
}

/// Different byte strings are written differently.
pub proof fn lemma_hex_lower_injective(a: Seq<u8>, b: Seq<u8>)
    requires
        hex_lower(a) == hex_lower(b),
    ensures
        a == b,
{
    assert(hex_lower(a).len() == 2 * a.len());
    assert(hex_lower(b).len() == 2 * b.len());
    assert(a.len() == b.len());
    assert forall|k: int| 0 <= k < a.len() implies a[k] == b[k] by {
        let high = 2 * k;
        let low = 2 * k + 1;
        assert(high % 2 == 0 && high / 2 == k);
        assert(low % 2 == 1 && low / 2 == k);
        assert(hex_lower(a)[high] == hex_digits()[a[k] as int / 16]);
        assert(hex_lower(b)[high] == hex_digits()[b[k] as int / 16]);
        assert(hex_lower(a)[low] == hex_digits()[a[k] as int % 16]);
        assert(hex_lower(b)[low] == hex_digits()[b[k] as int % 16]);
        lemma_hex_digits_of_byte(a[k], b[k]);
    }
    assert(a =~= b);
}

/// The checksum calculated for a byte string verifies against those bytes,
/// and the text of no other digest does.
pub proof fn lemma_calculated_checksum_verifies(input: Seq<u8>)
    ensures
        checksum_verifies(input, checksum_text(input)),
        forall|digest: Seq<u8>|
            checksum_verifies(input, #[trigger] hex_lower(digest)) ==> digest == sha256(input),
{
    assert forall|digest: Seq<u8>|
        checksum_verifies(input, #[trigger] hex_lower(digest)) implies digest == sha256(input) by {
        lemma_hex_lower_injective(digest, sha256(input));
    }
}

} // verus!
