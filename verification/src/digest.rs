//! Content digests: SHA-256 over bytes, spelled in lowercase hexadecimal.
use vstd::prelude::*;

verus! {

/// The SHA-256 digest of `data`, as the `sha2` crate computes it.
pub uninterp spec fn sha256_digest(data: Seq<u8>) -> Seq<u8>;

/// The SHA-256 digest of `data`.
///
/// Calls `sha2::Sha256::digest`. The contract says that the result is the digest named
/// by [`sha256_digest`] and that a SHA-256 digest is thirty-two bytes long; which bytes
/// it holds is not stated.
#[verifier::external_body]
pub(crate) fn sha256(data: &[u8]) -> (res: Vec<u8>)
    ensures
        res@ == sha256_digest(data@),
        res@.len() == 32,
{
    <sha2::Sha256 as sha2::Digest>::digest(data).to_vec()
}

/// The lowercase hexadecimal digit for a value below sixteen.
pub open spec fn hex_digit(n: nat) -> char {
    if n < 10 {
        crate::text::digit_char(n)
    } else if n == 10 { 'a' } else if n == 11 { 'b' } else if n == 12 { 'c' }
    else if n == 13 { 'd' } else if n == 14 { 'e' } else { 'f' }
}

/// Bytes spelled as lowercase hexadecimal, two digits per byte, high nibble first.
pub open spec fn spec_hex(bytes: Seq<u8>) -> Seq<char>
    decreases bytes.len(),
{
    if bytes.len() == 0 {
        seq![]
    } else {
        spec_hex(bytes.drop_last()).push(hex_digit(bytes.last() as nat / 16)).push(
            hex_digit(bytes.last() as nat % 16),
        )
    }
}

/// Bytes spelled as lowercase hexadecimal.
///
/// Calls `hex::encode`, which writes each byte as two lowercase digits, high nibble
/// first; the contract states exactly that.
#[verifier::external_body]
pub(crate) fn hex_lower(bytes: &[u8]) -> (res: String)
    ensures
        res@ == spec_hex(bytes@),
{
    hex::encode(bytes)
}

/// A hexadecimal spelling is twice as long as the bytes it spells.
pub proof fn lemma_hex_len(bytes: Seq<u8>)
    ensures
        spec_hex(bytes).len() == 2 * bytes.len(),
    decreases bytes.len(),
{
    if bytes.len() > 0 {
        lemma_hex_len(bytes.drop_last());
    }
}

} // verus!
