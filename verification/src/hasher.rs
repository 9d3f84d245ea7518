//! Integrity fingerprints: lowercase hexadecimal SHA-256 digests of text.

use sha2::Digest;
use vstd::prelude::*;
use vstd::string::StringSliceAdditionalSpecFns;

verus! {

/// The SHA-256 digest of a byte string, as the `sha2` crate computes it.
pub uninterp spec fn sha256(data: Seq<u8>) -> Seq<u8>;

/// The sixteen lowercase hexadecimal digits, by value.
pub open spec fn hex_alphabet() -> Seq<char> {
    seq!['0', '1', '2', '3', '4', '5', '6', '7', '8', '9', 'a', 'b', 'c', 'd', 'e', 'f']
}

/// Whether `c` is one of `0-9` or `a-f`.
pub open spec fn is_lower_hex(c: char) -> bool {
    ('0' <= c && c <= '9') || ('a' <= c && c <= 'f')
}

/// Two lowercase hexadecimal digits per byte, high nibble first.
pub open spec fn hex_lower(bytes: Seq<u8>) -> Seq<char> {
    Seq::new(
        2 * bytes.len(),
        |i: int|
            if i % 2 == 0 {
                hex_alphabet()[(bytes[i / 2] / 16) as int]
            } else {
                hex_alphabet()[(bytes[i / 2] % 16) as int]
            },
    )
}

/// The fingerprint of a text: the hexadecimal form of the SHA-256 digest of
/// its UTF-8 encoding.
pub open spec fn fingerprint(text: Seq<char>) -> Seq<char> {
    hex_lower(sha256(vstd::utf8::encode_utf8(text)))
}

/// What every fingerprint looks like: 64 lowercase hexadecimal digits.
pub open spec fn is_fingerprint_shaped(s: Seq<char>) -> bool {
    &&& s.len() == 64
    &&& forall|i: int| 0 <= i < s.len() ==> is_lower_hex(#[trigger] s[i])
}

/// A hexadecimal rendering is twice as long as its input and holds nothing
/// but lowercase hexadecimal digits.
pub proof fn lemma_hex_lower_shape(bytes: Seq<u8>)
    ensures
        hex_lower(bytes).len() == 2 * bytes.len(),
        forall|i: int| 0 <= i < hex_lower(bytes).len() ==> is_lower_hex(#[trigger] hex_lower(bytes)[i]),
{
    assert forall|i: int| 0 <= i < hex_lower(bytes).len() implies is_lower_hex(
        #[trigger] hex_lower(bytes)[i],
    ) by {
        let b = bytes[i / 2];
        let hi = (b / 16) as int;
        let lo = (b % 16) as int;
        assert(0 <= hi < 16 && 0 <= lo < 16);
        assert(forall|k: int| 0 <= k < 16 ==> is_lower_hex(#[trigger] hex_alphabet()[k]));
    }
}

/// Calls `sha2::Sha256::digest` (`Default`, `update`, `finalize` in one).
/// Trusted: the bytes returned are the SHA-256 digest of `data`, which is a
/// function of `data` alone, and there are 32 of them (the output size that
/// `sha2` fixes for this hasher).
#[verifier::external_body]
fn sha256_digest(data: &[u8]) -> (out: Vec<u8>)
    ensures
        out@ == sha256(data@),
        out@.len() == 32,
{
    sha2::Sha256::digest(data).to_vec()
}

/// Calls `hex::encode`. Trusted: each input byte becomes two characters of
/// `0123456789abcdef`, the high four bits first, in input order.
#[verifier::external_body]
fn hex_encode(data: &[u8]) -> (out: String)
    ensures
        out@ == hex_lower(data@),
{
    hex::encode(data)
}

/// Fingerprints `data`: the same text always gives the same 64 lowercase
/// hexadecimal digits.
pub fn hash(data: &str) -> (out: String)
    ensures
        out@ == fingerprint(data@),
        is_fingerprint_shaped(out@),
{
    let digest = sha256_digest(data.as_bytes());
    let out = hex_encode(digest.as_slice());
    proof {
        lemma_hex_lower_shape(digest@);
    }
    out
}

} // verus!
