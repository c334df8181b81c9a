//! SHA-256 digests and their textual form.
use crate::text::{hex, hex_string, joined};
use vstd::prelude::*;

verus! {

/// The SHA-256 digest of a sequence of bytes.
pub uninterp spec fn sha256(bytes: Seq<u8>) -> Seq<u8>;

/// `sha2::Sha256::digest` hashes the whole slice in one call. The digest is a function of the
/// bytes alone and is always thirty-two bytes long.
#[verifier::external_body]
fn sha256_digest(bytes: &[u8]) -> (out: Vec<u8>)
    ensures
        out@ == sha256(bytes@),
        out@.len() == 32,
{
    <sha2::Sha256 as sha2::Digest>::digest(bytes).to_vec()
}

/// The textual form of a digest: `sha256:` and the hexadecimal bytes.
pub open spec fn digest_text(raw: Seq<u8>) -> Seq<char> {
    "sha256:"@ + hex(raw)
}

/// The textual digest of a sequence of bytes.
pub open spec fn digest_of(bytes: Seq<u8>) -> Seq<char> {
    digest_text(sha256(bytes))
}

/// The textual form of a raw digest.
pub fn format_digest(raw: &[u8]) -> (out: String)
    ensures
        out@ == digest_text(raw@),
{
    let digits = hex_string(raw);
    joined("sha256:", digits.as_str())
}

/// The digest of a slice of bytes, in hexadecimal.
pub fn digest_hex(bytes: &[u8]) -> (out: String)
    ensures
        out@ == hex(sha256(bytes@)),
{
    let raw = sha256_digest(bytes);
    hex_string(raw.as_slice())
}

/// The textual digest of a slice of bytes.
pub fn digest(bytes: &[u8]) -> (out: String)
    ensures
        out@ == digest_of(bytes@),
{
    let raw = sha256_digest(bytes);
    format_digest(raw.as_slice())
}

} // verus!
