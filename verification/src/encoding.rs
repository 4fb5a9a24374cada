use vstd::prelude::*;
use base64::Engine;
use sha2::Digest;

verus! {

/// The SHA-256 digest of a byte string. Named for what `sha2::Sha256`
/// computes: a function of the input alone.
pub uninterp spec fn sha256_of(b: Seq<u8>) -> Seq<u8>;

/// Relies on `sha2::Sha256::digest`: the digest is 32 bytes and depends
/// on the input bytes alone.
#[verifier::external_body]
pub fn sha256(bytes: &Vec<u8>) -> (r: Vec<u8>)
    ensures
        r@ == sha256_of(bytes@),
        r@.len() == 32,
{
    sha2::Sha256::digest(bytes).to_vec()
}

/// The base64url encoding, without padding, of a byte string. Named for
/// what the `base64` URL-safe no-pad engine produces: a function of the
/// input alone.
pub uninterp spec fn base64url_nopad_of(b: Seq<u8>) -> Seq<char>;

/// Relies on `base64::prelude::BASE64_URL_SAFE_NO_PAD.encode`: the output
/// depends on the input alone, holds four characters for every three
/// bytes rounded up, and is empty exactly for empty input.
#[verifier::external_body]
pub fn base64url_nopad_encode(bytes: &Vec<u8>) -> (r: String)
    ensures
        r@ == base64url_nopad_of(bytes@),
        r@.len() == (bytes@.len() * 4 + 2) / 3,
{
    base64::prelude::BASE64_URL_SAFE_NO_PAD.encode(bytes)
}

/// Relies on `base64::prelude::BASE64_URL_SAFE_NO_PAD.decode`: the
/// default engine rejects padding and non-zero trailing bits, so it
/// accepts exactly the canonical encodings, and re-encoding the decoded
/// bytes yields the input again.
#[verifier::external_body]
pub fn base64url_nopad_decode(s: &str) -> (r: Option<Vec<u8>>)
    ensures
        r matches Some(t) ==> s@ == base64url_nopad_of(t@),
{
    base64::prelude::BASE64_URL_SAFE_NO_PAD.decode(s).ok()
}

/// The standard base64 encoding, with padding, of a byte string. Named
/// for what the `base64` standard engine produces.
pub uninterp spec fn base64_std_of(b: Seq<u8>) -> Seq<char>;

/// Relies on `base64::prelude::BASE64_STANDARD.encode`: the output
/// depends on the input alone.
#[verifier::external_body]
pub fn base64_std_encode(bytes: &Vec<u8>) -> (r: String)
    ensures
        r@ == base64_std_of(bytes@),
{
    base64::prelude::BASE64_STANDARD.encode(bytes)
}

/// A fresh version-4 UUID rendered in its canonical hyphenated form.
/// The value is random, so nothing is promised beyond its shape.
///
/// Relies on `uuid::Uuid::new_v4` and its `Display` rendering: 36
/// characters, hyphenated.
#[verifier::external_body]
pub fn new_uuid_v4_string() -> (r: String)
    ensures
        r@.len() == 36,
{
    uuid::Uuid::new_v4().to_string()
}

} // verus!
