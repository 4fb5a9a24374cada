use vstd::prelude::*;

verus! {

/// An opaque identifier for a keypair held by the external key store.
#[derive(Debug, Clone)]
pub struct KeyAlias(pub String);

/// An error from the external cryptographic key store.
#[derive(Debug)]
pub enum CryptoError {
    General(String),
}

impl CryptoError {
    /// The human-readable message carried by the error.
    pub fn message(&self) -> (s: &String)
        ensures
            *self matches CryptoError::General(m) && s@ == m@,
    {
        match self {
            CryptoError::General(m) => m,
        }
    }
}

/// A cryptographic keypair that can be used for signing. The key store
/// implements this for its own key handles; private material never
/// crosses it.
pub trait SigningKey {
    /// Generates a public JWK for this key.
    fn jwk(&self) -> Result<String, CryptoError>;

    /// Produces a signature of unknown encoding over the payload.
    fn sign(&self, payload: Vec<u8>) -> Result<Vec<u8>, CryptoError>;
}

/// An interface that provides access to cryptographic keypairs from the
/// native crypto API. The embedding application implements it.
pub trait KeyStore {
    /// The key handle type this store hands out.
    type Key: SigningKey;

    /// Retrieve a signing keypair by alias.
    fn get_signing_key(&self, alias: KeyAlias) -> Result<Self::Key, CryptoError>;
}

/// Whether a byte string is a valid raw fixed-width P-256 ECDSA
/// signature: 64 bytes of r followed by s, both scalars in range.
/// Named for what `p256::ecdsa::Signature::from_slice` accepts.
pub uninterp spec fn p256_valid_raw(b: Seq<u8>) -> bool;

/// Whether a byte string is a valid ASN.1 DER P-256 ECDSA signature.
/// Named for what `p256::ecdsa::Signature::from_der` accepts.
pub uninterp spec fn p256_valid_der(b: Seq<u8>) -> bool;

/// The raw fixed-width form of a valid DER-encoded P-256 signature.
/// Named for what re-serialising `from_der`'s result yields.
pub uninterp spec fn p256_raw_of_der(b: Seq<u8>) -> Seq<u8>;

/// Relies on `p256::ecdsa::Signature::from_slice` and `to_vec`:
/// `from_slice` accepts exactly a 64-byte r||s pair whose halves are
/// non-zero in-range scalars, and `to_vec` re-serialises those scalars as
/// the same fixed-width big-endian bytes.
#[verifier::external_body]
fn p256_sig_from_raw(bytes: &Vec<u8>) -> (r: Option<Vec<u8>>)
    ensures
        r is Some <==> p256_valid_raw(bytes@),
        r matches Some(t) ==> t@ == bytes@,
{
    p256::ecdsa::Signature::from_slice(bytes).ok().map(|s| s.to_vec())
}

/// Relies on `p256::ecdsa::Signature::from_der` and `to_vec`: `from_der`
/// accepts exactly ASN.1 DER signatures with in-range components, and the
/// 64-byte fixed-width re-serialisation of such a signature is itself
/// accepted by `from_slice`.
#[verifier::external_body]
fn p256_sig_from_der(bytes: &Vec<u8>) -> (r: Option<Vec<u8>>)
    ensures
        r is Some <==> p256_valid_der(bytes@),
        r matches Some(t) ==> t@ == p256_raw_of_der(bytes@) && p256_valid_raw(t@) && t@.len()
            == 64,
{
    p256::ecdsa::Signature::from_der(bytes).ok().map(|s| s.to_vec())
}

/// What signature normalisation returns: a raw-valid signature comes back
/// unchanged, a DER signature is re-serialised to its raw form, anything
/// else is rejected.
pub open spec fn normalise_spec(b: Seq<u8>) -> Option<Seq<u8>> {
    if p256_valid_raw(b) {
        Some(b)
    } else if p256_valid_der(b) {
        Some(p256_raw_of_der(b))
    } else {
        None
    }
}

/// Law: normalisation is idempotent. The normaliser returns any raw-valid
/// byte string unchanged, and every signature it returns is raw-valid
/// (stated in `ensure_raw_fixed_width_signature_encoding`'s contract), so
/// normalising a normalised signature returns it as it is.
pub proof fn lemma_normalise_idempotent(t: Seq<u8>)
    requires
        p256_valid_raw(t),
    ensures
        normalise_spec(t) == Some(t),
{
}

/// Utility functions for cryptographic curves.
pub struct CryptoCurveUtils {
    curve: CurveKind,
}

enum CurveKind {
    SecP256R1,
}

impl CryptoCurveUtils {
    /// Utils for the secp256r1 (also called P-256) curve.
    pub fn secp256r1() -> (r: Self) {
        CryptoCurveUtils { curve: CurveKind::SecP256R1 }
    }

    /// Re-encode a P-256 ECDSA signature in raw fixed-width form. The
    /// signature may arrive raw (64-byte r||s) or DER-encoded; raw is
    /// probed first and returned as it is. Returns `None` exactly when
    /// neither encoding parses.
    pub fn ensure_raw_fixed_width_signature_encoding(&self, bytes: Vec<u8>) -> (r: Option<
        Vec<u8>,
    >)
        ensures
            match r {
                Some(t) => Some(t@) == normalise_spec(bytes@) && p256_valid_raw(t@),
                None => normalise_spec(bytes@) is None,
            },
    {
        match self.curve {
            CurveKind::SecP256R1 => {
                match p256_sig_from_raw(&bytes) {
                    Some(t) => Some(t),
                    None => p256_sig_from_der(&bytes),
                }
            }
        }
    }
}

} // verus!
