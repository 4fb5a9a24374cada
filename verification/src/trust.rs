use vstd::prelude::*;
use vstd::string::StringExecFns;
use x509_cert::der::Decode;
use x509_cert::der::Encode;
use x509_cert::Certificate;
use x509_cert::ext::pkix::KeyUsage;
use p256::ecdsa::signature::Verifier;
use crate::cbor::{cbor_wf, CborValue};
use crate::cbor_codec::{decode_cbor, encodable, encode_cbor, enc_spec, head_spec};
use crate::cwt::{claim_lookup, CoseSign1, Cwt, CwtError};

verus! {

/// The facts the trust logic reads out of a DER certificate: names as
/// DER bytes, the validity window as Unix seconds, the two key-usage
/// bits, and the signed and signature bytes.
pub struct CertFacts {
    pub subject: Seq<u8>,
    pub issuer: Seq<u8>,
    pub not_before: int,
    pub not_after: int,
    pub has_key_usage: bool,
    pub key_cert_sign: bool,
    pub digital_signature: bool,
    pub tbs: Seq<u8>,
    pub signature: Seq<u8>,
}

/// Whether DER bytes parse as an X.509 certificate. Named for what
/// `x509_cert::Certificate::from_der` accepts.
pub uninterp spec fn parses_as_cert(der: Seq<u8>) -> bool;

/// The facts a parsed certificate carries; a function of the DER bytes
/// alone. Named for what the `x509_cert` accessors return.
pub uninterp spec fn cert_facts_of(der: Seq<u8>) -> CertFacts;

/// A certificate, reduced to the plain values the trust logic reads.
#[derive(Debug, Clone)]
pub struct CertificateInfo {
    /// The DER bytes of the subject name.
    pub subject_der: Vec<u8>,
    /// The DER bytes of the issuer name.
    pub issuer_der: Vec<u8>,
    /// Start of the validity window, Unix seconds.
    pub not_before: u64,
    /// End of the validity window, Unix seconds.
    pub not_after: u64,
    /// Whether a key-usage extension was present and readable.
    pub has_key_usage: bool,
    /// The keyCertSign bit of the key-usage extension.
    pub key_cert_sign: bool,
    /// The digitalSignature bit of the key-usage extension.
    pub digital_signature: bool,
    /// The DER bytes of the to-be-signed portion.
    pub tbs_der: Vec<u8>,
    /// The raw signature bits over the to-be-signed portion.
    pub signature_bits: Vec<u8>,
    /// The whole certificate, DER-encoded.
    pub cert_der: Vec<u8>,
}

impl CertificateInfo {
    /// The facts this record carries, for contracts.
    pub open spec fn facts(&self) -> CertFacts {
        CertFacts {
            subject: self.subject_der@,
            issuer: self.issuer_der@,
            not_before: self.not_before as int,
            not_after: self.not_after as int,
            has_key_usage: self.has_key_usage,
            key_cert_sign: self.key_cert_sign,
            digital_signature: self.digital_signature,
            tbs: self.tbs_der@,
            signature: self.signature_bits@,
        }
    }
}

/// Relies on `x509_cert::Certificate::from_der` and the certificate
/// accessors: parsing succeeds exactly on well-formed DER, and every
/// extracted field is a function of the DER bytes alone. The key-usage
/// flags are read separately and are left cleared here.
#[verifier::external_body]
fn parse_certificate_fields(der: &Vec<u8>) -> (r: Option<CertificateInfo>)
    ensures
        r is Some <==> parses_as_cert(der@),
        r matches Some(info) ==> {
            &&& info.subject_der@ == cert_facts_of(der@).subject
            &&& info.issuer_der@ == cert_facts_of(der@).issuer
            &&& info.not_before == cert_facts_of(der@).not_before
            &&& info.not_after == cert_facts_of(der@).not_after
            &&& info.tbs_der@ == cert_facts_of(der@).tbs
            &&& info.signature_bits@ == cert_facts_of(der@).signature
            &&& info.cert_der@ == der@
            &&& !info.has_key_usage
            &&& !info.key_cert_sign
            &&& !info.digital_signature
        },
{
    let c = Certificate::from_der(der).ok()?;
    let t = c.tbs_certificate();
    Some(CertificateInfo {
        subject_der: t.subject().to_der().ok()?,
        issuer_der: t.issuer().to_der().ok()?,
        not_before: t.validity().not_before.to_unix_duration().as_secs(),
        not_after: t.validity().not_after.to_unix_duration().as_secs(),
        has_key_usage: false, key_cert_sign: false, digital_signature: false,
        tbs_der: t.to_der().ok()?,
        signature_bits: c.signature().raw_bytes().to_vec(),
        cert_der: der.clone(),
    })
}

/// Relies on `TbsCertificateInner::get_extension` with the key-usage
/// extension: whether the extension is present and readable, and its
/// keyCertSign and digitalSignature bits, all functions of the DER
/// bytes alone.
#[verifier::external_body]
fn parse_certificate_key_usage(der: &Vec<u8>) -> (r: Option<(bool, bool, bool)>)
    ensures
        r is Some <==> parses_as_cert(der@),
        r matches Some(f) ==> f.0 == cert_facts_of(der@).has_key_usage && f.1 == cert_facts_of(
            der@,
        ).key_cert_sign && f.2 == cert_facts_of(der@).digital_signature,
{
    let c = Certificate::from_der(der).ok()?;
    let ku: Option<KeyUsage> = c.tbs_certificate().get_extension().ok().flatten().map(|p| p.1);
    let kcs = ku.as_ref().map(|k| k.key_cert_sign()).unwrap_or(false);
    let ds = ku.as_ref().map(|k| k.digital_signature()).unwrap_or(false);
    Some((ku.is_some(), kcs, ds))
}

/// Parse a DER certificate into the plain record the trust logic reads.
pub fn parse_certificate_der(der: &Vec<u8>) -> (r: Option<CertificateInfo>)
    ensures
        r is Some <==> parses_as_cert(der@),
        r matches Some(info) ==> info.facts() == cert_facts_of(der@) && info.cert_der@ == der@,
{
    let mut info = match parse_certificate_fields(der) {
        Some(i) => i,
        None => {
            return None;
        }
    };
    match parse_certificate_key_usage(der) {
        Some((has, kcs, ds)) => {
            info.has_key_usage = has;
            info.key_cert_sign = kcs;
            info.digital_signature = ds;
            proof {
                assert(info.facts() == cert_facts_of(der@));
            }
            Some(info)
        }
        None => None,
    }
}

/// Whether the named certificate's P-256 key verifies an ECDSA-SHA256
/// signature over a message. A function of the three byte strings alone.
/// Named for what the `p256` verifier computes.
pub uninterp spec fn p256_cert_verifies(cert: Seq<u8>, msg: Seq<u8>, sig: Seq<u8>) -> bool;

/// Relies on `x509_cert` parsing and `p256::ecdsa::VerifyingKey`: the
/// verification outcome is a function of the certificate, message and
/// signature bytes alone. The signature may be raw or DER-encoded.
#[verifier::external_body]
pub fn p256_verify_with_cert(cert_der: &Vec<u8>, msg: &Vec<u8>, sig: &Vec<u8>) -> (r: bool)
    ensures
        r == p256_cert_verifies(cert_der@, msg@, sig@),
{
    let Ok(cert) = x509_cert::Certificate::from_der(cert_der) else { return false };
    let spki = cert.tbs_certificate().subject_public_key_info();
    let Some(point) = spki.subject_public_key.as_bytes() else { return false };
    let Ok(vk) = p256::ecdsa::VerifyingKey::from_sec1_bytes(point) else { return false };
    let sig_parsed = p256::ecdsa::Signature::from_slice(sig)
        .or_else(|_| p256::ecdsa::Signature::from_der(sig));
    let Ok(s) = sig_parsed else { return false };
    vk.verify(msg, &s).is_ok()
}

/// The detached signing input of a `COSE_Sign1`: the CBOR array
/// `["Signature1", protected, external_aad, payload]`.
pub open spec fn sig_structure_enc(protected: Seq<u8>, payload: Seq<u8>) -> Seq<u8> {
    head_spec(4, 4) + (head_spec(3, 10) + "Signature1"@.map_values(|c: char| c as u8))
        + (head_spec(2, protected.len()) + protected) + head_spec(2, 0) + (head_spec(
        2,
        payload.len(),
    ) + payload)
}

/// Build the detached signing input for a `COSE_Sign1` with no external
/// additional data.
pub fn build_sig_structure(protected: &Vec<u8>, payload: &Vec<u8>) -> (r: Vec<u8>)
    ensures
        r@ == sig_structure_enc(protected@, payload@),
{
    let mut items: Vec<CborValue> = Vec::new();
    items.push(CborValue::Text(String::from_str("Signature1")));
    items.push(CborValue::Bytes(crate::cwt::copy_bytes(protected)));
    items.push(CborValue::Bytes(Vec::new()));
    items.push(CborValue::Bytes(crate::cwt::copy_bytes(payload)));
    let arr = CborValue::Array(items);
    proof {
        assert(cbor_wf(arr)) by {
            assert(forall|k: int| 0 <= k < 4 ==> cbor_wf(#[trigger] arr->Array_0@[k]));
        }
        assert(encodable(arr)) by {
            assert(forall|k: int| 0 <= k < 4 ==> encodable(#[trigger] arr->Array_0@[k]));
        }
        let s = arr->Array_0@;
        assert(crate::cbor_codec::enc_seq_spec(s) == enc_spec(s[0])
            + crate::cbor_codec::enc_seq_spec(s.drop_first()));
        assert(s.drop_first()[0] == s[1]);
        assert(crate::cbor_codec::enc_seq_spec(s.drop_first()) == enc_spec(s[1])
            + crate::cbor_codec::enc_seq_spec(s.drop_first().drop_first()));
        assert(s.drop_first().drop_first()[0] == s[2]);
        assert(crate::cbor_codec::enc_seq_spec(s.drop_first().drop_first()) == enc_spec(s[2])
            + crate::cbor_codec::enc_seq_spec(s.drop_first().drop_first().drop_first()));
        assert(s.drop_first().drop_first().drop_first()[0] == s[3]);
        assert(s.drop_first().drop_first().drop_first().drop_first() =~= Seq::<
            CborValue,
        >::empty());
        assert(crate::cbor_codec::enc_seq_spec(s.drop_first().drop_first().drop_first())
            == enc_spec(s[3]) + crate::cbor_codec::enc_seq_spec(
            s.drop_first().drop_first().drop_first().drop_first(),
        ));
        assert(crate::cbor_codec::enc_seq_spec(
            s.drop_first().drop_first().drop_first().drop_first(),
        ) == Seq::<u8>::empty());
        lemma_signature1_utf8();
        assert(enc_spec(arr) =~= sig_structure_enc(protected@, payload@));
    }
    match encode_cbor(&arr) {
        Ok(b) => b,
        Err(_) => {
            proof {
                assert(false);
            }
            Vec::new()
        }
    }
}

/// The UTF-8 bytes of the "Signature1" label are its ASCII characters.
proof fn lemma_signature1_utf8()
    ensures
        vstd::utf8::encode_utf8("Signature1"@) =~= "Signature1"@.map_values(|c: char| c as u8),
        "Signature1"@.len() == 10,
{
    reveal_strlit("Signature1");
    assert(vstd::utf8::is_ascii_chars("Signature1"@));
    vstd::utf8::is_ascii_chars_encode_utf8("Signature1"@);
    assert(vstd::utf8::encode_utf8("Signature1"@) =~= "Signature1"@.map_values(
        |c: char| c as u8,
    ));
}

/// Whether one candidate chain validates at time `now`: the root is
/// within its window and may sign certificates, the signer was issued by
/// the root, the root's key verifies the signer's to-be-signed bytes,
/// and the signer is within its window, may sign data, and verifies the
/// token's detached signing input.
pub open spec fn chain_valid_spec(
    now: int,
    root: CertFacts,
    signer: CertFacts,
    sig_input: Seq<u8>,
    token_sig: Seq<u8>,
    root_der: Seq<u8>,
    signer_der: Seq<u8>,
) -> bool {
    &&& root.not_before <= now <= root.not_after
    &&& root.has_key_usage
    &&& root.key_cert_sign
    &&& root.subject == signer.issuer
    &&& p256_cert_verifies(root_der, signer.tbs, signer.signature)
    &&& signer.not_before <= now <= signer.not_after
    &&& signer.has_key_usage
    &&& signer.digital_signature
    &&& p256_cert_verifies(signer_der, sig_input, token_sig)
}

/// Validate a two-certificate chain over a token's detached signing
/// input, at time `now`. Each rejected condition surfaces its own error,
/// in the order the checks run.
pub fn validate_certificate_chain(
    now: u64,
    root: &CertificateInfo,
    signer: &CertificateInfo,
    sig_input: &Vec<u8>,
    token_sig: &Vec<u8>,
) -> (r: Result<(), CwtError>)
    ensures
        r is Ok <==> chain_valid_spec(
            now as int,
            root.facts(),
            signer.facts(),
            sig_input@,
            token_sig@,
            root.cert_der@,
            signer.cert_der@,
        ),
        r matches Err(e) ==> {
            ||| e is RootCertificateExpired
            ||| e is UnableToExtractExtensionsFromRootCertificate
            ||| e is RootCertificateInvalid
            ||| e is SignerCertificateMismatch
            ||| e is CwtSignatureVerification
            ||| e is SignerCertificateExpired
            ||| e is UnableToExtractExtensionsFromSignerCertificate
            ||| e is SignerCertificateInvalid
        },
{
    if now < root.not_before || now > root.not_after {
        return Err(CwtError::RootCertificateExpired);
    }
    if !root.has_key_usage {
        return Err(CwtError::UnableToExtractExtensionsFromRootCertificate);
    }
    if !root.key_cert_sign {
        return Err(CwtError::RootCertificateInvalid);
    }
    if !bytes_eq(&root.subject_der, &signer.issuer_der) {
        return Err(CwtError::SignerCertificateMismatch);
    }
    if !p256_verify_with_cert(&root.cert_der, &signer.tbs_der, &signer.signature_bits) {
        return Err(
            CwtError::CwtSignatureVerification(
                String::from_str("signer certificate does not verify under the root"),
            ),
        );
    }
    if now < signer.not_before || now > signer.not_after {
        return Err(CwtError::SignerCertificateExpired);
    }
    if !signer.has_key_usage {
        return Err(CwtError::UnableToExtractExtensionsFromSignerCertificate);
    }
    if !signer.digital_signature {
        return Err(CwtError::SignerCertificateInvalid);
    }
    if !p256_verify_with_cert(&signer.cert_der, sig_input, token_sig) {
        return Err(
            CwtError::CwtSignatureVerification(
                String::from_str("token signature does not verify under the signer"),
            ),
        );
    }
    Ok(())
}

/// Compare two byte vectors for equality.
pub fn bytes_eq(a: &Vec<u8>, b: &Vec<u8>) -> (r: bool)
    ensures
        r == (a@ == b@),
{
    if a.len() != b.len() {
        return false;
    }
    let mut i: usize = 0;
    while i < a.len()
        invariant
            a@.len() == b@.len(),
            i <= a@.len(),
            forall|j: int| 0 <= j < i ==> a@[j] == b@[j],
        decreases a@.len() - i,
    {
        if a[i] != b[i] {
            return false;
        }
        i = i + 1;
    }
    proof {
        assert(a@ =~= b@);
    }
    true
}

/// How trust in a token can be established: through the signer
/// certificate it carries, through its issuer's DID (resolved by the
/// embedding application), or not at all.
#[derive(Debug)]
pub enum TrustPath {
    /// The token carries a signer certificate in its protected header.
    SignerCertificate(Vec<u8>),
    /// The token names an issuer DID to resolve to a verification key.
    IssuerDid(String),
    /// Neither a signer certificate nor an issuer DID is present.
    NoTrust,
}

/// The signer certificate a protected-header map carries: the bytes
/// under the x5chain label (33), taking the first certificate where a
/// chain is present, and nothing where the label is absent or its value
/// has another shape.
pub open spec fn x5chain_spec(entries: Seq<(CborValue, CborValue)>) -> Option<Seq<u8>>
    decreases entries.len(),
{
    if entries.len() == 0 {
        None
    } else if entries[0].0 matches CborValue::Integer(i) && i.value() == 33 {
        match entries[0].1 {
            CborValue::Bytes(b) => Some(b@),
            CborValue::Array(certs) => if certs@.len() > 0 && certs@[0] is Bytes {
                Some(certs@[0]->Bytes_0@)
            } else {
                None
            },
            _ => None,
        }
    } else {
        x5chain_spec(entries.drop_first())
    }
}

/// Read the signer certificate out of a decoded protected-header map.
pub fn x5chain_from_header(entries: &Vec<(CborValue, CborValue)>) -> (r: Option<Vec<u8>>)
    requires
        forall|k: int| 0 <= k < entries@.len() ==> cbor_wf(#[trigger] entries@[k].0) && cbor_wf(
            entries@[k].1,
        ),
    ensures
        match r {
            Some(der) => x5chain_spec(entries@) == Some(der@),
            None => x5chain_spec(entries@) is None,
        },
{
    proof {
        assert(entries@.skip(0) =~= entries@);
    }
    let mut i: usize = 0;
    while i < entries.len()
        invariant
            i <= entries@.len(),
            forall|k: int| 0 <= k < entries@.len() ==> cbor_wf(#[trigger] entries@[k].0)
                && cbor_wf(entries@[k].1),
            x5chain_spec(entries@) == x5chain_spec(entries@.skip(i as int)),
        decreases entries@.len() - i,
    {
        proof {
            assert(entries@.skip(i as int)[0] == entries@[i as int]);
            assert(entries@.skip(i as int).drop_first() =~= entries@.skip(i + 1));
        }
        let hit = match &entries[i].0 {
            CborValue::Integer(ci) => ci.to_i128() == 33,
            _ => false,
        };
        if hit {
            match &entries[i].1 {
                CborValue::Bytes(b) => {
                    return Some(crate::cwt::copy_bytes(b));
                }
                CborValue::Array(certs) => {
                    if certs.len() > 0 {
                        proof {
                            assert(cbor_wf(entries@[i as int].1));
                            assert(cbor_wf(#[trigger] entries@[i as int].1->Array_0@[0]));
                        }
                        match &certs[0] {
                            CborValue::Bytes(b) => {
                                return Some(crate::cwt::copy_bytes(b));
                            }
                            _ => {
                                return None;
                            }
                        }
                    }
                    return None;
                }
                _ => {
                    return None;
                }
            }
        }
        i = i + 1;
    }
    proof {
        assert(entries@.skip(entries@.len() as int).len() == 0);
    }
    None
}

/// Read the signer certificate out of a token's protected header: the
/// header bytes must decode as a canonical CBOR map carrying the
/// x5chain label (33). Where the decoder rejects the header bytes
/// nothing further is claimed.
pub fn signer_certificate_der(cose: &CoseSign1) -> (r: Option<Vec<u8>>)
    ensures
        r matches Some(der) ==> exists|v: CborValue|
            {
                &&& cose.protected@ == enc_spec(v)
                &&& (v matches CborValue::ItemMap(es) && x5chain_spec(es@) == Some(der@))
            },
{
    let header = match decode_cbor(cose.protected.as_slice()) {
        Ok(v) => v,
        Err(_) => {
            return None;
        }
    };
    let ghost gh = header;
    let entries = match header {
        CborValue::ItemMap(m) => m,
        _ => {
            return None;
        }
    };
    proof {
        assert(gh == CborValue::ItemMap(entries));
    }
    match x5chain_from_header(&entries) {
        Some(der) => {
            proof {
                assert(exists|v: CborValue|
                    {
                        &&& cose.protected@ == enc_spec(v)
                        &&& (v matches CborValue::ItemMap(es) && x5chain_spec(es@) == Some(
                            der@,
                        ))
                    }) by {
                    assert(cose.protected@ == enc_spec(gh) && (gh matches CborValue::ItemMap(es)
                        && x5chain_spec(es@) == Some(der@)));
                }
            }
            Some(der)
        }
        None => None,
    }
}

/// Validate a token against a set of trusted roots at time `now`:
/// every root whose subject matches the signer's issuer is tried in
/// order, and the token is trusted exactly when some matching root
/// carries a valid chain. On failure the trust error joins one reason
/// per tried root with a separator, or reports that no root matched.
pub fn validate_with_roots(
    now: u64,
    signer: &CertificateInfo,
    roots: &Vec<CertificateInfo>,
    sig_input: &Vec<u8>,
    token_sig: &Vec<u8>,
) -> (r: Result<(), CwtError>)
    ensures
        r is Ok <==> exists|i: int|
            0 <= i < roots@.len() && (#[trigger] roots@[i]).facts().subject
                == signer.facts().issuer && chain_valid_spec(
                now as int,
                roots@[i].facts(),
                signer.facts(),
                sig_input@,
                token_sig@,
                roots@[i].cert_der@,
                signer.cert_der@,
            ),
        r matches Err(e) ==> e is Trust,
{
    let mut trail = String::new();
    let mut i: usize = 0;
    while i < roots.len()
        invariant
            i <= roots@.len(),
            forall|k: int| 0 <= k < i ==> !((#[trigger] roots@[k]).facts().subject
                == signer.facts().issuer && chain_valid_spec(
                now as int,
                roots@[k].facts(),
                signer.facts(),
                sig_input@,
                token_sig@,
                roots@[k].cert_der@,
                signer.cert_der@,
            )),
        decreases roots@.len() - i,
    {
        if bytes_eq(&roots[i].subject_der, &signer.issuer_der) {
            match validate_certificate_chain(now, &roots[i], signer, sig_input, token_sig) {
                Ok(()) => {
                    return Ok(());
                }
                Err(e) => {
                    trail.append("\n--------------\n");
                    trail.append(chain_error_label(&e));
                }
            }
        }
        i = i + 1;
    }
    if trail.as_str().unicode_len() == 0 {
        return Err(
            CwtError::Trust(
                String::from_str("signer certificate was not issued by a trusted root"),
            ),
        );
    }
    Err(CwtError::Trust(trail))
}

/// A short reason for a failed chain, for the accumulated trust trail.
fn chain_error_label(e: &CwtError) -> (r: &'static str) {
    match e {
        CwtError::RootCertificateExpired => "the candidate root is outside its validity window",
        CwtError::UnableToExtractExtensionsFromRootCertificate => "the candidate root carries no readable key usage",
        CwtError::RootCertificateInvalid => "the candidate root cannot sign certificates",
        CwtError::SignerCertificateMismatch => "the signer was not issued by the candidate root",
        CwtError::SignerCertificateExpired => "the signer is outside its validity window",
        CwtError::UnableToExtractExtensionsFromSignerCertificate => "the signer carries no readable key usage",
        CwtError::SignerCertificateInvalid => "the signer cannot sign data",
        _ => "a signature did not verify",
    }
}

/// Decide how a token's trust is evaluated from its parts: by the
/// signer certificate where one was extracted, else by the issuer DID
/// where the claims carry a textual issuer (claim key 1), else not at
/// all.
pub fn trust_dispatch(
    signer_cert: Option<Vec<u8>>,
    claims_map: &Vec<(CborValue, CborValue)>,
) -> (r: TrustPath)
    requires
        forall|k: int| 0 <= k < claims_map@.len() ==> cbor_wf(#[trigger] claims_map@[k].0)
            && cbor_wf(claims_map@[k].1),
    ensures
        match signer_cert {
            Some(der) => r matches TrustPath::SignerCertificate(d) && d@ == der@,
            None => match claim_lookup(claims_map@, 1) {
                Some(cv) => match cv {
                    CborValue::Text(t) => r matches TrustPath::IssuerDid(s) && s@ == t@,
                    _ => r is NoTrust,
                },
                None => r is NoTrust,
            },
        },
{
    match signer_cert {
        Some(der) => TrustPath::SignerCertificate(der),
        None => {
            proof {
                assert(claims_map@.skip(0) =~= claims_map@);
            }
            let mut i: usize = 0;
            while i < claims_map.len()
                invariant
                    signer_cert is None,
                    forall|k: int| 0 <= k < claims_map@.len() ==> cbor_wf(
                        #[trigger] claims_map@[k].0,
                    ) && cbor_wf(claims_map@[k].1),
                    i <= claims_map@.len(),
                    claim_lookup(claims_map@, 1) == claim_lookup(claims_map@.skip(i as int), 1),
                decreases claims_map@.len() - i,
            {
                proof {
                    assert(claims_map@.skip(i as int)[0] == claims_map@[i as int]);
                    assert(claims_map@.skip(i as int).drop_first() =~= claims_map@.skip(i + 1));
                }
                let hit = match &claims_map[i].0 {
                    CborValue::Integer(ci) => ci.to_i128() == 1,
                    _ => false,
                };
                if hit {
                    match &claims_map[i].1 {
                        CborValue::Text(s) => {
                            return TrustPath::IssuerDid(s.clone());
                        }
                        _ => {
                            return TrustPath::NoTrust;
                        }
                    }
                }
                i = i + 1;
            }
            proof {
                assert(claims_map@.skip(claims_map@.len() as int).len() == 0);
            }
            TrustPath::NoTrust
        }
    }
}

/// Decide how a token's trust is evaluated: by its signer certificate
/// where one is carried, else by its issuer DID where the claims carry
/// a textual issuer, else not at all. The DID itself is resolved by the
/// embedding application.
pub fn trust_path(cwt: &Cwt) -> (r: TrustPath)
    requires
        cwt.claims_wf(),
    ensures
        r matches TrustPath::IssuerDid(s) ==> (claim_lookup(cwt.claims_map@, 1) matches Some(
            cv,
        ) && (cv matches CborValue::Text(t) && s@ == t@)),
        r is NoTrust ==> !(claim_lookup(cwt.claims_map@, 1) matches Some(cv) && cv is Text),
        r matches TrustPath::SignerCertificate(der) ==> exists|v: CborValue|
            {
                &&& cwt.cose.protected@ == enc_spec(v)
                &&& (v matches CborValue::ItemMap(es) && x5chain_spec(es@) == Some(der@))
            },
{
    let cert = signer_certificate_der(&cwt.cose);
    trust_dispatch(cert, &cwt.claims_map)
}

} // verus!
