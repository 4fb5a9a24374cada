use vstd::prelude::*;
use vstd::string::StringExecFns;
use vstd::string::StrSliceExecFns;
use vstd::utf8::{decode_utf8, encode_utf8_decode_utf8, valid_utf8};
use num_traits::Num;
use crate::cbor::{cbor_wf, lemma_model_pairs_pointwise, lemma_models_pointwise, model_of, CborValue};
use crate::cbor_codec::{decode_cbor, enc_spec};
use crate::common::CredentialType;
use crate::crypto::KeyAlias;
use crate::keymap::{key_to_string_spec, CborKeyMapper};
use crate::text::{dec_parse, decimal_of, parse_i128, string_from_utf8};

verus! {

/// Why a CWT could not be parsed or validated.
#[derive(Debug)]
pub enum CwtError {
    /// The payload bytes are not a UTF-8 string.
    CwsPayloadDecode,
    /// The payload did not begin with the multibase prefix '9', or the
    /// rest was not a base-10 numeral.
    Base10Decode,
    /// The decoded bytes did not inflate as a DEFLATE stream.
    Decompression,
    /// The inflated bytes did not decode as a CBOR `COSE_Sign1`.
    CborDecoding,
    /// The claims could not be read out of the payload.
    ClaimsRetrieval,
    /// The token carries no payload.
    EmptyPayload,
    /// A claim is present but malformed; carries the claim's name.
    MalformedClaim(String),
    /// Trust could not be established; carries the reason.
    Trust(String),
    /// The token is expired; carries the expiration timestamp rendering.
    CwtExpired(String),
    /// The trusted root certificates could not be loaded.
    LoadRootCertificate,
    /// An internal error.
    Internal,
    /// The signature over the token did not verify; carries the reason.
    CwtSignatureVerification(String),
    /// The signer certificate cannot be used for signatures.
    SignerCertificateInvalid,
    /// The signer certificate was not issued by the candidate root.
    SignerCertificateMismatch,
    /// The root certificate cannot be used to verify certificates.
    RootCertificateInvalid,
    /// The signer certificate could not be re-encoded as DER.
    UnableToEncodeSignerCertificateAsDer,
    /// The root certificate could not be re-encoded as DER.
    UnableToEncodeRootCertificateAsDer,
    /// The signer certificate's extensions could not be read.
    UnableToExtractExtensionsFromSignerCertificate,
    /// The root certificate is outside its validity window.
    RootCertificateExpired,
    /// The signer certificate is outside its validity window.
    SignerCertificateExpired,
    /// The root certificate's extensions could not be read.
    UnableToExtractExtensionsFromRootCertificate,
}

/// Whether a string is a base-10 numeral as the big-integer parser
/// accepts one: decimal digits, with a leading sign and underscore
/// separators tolerated. Named for what `num_traits::Num::from_str_radix`
/// with radix 10 accepts on `num_bigint::BigUint`.
pub uninterp spec fn is_base10(s: Seq<char>) -> bool;

/// The big-endian bytes of the integer a base-10 numeral denotes. Named
/// for what `num_bigint::BigUint::to_bytes_be` returns for it.
pub uninterp spec fn base10_bytes_of(s: Seq<char>) -> Seq<u8>;

/// Relies on `num_bigint::BigUint` through `num_traits::Num`: parsing a
/// base-10 numeral succeeds exactly on well-formed input and the
/// big-endian byte rendering is a function of the numeral alone.
#[verifier::external_body]
fn base10_to_bytes(s: &str) -> (r: Option<Vec<u8>>)
    ensures
        r is Some <==> is_base10(s@),
        r matches Some(t) ==> t@ == base10_bytes_of(s@),
{
    <num_bigint::BigUint as Num>::from_str_radix(s, 10).ok().map(|b| b.to_bytes_be())
}

/// Whether a byte string is a well-formed raw DEFLATE stream. Named for
/// what `miniz_oxide::inflate::decompress_to_vec` accepts.
pub uninterp spec fn inflates(b: Seq<u8>) -> bool;

/// The bytes a raw DEFLATE stream inflates to. Named for what
/// `miniz_oxide::inflate::decompress_to_vec` returns.
pub uninterp spec fn inflate_of(b: Seq<u8>) -> Seq<u8>;

/// Relies on `miniz_oxide::inflate::decompress_to_vec`: inflation
/// succeeds exactly on well-formed streams and its output is a function
/// of the input bytes alone.
#[verifier::external_body]
fn inflate(bytes: &Vec<u8>) -> (r: Option<Vec<u8>>)
    ensures
        r is Some <==> inflates(bytes@),
        r matches Some(t) ==> t@ == inflate_of(bytes@),
{
    miniz_oxide::inflate::decompress_to_vec(bytes).ok()
}

/// A single-signer COSE signed object, as its four-element CBOR array
/// carries it: serialized protected headers, unprotected header map,
/// optional payload, and signature bytes.
#[derive(Debug)]
pub struct CoseSign1 {
    pub protected: Vec<u8>,
    pub unprotected: Vec<(CborValue, CborValue)>,
    pub payload: Option<Vec<u8>>,
    pub signature: Vec<u8>,
}

/// Strip the COSE_Sign1 tag (18) from a decoded item, where present.
pub open spec fn untag18(v: CborValue) -> CborValue {
    match v {
        CborValue::Tag(18u64, inner) => *inner,
        _ => v,
    }
}

/// Whether a CBOR item has the COSE_Sign1 shape: a four-element array of
/// protected bytes, an unprotected map, a byte-string or null payload,
/// and signature bytes.
pub open spec fn is_cose_shape(v: CborValue) -> bool {
    &&& v matches CborValue::Array(items)
    &&& items@.len() == 4
    &&& items@[0] is Bytes
    &&& items@[1] is ItemMap
    &&& (items@[2] is Bytes || items@[2] is Null)
    &&& items@[3] is Bytes
}

/// How the fields of a parsed `CoseSign1` relate to the CBOR item they
/// were read from.
pub open spec fn cose_fields(v: CborValue, cs: CoseSign1) -> bool {
    &&& v matches CborValue::Array(items)
    &&& items@.len() == 4
    &&& (items@[0] matches CborValue::Bytes(pb) && pb@ == cs.protected@)
    &&& (items@[1] matches CborValue::ItemMap(um) && um@ == cs.unprotected@)
    &&& match items@[2] {
        CborValue::Bytes(pl) => cs.payload matches Some(p) && p@ == pl@,
        _ => cs.payload is None,
    }
    &&& (items@[3] matches CborValue::Bytes(sg) && sg@ == cs.signature@)
}

impl CoseSign1 {
    /// Read a `COSE_Sign1` out of a decoded CBOR item, accepting an
    /// optional tag 18 around the four-element array.
    pub fn from_cbor(v: CborValue) -> (r: Result<CoseSign1, CwtError>)
        ensures
            r is Ok <==> is_cose_shape(untag18(v)),
            r matches Ok(cs) ==> cose_fields(untag18(v), cs),
            r matches Err(e) ==> e is CborDecoding,
    {
        let inner = match v {
            CborValue::Tag(18u64, b) => *b,
            other => other,
        };
        match inner {
            CborValue::Array(items) => {
                if items.len() != 4 {
                    return Err(CwtError::CborDecoding);
                }
                let mut it = items;
                // take the elements back to front to move them out
                let sig_v = it.pop().unwrap();
                let pay_v = it.pop().unwrap();
                let unp_v = it.pop().unwrap();
                let pro_v = it.pop().unwrap();
                let protected = match pro_v {
                    CborValue::Bytes(b) => b,
                    _ => {
                        return Err(CwtError::CborDecoding);
                    }
                };
                let unprotected = match unp_v {
                    CborValue::ItemMap(m) => m,
                    _ => {
                        return Err(CwtError::CborDecoding);
                    }
                };
                let payload = match pay_v {
                    CborValue::Bytes(b) => Some(b),
                    CborValue::Null => None,
                    _ => {
                        return Err(CwtError::CborDecoding);
                    }
                };
                let signature = match sig_v {
                    CborValue::Bytes(b) => b,
                    _ => {
                        return Err(CwtError::CborDecoding);
                    }
                };
                Ok(CoseSign1 { protected, unprotected, payload, signature })
            }
            _ => Err(CwtError::CborDecoding),
        }
    }
}

/// The display name of a claim key: integer keys go through the mapping
/// table, text keys that are decimal numerals go through it as well, and
/// any other text key stands for itself.
pub open spec fn claim_name_spec(key: CborValue) -> Seq<char>
    recommends
        key is Text || key is Integer,
{
    match key {
        CborValue::Text(s) => match dec_parse(s@) {
            Some(n) => key_to_string_spec(n),
            None => s@,
        },
        CborValue::Integer(i) => key_to_string_spec(i.value()),
        _ => Seq::empty(),
    }
}

/// The display name of a claim key.
pub fn get_key_name(key: &CborValue) -> (r: Result<String, CwtError>)
    requires
        cbor_wf(*key),
    ensures
        r is Ok <==> (key is Text || key is Integer),
        r matches Ok(s) ==> s@ == claim_name_spec(*key),
        r matches Err(e) ==> e is ClaimsRetrieval,
{
    match key {
        CborValue::Text(s) => {
            match parse_i128(s.as_str()) {
                Some(n) => Ok(CborKeyMapper::key_to_string(n)),
                None => Ok(s.clone()),
            }
        }
        CborValue::Integer(i) => {
            let v = i.to_i128();
            Ok(CborKeyMapper::key_to_string(v))
        }
        _ => Err(CwtError::ClaimsRetrieval),
    }
}

/// The standard numeric claim keys whose values carry dates or
/// timestamps: expiration (4), not-before (5) and issued-at (6).
pub open spec fn is_temporal_key(key: CborValue) -> bool {
    key matches CborValue::Integer(i) && (i.value() == 4 || i.value() == 5 || i.value() == 6)
}

/// The display text of a temporal claim value: text passes through,
/// integers render in decimal, a float shows its display text, and
/// anything else shows nothing.
pub open spec fn temporal_text(v: CborValue) -> Seq<char> {
    match v {
        CborValue::Text(s) => s@,
        CborValue::Integer(i) => decimal_of(i.value()),
        CborValue::Float { text, .. } => text@,
        _ => Seq::empty(),
    }
}

/// The display model of a claim value: temporal claims show their
/// rendered text, every other claim keeps its value.
pub open spec fn claim_display_model(key: CborValue, v: CborValue) -> crate::cbor::CborModel {
    if is_temporal_key(key) {
        crate::cbor::CborModel::Text { t: temporal_text(v) }
    } else {
        model_of(v)
    }
}

/// Render a temporal claim value for display: text dates pass through,
/// integers render in decimal, and a float carries its display text.
/// Anything else renders empty.
pub fn render_temporal(value: &CborValue) -> (r: String)
    requires
        cbor_wf(*value),
    ensures
        match value {
            CborValue::Text(s) => r@ == s@,
            CborValue::Integer(i) => r@ == decimal_of(i.value()),
            CborValue::Float { text, .. } => r@ == text@,
            _ => r@ == Seq::<char>::empty(),
        },
{
    match value {
        CborValue::Text(s) => s.clone(),
        CborValue::Integer(i) => i.to_text(),
        CborValue::Float { text, .. } => text.clone(),
        _ => String::new(),
    }
}

/// The first value under an integer claim key, scanning in map order.
pub open spec fn claim_lookup(entries: Seq<(CborValue, CborValue)>, key: int) -> Option<
    CborValue,
>
    decreases entries.len(),
{
    if entries.len() == 0 {
        None
    } else if entries[0].0 matches CborValue::Integer(i) && i.value() == key {
        Some(entries[0].1)
    } else {
        claim_lookup(entries.drop_first(), key)
    }
}

/// A parsed CBOR Web Token: the raw compact payload, the signed object,
/// and its claims map.
#[derive(Debug)]
pub struct Cwt {
    pub id: String,
    pub payload: Vec<u8>,
    pub cose: CoseSign1,
    pub claims_map: Vec<(CborValue, CborValue)>,
    pub key_alias: Option<KeyAlias>,
}

impl Cwt {
    /// The collection id of this credential.
    pub fn id(&self) -> (r: &String)
        ensures
            r == &self.id,
    {
        &self.id
    }

    /// The credential type label: always `cwt`.
    pub fn credential_type(&self) -> (r: CredentialType)
        ensures
            r.0@ == "cwt"@,
    {
        CredentialType(String::from_str("cwt"))
    }

    /// The key alias for the credential, where one is set.
    pub fn key_alias(&self) -> (r: &Option<KeyAlias>)
        ensures
            r == &self.key_alias,
    {
        &self.key_alias
    }

    /// The raw compact payload the token was built from.
    pub fn payload(&self) -> (r: &Vec<u8>)
        ensures
            r == &self.payload,
    {
        &self.payload
    }

    /// The signed object.
    pub fn cose(&self) -> (r: &CoseSign1)
        ensures
            r == &self.cose,
    {
        &self.cose
    }

    /// The claims map, as decoded key/value pairs.
    pub fn claims_map(&self) -> (r: &Vec<(CborValue, CborValue)>)
        ensures
            r == &self.claims_map,
    {
        &self.claims_map
    }

    /// The claims map's well-formedness, carried from the decoder.
    pub open spec fn claims_wf(&self) -> bool {
        forall|k: int|
            0 <= k < self.claims_map@.len() ==> cbor_wf(#[trigger] self.claims_map@[k].0)
                && cbor_wf(self.claims_map@[k].1)
    }

    /// Parse a CWT from its compact form: a leading '9', a base-10
    /// numeral denoting a big-endian integer, whose bytes inflate to the
    /// CBOR of a `COSE_Sign1` whose payload holds the claims map.
    ///
    /// The decode and claim errors hold only what the canonical
    /// decoder's success-side specification shows: on inputs it
    /// rejects, nothing further is claimed.
    pub fn new_from_base10(id: String, payload: Vec<u8>) -> (r: Result<Cwt, CwtError>)
        ensures
            ({
                let t = decode_utf8(payload@);
                &&& (r matches Err(e) && e is CwsPayloadDecode <==> !valid_utf8(payload@))
                &&& ((r matches Err(e) && e is Base10Decode) <==> valid_utf8(payload@) && (
                t.len() == 0 || t[0] != '9' || !is_base10(t.skip(1))))
                &&& ((r matches Err(e) && e is Decompression) <==> valid_utf8(payload@)
                    && t.len() > 0 && t[0] == '9' && is_base10(t.skip(1)) && !inflates(
                    base10_bytes_of(t.skip(1)),
                ))
                &&& (r matches Err(e) && (e is CborDecoding || e is ClaimsRetrieval || e
                    is EmptyPayload) ==> valid_utf8(payload@) && t.len() > 0 && t[0] == '9'
                    && is_base10(t.skip(1)) && inflates(base10_bytes_of(t.skip(1))))
                &&& (r matches Err(e) ==> (e is CwsPayloadDecode || e is Base10Decode || e
                    is Decompression || e is CborDecoding || e is ClaimsRetrieval || e
                    is EmptyPayload))
                &&& (r matches Ok(cwt) ==> {
                    &&& cwt.id@ == id@
                    &&& cwt.payload@ == payload@
                    &&& cwt.key_alias is None
                    &&& cwt.claims_wf()
                    &&& valid_utf8(payload@)
                    &&& t.len() > 0 && t[0] == '9' && is_base10(t.skip(1))
                    &&& inflates(base10_bytes_of(t.skip(1)))
                    &&& exists|v: CborValue|
                        {
                            &&& inflate_of(base10_bytes_of(t.skip(1))) == enc_spec(v)
                            &&& is_cose_shape(untag18(v))
                            &&& cose_fields(untag18(v), cwt.cose)
                        }
                    &&& cwt.cose.payload matches Some(pb) && pb@ == enc_spec(
                        CborValue::ItemMap(cwt.claims_map),
                    )
                })
            }),
    {
        let text = match string_from_utf8(copy_bytes(&payload)) {
            Some(t) => t,
            None => {
                return Err(CwtError::CwsPayloadDecode);
            }
        };
        proof {
            encode_utf8_decode_utf8(text@);
            assert(decode_utf8(payload@) == text@);
        }
        let n = text.as_str().unicode_len();
        if n == 0 {
            return Err(CwtError::Base10Decode);
        }
        if text.as_str().get_char(0) != '9' {
            return Err(CwtError::Base10Decode);
        }
        let rest = text.as_str().substring_char(1, n);
        proof {
            assert(rest@ =~= text@.skip(1));
        }
        let compressed = match base10_to_bytes(rest) {
            Some(b) => b,
            None => {
                return Err(CwtError::Base10Decode);
            }
        };
        let cwt_bytes = match inflate(&compressed) {
            Some(b) => b,
            None => {
                return Err(CwtError::Decompression);
            }
        };
        let value = match decode_cbor(cwt_bytes.as_slice()) {
            Ok(v) => v,
            Err(_) => {
                return Err(CwtError::CborDecoding);
            }
        };
        let ghost gv = value;
        let cose = match CoseSign1::from_cbor(value) {
            Ok(c) => c,
            Err(e) => {
                return Err(e);
            }
        };
        let claims_bytes = match &cose.payload {
            Some(b) => b,
            None => {
                return Err(CwtError::EmptyPayload);
            }
        };
        let claims_value = match decode_cbor(claims_bytes.as_slice()) {
            Ok(v) => v,
            Err(_) => {
                return Err(CwtError::ClaimsRetrieval);
            }
        };
        let ghost gcv = claims_value;
        let claims_map = match claims_value {
            CborValue::ItemMap(m) => m,
            _ => {
                return Err(CwtError::ClaimsRetrieval);
            }
        };
        proof {
            assert(gcv == CborValue::ItemMap(claims_map));
        }
        let r = Cwt { id, payload, cose, claims_map, key_alias: None };
        proof {
            let t = decode_utf8(r.payload@);
            assert(exists|v: CborValue|
                {
                    &&& inflate_of(base10_bytes_of(t.skip(1))) == enc_spec(v)
                    &&& is_cose_shape(untag18(v))
                    &&& cose_fields(untag18(v), r.cose)
                }) by {
                assert(inflate_of(base10_bytes_of(t.skip(1))) == enc_spec(gv) && is_cose_shape(
                    untag18(gv),
                ) && cose_fields(untag18(gv), r.cose));
            }
        }
        Ok(r)
    }

    /// Whether every claim key can carry a display name: each key is a
    /// text string or an integer.
    pub open spec fn claim_keys_named(&self) -> bool {
        forall|k: int|
            0 <= k < self.claims_map@.len() ==> ((#[trigger] self.claims_map@[k].0) is Text
                || self.claims_map@[k].0 is Integer)
    }

    /// The display claims: each claim key mapped through the claim-name
    /// table, temporal claims rendered as text. Succeeds exactly when
    /// every claim key is a text string or an integer.
    pub fn claims(&self) -> (r: Result<Vec<(String, CborValue)>, CwtError>)
        requires
            self.claims_wf(),
        ensures
            r is Ok <==> self.claim_keys_named(),
            r matches Err(e) ==> e is ClaimsRetrieval,
            r matches Ok(out) ==> out@.len() == self.claims_map@.len() && forall|k: int|
                0 <= k < out@.len() ==> (#[trigger] out@[k].0)@ == claim_name_spec(
                    self.claims_map@[k].0,
                ) && model_of(out@[k].1) == claim_display_model(
                    self.claims_map@[k].0,
                    self.claims_map@[k].1,
                ),
    {
        let mut out: Vec<(String, CborValue)> = Vec::new();
        let mut i: usize = 0;
        while i < self.claims_map.len()
            invariant
                self.claims_wf(),
                i <= self.claims_map@.len(),
                out@.len() == i,
                forall|k: int| 0 <= k < i ==> ((#[trigger] self.claims_map@[k].0) is Text
                    || self.claims_map@[k].0 is Integer),
                forall|k: int| 0 <= k < i ==> (#[trigger] out@[k].0)@ == claim_name_spec(
                    self.claims_map@[k].0,
                ) && model_of(out@[k].1) == claim_display_model(
                    self.claims_map@[k].0,
                    self.claims_map@[k].1,
                ),
            decreases self.claims_map@.len() - i,
        {
            proof {
                assert(cbor_wf(#[trigger] self.claims_map@[i as int].0));
                assert(cbor_wf(self.claims_map@[i as int].1));
            }
            let name = match get_key_name(&self.claims_map[i].0) {
                Ok(s) => s,
                Err(e) => {
                    proof {
                        assert(!((self.claims_map@[i as int].0) is Text
                            || self.claims_map@[i as int].0 is Integer));
                    }
                    return Err(e);
                }
            };
            let key_i128 = match &self.claims_map[i].0 {
                CborValue::Integer(ci) => Some(ci.to_i128()),
                _ => None,
            };
            let is_temporal = match key_i128 {
                Some(k) => k == 4 || k == 5 || k == 6,
                None => false,
            };
            proof {
                assert(is_temporal == is_temporal_key(self.claims_map@[i as int].0));
            }
            let value = if is_temporal {
                let t = render_temporal(&self.claims_map[i].1);
                proof {
                    assert(t@ == temporal_text(self.claims_map@[i as int].1));
                }
                CborValue::Text(t)
            } else {
                deep_clone_value(&self.claims_map[i].1)
            };
            proof {
                assert(model_of(value) == claim_display_model(
                    self.claims_map@[i as int].0,
                    self.claims_map@[i as int].1,
                ));
            }
            out.push((name, value));
            i = i + 1;
        }
        Ok(out)
    }

    /// Validate the temporal claims against the given clock reading, a
    /// Unix timestamp in seconds: the token is rejected exactly when it
    /// carries an expiration claim that is an integer lying at or before
    /// `now`, and a non-integer expiration claim is malformed. Other
    /// temporal claims are reported but not enforced here.
    pub fn validate_claims(&self, now: i128) -> (r: Result<(), CwtError>)
        requires
            self.claims_wf(),
        ensures
            match claim_lookup(self.claims_map@, 4) {
                Option::None => r is Ok,
                Option::Some(v) => match v {
                    CborValue::Integer(e) => if e.value() < now {
                        r matches Err(err) && err is CwtExpired
                    } else {
                        r is Ok
                    },
                    _ => r matches Err(err) && err is MalformedClaim,
                },
            },
    {
        proof {
            assert(self.claims_map@.skip(0) =~= self.claims_map@);
        }
        let mut i: usize = 0;
        while i < self.claims_map.len()
            invariant
                self.claims_wf(),
                i <= self.claims_map@.len(),
                claim_lookup(self.claims_map@, 4) == claim_lookup(
                    self.claims_map@.skip(i as int),
                    4,
                ),
            decreases self.claims_map@.len() - i,
        {
            proof {
                assert(cbor_wf(#[trigger] self.claims_map@[i as int].0));
                assert(self.claims_map@.skip(i as int)[0] == self.claims_map@[i as int]);
            }
            let hit = match &self.claims_map[i].0 {
                CborValue::Integer(ci) => ci.to_i128() == 4,
                _ => false,
            };
            if hit {
                match &self.claims_map[i].1 {
                    CborValue::Integer(e) => {
                        let exp = e.to_i128();
                        if exp < now {
                            return Err(CwtError::CwtExpired(e.to_text()));
                        }
                        return Ok(());
                    }
                    _ => {
                        return Err(CwtError::MalformedClaim(String::from_str("exp")));
                    }
                }
            }
            proof {
                assert(self.claims_map@.skip(i as int).drop_first() =~= self.claims_map@.skip(
                    i + 1,
                ));
            }
            i = i + 1;
        }
        proof {
            assert(self.claims_map@.skip(self.claims_map@.len() as int).len() == 0);
        }
        Ok(())
    }
}

/// Copy a byte vector.
pub fn copy_bytes(b: &Vec<u8>) -> (r: Vec<u8>)
    ensures
        r@ == b@,
{
    let mut out: Vec<u8> = Vec::new();
    let mut i: usize = 0;
    while i < b.len()
        invariant
            i <= b@.len(),
            out@ == b@.subrange(0, i as int),
        decreases b@.len() - i,
    {
        out.push(b[i]);
        assert(out@ =~= b@.subrange(0, i + 1));
        i = i + 1;
    }
    proof {
        assert(b@.subrange(0, b@.len() as int) =~= b@);
    }
    out
}

/// Structurally copy a CBOR value: the copy has the same model.
#[verifier::loop_isolation(false)]
pub fn deep_clone_value(v: &CborValue) -> (r: CborValue)
    requires
        cbor_wf(*v),
    ensures
        cbor_wf(r),
        model_of(r) == model_of(*v),
    decreases *v,
{
    match v {
        CborValue::Null => CborValue::Null,
        CborValue::Bool(b) => CborValue::Bool(*b),
        CborValue::Integer(i) => CborValue::Integer(i.clone_exact()),
        CborValue::Float { bits, text } => CborValue::Float { bits: *bits, text: text.clone() },
        CborValue::Bytes(b) => CborValue::Bytes(copy_bytes(b)),
        CborValue::Text(s) => CborValue::Text(s.clone()),
        CborValue::Array(elems) => {
            let mut out: Vec<CborValue> = Vec::new();
            let mut i: usize = 0;
            while i < elems.len()
                invariant
                    i <= elems@.len(),
                    out@.len() == i,
                    forall|k: int| 0 <= k < i ==> cbor_wf(#[trigger] out@[k]) && model_of(
                        out@[k],
                    ) == model_of(elems@[k]),
                decreases elems@.len() - i,
            {
                proof {
                    assert(decreases_to!(*v => elems@[i as int]));
                    assert(cbor_wf(#[trigger] elems@[i as int]));
                }
                out.push(deep_clone_value(&elems[i]));
                i = i + 1;
            }
            proof {
                lemma_models_pointwise(out@, elems@);
            }
            CborValue::Array(out)
        }
        CborValue::ItemMap(entries) => {
            let mut out: Vec<(CborValue, CborValue)> = Vec::new();
            let mut i: usize = 0;
            while i < entries.len()
                invariant
                    i <= entries@.len(),
                    out@.len() == i,
                    forall|k: int| 0 <= k < i ==> cbor_wf(#[trigger] out@[k].0) && cbor_wf(
                        out@[k].1,
                    ) && model_of(out@[k].0) == model_of(entries@[k].0) && model_of(out@[k].1)
                        == model_of(entries@[k].1),
                decreases entries@.len() - i,
            {
                proof {
                    assert(decreases_to!(*v => entries@[i as int]));
                    assert(decreases_to!(entries@[i as int] => entries@[i as int].0));
                    assert(decreases_to!(entries@[i as int] => entries@[i as int].1));
                    assert(cbor_wf(#[trigger] entries@[i as int].0));
                    assert(cbor_wf(entries@[i as int].1));
                }
                let k = deep_clone_value(&entries[i].0);
                let val = deep_clone_value(&entries[i].1);
                out.push((k, val));
                i = i + 1;
            }
            proof {
                lemma_model_pairs_pointwise(out@, entries@);
            }
            CborValue::ItemMap(out)
        }
        CborValue::Tag(id, inner) => CborValue::Tag(*id, Box::new(deep_clone_value(inner))),
    }
}

} // verus!
