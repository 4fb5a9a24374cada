use vstd::prelude::*;
use vstd::string::StringExecFns;
use crate::json::{JsonValue};
use crate::permission::CredentialFormat;
use crate::text::str_eq;

verus! {

/// Why a JSON-LD presentation could not be built.
#[derive(Debug)]
pub enum PresentationBuilderError {
    /// A DID could not be used.
    DidError(String),
    /// A URL could not be parsed.
    UrlParseError(String),
    /// A value could not be serialized.
    SerializationError(String),
    /// An IRI or URI was invalid.
    InvalidIri(String),
    /// A context could not be loaded.
    Context(String),
    /// Signing failed.
    SignatureError(String),
    /// No signing suite fits the verification method.
    SigningSuitePickError,
    /// The credential format cannot stand in a JSON-LD presentation.
    UnsupportedCredentialFormat,
}

/// Whether a data-integrity cryptosuite is in the accepted set the
/// wallet re-signs with.
pub open spec fn supported_cryptosuite(s: Seq<char>) -> bool {
    s == "ecdsa-rdfc-2019"@
}

/// Whether a cryptosuite may be used for signing a presentation: the
/// accepted re-signing suite, and the legacy P-256 suite kept for
/// compatibility.
pub open spec fn supported_signing_suite(s: Seq<char>) -> bool {
    s == "ecdsa-rdfc-2019"@ || s == "EcdsaSecp256r1Signature2019"@
}

/// Test a cryptosuite against the accepted set.
pub fn is_supported_cryptosuite(s: &str) -> (r: bool)
    ensures
        r == supported_cryptosuite(s@),
{
    str_eq(s, "ecdsa-rdfc-2019")
}

/// Test a cryptosuite against the signing suites.
pub fn is_supported_signing_suite(s: &str) -> (r: bool)
    ensures
        r == supported_signing_suite(s@),
{
    str_eq(s, "ecdsa-rdfc-2019") || str_eq(s, "EcdsaSecp256r1Signature2019")
}

/// The first value under a key of a JSON object, in stored order.
pub open spec fn json_lookup(entries: Seq<(String, JsonValue)>, key: Seq<char>) -> Option<
    JsonValue,
>
    decreases entries.len(),
{
    if entries.len() == 0 {
        None
    } else if entries[0].0@ == key {
        Some(entries[0].1)
    } else {
        json_lookup(entries.drop_first(), key)
    }
}

/// Whether a credential-embedded proof survives re-signing: a proof
/// whose `cryptosuite` member is a string is kept exactly when that
/// suite is in the accepted set; a proof without a string `cryptosuite`
/// member is kept.
pub open spec fn proof_kept(p: JsonValue) -> bool {
    match p {
        JsonValue::Object(es) => match json_lookup(es@, "cryptosuite"@) {
            Some(v) => match v {
                JsonValue::Str(s) => supported_cryptosuite(s@),
                _ => true,
            },
            None => true,
        },
        _ => false,
    }
}

/// Look a key up in a JSON object's entries.
pub fn object_entry<'a>(entries: &'a Vec<(String, JsonValue)>, key: &str) -> (r: Option<
    &'a JsonValue,
>)
    ensures
        match r {
            Some(v) => json_lookup(entries@, key@) == Some(*v),
            None => json_lookup(entries@, key@) is None,
        },
{
    proof {
        assert(entries@.skip(0) =~= entries@);
    }
    let mut i: usize = 0;
    while i < entries.len()
        invariant
            i <= entries@.len(),
            json_lookup(entries@, key@) == json_lookup(entries@.skip(i as int), key@),
        decreases entries@.len() - i,
    {
        proof {
            assert(entries@.skip(i as int)[0] == entries@[i as int]);
            assert(entries@.skip(i as int).drop_first() =~= entries@.skip(i + 1));
        }
        if str_eq(entries[i].0.as_str(), key) {
            return Some(&entries[i].1);
        }
        i = i + 1;
    }
    proof {
        assert(entries@.skip(entries@.len() as int).len() == 0);
    }
    None
}

/// The proofs of a sequence that survive re-signing, in order.
pub open spec fn kept_proofs(s: Seq<JsonValue>) -> Seq<JsonValue>
    decreases s.len(),
{
    if s.len() == 0 {
        Seq::empty()
    } else if proof_kept(s[0]) {
        seq![s[0]] + kept_proofs(s.drop_first())
    } else {
        kept_proofs(s.drop_first())
    }
}

/// Filter the proofs embedded in a credential before re-signing: keep
/// exactly the proofs whose cryptosuite the wallet accepts, in order,
/// so that the verifier sees a presentation with a coherent proof set.
pub fn filter_supported_proofs(proofs: Vec<JsonValue>) -> (r: Vec<JsonValue>)
    ensures
        r@ == kept_proofs(proofs@),
{
    let ghost orig = proofs@;
    let mut out: Vec<JsonValue> = Vec::new();
    let mut rest = proofs;
    loop
        invariant
            kept_proofs(orig) == out@ + kept_proofs(rest@),
        ensures
            rest@.len() == 0,
            kept_proofs(orig) == out@ + kept_proofs(rest@),
        decreases rest@.len(),
    {
        if rest.len() == 0 {
            break ;
        }
        let ghost rest_pre = rest@;
        let p = rest.remove(0);
        proof {
            assert(rest@ =~= rest_pre.drop_first());
            assert(rest_pre[0] == p);
        }
        let keep = match &p {
            JsonValue::Object(es) => {
                match object_entry(es, "cryptosuite") {
                    Some(v) => match v {
                        JsonValue::Str(s) => is_supported_cryptosuite(s.as_str()),
                        _ => true,
                    },
                    None => true,
                }
            }
            _ => false,
        };
        proof {
            assert(keep == proof_kept(p));
        }
        if keep {
            let ghost out_pre = out@;
            out.push(p);
            proof {
                assert(kept_proofs(rest_pre) == seq![p] + kept_proofs(rest_pre.drop_first()));
                assert(out_pre + kept_proofs(rest_pre) =~= out@ + kept_proofs(rest@));
            }
        } else {
            proof {
                assert(kept_proofs(rest_pre) == kept_proofs(rest_pre.drop_first()));
            }
        }
    }
    proof {
        assert(kept_proofs(rest@) =~= Seq::<JsonValue>::empty());
        assert(out@ =~= kept_proofs(orig));
    }
    out
}

/// Select the representation each credential takes inside a JSON-LD
/// verifiable presentation: a JWT credential stands as its compact JWS
/// string, a JSON-LD credential as its raw JSON; mdoc, SD-JWT and CWT
/// credentials cannot stand in a JSON-LD presentation.
pub fn presentation_item(
    format: CredentialFormat,
    jws: Option<String>,
    raw: Option<JsonValue>,
) -> (r: Result<JsonValue, PresentationBuilderError>)
    ensures
        (format is MsoMdoc || format is Vcdm2SdJwt || format is Cwt) ==> (r matches Err(e) && e
            is UnsupportedCredentialFormat),
        (format is JwtVc || format is JwtVcJsonLd) ==> match jws {
            Some(s) => r matches Ok(v) && (v matches JsonValue::Str(t) && t@ == s@),
            None => r matches Err(e) && e is UnsupportedCredentialFormat,
        },
        format is LdpVc ==> match raw {
            Some(v) => r matches Ok(out) && out == v,
            None => r matches Err(e) && e is UnsupportedCredentialFormat,
        },
{
    match format {
        CredentialFormat::MsoMdoc => Err(PresentationBuilderError::UnsupportedCredentialFormat),
        CredentialFormat::Vcdm2SdJwt => Err(
            PresentationBuilderError::UnsupportedCredentialFormat,
        ),
        CredentialFormat::Cwt => Err(PresentationBuilderError::UnsupportedCredentialFormat),
        CredentialFormat::JwtVc => {
            match jws {
                Some(s) => Ok(JsonValue::Str(s)),
                None => Err(PresentationBuilderError::UnsupportedCredentialFormat),
            }
        }
        CredentialFormat::JwtVcJsonLd => {
            match jws {
                Some(s) => Ok(JsonValue::Str(s)),
                None => Err(PresentationBuilderError::UnsupportedCredentialFormat),
            }
        }
        CredentialFormat::LdpVc => {
            match raw {
                Some(v) => Ok(v),
                None => Err(PresentationBuilderError::UnsupportedCredentialFormat),
            }
        }
    }
}


/// Assemble the unsigned version-1 verifiable presentation around the
/// selected credential items: the v1 context, the presentation id and
/// type, the holder, and the credential list, in that entry order. The
/// embedding application signs the result with its JSON-LD machinery.
pub fn assemble_presentation_v1(id: String, holder: String, credentials: Vec<JsonValue>) -> (r:
    JsonValue)
    ensures
        r matches JsonValue::Object(es) && es@.len() == 5 && {
            &&& es@[0].0@ == "@context"@
            &&& es@[0].1 matches JsonValue::Array(cx) && (cx@.len() == 1 && (cx@[0] matches
                JsonValue::Str(u) && u@ == "https://www.w3.org/2018/credentials/v1"@))
            &&& es@[1].0@ == "id"@
            &&& es@[1].1 matches JsonValue::Str(i) && i@ == id@
            &&& es@[2].0@ == "type"@
            &&& es@[2].1 matches JsonValue::Array(ts) && (ts@.len() == 1 && (ts@[0] matches
                JsonValue::Str(t) && t@ == "VerifiablePresentation"@))
            &&& es@[3].0@ == "holder"@
            &&& es@[3].1 matches JsonValue::Str(h) && h@ == holder@
            &&& es@[4].0@ == "verifiableCredential"@
            &&& es@[4].1 matches JsonValue::Array(vc) && vc == credentials
        },
{
    let mut context: Vec<JsonValue> = Vec::new();
    context.push(JsonValue::Str(String::from_str("https://www.w3.org/2018/credentials/v1")));
    let mut types: Vec<JsonValue> = Vec::new();
    types.push(JsonValue::Str(String::from_str("VerifiablePresentation")));
    let mut es: Vec<(String, JsonValue)> = Vec::new();
    es.push((String::from_str("@context"), JsonValue::Array(context)));
    es.push((String::from_str("id"), JsonValue::Str(id)));
    es.push((String::from_str("type"), JsonValue::Array(types)));
    es.push((String::from_str("holder"), JsonValue::Str(holder)));
    es.push((String::from_str("verifiableCredential"), JsonValue::Array(credentials)));
    JsonValue::Object(es)
}

/// Assemble the unsigned version-2 verifiable presentation: as the
/// version-1 form, with the v2 context.
pub fn assemble_presentation_v2(id: String, holder: String, credentials: Vec<JsonValue>) -> (r:
    JsonValue)
    ensures
        r matches JsonValue::Object(es) && es@.len() == 5 && {
            &&& es@[0].0@ == "@context"@
            &&& es@[0].1 matches JsonValue::Array(cx) && (cx@.len() == 1 && (cx@[0] matches
                JsonValue::Str(u) && u@ == "https://www.w3.org/ns/credentials/v2"@))
            &&& es@[1].0@ == "id"@
            &&& es@[1].1 matches JsonValue::Str(i) && i@ == id@
            &&& es@[2].0@ == "type"@
            &&& es@[2].1 matches JsonValue::Array(ts) && (ts@.len() == 1 && (ts@[0] matches
                JsonValue::Str(t) && t@ == "VerifiablePresentation"@))
            &&& es@[3].0@ == "holder"@
            &&& es@[3].1 matches JsonValue::Str(h) && h@ == holder@
            &&& es@[4].0@ == "verifiableCredential"@
            &&& es@[4].1 matches JsonValue::Array(vc) && vc == credentials
        },
{
    let mut context: Vec<JsonValue> = Vec::new();
    context.push(JsonValue::Str(String::from_str("https://www.w3.org/ns/credentials/v2")));
    let mut types: Vec<JsonValue> = Vec::new();
    types.push(JsonValue::Str(String::from_str("VerifiablePresentation")));
    let mut es: Vec<(String, JsonValue)> = Vec::new();
    es.push((String::from_str("@context"), JsonValue::Array(context)));
    es.push((String::from_str("id"), JsonValue::Str(id)));
    es.push((String::from_str("type"), JsonValue::Array(types)));
    es.push((String::from_str("holder"), JsonValue::Str(holder)));
    es.push((String::from_str("verifiableCredential"), JsonValue::Array(credentials)));
    JsonValue::Object(es)
}

} // verus!\n