use vstd::prelude::*;
use vstd::string::StringExecFns;
use vstd::utf8::encode_utf8;
use crate::cbor::{cbor_wf, CborValue};
use crate::cbor_codec::{enc_spec, enc_seq_spec, encodable, encode_cbor, head_spec};
use crate::encoding::{base64url_nopad_encode, base64url_nopad_of, sha256, sha256_of};
use crate::json::{json_render, json_render_into, json_text, str_json, JsonValue};
use crate::text::str_eq;
use crate::presentation::{json_lookup, object_entry};
use crate::matcher::{age_over_count, find_match, lists_match_claims, mdoc_wf, DcqlQueryModel, MdocModel, RequestMatch180137};

verus! {

/// The canonical encoding of one CBOR text string.
pub open spec fn text_enc(s: Seq<char>) -> Seq<u8> {
    head_spec(3, encode_utf8(s).len()) + encode_utf8(s)
}

/// The CBOR encoding of the handover info triple: a three-element array
/// of the origin, the client id and the nonce.
pub open spec fn handover_info_enc(o: Seq<char>, c: Seq<char>, n: Seq<char>) -> Seq<u8> {
    head_spec(4, 3) + (text_enc(o) + text_enc(c) + text_enc(n))
}

/// The transcript-binding hash of a browser-mediated presentation: the
/// SHA-256 digest of the CBOR-encoded handover info triple.
pub open spec fn handover_hash(o: Seq<char>, c: Seq<char>, n: Seq<char>) -> Seq<u8> {
    sha256_of(handover_info_enc(o, c, n))
}

/// Law: the handover hash is a function of the origin, client id and
/// nonce alone, so equal triples produce identical 32-byte hashes.
pub proof fn lemma_handover_deterministic(
    o1: Seq<char>,
    c1: Seq<char>,
    n1: Seq<char>,
    o2: Seq<char>,
    c2: Seq<char>,
    n2: Seq<char>,
)
    requires
        o1 == o2,
        c1 == c2,
        n1 == n2,
    ensures
        handover_hash(o1, c1, n1) == handover_hash(o2, c2, n2),
{
}

/// The origin, client id and nonce a presentation is bound to.
#[derive(Debug, Clone)]
pub struct HandoverInfo(pub String, pub String, pub String);

/// The handover tuple placed in the session transcript: a fixed label
/// and the 32-byte hash of the handover info.
#[derive(Debug, Clone)]
pub struct Handover(pub String, pub Vec<u8>);

impl Handover {
    /// Bind a presentation to its transport context: hash the CBOR
    /// encoding of `[origin, client_id, nonce]` and pair it with the
    /// handover label.
    pub fn new(origin: String, client_id: String, nonce: String) -> (r: Handover)
        ensures
            r.0@ == "OpenID4VPDCAPIHandover"@,
            r.1@ == handover_hash(origin@, client_id@, nonce@),
            r.1@.len() == 32,
    {
        let ghost o = origin@;
        let ghost c = client_id@;
        let ghost n = nonce@;
        let mut items: Vec<CborValue> = Vec::new();
        items.push(CborValue::Text(origin));
        items.push(CborValue::Text(client_id));
        items.push(CborValue::Text(nonce));
        let arr = CborValue::Array(items);
        proof {
            assert(cbor_wf(arr)) by {
                assert(forall|k: int|
                    0 <= k < 3 ==> cbor_wf(#[trigger] arr->Array_0@[k]));
            }
            assert(encodable(arr)) by {
                assert(forall|k: int|
                    0 <= k < 3 ==> encodable(#[trigger] arr->Array_0@[k]));
            }
            let s = arr->Array_0@;
            assert(enc_seq_spec(s) == enc_spec(s[0]) + enc_seq_spec(s.drop_first()));
            assert(s.drop_first()[0] == s[1]);
            assert(enc_seq_spec(s.drop_first()) == enc_spec(s[1]) + enc_seq_spec(
                s.drop_first().drop_first(),
            ));
            assert(s.drop_first().drop_first()[0] == s[2]);
            assert(s.drop_first().drop_first().drop_first() =~= Seq::<CborValue>::empty());
            assert(enc_seq_spec(s.drop_first().drop_first()) == enc_spec(s[2]) + enc_seq_spec(
                s.drop_first().drop_first().drop_first(),
            ));
            assert(enc_seq_spec(s.drop_first().drop_first().drop_first())
                == Seq::<u8>::empty());
            assert(enc_spec(s[0]) == text_enc(o));
            assert(enc_spec(s[1]) == text_enc(c));
            assert(enc_spec(s[2]) == text_enc(n));
            assert(enc_seq_spec(s) =~= text_enc(o) + text_enc(c) + text_enc(n));
            assert(enc_spec(arr) =~= handover_info_enc(o, c, n));
        }
        let bytes = match encode_cbor(&arr) {
            Ok(b) => b,
            Err(_) => {
                proof {
                    assert(false);
                }
                Vec::new()
            }
        };
        let hash = sha256(&bytes);
        Handover(String::from_str("OpenID4VPDCAPIHandover"), hash)
    }
}

/// Wrap a device response in a verifiable-presentation token: a JSON
/// object keyed by the query's credential id, holding the response bytes
/// base64url-encoded without padding.
pub fn vp_token(request_id: String, device_response: &Vec<u8>) -> (r: JsonValue)
    ensures
        r matches JsonValue::Object(es) && es@.len() == 1 && es@[0].0@ == request_id@ && (
        es@[0].1 matches JsonValue::Str(s) && s@ == base64url_nopad_of(device_response@)),
{
    let encoded = base64url_nopad_encode(device_response);
    let mut entries: Vec<(String, JsonValue)> = Vec::new();
    entries.push((request_id, JsonValue::Str(encoded)));
    JsonValue::Object(entries)
}

/// How a response to a browser-mediated request leaves the wallet:
/// as plain JSON, or as the makings of a JWE for the verifier's key.
#[derive(Debug)]
pub enum Responder {
    Json { state: Option<String> },
    Jwe { alg: String, enc: String, state: Option<String>, verifier_jwk: String },
}

/// Why a responder could not be built from a request.
#[derive(Debug, PartialEq, Eq, Structural, Clone, Copy)]
pub enum ResponderError {
    /// The request's response mode is not a supported one.
    UnsupportedResponseMode,
    /// An encrypted response was asked for without client metadata.
    MissingClientMetadata,
    /// The client metadata carries no verifier key.
    MissingVerifierJwk,
    /// The encryption algorithm is missing or is not ECDH-ES.
    UnsupportedAlgorithm,
    /// The encryption scheme is missing or is not A128GCM.
    UnsupportedScheme,
}

/// The response mode named by an authorization request.
#[derive(Debug, Clone, Copy, PartialEq, Eq, Structural)]
pub enum ResponseMode {
    /// Plain JSON over the browser API.
    DcApi,
    /// An encrypted JWT over the browser API.
    DcApiJwt,
    /// Any other mode; rejected.
    Unsupported,
}

/// What the wallet reads out of a request's client metadata.
#[derive(Debug, Clone)]
pub struct ClientMetadataInfo {
    /// The verifier's public JWK, as its JSON string.
    pub verifier_jwk: Option<String>,
    /// The advertised `authorization_encrypted_response_alg`.
    pub encrypted_response_alg: Option<String>,
    /// The advertised `authorization_encrypted_response_enc`.
    pub encrypted_response_enc: Option<String>,
}

/// What the wallet reads out of a validated authorization request.
#[derive(Debug, Clone)]
pub struct AuthRequestInfo {
    pub response_mode: ResponseMode,
    pub state: Option<String>,
    pub client_metadata: Option<ClientMetadataInfo>,
    pub nonce: String,
    pub client_id: Option<String>,
    pub expected_origins: Option<Vec<String>>,
}

impl Responder {
    /// Select the responder a request calls for: plain JSON for the
    /// `dc_api` mode; for `dc_api.jwt`, a JWE responder, accepted only
    /// when the client metadata advertises ECDH-ES with A128GCM; any
    /// other mode is rejected.
    pub fn new(request: &AuthRequestInfo) -> (r: Result<Responder, ResponderError>)
        ensures
            request.response_mode is DcApi ==> (r matches Ok(resp) && (resp matches
                Responder::Json { state } && state == request.state)),
            request.response_mode is Unsupported ==> (r matches Err(e) && e
                == ResponderError::UnsupportedResponseMode),
            request.response_mode is DcApiJwt ==> match request.client_metadata {
                Option::None => r matches Err(e) && e == ResponderError::MissingClientMetadata,
                Option::Some(md) => {
                    if md.verifier_jwk is None {
                        r matches Err(e) && e == ResponderError::MissingVerifierJwk
                    } else if !(md.encrypted_response_alg matches Some(a) && a@ == "ECDH-ES"@) {
                        r matches Err(e) && e == ResponderError::UnsupportedAlgorithm
                    } else if !(md.encrypted_response_enc matches Some(x) && x@ == "A128GCM"@) {
                        r matches Err(e) && e == ResponderError::UnsupportedScheme
                    } else {
                        r matches Ok(resp) && resp matches Responder::Jwe {
                            alg,
                            enc,
                            state,
                            verifier_jwk,
                        } && alg@ == "ECDH-ES"@ && enc@ == "A128GCM"@ && state == request.state
                            && Some(verifier_jwk) == md.verifier_jwk
                    }
                },
            },
    {
        match request.response_mode {
            ResponseMode::DcApi => Ok(Responder::Json { state: request.state.clone() }),
            ResponseMode::Unsupported => Err(ResponderError::UnsupportedResponseMode),
            ResponseMode::DcApiJwt => {
                let md = match &request.client_metadata {
                    Some(md) => md,
                    None => {
                        return Err(ResponderError::MissingClientMetadata);
                    }
                };
                let jwk = match &md.verifier_jwk {
                    Some(j) => j.clone(),
                    None => {
                        return Err(ResponderError::MissingVerifierJwk);
                    }
                };
                let alg_ok = match &md.encrypted_response_alg {
                    Some(a) => str_eq(a.as_str(), "ECDH-ES"),
                    None => false,
                };
                if !alg_ok {
                    return Err(ResponderError::UnsupportedAlgorithm);
                }
                let enc_ok = match &md.encrypted_response_enc {
                    Some(x) => str_eq(x.as_str(), "A128GCM"),
                    None => false,
                };
                if !enc_ok {
                    return Err(ResponderError::UnsupportedScheme);
                }
                Ok(
                    Responder::Jwe {
                        alg: String::from_str("ECDH-ES"),
                        enc: String::from_str("A128GCM"),
                        state: request.state.clone(),
                        verifier_jwk: jwk,
                    },
                )
            }
        }
    }
}

/// The JSON body of a response: the state entry first where present,
/// the vp_token entry after it, in a compact rendering.
pub open spec fn json_response_text(state: Option<Seq<char>>, token_text: Seq<char>) -> Seq<
    char,
> {
    match state {
        Some(st) => seq!['{'] + str_json("state"@) + seq![':'] + str_json(st) + seq![',']
            + str_json("vp_token"@) + seq![':'] + token_text + seq!['}'],
        None => seq!['{'] + str_json("vp_token"@) + seq![':'] + token_text + seq!['}'],
    }
}

/// What a response amounts to: a finished JSON body, or the makings of a
/// JWE that the embedding application encrypts to the verifier's key.
#[derive(Debug)]
pub enum ResponsePlan {
    /// Send this JSON body as it is.
    Body(String),
    /// Encrypt a JWT with these claims to the verifier's key, with
    /// `alg` ECDH-ES and `enc` A128GCM.
    Encrypt {
        vp_token_json: String,
        state: Option<String>,
        alg: String,
        enc: String,
        verifier_jwk: String,
    },
}

/// Render the state view of an optional string.
pub open spec fn opt_view(s: Option<String>) -> Option<Seq<char>> {
    match s {
        Some(x) => Some(x@),
        None => None,
    }
}

impl Responder {
    /// Produce the response for a vp_token: for the JSON responder the
    /// finished body; for the JWE responder the claims and parameters
    /// that the embedding application encrypts.
    pub fn response(&self, token: &JsonValue) -> (r: ResponsePlan)
        ensures
            match self {
                Responder::Json { state } => r matches ResponsePlan::Body(body) && body@
                    == json_response_text(opt_view(*state), json_text(*token)),
                Responder::Jwe { alg, enc, state, verifier_jwk } => r matches
                    ResponsePlan::Encrypt { vp_token_json, state: st, alg: a, enc: e, verifier_jwk: j }
                    && vp_token_json@ == json_text(*token) && st == state && a == alg && e == enc
                    && j == verifier_jwk,
            },
    {
        match self {
            Responder::Json { state } => {
                proof {
                    reveal_strlit("{");
                    reveal_strlit("}");
                    reveal_strlit(":");
                    reveal_strlit(",");
                }
                let mut body = String::from_str("{");
                assert(body@ =~= seq!['{']);
                match state {
                    Some(st) => {
                        crate::json::push_str_json(&mut body, "state");
                        body.append(":");
                        crate::json::push_str_json(&mut body, st.as_str());
                        body.append(",");
                    }
                    None => {
                    }
                }
                crate::json::push_str_json(&mut body, "vp_token");
                body.append(":");
                json_render_into(token, &mut body);
                body.append("}");
                proof {
                    assert(body@ =~= json_response_text(opt_view(*state), json_text(*token)));
                }
                ResponsePlan::Body(body)
            }
            Responder::Jwe { alg, enc, state, verifier_jwk } => {
                let mut vp = String::new();
                json_render_into(token, &mut vp);
                ResponsePlan::Encrypt {
                    vp_token_json: vp,
                    state: state.clone(),
                    alg: alg.clone(),
                    enc: enc.clone(),
                    verifier_jwk: verifier_jwk.clone(),
                }
            }
        }
    }
}

/// Whether the browser origin is among the origins the request expects.
/// A request forwarded by an attacker, or a misconfigured verifier,
/// fails this test.
pub fn origin_expected(expected: &Vec<String>, origin: &str) -> (r: bool)
    ensures
        r == exists|i: int| 0 <= i < expected@.len() && #[trigger] expected@[i]@ == origin@,
{
    let mut i: usize = 0;
    while i < expected.len()
        invariant
            i <= expected@.len(),
            forall|j: int| 0 <= j < i ==> #[trigger] expected@[j]@ != origin@,
        decreases expected@.len() - i,
    {
        if str_eq(expected[i].as_str(), origin) {
            return true;
        }
        i = i + 1;
    }
    false
}

/// The client id a response is bound to. An unsigned request, or one
/// signed with the `none` algorithm, binds to the synthetic
/// `web-origin:` client id; a signed request must carry its own.
pub fn effective_client_id(
    request_was_signed: bool,
    alg_is_none: bool,
    origin: &str,
    client_id: Option<&String>,
) -> (r: Result<String, DcApiError>)
    ensures
        (!request_was_signed || alg_is_none) ==> (r matches Ok(s) && s@ == "web-origin:"@
            + origin@),
        (request_was_signed && !alg_is_none) ==> match client_id {
            Some(c) => r matches Ok(s) && s@ == c@,
            None => r matches Err(e) && e is InvalidRequest,
        },
{
    if !request_was_signed || alg_is_none {
        let mut s = String::from_str("web-origin:");
        s.append(origin);
        Ok(s)
    } else {
        match client_id {
            Some(c) => Ok(c.clone()),
            None => Err(
                DcApiError::InvalidRequest(String::from_str("signed request missing client_id")),
            ),
        }
    }
}

/// An error surfaced to the caller of the browser-mediated request flow.
#[derive(Debug)]
pub enum DcApiError {
    InvalidRequest(String),
    InternalError(String),
}

impl DcApiError {
    /// Wrap a message as an invalid-request error.
    pub fn invalid_request(message: String) -> (r: DcApiError)
        ensures
            r matches DcApiError::InvalidRequest(m) && m == message,
    {
        DcApiError::InvalidRequest(message)
    }

    /// Wrap a message as an internal error.
    pub fn internal_error(message: String) -> (r: DcApiError)
        ensures
            r matches DcApiError::InternalError(m) && m == message,
    {
        DcApiError::InternalError(message)
    }

    /// The message inside the error.
    pub fn inner(&self) -> (s: &str)
        ensures
            match self {
                DcApiError::InvalidRequest(m) => s@ == m@,
                DcApiError::InternalError(m) => s@ == m@,
            },
    {
        match self {
            DcApiError::InvalidRequest(m) => m.as_str(),
            DcApiError::InternalError(m) => m.as_str(),
        }
    }

    /// The name of the error's kind.
    pub fn name(&self) -> (s: &str)
        ensures
            match self {
                DcApiError::InvalidRequest(_) => s@ == "InvalidRequest"@,
                DcApiError::InternalError(_) => s@ == "InternalError"@,
            },
    {
        match self {
            DcApiError::InvalidRequest(_) => "InvalidRequest",
            DcApiError::InternalError(_) => "InternalError",
        }
    }
}


/// The first query with the given credential id, scanning from `i`.
pub open spec fn query_index_from(
    qs: Seq<(String, crate::matcher::DcqlQueryModel)>,
    id: Seq<char>,
    i: int,
) -> Option<int>
    decreases qs.len() - i,
{
    if i < 0 || i >= qs.len() {
        None
    } else if qs[i].0@ == id {
        Some(i)
    } else {
        query_index_from(qs, id, i + 1)
    }
}

/// Select the credential query a request names: the first query whose
/// id matches, and nothing when none does.
pub fn select_credential_query(
    queries: &Vec<(String, crate::matcher::DcqlQueryModel)>,
    id: &str,
) -> (r: Option<usize>)
    ensures
        match r {
            Some(i) => i < queries@.len() && query_index_from(queries@, id@, 0) == Some(
                i as int,
            ),
            None => query_index_from(queries@, id@, 0) is None,
        },
{
    let mut i: usize = 0;
    while i < queries.len()
        invariant
            i <= queries@.len(),
            query_index_from(queries@, id@, 0) == query_index_from(queries@, id@, i as int),
        decreases queries@.len() - i,
    {
        if str_eq(queries[i].0.as_str(), id) {
            proof {
                assert(query_index_from(queries@, id@, i as int) == Some(i as int));
            }
            return Some(i);
        }
        proof {
            assert(queries@[i as int].0@ != id@);
        }
        i = i + 1;
    }
    proof {
        assert(query_index_from(queries@, id@, queries@.len() as int) is None);
    }
    None
}


/// The shape of a vp_token: a one-entry object from the query's
/// credential id to the base64url encoding of the device response.
pub open spec fn token_shape(token: JsonValue, id: Seq<char>, encoded: Seq<char>) -> bool {
    token matches JsonValue::Object(es) && {
        &&& es@.len() == 1
        &&& es@[0].0@ == id
        &&& es@[0].1 matches JsonValue::Str(s) && s@ == encoded
    }
}

/// The response mode a JSON member names: `dc_api`, `dc_api.jwt`, or
/// any other value.
pub open spec fn response_mode_of(v: JsonValue) -> ResponseMode {
    if v matches JsonValue::Str(s) && s@ == "dc_api"@ {
        ResponseMode::DcApi
    } else if v matches JsonValue::Str(s) && s@ == "dc_api.jwt"@ {
        ResponseMode::DcApiJwt
    } else {
        ResponseMode::Unsupported
    }
}

/// The optional string a JSON object carries under a key: present
/// exactly when the member exists and is a string.
pub open spec fn opt_str_member(es: Seq<(String, JsonValue)>, key: Seq<char>) -> Option<
    Seq<char>,
> {
    match json_lookup(es, key) {
        Some(v) => match v {
            JsonValue::Str(s) => Some(s@),
            _ => None,
        },
        None => None,
    }
}

/// Read an optional string member.
fn get_opt_str(es: &Vec<(String, JsonValue)>, key: &str) -> (r: Option<String>)
    ensures
        match r {
            Some(s) => opt_str_member(es@, key@) == Some(s@),
            None => opt_str_member(es@, key@) is None,
        },
{
    match object_entry(es, key) {
        Some(v) => match v {
            JsonValue::Str(s) => Some(s.clone()),
            _ => None,
        },
        None => None,
    }
}

/// Read a validated authorization request out of its parsed JSON: the
/// response mode (any unknown mode is carried as unsupported and
/// rejected later), the optional state, client id and client metadata,
/// the required nonce, and the expected origins where every element is
/// a string. The verifier's JWK is carried as the compact rendering of
/// the first key under the metadata's `jwks`. The request's own JWT
/// signature is validated by the embedding application before the JSON
/// reaches this point.
pub fn auth_request_from_json(v: &JsonValue) -> (r: Result<AuthRequestInfo, DcApiError>)
    ensures
        r matches Err(e) ==> e is InvalidRequest,
        !(v is Object) ==> r is Err,
        v matches JsonValue::Object(es) && opt_str_member(es@, "nonce"@) is None ==> r is Err,
        r matches Ok(info) ==> (v matches JsonValue::Object(es) && {
            &&& opt_str_member(es@, "nonce"@) matches Some(n) && info.nonce@ == n
            &&& info.response_mode == (match json_lookup(es@, "response_mode"@) {
                Some(mv) => response_mode_of(mv),
                None => ResponseMode::Unsupported,
            })
            &&& (match opt_str_member(es@, "state"@) {
                Some(st) => info.state matches Some(s) && s@ == st,
                None => info.state is None,
            })
            &&& (match opt_str_member(es@, "client_id"@) {
                Some(c) => info.client_id matches Some(s) && s@ == c,
                None => info.client_id is None,
            })
        }),
{
    let es = match v {
        JsonValue::Object(es) => es,
        _ => {
            return Err(
                DcApiError::InvalidRequest(String::from_str("the request is not a JSON object")),
            );
        }
    };
    let nonce = match get_opt_str(es, "nonce") {
        Some(n) => n,
        None => {
            return Err(
                DcApiError::InvalidRequest(String::from_str("the request carries no nonce")),
            );
        }
    };
    let response_mode = match object_entry(es, "response_mode") {
        Some(mv) => {
            match mv {
                JsonValue::Str(s) => {
                    if str_eq(s.as_str(), "dc_api") {
                        ResponseMode::DcApi
                    } else if str_eq(s.as_str(), "dc_api.jwt") {
                        ResponseMode::DcApiJwt
                    } else {
                        ResponseMode::Unsupported
                    }
                }
                _ => ResponseMode::Unsupported,
            }
        }
        None => ResponseMode::Unsupported,
    };
    let state = get_opt_str(es, "state");
    let client_id = get_opt_str(es, "client_id");
    let expected_origins = match object_entry(es, "expected_origins") {
        Some(ov) => {
            match ov {
                JsonValue::Array(items) => {
                    let mut origins: Vec<String> = Vec::new();
                    let mut i: usize = 0;
                    while i < items.len()
                        invariant
                            i <= items@.len(),
                            origins@.len() == i,
                        decreases items@.len() - i,
                    {
                        match &items[i] {
                            JsonValue::Str(s) => {
                                origins.push(s.clone());
                            }
                            _ => {
                                return Err(
                                    DcApiError::InvalidRequest(
                                        String::from_str(
                                            "an expected origin is not a string",
                                        ),
                                    ),
                                );
                            }
                        }
                        i = i + 1;
                    }
                    Some(origins)
                }
                _ => {
                    return Err(
                        DcApiError::InvalidRequest(
                            String::from_str("the expected origins are not a list"),
                        ),
                    );
                }
            }
        }
        None => None,
    };
    let client_metadata = match object_entry(es, "client_metadata") {
        Some(mv) => {
            match mv {
                JsonValue::Object(md) => {
                    let verifier_jwk = match object_entry(md, "jwks") {
                        Some(jv) => {
                            match jv {
                                JsonValue::Object(jwks) => {
                                    match object_entry(jwks, "keys") {
                                        Some(kv) => {
                                            match kv {
                                                JsonValue::Array(keys) => {
                                                    if keys.len() > 0 {
                                                        Some(json_render(&keys[0]))
                                                    } else {
                                                        None
                                                    }
                                                }
                                                _ => None,
                                            }
                                        }
                                        None => None,
                                    }
                                }
                                _ => None,
                            }
                        }
                        None => None,
                    };
                    Some(
                        ClientMetadataInfo {
                            verifier_jwk,
                            encrypted_response_alg: get_opt_str(
                                md,
                                "authorization_encrypted_response_alg",
                            ),
                            encrypted_response_enc: get_opt_str(
                                md,
                                "authorization_encrypted_response_enc",
                            ),
                        },
                    )
                }
                _ => None,
            }
        }
        None => None,
    };
    Ok(
        AuthRequestInfo {
            response_mode,
            state,
            client_metadata,
            nonce,
            client_id,
            expected_origins,
        },
    )
}

/// Whether a responder can be built for a request: the plain-JSON mode
/// always, the encrypted mode exactly when the client metadata carries
/// a verifier key and advertises ECDH-ES with A128GCM.
pub open spec fn responder_ok(request: &AuthRequestInfo) -> bool {
    ||| request.response_mode is DcApi
    ||| (request.response_mode is DcApiJwt && (request.client_metadata matches Some(md) && {
        &&& md.verifier_jwk is Some
        &&& md.encrypted_response_alg matches Some(a) && a@ == "ECDH-ES"@
        &&& md.encrypted_response_enc matches Some(x) && x@ == "A128GCM"@
    }))
}

/// A browser-mediated request the wallet has validated and matched:
/// the query's credential id, the browser origin, the selected
/// responder, and the match against the chosen credential.
pub struct InProgressRequestDcApi {
    pub dcql_credential_id: String,
    pub origin: String,
    pub responder: Responder,
    pub request_match: RequestMatch180137,
}

/// Take a validated request through selection and matching: find the
/// credential query the caller names, build the responder the request
/// calls for, and match the query against the credential. Each failing
/// stage surfaces an invalid-request error; the parsing and signature
/// validation of the request itself are the embedding application's.
pub fn begin_dc_api_request(
    request: &AuthRequestInfo,
    dcql_credential_id: String,
    origin: String,
    queries: &Vec<(String, DcqlQueryModel)>,
    credential: &MdocModel,
) -> (r: Result<InProgressRequestDcApi, DcApiError>)
    requires
        mdoc_wf(credential),
    ensures
        r is Ok <==> (query_index_from(queries@, dcql_credential_id@, 0) matches Some(qi)
            && responder_ok(request) && !(queries@[qi].1.doctype matches Some(dt) && dt@
            != credential.doc_type@)),
        r matches Err(e) ==> e is InvalidRequest,
        r matches Ok(ip) ==> {
            &&& ip.dcql_credential_id@ == dcql_credential_id@
            &&& ip.origin@ == origin@
            &&& query_index_from(queries@, dcql_credential_id@, 0) matches Some(qi) && {
                &&& !(queries@[qi].1.doctype matches Some(dt) && dt@
                    != credential.doc_type@)
                &&& age_over_count(ip.request_match.requested_fields@) <= 2
                &&& ip.request_match.credential_id@ == credential.id@
                &&& ip.request_match.field_map@.len()
                    == ip.request_match.requested_fields@.len()
                &&& lists_match_claims(
                    credential,
                    queries@[qi].1.claims@,
                    ip.request_match.requested_fields@,
                    ip.request_match.field_map@,
                    ip.request_match.missing_fields@,
                )
            }
            &&& (request.response_mode is DcApi ==> ip.responder is Json)
            &&& (request.response_mode is DcApiJwt ==> ip.responder is Jwe)
        },
{
    let qi = match select_credential_query(queries, dcql_credential_id.as_str()) {
        Some(i) => i,
        None => {
            return Err(
                DcApiError::InvalidRequest(String::from_str("requested credential not found")),
            );
        }
    };
    let responder = match Responder::new(request) {
        Ok(resp) => resp,
        Err(_) => {
            return Err(
                DcApiError::InvalidRequest(
                    String::from_str("could not build a responder for the request"),
                ),
            );
        }
    };
    let request_match = match find_match(&queries[qi].1, credential) {
        Ok(m) => m,
        Err(_) => {
            return Err(
                DcApiError::InvalidRequest(
                    String::from_str("the selected credential does not match the request"),
                ),
            );
        }
    };
    Ok(
        InProgressRequestDcApi {
            dcql_credential_id,
            origin,
            responder,
            request_match,
        },
    )
}

impl InProgressRequestDcApi {
    /// Finish the response once the embedding application has produced
    /// the device response bytes: wrap them in a vp_token under the
    /// query's credential id and hand them to the responder.
    pub fn finish_response(&self, device_response: &Vec<u8>) -> (r: ResponsePlan)
        ensures
            exists|token: JsonValue|
                {
                    &&& #[trigger] token_shape(
                        token,
                        self.dcql_credential_id@,
                        base64url_nopad_of(device_response@),
                    )
                    &&& match &self.responder {
                        Responder::Json { state } => r matches ResponsePlan::Body(body)
                            && body@ == json_response_text(opt_view(*state), json_text(token)),
                        Responder::Jwe { alg, enc, state, verifier_jwk } => r matches
                            ResponsePlan::Encrypt {
                            vp_token_json,
                            state: st,
                            alg: a,
                            enc: e,
                            verifier_jwk: j,
                        } && vp_token_json@ == json_text(token) && st == state && a == alg && e
                            == enc && j == verifier_jwk,
                    }
                },
    {
        let token = vp_token(self.dcql_credential_id.clone(), device_response);
        let plan = self.responder.response(&token);
        proof {
            assert(token_shape(
                token,
                self.dcql_credential_id@,
                base64url_nopad_of(device_response@),
            ));
        }
        plan
    }
}

} // verus!\n