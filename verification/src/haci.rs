use vstd::prelude::*;
use vstd::utf8::{decode_utf8, encode_utf8_decode_utf8, valid_utf8};
use vstd::string::StringExecFns;
use vstd::string::StrSliceExecFns;
use crate::encoding::{base64url_nopad_decode, base64url_nopad_of};
use crate::json::{json_model, json_parse, json_parses, json_value_of, JsonValue};
use crate::text::string_from_utf8;
use crate::presentation::{json_lookup, object_entry};

verus! {

/// An error from the wallet service client.
#[derive(Debug)]
pub enum WalletServiceError {
    /// The app attestation was not valid JSON.
    InvalidJson(String),
    /// The request could not be sent.
    NetworkError(String),
    /// The server answered outside the success range.
    ServerError { status: u16, error_message: String },
    /// The response body could not be read.
    ResponseError(String),
    /// No valid, unexpired token is held.
    InvalidToken,
    /// The token's claims could not be parsed.
    JwtParseError(String),
    /// An internal error.
    InternalError(String),
}

/// An error from the issuance service client.
#[derive(Debug)]
pub enum IssuanceServiceError {
    /// The request could not be sent.
    NetworkError(String),
    /// The server answered outside the success range.
    ServerError { status: u16, error_message: String },
    /// The response body could not be read.
    ResponseError(String),
    /// The wallet attestation was rejected.
    InvalidAttestation(String),
    /// An internal error.
    InternalError(String),
}

/// The issuance status answer: the state label and the credential offer.
#[derive(Debug)]
pub struct CheckStatusResponse {
    pub state: String,
    pub openid_credential_offer: String,
}

/// The token the wallet service issued, with the claims the client
/// reads: the expiration instant and the subject.
#[derive(Debug, Clone)]
pub struct TokenInfo {
    pub token: String,
    /// Unix seconds at which the token expires.
    pub expires_at: i64,
    /// The `sub` claim: the client id.
    pub subject: Option<String>,
}

/// The wallet-service client's own state: the base URL and the token
/// slot. The embedding application performs the HTTP exchange and hands
/// the outcomes in; replacing the token slot is atomic from its side.
#[derive(Debug)]
pub struct WalletServiceClient {
    pub base_url: String,
    pub token_info: Option<TokenInfo>,
}

/// Classify an HTTP outcome: a success status passes its body through,
/// anything else becomes a server error carrying the status and body.
pub fn classify_response(status: u16, body: String) -> (r: Result<String, WalletServiceError>)
    ensures
        200 <= status < 300 ==> (r matches Ok(b) && b@ == body@),
        !(200 <= status < 300) ==> (r matches Err(e) && (e matches
            WalletServiceError::ServerError { status: st, error_message } && st == status
            && error_message@ == body@)),
{
    if 200 <= status && status < 300 {
        Ok(body)
    } else {
        Err(WalletServiceError::ServerError { status, error_message: body })
    }
}

/// The number of dots in a character string.
pub open spec fn dot_count(s: Seq<char>) -> int
    decreases s.len(),
{
    if s.len() == 0 {
        0int
    } else {
        dot_count(s.drop_last()) + if s.last() == '.' {
            1int
        } else {
            0int
        }
    }
}

/// Split a compact JWS into its three dot-separated segments. Succeeds
/// exactly when the string holds exactly two dots, and returns the
/// dot-free segments between them.
pub fn jwt_segments(token: &str) -> (r: Option<(String, String, String)>)
    ensures
        r is Some <==> dot_count(token@) == 2,
        r matches Some(p) ==> {
            &&& token@ == p.0@ + seq!['.'] + p.1@ + seq!['.'] + p.2@
            &&& dot_count(p.0@) == 0
            &&& dot_count(p.1@) == 0
            &&& dot_count(p.2@) == 0
        },
{
    let n = token.unicode_len();
    let mut first: Option<usize> = None;
    let mut second: Option<usize> = None;
    let mut i: usize = 0;
    while i < n
        invariant
            n == token@.len(),
            i <= n,
            first matches Some(f) ==> f < i && token@[f as int] == '.',
            second matches Some(s2) ==> s2 < i && token@[s2 as int] == '.' && (first matches
                Some(f) && f < s2),
            first is None ==> second is None,
            forall|k: int| 0 <= k < i ==> ((#[trigger] token@[k]) == '.' <==> (first matches
                Some(f) && k == f) || (second matches Some(s2) && k == s2)),
            dot_count(token@.subrange(0, i as int)) == (if second is Some {
                2int
            } else if first is Some {
                1int
            } else {
                0int
            }),
        decreases n - i,
    {
        let ghost pre = token@.subrange(0, i as int);
        let c = token.get_char(i);
        proof {
            assert(token@.subrange(0, i + 1).drop_last() =~= pre);
            assert(token@.subrange(0, i + 1).last() == token@[i as int]);
        }
        if c == '.' {
            match first {
                None => {
                    first = Some(i);
                }
                Some(_) => {
                    match second {
                        None => {
                            second = Some(i);
                        }
                        Some(_) => {
                            proof {
                                lemma_dot_count_prefix(token@, i + 1);
                            }
                            return None;
                        }
                    }
                }
            }
        }
        i = i + 1;
    }
    proof {
        assert(token@.subrange(0, n as int) =~= token@);
    }
    let f = match first {
        Some(f) => f,
        None => {
            return None;
        }
    };
    let s2 = match second {
        Some(s) => s,
        None => {
            return None;
        }
    };
    proof {
        lemma_dot_count_split(token@, f as int, s2 as int);
    }
    let h = token.substring_char(0, f).to_owned();
    let p = token.substring_char(f + 1, s2).to_owned();
    let g = token.substring_char(s2 + 1, n).to_owned();
    proof {
        assert(token@ =~= token@.subrange(0, f as int) + seq!['.'] + token@.subrange(
            f + 1,
            s2 as int,
        ) + seq!['.'] + token@.subrange(s2 + 1, n as int));
    }
    Some((h, p, g))
}

/// A string with three or more dots up to an index has three or more
/// dots in all: dot counts grow with the prefix.
proof fn lemma_dot_count_prefix(s: Seq<char>, i: int)
    requires
        0 <= i <= s.len(),
    ensures
        dot_count(s) >= dot_count(s.subrange(0, i)),
    decreases s.len() - i,
{
    if i < s.len() {
        lemma_dot_count_prefix(s, i + 1);
        assert(s.subrange(0, i + 1).drop_last() =~= s.subrange(0, i));
        assert(s.subrange(0, i + 1).last() == s[i]);
    } else {
        assert(s.subrange(0, i) =~= s);
    }
}

/// A string whose only dots stand at two positions splits into three
/// dot-free segments around them.
proof fn lemma_dot_count_split(s: Seq<char>, f: int, s2: int)
    requires
        0 <= f < s2 < s.len(),
        s[f] == '.',
        s[s2] == '.',
        forall|k: int| 0 <= k < s.len() ==> ((#[trigger] s[k]) == '.' <==> k == f || k == s2),
    ensures
        dot_count(s.subrange(0, f)) == 0,
        dot_count(s.subrange(f + 1, s2)) == 0,
        dot_count(s.subrange(s2 + 1, s.len() as int)) == 0,
{
    lemma_no_dots(s, 0, f);
    lemma_no_dots(s, f + 1, s2);
    lemma_no_dots(s, s2 + 1, s.len() as int);
}

/// A segment without dot characters has dot count zero.
proof fn lemma_no_dots(s: Seq<char>, a: int, b: int)
    requires
        0 <= a <= b <= s.len(),
        forall|k: int| a <= k < b ==> (#[trigger] s[k]) != '.',
    ensures
        dot_count(s.subrange(a, b)) == 0,
    decreases b - a,
{
    if a < b {
        lemma_no_dots(s, a, b - 1);
        assert(s.subrange(a, b).drop_last() =~= s.subrange(a, b - 1));
        assert(s.subrange(a, b).last() == s[b - 1]);
    }
}

/// Read the registered claims the wallet-service client needs out of a
/// parsed JWT payload: the `exp` timestamp where it is a number, and
/// the `sub` client id where it is a string.
pub fn token_claims(payload: &JsonValue) -> (r: (Option<i128>, Option<String>))
    ensures
        match payload {
            JsonValue::Object(es) => {
                &&& (match json_lookup(es@, "exp"@) {
                    Some(v) => match v {
                        JsonValue::Number(n) => r.0 == Some(n),
                        _ => r.0 is None,
                    },
                    None => r.0 is None,
                })
                &&& (match json_lookup(es@, "sub"@) {
                    Some(v) => match v {
                        JsonValue::Str(s) => r.1 matches Some(t) && t@ == s@,
                        _ => r.1 is None,
                    },
                    None => r.1 is None,
                })
            },
            _ => r.0 is None && r.1 is None,
        },
{
    match payload {
        JsonValue::Object(es) => {
            let exp = match object_entry(es, "exp") {
                Some(v) => match v {
                    JsonValue::Number(n) => Some(*n),
                    _ => None,
                },
                None => None,
            };
            let sub = match object_entry(es, "sub") {
                Some(v) => match v {
                    JsonValue::Str(s) => Some(s.clone()),
                    _ => None,
                },
                None => None,
            };
            (exp, sub)
        }
        _ => (None, None),
    }
}

impl WalletServiceClient {
    /// A client for the wallet service at the given base URL, holding no
    /// token yet.
    pub fn new(base_url: String) -> (r: WalletServiceClient)
        ensures
            r.base_url@ == base_url@,
            r.token_info is None,
    {
        WalletServiceClient { base_url, token_info: None }
    }

    /// The current client id: the `sub` claim of the held token.
    pub fn get_client_id(&self) -> (r: Option<String>)
        ensures
            match &self.token_info {
                Some(t) => r == t.subject,
                None => r is None,
            },
    {
        match &self.token_info {
            Some(t) => t.subject.clone(),
            None => None,
        }
    }

    /// The current token, where one is held.
    pub fn get_token(&self) -> (r: Option<String>)
        ensures
            match &self.token_info {
                Some(t) => r matches Some(tok) && tok@ == t.token@,
                None => r is None,
            },
    {
        match &self.token_info {
            Some(t) => Some(t.token.clone()),
            None => None,
        }
    }

    /// Whether the held token is valid at the given clock reading:
    /// exactly when a token is held and expires after `now`.
    pub fn is_token_valid(&self, now: i64) -> (r: bool)
        ensures
            r == (self.token_info matches Some(t) && t.expires_at > now),
    {
        match &self.token_info {
            Some(t) => t.expires_at > now,
            None => false,
        }
    }

    /// Store a freshly issued token with its parsed claims, replacing
    /// any previous one.
    pub fn store_token(&mut self, info: TokenInfo)
        ensures
            final(self).token_info == Some(info),
            final(self).base_url == old(self).base_url,
    {
        self.token_info = Some(info);
    }

    /// The authorization header for downstream calls: `Bearer` and the
    /// token, exactly when a token is held and unexpired; the invalid
    /// token error otherwise.
    pub fn get_auth_header(&self, now: i64) -> (r: Result<String, WalletServiceError>)
        ensures
            (self.token_info matches Some(t) && t.expires_at > now) ==> (r matches Ok(h) && (
            self.token_info matches Some(t) && h@ == "Bearer "@ + t.token@)),
            !(self.token_info matches Some(t) && t.expires_at > now) ==> (r matches Err(e) && e
                is InvalidToken),
    {
        match &self.token_info {
            Some(t) => {
                if t.expires_at > now {
                    let mut h = String::from_str("Bearer ");
                    h.append(t.token.as_str());
                    Ok(h)
                } else {
                    Err(WalletServiceError::InvalidToken)
                }
            }
            None => Err(WalletServiceError::InvalidToken),
        }
    }

    /// The URL of the nonce endpoint.
    pub fn nonce_url(&self) -> (r: String)
        ensures
            r@ == self.base_url@ + "/nonce"@,
    {
        let mut u = self.base_url.clone();
        u.append("/nonce");
        u
    }

    /// The URL of the login endpoint.
    pub fn login_url(&self) -> (r: String)
        ensures
            r@ == self.base_url@ + "/login"@,
    {
        let mut u = self.base_url.clone();
        u.append("/login");
        u
    }
}

/// Build the token record from a login response body. The body is kept
/// verbatim as the token; its payload segment — the middle of the two
/// dots — is decoded as unpadded base64url, parsed as JSON, and its
/// `exp` number and `sub` string become the record's claims. A body
/// that is not a three-segment JWT, whose payload does not decode or
/// parse, or whose `exp` is absent, non-numeric or outside the 64-bit
/// range, is a JWT parse error. The signature is the wallet service's
/// and is not checked here.
pub fn login_body_to_token(body: String) -> (r: Result<TokenInfo, WalletServiceError>)
    ensures
        dot_count(body@) != 2 ==> (r matches Err(e) && e is JwtParseError),
        r matches Err(e) ==> e is JwtParseError,
        r matches Ok(info) ==> {
            &&& info.token@ == body@
            &&& dot_count(body@) == 2
            &&& exists|p0: Seq<char>, p1: Seq<char>, p2: Seq<char>, bytes: Seq<u8>|
                {
                    &&& body@ == #[trigger] (p0 + seq!['.'] + p1 + seq!['.'] + p2)
                    &&& #[trigger] base64url_nopad_of(bytes) == p1
                    &&& valid_utf8(bytes)
                    &&& json_parses(decode_utf8(bytes))
                    &&& exists|payload: JsonValue|
                        {
                            &&& #[trigger] json_model(payload) == json_value_of(
                                decode_utf8(bytes),
                            )
                            &&& payload matches JsonValue::Object(es) && {
                                &&& json_lookup(es@, "exp"@) matches Some(ev) && (ev matches
                                    JsonValue::Number(n) && info.expires_at == n)
                                &&& match json_lookup(es@, "sub"@) {
                                    Some(sv) => match sv {
                                        JsonValue::Str(t) => info.subject matches Some(sub)
                                            && sub@ == t@,
                                        _ => info.subject is None,
                                    },
                                    None => info.subject is None,
                                }
                            }
                        }
                }
        },
{
    let segments = match jwt_segments(body.as_str()) {
        Some(p) => p,
        None => {
            return Err(
                WalletServiceError::JwtParseError(
                    String::from_str("the token is not a three-segment JWT"),
                ),
            );
        }
    };
    let (header, payload_b64, signature) = segments;
    let payload_bytes = match base64url_nopad_decode(payload_b64.as_str()) {
        Some(b) => b,
        None => {
            return Err(
                WalletServiceError::JwtParseError(
                    String::from_str("the payload segment is not unpadded base64url"),
                ),
            );
        }
    };
    let ghost gbytes = payload_bytes@;
    let payload_text = match string_from_utf8(payload_bytes) {
        Some(t) => t,
        None => {
            return Err(
                WalletServiceError::JwtParseError(
                    String::from_str("the payload is not UTF-8"),
                ),
            );
        }
    };
    proof {
        encode_utf8_decode_utf8(payload_text@);
        assert(decode_utf8(gbytes) == payload_text@);
    }
    let payload = match json_parse(payload_text.as_str()) {
        Some(v) => v,
        None => {
            return Err(
                WalletServiceError::JwtParseError(
                    String::from_str("the payload is not JSON"),
                ),
            );
        }
    };
    let (exp_opt, subject) = token_claims(&payload);
    let exp = match exp_opt {
        Some(e) => e,
        None => {
            return Err(
                WalletServiceError::JwtParseError(
                    String::from_str("the payload carries no numeric expiration"),
                ),
            );
        }
    };
    if exp < -0x8000_0000_0000_0000 || exp > 0x7fff_ffff_ffff_ffff {
        return Err(
            WalletServiceError::JwtParseError(
                String::from_str("the expiration timestamp is out of range"),
            ),
        );
    }
    let info = TokenInfo { token: body, expires_at: exp as i64, subject };
    proof {
        let p0 = header@;
        let p1 = payload_b64@;
        let p2 = signature@;
        assert(exists|a: Seq<char>, b: Seq<char>, c: Seq<char>, bytes: Seq<u8>|
            {
                &&& info.token@ == #[trigger] (a + seq!['.'] + b + seq!['.'] + c)
                &&& #[trigger] base64url_nopad_of(bytes) == b
                &&& valid_utf8(bytes)
                &&& json_parses(decode_utf8(bytes))
                &&& exists|pl: JsonValue|
                    {
                        &&& #[trigger] json_model(pl) == json_value_of(decode_utf8(bytes))
                        &&& pl matches JsonValue::Object(es) && {
                            &&& json_lookup(es@, "exp"@) matches Some(ev) && (ev matches
                                JsonValue::Number(n) && info.expires_at == n)
                            &&& match json_lookup(es@, "sub"@) {
                                Some(sv) => match sv {
                                    JsonValue::Str(t) => info.subject matches Some(sub)
                                        && sub@ == t@,
                                    _ => info.subject is None,
                                },
                                None => info.subject is None,
                            }
                        }
                    }
            }) by {
            assert(base64url_nopad_of(gbytes) == p1);
            assert(json_model(payload) == json_value_of(decode_utf8(gbytes)));
        }
    }
    Ok(info)
}

/// The issuance-service client's own state: the base URL.
#[derive(Debug)]
pub struct IssuanceServiceClient {
    pub base_url: String,
}

impl IssuanceServiceClient {
    /// A client for the issuance service at the given base URL.
    pub fn new(base_url: String) -> (r: IssuanceServiceClient)
        ensures
            r.base_url@ == base_url@,
    {
        IssuanceServiceClient { base_url }
    }

    /// The URL that opens a new issuance.
    pub fn new_issuance_url(&self) -> (r: String)
        ensures
            r@ == self.base_url@ + "/issuance/new"@,
    {
        let mut u = self.base_url.clone();
        u.append("/issuance/new");
        u
    }

    /// The URL that reports the status of an issuance.
    pub fn status_url(&self, issuance_id: &str) -> (r: String)
        ensures
            r@ == self.base_url@ + "/issuance/"@ + issuance_id@ + "/status"@,
    {
        let mut u = self.base_url.clone();
        u.append("/issuance/");
        u.append(issuance_id);
        u.append("/status");
        u
    }

    /// Read the issuance id out of a 2xx body's parsed JSON: the `id`
    /// member, which must be a string.
    pub fn issuance_id_from_json(&self, v: &JsonValue) -> (r: Result<
        String,
        IssuanceServiceError,
    >)
        ensures
            match v {
                JsonValue::Object(es) => match json_lookup(es@, "id"@) {
                    Some(idv) => match idv {
                        JsonValue::Str(s) => r matches Ok(id) && id@ == s@,
                        _ => r matches Err(e) && e is ResponseError,
                    },
                    None => r matches Err(e) && e is ResponseError,
                },
                _ => r matches Err(e) && e is ResponseError,
            },
    {
        match v {
            JsonValue::Object(es) => {
                match crate::presentation::object_entry(es, "id") {
                    Some(idv) => match idv {
                        JsonValue::Str(s) => Ok(s.clone()),
                        _ => Err(
                            IssuanceServiceError::ResponseError(
                                String::from_str("the issuance id is not a string"),
                            ),
                        ),
                    },
                    None => Err(
                        IssuanceServiceError::ResponseError(
                            String::from_str("the body carries no issuance id"),
                        ),
                    ),
                }
            }
            _ => Err(
                IssuanceServiceError::ResponseError(
                    String::from_str("the body is not a JSON object"),
                ),
            ),
        }
    }

    /// Read the issuance status out of a 2xx body's parsed JSON: the
    /// `state` and `openid_credential_offer` members, both strings.
    pub fn check_status_from_json(&self, v: &JsonValue) -> (r: Result<
        CheckStatusResponse,
        IssuanceServiceError,
    >)
        ensures
            match v {
                JsonValue::Object(es) => {
                    if json_lookup(es@, "state"@) matches Some(sv) && sv is Str
                        && (json_lookup(es@, "openid_credential_offer"@) matches Some(ov) && ov
                        is Str) {
                        r matches Ok(out) && (json_lookup(es@, "state"@) matches Some(sv)
                            && (sv matches JsonValue::Str(st) && out.state@ == st@)) && (
                        json_lookup(es@, "openid_credential_offer"@) matches Some(ov) && (ov
                            matches JsonValue::Str(of) && out.openid_credential_offer@
                            == of@))
                    } else {
                        r matches Err(e) && e is ResponseError
                    }
                },
                _ => r matches Err(e) && e is ResponseError,
            },
    {
        match v {
            JsonValue::Object(es) => {
                let state = match crate::presentation::object_entry(es, "state") {
                    Some(sv) => match sv {
                        JsonValue::Str(s) => s.clone(),
                        _ => {
                            return Err(
                                IssuanceServiceError::ResponseError(
                                    String::from_str("the state is not a string"),
                                ),
                            );
                        }
                    },
                    None => {
                        return Err(
                            IssuanceServiceError::ResponseError(
                                String::from_str("the body carries no state"),
                            ),
                        );
                    }
                };
                let offer = match crate::presentation::object_entry(
                    es,
                    "openid_credential_offer",
                ) {
                    Some(ov) => match ov {
                        JsonValue::Str(s) => s.clone(),
                        _ => {
                            return Err(
                                IssuanceServiceError::ResponseError(
                                    String::from_str("the credential offer is not a string"),
                                ),
                            );
                        }
                    },
                    None => {
                        return Err(
                            IssuanceServiceError::ResponseError(
                                String::from_str("the body carries no credential offer"),
                            ),
                        );
                    }
                };
                Ok(CheckStatusResponse { state, openid_credential_offer: offer })
            }
            _ => Err(
                IssuanceServiceError::ResponseError(
                    String::from_str("the body is not a JSON object"),
                ),
            ),
        }
    }

    /// Classify an HTTP outcome of an issuance call.
    pub fn classify(&self, status: u16, body: String) -> (r: Result<
        String,
        IssuanceServiceError,
    >)
        ensures
            200 <= status < 300 ==> (r matches Ok(b) && b@ == body@),
            !(200 <= status < 300) ==> (r matches Err(e) && (e matches
                IssuanceServiceError::ServerError { status: st, error_message } && st == status
                && error_message@ == body@)),
    {
        if 200 <= status && status < 300 {
            Ok(body)
        } else {
            Err(IssuanceServiceError::ServerError { status, error_message: body })
        }
    }
}

} // verus!
