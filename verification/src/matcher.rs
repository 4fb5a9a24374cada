use vstd::prelude::*;
use vstd::string::StringExecFns;
use vstd::string::StrSliceExecFns;
use crate::cbor::{cbor_wf, CborValue};
use crate::crypto::KeyAlias;
use crate::encoding::new_uuid_v4_string;
use crate::text::{decimal_of, digit_val, is_digit, str_eq, str_starts_with};

verus! {

/// One claim a DCQL credential query asks for: a path (namespace, then
/// element identifier) and the verifier's intent to retain the value.
#[derive(Debug)]
pub struct ClaimQueryModel {
    pub path: Vec<String>,
    pub intent_to_retain: Option<bool>,
}

/// A DCQL credential query, reduced to what the matcher reads: the
/// requested doctype, where given, and the claim queries.
#[derive(Debug)]
pub struct DcqlQueryModel {
    pub doctype: Option<String>,
    pub claims: Vec<ClaimQueryModel>,
}

/// One data element of an mdoc namespace.
#[derive(Debug)]
pub struct MdocElement {
    pub identifier: String,
    pub value: CborValue,
}

/// One namespace of an mdoc with its data elements.
#[derive(Debug)]
pub struct MdocNamespace {
    pub namespace: String,
    pub elements: Vec<MdocElement>,
}

/// An ISO mdoc, reduced to what the matcher reads.
#[derive(Debug)]
pub struct MdocModel {
    pub id: String,
    pub doc_type: String,
    pub namespaces: Vec<MdocNamespace>,
    pub key_alias: KeyAlias,
}

/// Well-formedness of an mdoc: it carries at least one namespace, every
/// namespace carries at least one element, and every element value is a
/// well-formed CBOR value.
pub open spec fn mdoc_wf(m: &MdocModel) -> bool {
    &&& m.namespaces@.len() > 0
    &&& forall|n: int|
        0 <= n < m.namespaces@.len() ==> (#[trigger] m.namespaces@[n]).elements@.len() > 0
    &&& forall|n: int|
        0 <= n < m.namespaces@.len() ==> forall|e: int|
            0 <= e < (#[trigger] m.namespaces@[n]).elements@.len() ==> cbor_wf(
                (#[trigger] m.namespaces@[n].elements@[e]).value,
            )
}

/// A field of a matched request, as the holder's interface shows it for
/// consent.
#[derive(Debug)]
pub struct RequestedField180137 {
    /// The fresh opaque handle the interface refers to the field by.
    pub id: String,
    /// The underlying data element identifier.
    pub element_identifier: String,
    /// The element identifier in sentence case.
    pub displayable_name: String,
    /// A best-effort rendering of the element value.
    pub displayable_value: Option<String>,
    pub selectively_disclosable: bool,
    pub intent_to_retain: bool,
    pub required: bool,
    pub purpose: Option<String>,
}

/// The outcome of matching a query against a credential.
#[derive(Debug)]
pub struct RequestMatch180137 {
    pub credential_id: String,
    pub requested_fields: Vec<RequestedField180137>,
    /// Requested elements the credential does not carry, as
    /// (namespace, element identifier) pairs.
    pub missing_fields: Vec<(String, String)>,
    /// Field handle to (namespace, element identifier) resolution.
    pub field_map: Vec<(String, (String, String))>,
}

/// Why a query does not match a credential.
#[derive(Debug, PartialEq, Eq, Structural, Clone, Copy)]
pub enum MatchError {
    /// The query names a doctype other than the credential's.
    DoctypeMismatch,
}

/// The number of fields in a sequence whose element identifier begins
/// with `age_over_`.
pub open spec fn age_over_count(s: Seq<RequestedField180137>) -> int
    decreases s.len(),
{
    if s.len() == 0 {
        0int
    } else {
        age_over_count(s.drop_last()) + if is_age_over_field(s.last()) {
            1int
        } else {
            0int
        }
    }
}

/// Whether an element identifier names an age attestation: it begins
/// with `age_over_`.
pub open spec fn is_age_over_id(id: Seq<char>) -> bool {
    id.len() >= "age_over_"@.len() && id.subrange(0, "age_over_"@.len() as int)
        == "age_over_"@
}

/// Whether a field's element identifier names an age attestation.
pub open spec fn is_age_over_field(f: RequestedField180137) -> bool {
    is_age_over_id(f.element_identifier@)
}

pub proof fn lemma_age_over_count_push(s: Seq<RequestedField180137>, x: RequestedField180137)
    ensures
        age_over_count(s.push(x)) == age_over_count(s) + if is_age_over_field(x) {
            1int
        } else {
            0int
        },
{
    assert(s.push(x).drop_last() =~= s);
    assert(s.push(x).last() == x);
}

/// The display rendering of an element value, where one exists: text
/// shows itself, integers render in decimal, booleans as `true` or
/// `false`, a float shows its display text, and compound values show
/// nothing.
pub open spec fn display_value_spec(v: CborValue) -> Option<Seq<char>> {
    match v {
        CborValue::Text(s) => Some(s@),
        CborValue::Integer(i) => Some(decimal_of(i.value())),
        CborValue::Bool(b) => Some(
            if b {
                "true"@
            } else {
                "false"@
            },
        ),
        CborValue::Float { text, .. } => Some(text@),
        _ => None,
    }
}

/// A best-effort rendering of an element value for display.
pub fn cbor_display_value(v: &CborValue) -> (r: Option<String>)
    requires
        cbor_wf(*v),
    ensures
        match r {
            Some(t) => display_value_spec(*v) == Some(t@),
            None => display_value_spec(*v) is None,
        },
{
    match v {
        CborValue::Text(s) => Some(s.clone()),
        CborValue::Integer(i) => Some(i.to_text()),
        CborValue::Bool(b) => {
            if *b {
                Some(String::from_str("true"))
            } else {
                Some(String::from_str("false"))
            }
        }
        CborValue::Float { text, .. } => Some(text.clone()),
        _ => None,
    }
}

/// The ASCII upper-case counterpart of a character.
pub open spec fn ascii_upper(c: char) -> char {
    if 'a' <= c <= 'z' {
        ((c as u32) - 32) as char
    } else {
        c
    }
}

/// An identifier in sentence case: underscores become spaces and the
/// first character of each underscore-separated word is upper-cased.
pub open spec fn sentence_case_spec(s: Seq<char>) -> Seq<char> {
    Seq::new(
        s.len(),
        |i: int|
            if s[i] == '_' {
                ' '
            } else if i == 0 || s[i - 1] == '_' {
                ascii_upper(s[i])
            } else {
                s[i]
            },
    )
}

/// Convert a snake_case identifier to sentence case.
pub fn sentence_case(s: &str) -> (r: String)
    ensures
        r@ == sentence_case_spec(s@),
{
    let n = s.unicode_len();
    let mut out = String::new();
    let mut i: usize = 0;
    while i < n
        invariant
            n == s@.len(),
            i <= n,
            out@ == sentence_case_spec(s@).subrange(0, i as int),
        decreases n - i,
    {
        let c = s.get_char(i);
        let prev_is_sep = if i == 0 {
            true
        } else {
            s.get_char(i - 1) == '_'
        };
        if c == '_' {
            crate::text::push_char(&mut out, ' ');
        } else if prev_is_sep {
            let code = c as u32;
            if 97 <= code && code <= 122 {
                let up = ((code - 32) as u8) as char;
                proof {
                    assert(up == ascii_upper(s@[i as int]));
                }
                crate::text::push_char(&mut out, up);
            } else {
                crate::text::push_char(&mut out, c);
            }
        } else {
            crate::text::push_char(&mut out, c);
        }
        proof {
            assert(out@ =~= sentence_case_spec(s@).subrange(0, i + 1));
        }
        i = i + 1;
    }
    proof {
        assert(sentence_case_spec(s@).subrange(0, n as int) =~= sentence_case_spec(s@));
    }
    out
}


/// The first namespace with the given name, scanning from `i`.
pub open spec fn ns_index_from(nss: Seq<MdocNamespace>, ns: Seq<char>, i: int) -> Option<int>
    decreases nss.len() - i,
{
    if i < 0 || i >= nss.len() {
        None
    } else if nss[i].namespace@ == ns {
        Some(i)
    } else {
        ns_index_from(nss, ns, i + 1)
    }
}

/// The first element with the given identifier, scanning from `i`.
pub open spec fn elem_index_from(elems: Seq<MdocElement>, id: Seq<char>, i: int) -> Option<int>
    decreases elems.len() - i,
{
    if i < 0 || i >= elems.len() {
        None
    } else if elems[i].identifier@ == id {
        Some(i)
    } else {
        elem_index_from(elems, id, i + 1)
    }
}

/// The numeric threshold of an `age_over_NN` identifier: exactly the
/// prefix and two decimal digits.
pub open spec fn age_threshold_spec(id: Seq<char>) -> Option<int> {
    if id.len() == 11 && id.subrange(0, 9) == "age_over_"@ && is_digit(id[9]) && is_digit(
        id[10],
    ) {
        Some(digit_val(id[9]) * 10 + digit_val(id[10]))
    } else {
        None
    }
}

/// The element answering an absent age attestation, considering the
/// first `upto` elements: the earliest element carrying the lowest
/// threshold at or above `want`.
pub open spec fn best_age_index(elems: Seq<MdocElement>, want: int, upto: int) -> Option<int>
    decreases upto,
{
    if upto <= 0 {
        None
    } else {
        let prev = best_age_index(elems, want, upto - 1);
        match age_threshold_spec(elems[upto - 1].identifier@) {
            Some(t) => if t >= want {
                match prev {
                    None => Some(upto - 1),
                    Some(b) => if age_threshold_spec(elems[b].identifier@) matches Some(bt)
                        && t < bt {
                        Some(upto - 1)
                    } else {
                        prev
                    },
                }
            } else {
                prev
            },
            None => prev,
        }
    }
}

/// The element answering an absent age attestation.
pub open spec fn best_age_substitute(elems: Seq<MdocElement>, want: int) -> Option<int> {
    best_age_index(elems, want, elems.len() as int)
}

/// Law: the age-attestation substitute is an element whose threshold is
/// the lowest one at or above the requested threshold, and none exists
/// exactly when no element qualifies.
pub proof fn lemma_best_age_substitute(elems: Seq<MdocElement>, want: int)
    ensures
        match best_age_substitute(elems, want) {
            Some(b) => 0 <= b < elems.len() && (age_threshold_spec(elems[b].identifier@)
                matches Some(t) && t >= want && (forall|k: int|
                #![trigger age_threshold_spec(elems[k].identifier@)]
                0 <= k < elems.len() ==> match age_threshold_spec(elems[k].identifier@) {
                    Some(u) => u >= want ==> t <= u,
                    None => true,
                })),
            None => forall|k: int|
                0 <= k < elems.len() ==> !((#[trigger] age_threshold_spec(
                    elems[k].identifier@,
                )) matches Some(u) && u >= want),
        },
{
    lemma_best_age_index(elems, want, elems.len() as int);
}

proof fn lemma_best_age_index(elems: Seq<MdocElement>, want: int, upto: int)
    requires
        upto <= elems.len(),
    ensures
        match best_age_index(elems, want, upto) {
            Some(b) => 0 <= b < upto && (age_threshold_spec(elems[b].identifier@) matches Some(
                t,
            ) && t >= want && (forall|k: int|
                #![trigger age_threshold_spec(elems[k].identifier@)]
                0 <= k < upto ==> match age_threshold_spec(elems[k].identifier@) {
                    Some(u) => u >= want ==> t <= u,
                    None => true,
                })),
            None => forall|k: int|
                0 <= k < upto ==> !((#[trigger] age_threshold_spec(elems[k].identifier@))
                    matches Some(u) && u >= want),
        },
    decreases upto,
{
    if upto > 0 {
        lemma_best_age_index(elems, want, upto - 1);
    }
}

/// The resolution of a requested element against the credential: the
/// first namespace with the requested name is searched for the element;
/// a direct carry wins, and an absent `age_over_NN` in the ISO mDL
/// namespace is answered by the best age substitute.
pub open spec fn resolve_spec(nss: Seq<MdocNamespace>, ns: Seq<char>, id: Seq<char>) -> Option<
    (int, int),
> {
    match ns_index_from(nss, ns, 0) {
        Some(n) => {
            let elems = nss[n].elements@;
            match elem_index_from(elems, id, 0) {
                Some(e) => Some((n, e)),
                None => {
                    if ns == "org.iso.18013.5.1"@ {
                        match age_threshold_spec(id) {
                            Some(w) => match best_age_substitute(elems, w) {
                                Some(e) => Some((n, e)),
                                None => None,
                            },
                            None => None,
                        }
                    } else {
                        None
                    }
                },
            }
        },
        None => None,
    }
}


/// How a requested field and its map entry come from a claim query: the
/// claim's two-element path resolves to an element whose identifier,
/// sentence-cased name, display value and retain flag the field
/// carries, under a handle the map entry resolves back to the
/// namespace and element.
pub open spec fn field_from_claim(
    credential: &MdocModel,
    claim: ClaimQueryModel,
    f: RequestedField180137,
    m: (String, (String, String)),
) -> bool {
    &&& claim.path@.len() >= 2
    &&& resolve_spec(credential.namespaces@, claim.path@[0]@, claim.path@[1]@) matches Some(p)
        && {
        let elem = credential.namespaces@[p.0].elements@[p.1];
        &&& f.element_identifier@ == elem.identifier@
        &&& f.displayable_name@ == sentence_case_spec(elem.identifier@)
        &&& (match display_value_spec(elem.value) {
            Some(t) => f.displayable_value matches Some(d) && d@ == t,
            None => f.displayable_value is None,
        })
        &&& f.selectively_disclosable
        &&& f.required
        &&& f.purpose is None
        &&& f.intent_to_retain == (claim.intent_to_retain matches Some(b) && b)
        &&& m.0@ == f.id@
        &&& m.1.0@ == claim.path@[0]@
        &&& m.1.1@ == elem.identifier@
    }
}

/// How a missing-field entry comes from a claim query: the claim's
/// two-element path does not resolve against the credential.
pub open spec fn missing_from_claim(
    credential: &MdocModel,
    claim: ClaimQueryModel,
    mf: (String, String),
) -> bool {
    &&& claim.path@.len() >= 2
    &&& mf.0@ == claim.path@[0]@
    &&& mf.1@ == claim.path@[1]@
    &&& resolve_spec(credential.namespaces@, claim.path@[0]@, claim.path@[1]@) is None
}


/// How the three result lists come from the query, claim by claim: a
/// claim with fewer than two path segments is passed over; a claim that
/// resolves appends one requested field with its map entry, except that
/// an age attestation is passed over once two age fields stand in the
/// list; and a claim that does not resolve appends its pair to the
/// missing list. Entries keep claim order.
pub open spec fn lists_match_claims(
    credential: &MdocModel,
    claims: Seq<ClaimQueryModel>,
    rf: Seq<RequestedField180137>,
    fm: Seq<(String, (String, String))>,
    mf: Seq<(String, String)>,
) -> bool
    decreases claims.len(),
{
    if claims.len() == 0 {
        rf.len() == 0 && fm.len() == 0 && mf.len() == 0
    } else {
        let c = claims.last();
        if c.path@.len() < 2 {
            lists_match_claims(credential, claims.drop_last(), rf, fm, mf)
        } else {
            match resolve_spec(credential.namespaces@, c.path@[0]@, c.path@[1]@) {
                Some(p) => {
                    let elem = credential.namespaces@[p.0].elements@[p.1];
                    ||| (is_age_over_id(elem.identifier@) && age_over_count(rf) >= 2
                        && lists_match_claims(credential, claims.drop_last(), rf, fm, mf))
                    ||| {
                        &&& rf.len() > 0
                        &&& fm.len() > 0
                        &&& field_from_claim(credential, c, rf.last(), fm.last())
                        &&& (is_age_over_id(elem.identifier@) ==> age_over_count(
                            rf.drop_last(),
                        ) < 2)
                        &&& lists_match_claims(
                            credential,
                            claims.drop_last(),
                            rf.drop_last(),
                            fm.drop_last(),
                            mf,
                        )
                    }
                },
                None => {
                    &&& mf.len() > 0
                    &&& missing_from_claim(credential, c, mf.last())
                    &&& lists_match_claims(
                        credential,
                        claims.drop_last(),
                        rf,
                        fm,
                        mf.drop_last(),
                    )
                },
            }
        }
    }
}

/// The requested fields and their map entries pair up under the
/// claim-by-claim relation.
pub proof fn lemma_lists_lengths(
    credential: &MdocModel,
    claims: Seq<ClaimQueryModel>,
    rf: Seq<RequestedField180137>,
    fm: Seq<(String, (String, String))>,
    mf: Seq<(String, String)>,
)
    requires
        lists_match_claims(credential, claims, rf, fm, mf),
    ensures
        rf.len() == fm.len(),
    decreases claims.len(),
{
    if claims.len() > 0 {
        let c = claims.last();
        if c.path@.len() < 2 {
            lemma_lists_lengths(credential, claims.drop_last(), rf, fm, mf);
        } else {
            match resolve_spec(credential.namespaces@, c.path@[0]@, c.path@[1]@) {
                Some(p) => {
                    let elem = credential.namespaces@[p.0].elements@[p.1];
                    if is_age_over_id(elem.identifier@) && age_over_count(rf) >= 2
                        && lists_match_claims(credential, claims.drop_last(), rf, fm, mf) {
                        lemma_lists_lengths(credential, claims.drop_last(), rf, fm, mf);
                    } else {
                        lemma_lists_lengths(
                            credential,
                            claims.drop_last(),
                            rf.drop_last(),
                            fm.drop_last(),
                            mf,
                        );
                    }
                },
                None => {
                    lemma_lists_lengths(credential, claims.drop_last(), rf, fm, mf.drop_last());
                },
            }
        }
    }
}

/// Law: every requested field of a match comes from some claim of the
/// query, resolved against the credential, with its map entry tied to
/// the same claim.
pub proof fn lemma_requested_field_source(
    credential: &MdocModel,
    claims: Seq<ClaimQueryModel>,
    rf: Seq<RequestedField180137>,
    fm: Seq<(String, (String, String))>,
    mf: Seq<(String, String)>,
    k: int,
)
    requires
        lists_match_claims(credential, claims, rf, fm, mf),
        0 <= k < rf.len(),
    ensures
        exists|q: int|
            0 <= q < claims.len() && #[trigger] field_from_claim(
                credential,
                claims[q],
                rf[k],
                fm[k],
            ),
    decreases claims.len(),
{
    lemma_lists_lengths(credential, claims, rf, fm, mf);
    let c = claims.last();
    if c.path@.len() < 2 {
        lemma_requested_field_source(credential, claims.drop_last(), rf, fm, mf, k);
        lemma_field_source_widen(credential, claims, rf, fm, k);
    } else {
        match resolve_spec(credential.namespaces@, c.path@[0]@, c.path@[1]@) {
            Some(p) => {
                let elem = credential.namespaces@[p.0].elements@[p.1];
                if is_age_over_id(elem.identifier@) && age_over_count(rf) >= 2
                    && lists_match_claims(credential, claims.drop_last(), rf, fm, mf) {
                    lemma_requested_field_source(credential, claims.drop_last(), rf, fm, mf, k);
                    lemma_field_source_widen(credential, claims, rf, fm, k);
                } else {
                    if k == rf.len() - 1 {
                        assert(field_from_claim(
                            credential,
                            claims[claims.len() - 1],
                            rf[k],
                            fm[k],
                        ));
                    } else {
                        lemma_requested_field_source(
                            credential,
                            claims.drop_last(),
                            rf.drop_last(),
                            fm.drop_last(),
                            mf,
                            k,
                        );
                        let q = choose|q: int|
                            0 <= q < claims.drop_last().len() && #[trigger] field_from_claim(
                                credential,
                                claims.drop_last()[q],
                                rf.drop_last()[k],
                                fm.drop_last()[k],
                            );
                        assert(claims.drop_last()[q] == claims[q]);
                        assert(rf.drop_last()[k] == rf[k]);
                        assert(fm.drop_last()[k] == fm[k]);
                        assert(field_from_claim(credential, claims[q], rf[k], fm[k]));
                    }
                }
            },
            None => {
                lemma_requested_field_source(
                    credential,
                    claims.drop_last(),
                    rf,
                    fm,
                    mf.drop_last(),
                    k,
                );
                lemma_field_source_widen(credential, claims, rf, fm, k);
            },
        }
    }
}

/// Widen a field-source witness from the query without its last claim
/// to the whole query.
proof fn lemma_field_source_widen(
    credential: &MdocModel,
    claims: Seq<ClaimQueryModel>,
    rf: Seq<RequestedField180137>,
    fm: Seq<(String, (String, String))>,
    k: int,
)
    requires
        claims.len() > 0,
        0 <= k < rf.len(),
        0 <= k < fm.len(),
        exists|q: int|
            0 <= q < claims.drop_last().len() && #[trigger] field_from_claim(
                credential,
                claims.drop_last()[q],
                rf[k],
                fm[k],
            ),
    ensures
        exists|q: int|
            0 <= q < claims.len() && #[trigger] field_from_claim(
                credential,
                claims[q],
                rf[k],
                fm[k],
            ),
{
    let q = choose|q: int|
        0 <= q < claims.drop_last().len() && #[trigger] field_from_claim(
            credential,
            claims.drop_last()[q],
            rf[k],
            fm[k],
        );
    assert(claims.drop_last()[q] == claims[q]);
    assert(field_from_claim(credential, claims[q], rf[k], fm[k]));
}

/// Law: every missing field of a match comes from some claim of the
/// query whose path did not resolve against the credential.
pub proof fn lemma_missing_field_source(
    credential: &MdocModel,
    claims: Seq<ClaimQueryModel>,
    rf: Seq<RequestedField180137>,
    fm: Seq<(String, (String, String))>,
    mf: Seq<(String, String)>,
    k: int,
)
    requires
        lists_match_claims(credential, claims, rf, fm, mf),
        0 <= k < mf.len(),
    ensures
        exists|q: int|
            0 <= q < claims.len() && #[trigger] missing_from_claim(
                credential,
                claims[q],
                mf[k],
            ),
    decreases claims.len(),
{
    let c = claims.last();
    if c.path@.len() < 2 {
        lemma_missing_field_source(credential, claims.drop_last(), rf, fm, mf, k);
        lemma_missing_source_widen(credential, claims, mf, k);
    } else {
        match resolve_spec(credential.namespaces@, c.path@[0]@, c.path@[1]@) {
            Some(p) => {
                let elem = credential.namespaces@[p.0].elements@[p.1];
                if is_age_over_id(elem.identifier@) && age_over_count(rf) >= 2
                    && lists_match_claims(credential, claims.drop_last(), rf, fm, mf) {
                    lemma_missing_field_source(credential, claims.drop_last(), rf, fm, mf, k);
                    lemma_missing_source_widen(credential, claims, mf, k);
                } else {
                    lemma_missing_field_source(
                        credential,
                        claims.drop_last(),
                        rf.drop_last(),
                        fm.drop_last(),
                        mf,
                        k,
                    );
                    lemma_missing_source_widen(credential, claims, mf, k);
                }
            },
            None => {
                if k == mf.len() - 1 {
                    assert(missing_from_claim(credential, claims[claims.len() - 1], mf[k]));
                } else {
                    lemma_missing_field_source(
                        credential,
                        claims.drop_last(),
                        rf,
                        fm,
                        mf.drop_last(),
                        k,
                    );
                    let q = choose|q: int|
                        0 <= q < claims.drop_last().len() && #[trigger] missing_from_claim(
                            credential,
                            claims.drop_last()[q],
                            mf.drop_last()[k],
                        );
                    assert(claims.drop_last()[q] == claims[q]);
                    assert(mf.drop_last()[k] == mf[k]);
                    assert(missing_from_claim(credential, claims[q], mf[k]));
                }
            },
        }
    }
}

/// Widen a missing-source witness from the query without its last claim
/// to the whole query.
proof fn lemma_missing_source_widen(
    credential: &MdocModel,
    claims: Seq<ClaimQueryModel>,
    mf: Seq<(String, String)>,
    k: int,
)
    requires
        claims.len() > 0,
        0 <= k < mf.len(),
        exists|q: int|
            0 <= q < claims.drop_last().len() && #[trigger] missing_from_claim(
                credential,
                claims.drop_last()[q],
                mf[k],
            ),
    ensures
        exists|q: int|
            0 <= q < claims.len() && #[trigger] missing_from_claim(
                credential,
                claims[q],
                mf[k],
            ),
{
    let q = choose|q: int|
        0 <= q < claims.drop_last().len() && #[trigger] missing_from_claim(
            credential,
            claims.drop_last()[q],
            mf[k],
        );
    assert(claims.drop_last()[q] == claims[q]);
    assert(missing_from_claim(credential, claims[q], mf[k]));
}


/// Find the match between a query and a credential.
///
/// The credential must carry the requested doctype where the query names
/// one. Each two-element claim path is resolved against the credential's
/// namespaces; a requested element the credential carries becomes a
/// requested field under a fresh handle, and one it does not carry is
/// recorded as missing. A request for `age_over_NN` is satisfied by the
/// credential's age attestation with the lowest threshold at or above
/// `NN`, and at most two `age_over_` fields are answered in total, as
/// ISO 18013-5 rules for age attestations ask.
pub fn find_match(query: &DcqlQueryModel, credential: &MdocModel) -> (r: Result<
    RequestMatch180137,
    MatchError,
>)
    requires
        mdoc_wf(credential),
    ensures
        r is Err <==> (query.doctype matches Some(dt) && dt@ != credential.doc_type@),
        r matches Ok(m) ==> {
            &&& age_over_count(m.requested_fields@) <= 2
            &&& m.credential_id@ == credential.id@
            &&& m.field_map@.len() == m.requested_fields@.len()
            &&& lists_match_claims(
                credential,
                query.claims@,
                m.requested_fields@,
                m.field_map@,
                m.missing_fields@,
            )
        },
{
    match &query.doctype {
        Some(dt) => {
            if !str_eq(dt.as_str(), credential.doc_type.as_str()) {
                return Err(MatchError::DoctypeMismatch);
            }
        }
        None => {
        }
    }
    let mut requested_fields: Vec<RequestedField180137> = Vec::new();
    let mut missing_fields: Vec<(String, String)> = Vec::new();
    let mut field_map: Vec<(String, (String, String))> = Vec::new();
    let mut seen_age_over: u64 = 0;
    let mut qi: usize = 0;
    proof {
        assert(query.claims@.take(0) =~= Seq::<ClaimQueryModel>::empty());
    }
    while qi < query.claims.len()
        invariant
            forall|n: int| 0 <= n < credential.namespaces@.len() ==> forall|e: int|
                0 <= e < (#[trigger] credential.namespaces@[n]).elements@.len() ==> cbor_wf(
                    (#[trigger] credential.namespaces@[n].elements@[e]).value,
                ),
            qi <= query.claims@.len(),
            age_over_count(requested_fields@) == seen_age_over as int,
            seen_age_over <= 2,
            field_map@.len() == requested_fields@.len(),
            lists_match_claims(
                credential,
                query.claims@.take(qi as int),
                requested_fields@,
                field_map@,
                missing_fields@,
            ),
        decreases query.claims@.len() - qi,
    {
        let claim = &query.claims[qi];
        let ghost q0 = qi as int;
        let ghost taken = query.claims@.take(q0 + 1);
        proof {
            assert(taken.drop_last() =~= query.claims@.take(q0));
            assert(taken.last() == query.claims@[q0]);
        }
        qi = qi + 1;
        if claim.path.len() < 2 {
            proof {
                assert(lists_match_claims(
                    credential,
                    taken,
                    requested_fields@,
                    field_map@,
                    missing_fields@,
                ));
            }
            continue ;
        }
        let namespace = &claim.path[0];
        let element_id = &claim.path[1];
        let resolved = resolve_element(credential, namespace.as_str(), element_id.as_str());
        match resolved {
            Some((ns_idx, el_idx)) => {
                let elem = &credential.namespaces[ns_idx].elements[el_idx];
                let is_age = str_starts_with(elem.identifier.as_str(), "age_over_");
                proof {
                    assert(is_age == is_age_over_id(elem.identifier@));
                }
                if is_age {
                    if seen_age_over >= 2 {
                        proof {
                            assert(lists_match_claims(
                                credential,
                                taken,
                                requested_fields@,
                                field_map@,
                                missing_fields@,
                            ));
                        }
                        continue ;
                    }
                    seen_age_over = seen_age_over + 1;
                }
                let field_id = new_uuid_v4_string();
                let value_display = cbor_display_value(&elem.value);
                let name = sentence_case(elem.identifier.as_str());
                let field = RequestedField180137 {
                    id: field_id.clone(),
                    element_identifier: elem.identifier.clone(),
                    displayable_name: name,
                    displayable_value: value_display,
                    selectively_disclosable: true,
                    intent_to_retain: match claim.intent_to_retain {
                        Some(b) => b,
                        None => false,
                    },
                    required: true,
                    purpose: None,
                };
                let entry = (field_id, (namespace.clone(), elem.identifier.clone()));
                proof {
                    lemma_age_over_count_push(requested_fields@, field);
                    if is_age {
                        assert(is_age_over_field(field)) by {
                            assert(field.element_identifier@ == elem.identifier@);
                        }
                    }
                    assert(field_from_claim(credential, query.claims@[q0], field, entry));
                }
                let ghost rf_pre = requested_fields@;
                let ghost fm_pre = field_map@;
                requested_fields.push(field);
                field_map.push(entry);
                proof {
                    assert(requested_fields@.drop_last() =~= rf_pre);
                    assert(field_map@.drop_last() =~= fm_pre);
                    assert(requested_fields@.last() == field);
                    assert(field_map@.last() == entry);
                    assert(lists_match_claims(
                        credential,
                        taken,
                        requested_fields@,
                        field_map@,
                        missing_fields@,
                    ));
                }
            }
            None => {
                let mf = (namespace.clone(), element_id.clone());
                proof {
                    assert(missing_from_claim(credential, query.claims@[q0], mf));
                }
                let ghost mf_pre = missing_fields@;
                missing_fields.push(mf);
                proof {
                    assert(missing_fields@.drop_last() =~= mf_pre);
                    assert(missing_fields@.last() == mf);
                    assert(lists_match_claims(
                        credential,
                        taken,
                        requested_fields@,
                        field_map@,
                        missing_fields@,
                    ));
                }
            }
        }
    }
    let result = RequestMatch180137 {
        credential_id: credential.id.clone(),
        requested_fields,
        missing_fields,
        field_map,
    };
    proof {
        assert(query.claims@.take(query.claims@.len() as int) =~= query.claims@);
        assert(lists_match_claims(
            credential,
            query.claims@,
            result.requested_fields@,
            result.field_map@,
            result.missing_fields@,
        ));
    }
    Ok(result)
}

/// Parse the numeric threshold of an `age_over_NN` identifier.
fn age_threshold(identifier: &str) -> (r: Option<u64>)
    ensures
        match r {
            Some(t) => age_threshold_spec(identifier@) == Some(t as int),
            None => age_threshold_spec(identifier@) is None,
        },
{
    proof {
        reveal_strlit("age_over_");
    }
    if !str_starts_with(identifier, "age_over_") {
        return None;
    }
    let n = identifier.unicode_len();
    if n != 11 {
        return None;
    }
    let d1 = identifier.get_char(9) as u32;
    let d2 = identifier.get_char(10) as u32;
    if d1 < 48 || d1 > 57 || d2 < 48 || d2 > 57 {
        return None;
    }
    Some(((d1 - 48) * 10 + (d2 - 48)) as u64)
}

/// Resolve a requested element against the credential: a direct carry
/// of the identifier wins; a requested `age_over_NN` the credential
/// does not carry directly is answered by the credential's age
/// attestation with the lowest threshold at or above `NN`, following
/// ISO 18013-5 age-attestation rules.
#[verifier::loop_isolation(false)]
fn resolve_element(credential: &MdocModel, namespace: &str, element_id: &str) -> (r: Option<
    (usize, usize),
>)
    ensures
        match r {
            Some(p) => p.0 < credential.namespaces@.len() && p.1
                < credential.namespaces@[p.0 as int].elements@.len() && resolve_spec(
                credential.namespaces@,
                namespace@,
                element_id@,
            ) == Some((p.0 as int, p.1 as int)),
            None => resolve_spec(credential.namespaces@, namespace@, element_id@) is None,
        },
{
    let ghost nss = credential.namespaces@;
    let mut n: usize = 0;
    while n < credential.namespaces.len()
        invariant
            n <= nss.len(),
            ns_index_from(nss, namespace@, 0) == ns_index_from(nss, namespace@, n as int),
        decreases credential.namespaces@.len() - n,
    {
        if str_eq(credential.namespaces[n].namespace.as_str(), namespace) {
            proof {
                assert(ns_index_from(nss, namespace@, n as int) == Some(n as int));
            }
            let elems = &credential.namespaces[n].elements;
            let mut e: usize = 0;
            while e < elems.len()
                invariant
                    e <= elems@.len(),
                    elem_index_from(elems@, element_id@, 0) == elem_index_from(
                        elems@,
                        element_id@,
                        e as int,
                    ),
                decreases elems@.len() - e,
            {
                if str_eq(elems[e].identifier.as_str(), element_id) {
                    proof {
                        assert(elem_index_from(elems@, element_id@, e as int) == Some(e as int));
                    }
                    return Some((n, e));
                }
                e = e + 1;
            }
            proof {
                assert(elem_index_from(elems@, element_id@, elems@.len() as int) is None);
            }
            // No direct carry: try the age-attestation substitution.
            let wanted = match age_threshold(element_id) {
                Some(w) => w,
                None => {
                    return None;
                }
            };
            if !str_eq(namespace, "org.iso.18013.5.1") {
                return None;
            }
            let mut best: Option<(usize, u64)> = None;
            let mut e2: usize = 0;
            while e2 < elems.len()
                invariant
                    e2 <= elems@.len(),
                    match best {
                        Option::Some(b) => b.0 < elems@.len() && best_age_index(
                            elems@,
                            wanted as int,
                            e2 as int,
                        ) == Some(b.0 as int) && age_threshold_spec(
                            elems@[b.0 as int].identifier@,
                        ) == Some(b.1 as int),
                        Option::None => best_age_index(elems@, wanted as int, e2 as int)
                            is None,
                    },
                decreases elems@.len() - e2,
            {
                match age_threshold(elems[e2].identifier.as_str()) {
                    Some(t) => {
                        if t >= wanted {
                            let better = match best {
                                Some((_, bt)) => t < bt,
                                None => true,
                            };
                            if better {
                                best = Some((e2, t));
                            }
                        }
                    }
                    None => {
                    }
                }
                e2 = e2 + 1;
            }
            match best {
                Some((idx, _)) => {
                    return Some((n, idx));
                }
                None => {
                    return None;
                }
            }
        }
        proof {
            assert(nss[n as int].namespace@ != namespace@);
        }
        n = n + 1;
    }
    proof {
        assert(ns_index_from(nss, namespace@, nss.len() as int) is None);
    }
    None
}

} // verus!
