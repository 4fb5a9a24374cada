use vstd::prelude::*;
use vstd::string::StringExecFns;
use crate::json::{json_render, json_text, JsonValue};
use crate::text::{dec_digits, u128_to_decimal};

verus! {

/// Why a permission request or response could not be built.
#[derive(Debug)]
pub enum PermissionRequestError {
    /// Permission denied for the requested presentation.
    PermissionDenied,
    /// No credentials matched the presentation definition.
    NoCredentialsFound,
    /// No credential was found for an input descriptor id.
    CredentialNotFound(String),
    /// No input descriptor was found for an input descriptor id.
    InputDescriptorNotFound(String),
    /// The selected credentials do not fit the request.
    InvalidSelectedCredential(String),
    /// Presenting the credential failed.
    CredentialPresentation(String),
    /// A lock on the request state could not be taken.
    RwLock(String),
    /// Signing the presentation failed.
    PresentationSigning(String),
    /// The cryptographic suite is invalid or missing.
    CryptographicSuite(String),
    /// The verification method identifier is invalid.
    VerificationMethod(String),
    /// The request demands limited disclosure, which is not offered.
    LimitDisclosure,
}

/// The format a stored credential is in.
#[derive(Debug, Clone, Copy, PartialEq, Eq, Structural)]
pub enum CredentialFormat {
    MsoMdoc,
    LdpVc,
    JwtVc,
    JwtVcJsonLd,
    Vcdm2SdJwt,
    Cwt,
}

/// A credential as the permission flow carries it: its format, whether
/// the matching descriptor demands limited disclosure, and the fields
/// the holder selected for it.
#[derive(Debug)]
pub struct PresentableCredential {
    pub id: String,
    pub format: CredentialFormat,
    pub limit_disclosure: bool,
    pub selected_fields: Option<Vec<String>>,
}

/// A field an input descriptor requests, as the holder's interface
/// shows it.
#[derive(Debug)]
pub struct RequestedField {
    pub id: String,
    pub name: Option<String>,
    pub path: String,
    pub required: bool,
    pub retained: bool,
    pub purpose: Option<String>,
    pub input_descriptor_id: String,
    pub raw_fields: Vec<JsonValue>,
}

impl RequestedField {
    /// The unique id of the requested field.
    pub fn field_id(&self) -> (r: &String)
        ensures
            r == &self.id,
    {
        &self.id
    }

    /// The input descriptor the field belongs to.
    pub fn descriptor_id(&self) -> (r: &String)
        ensures
            r == &self.input_descriptor_id,
    {
        &self.input_descriptor_id
    }

    /// The stringified raw JSON fields the descriptor selected.
    pub fn raw_fields_json(&self) -> (r: Vec<String>)
        ensures
            r@.len() == self.raw_fields@.len(),
            forall|k: int| 0 <= k < r@.len() ==> (#[trigger] r@[k])@ == json_text(
                self.raw_fields@[k],
            ),
    {
        let mut out: Vec<String> = Vec::new();
        let mut i: usize = 0;
        while i < self.raw_fields.len()
            invariant
                i <= self.raw_fields@.len(),
                out@.len() == i,
                forall|k: int| 0 <= k < i ==> (#[trigger] out@[k])@ == json_text(
                    self.raw_fields@[k],
                ),
            decreases self.raw_fields@.len() - i,
        {
            out.push(json_render(&self.raw_fields[i]));
            i = i + 1;
        }
        out
    }
}

/// Non-normative switches for shaping the response for particular
/// verifier implementations.
#[derive(Debug, Clone, Copy)]
pub struct ResponseOptions {
    /// Strip the outer quotes around a JSON-string-encoded vp_token.
    pub should_strip_quotes: bool,
    /// Serialize a single presentation as a one-element array.
    pub force_array_serialization: bool,
    /// Drop the `$.vp` path prefix in the descriptor map.
    pub remove_vp_path_prefix: bool,
}

impl Default for ResponseOptions {
    /// All switches off.
    fn default() -> (r: ResponseOptions)
        ensures
            !r.should_strip_quotes,
            !r.force_array_serialization,
            !r.remove_vp_path_prefix,
    {
        ResponseOptions {
            should_strip_quotes: false,
            force_array_serialization: false,
            remove_vp_path_prefix: false,
        }
    }
}

/// Whether some credential in the selection demands limited disclosure.
pub open spec fn any_limit_disclosure(s: Seq<PresentableCredential>) -> bool {
    exists|i: int| 0 <= i < s.len() && (#[trigger] s[i]).limit_disclosure
}

/// Check a holder's selection before a response is built: the selection
/// must be non-empty, must pair every credential with a field list, and
/// must not contain a credential whose descriptor demands limited
/// disclosure, in that order of checks.
pub fn validate_selection(
    selected_credentials: &Vec<PresentableCredential>,
    selected_fields: &Vec<Vec<String>>,
) -> (r: Result<(), PermissionRequestError>)
    ensures
        selected_credentials@.len() == 0 ==> (r matches Err(e) && e
            is InvalidSelectedCredential),
        selected_credentials@.len() > 0 && selected_fields@.len()
            != selected_credentials@.len() ==> (r matches Err(e) && e
            is InvalidSelectedCredential),
        selected_credentials@.len() > 0 && selected_fields@.len()
            == selected_credentials@.len() && any_limit_disclosure(selected_credentials@) ==> (
        r matches Err(e) && e is LimitDisclosure),
        selected_credentials@.len() > 0 && selected_fields@.len()
            == selected_credentials@.len() && !any_limit_disclosure(selected_credentials@)
            ==> r is Ok,
{
    if selected_credentials.len() == 0 {
        return Err(
            PermissionRequestError::InvalidSelectedCredential(
                String::from_str("no selected credentials"),
            ),
        );
    }
    if selected_fields.len() != selected_credentials.len() {
        return Err(
            PermissionRequestError::InvalidSelectedCredential(
                String::from_str(
                    "selected credentials length must match selected fields length",
                ),
            ),
        );
    }
    let mut i: usize = 0;
    while i < selected_credentials.len()
        invariant
            i <= selected_credentials@.len(),
            selected_credentials@.len() > 0,
            selected_fields@.len() == selected_credentials@.len(),
            forall|k: int| 0 <= k < i ==> !(#[trigger] selected_credentials@[k]).limit_disclosure,
        decreases selected_credentials@.len() - i,
    {
        if selected_credentials[i].limit_disclosure {
            return Err(PermissionRequestError::LimitDisclosure);
        }
        i = i + 1;
    }
    Ok(())
}

/// The JSON path of a presented credential in the verifiable
/// presentation: the whole credential list, or one indexed entry.
pub open spec fn vc_path_text(index: Option<int>) -> Seq<char> {
    match index {
        Some(i) => "$.verifiableCredential["@ + dec_digits(i as nat) + "]"@,
        None => "$.verifiableCredential"@,
    }
}

/// The shape of one descriptor-map entry: the descriptor id, the
/// presentation format at the root path, and the credential format
/// nested at the credential's path.
pub open spec fn descriptor_entry_ok(
    j: JsonValue,
    id: Seq<char>,
    pf: Seq<char>,
    cf: Seq<char>,
    index: Option<int>,
) -> bool {
    &&& j matches JsonValue::Object(es) && {
        &&& es@.len() == 4
        &&& es@[0].0@ == "id"@
        &&& es@[0].1 matches JsonValue::Str(s) && s@ == id
        &&& es@[1].0@ == "format"@
        &&& es@[1].1 matches JsonValue::Str(s) && s@ == pf
        &&& es@[2].0@ == "path"@
        &&& es@[2].1 matches JsonValue::Str(s) && s@ == "$"@
        &&& es@[3].0@ == "path_nested"@
        &&& es@[3].1 matches JsonValue::Object(ns) && {
            &&& ns@.len() == 3
            &&& ns@[0].0@ == "id"@
            &&& ns@[0].1 matches JsonValue::Str(s) && s@ == id
            &&& ns@[1].0@ == "format"@
            &&& ns@[1].1 matches JsonValue::Str(s) && s@ == cf
            &&& ns@[2].0@ == "path"@
            &&& ns@[2].1 matches JsonValue::Str(s) && s@ == vc_path_text(index)
        }
    }
}

/// Build one descriptor-map entry for a presented credential. With a
/// single credential no index is used, so the nested path names the
/// whole credential list.
pub fn descriptor_map_entry(
    descriptor_id: &String,
    presentation_format: &str,
    credential_format: &str,
    index: Option<u64>,
) -> (r: JsonValue)
    ensures
        descriptor_entry_ok(
            r,
            descriptor_id@,
            presentation_format@,
            credential_format@,
            match index {
                Some(i) => Some(i as int),
                None => None,
            },
        ),
{
    let path = match index {
        Some(i) => {
            let mut p = String::from_str("$.verifiableCredential[");
            let d = u128_to_decimal(i as u128);
            p.append(d.as_str());
            p.append("]");
            p
        }
        None => String::from_str("$.verifiableCredential"),
    };
    let mut nested: Vec<(String, JsonValue)> = Vec::new();
    nested.push((String::from_str("id"), JsonValue::Str(descriptor_id.clone())));
    nested.push(
        (String::from_str("format"), JsonValue::Str(String::from_str(credential_format))),
    );
    nested.push((String::from_str("path"), JsonValue::Str(path)));
    let mut es: Vec<(String, JsonValue)> = Vec::new();
    es.push((String::from_str("id"), JsonValue::Str(descriptor_id.clone())));
    es.push(
        (String::from_str("format"), JsonValue::Str(String::from_str(presentation_format))),
    );
    es.push((String::from_str("path"), JsonValue::Str(String::from_str("$"))));
    es.push((String::from_str("path_nested"), JsonValue::Object(nested)));
    JsonValue::Object(es)
}

/// Build the descriptor map for a selection: one entry per selected
/// credential, paired with its input descriptor in order. A single
/// selected credential under a single descriptor is addressed without
/// an index; otherwise each entry carries its position.
pub fn create_descriptor_map(
    descriptor_ids: &Vec<String>,
    presentation_format: &str,
    credential_format: &str,
) -> (r: Vec<JsonValue>)
    ensures
        r@.len() == descriptor_ids@.len(),
        forall|k: int|
            0 <= k < r@.len() ==> descriptor_entry_ok(
                #[trigger] r@[k],
                descriptor_ids@[k]@,
                presentation_format@,
                credential_format@,
                if descriptor_ids@.len() == 1 {
                    None
                } else {
                    Some(k)
                },
            ),
{
    let mut out: Vec<JsonValue> = Vec::new();
    let single = descriptor_ids.len() == 1;
    let mut i: usize = 0;
    while i < descriptor_ids.len()
        invariant
            single == (descriptor_ids@.len() == 1),
            i <= descriptor_ids@.len(),
            out@.len() == i,
            forall|k: int|
                0 <= k < i ==> descriptor_entry_ok(
                    #[trigger] out@[k],
                    descriptor_ids@[k]@,
                    presentation_format@,
                    credential_format@,
                    if descriptor_ids@.len() == 1 {
                        None
                    } else {
                        Some(k)
                    },
                ),
        decreases descriptor_ids@.len() - i,
    {
        let index = if single {
            None
        } else {
            Some(i as u64)
        };
        out.push(
            descriptor_map_entry(&descriptor_ids[i], presentation_format, credential_format, index),
        );
        i = i + 1;
    }
    out
}

/// Pair each selected credential with the field list the holder chose
/// for it, after the selection checks: the result carries the same
/// credentials in order, each with its fields attached.
pub fn pair_selection(
    selected_credentials: Vec<PresentableCredential>,
    selected_fields: Vec<Vec<String>>,
) -> (r: Result<Vec<PresentableCredential>, PermissionRequestError>)
    ensures
        selected_credentials@.len() == 0 ==> (r matches Err(e) && e
            is InvalidSelectedCredential),
        selected_credentials@.len() > 0 && selected_fields@.len()
            != selected_credentials@.len() ==> (r matches Err(e) && e
            is InvalidSelectedCredential),
        selected_credentials@.len() > 0 && selected_fields@.len()
            == selected_credentials@.len() && any_limit_disclosure(selected_credentials@) ==> (
        r matches Err(e) && e is LimitDisclosure),
        selected_credentials@.len() > 0 && selected_fields@.len()
            == selected_credentials@.len() && !any_limit_disclosure(selected_credentials@)
            ==> (r matches Ok(out) && out@.len() == selected_credentials@.len() && forall|k: int|
            0 <= k < out@.len() ==> {
                &&& (#[trigger] out@[k]).id@ == selected_credentials@[k].id@
                &&& out@[k].format == selected_credentials@[k].format
                &&& !out@[k].limit_disclosure
                &&& out@[k].selected_fields == Some(selected_fields@[k])
            }),
{
    match validate_selection(&selected_credentials, &selected_fields) {
        Ok(()) => {
        }
        Err(e) => {
            return Err(e);
        }
    }
    let ghost orig_c = selected_credentials@;
    let ghost orig_f = selected_fields@;
    let mut creds = selected_credentials;
    let mut fields = selected_fields;
    let mut out: Vec<PresentableCredential> = Vec::new();
    while creds.len() > 0
        invariant
            orig_f.len() == orig_c.len(),
            creds@.len() == fields@.len(),
            out@.len() + creds@.len() == orig_c.len(),
            creds@ =~= orig_c.skip(out@.len() as int),
            fields@ =~= orig_f.skip(out@.len() as int),
            forall|k: int| 0 <= k < orig_c.len() ==> !(#[trigger] orig_c[k]).limit_disclosure,
            forall|k: int|
                0 <= k < out@.len() ==> {
                    &&& (#[trigger] out@[k]).id@ == orig_c[k].id@
                    &&& out@[k].format == orig_c[k].format
                    &&& !out@[k].limit_disclosure
                    &&& out@[k].selected_fields == Some(orig_f[k])
                },
        decreases creds@.len(),
    {
        let ghost j = out@.len() as int;
        let ghost c_pre = creds@;
        let ghost f_pre = fields@;
        let c = creds.remove(0);
        let f = fields.remove(0);
        proof {
            assert(creds@ =~= c_pre.drop_first());
            assert(fields@ =~= f_pre.drop_first());
            assert(c == orig_c[j]);
            assert(f == orig_f[j]);
            assert(!orig_c[j].limit_disclosure);
            assert(creds@ =~= orig_c.skip(j + 1));
            assert(fields@ =~= orig_f.skip(j + 1));
        }
        out.push(
            PresentableCredential {
                id: c.id,
                format: c.format,
                limit_disclosure: c.limit_disclosure,
                selected_fields: Some(f),
            },
        );
    }
    Ok(out)
}

} // verus!
