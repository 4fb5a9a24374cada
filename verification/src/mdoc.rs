use vstd::prelude::*;
use vstd::string::StringExecFns;
use vstd::string::StrSliceExecFns;
use crate::cbor::{cbor_wf, CborValue};
use crate::display::{cbor_text, cbor_to_text};
use crate::encoding::{base64_std_encode, base64_std_of};
use crate::json::{json_render, json_text, JsonValue};
use crate::matcher::MdocModel;
use crate::text::{str_eq, str_starts_with};

verus! {

/// Why an mdoc could not be constructed.
#[derive(Debug)]
pub enum MdocInitError {
    /// The document bytes did not decode as CBOR.
    DocumentCborDecoding(String),
    /// The issuer-signed bytes were not base64url.
    IssuerSignedBase64UrlDecoding,
    /// The issuer-signed bytes did not decode as CBOR.
    IssuerSignedCborDecoding,
    /// The issuer-auth signed object carries no payload.
    IssuerAuthPayloadMissing,
    /// The issuer-auth payload is not a mobile security object.
    IssuerAuthPayloadDecoding,
    /// An mdoc needs a key alias and none was given.
    KeyAliasMissing,
    /// The issuer-signed structure carries no namespaces.
    NamespacesMissing,
    /// The document string was not UTF-8.
    DocumentUtf8Decoding,
}

/// Why an mdoc could not be re-encoded.
#[derive(Debug)]
pub enum MdocEncodingError {
    /// The document did not encode as CBOR.
    DocumentCborEncoding,
}

/// A namespace label of mdoc data elements.
#[derive(Debug, Clone)]
pub struct Namespace(pub String);

/// Simple representation of an mdoc data element for the holder's
/// interface: its identifier and a best-effort JSON rendering, missing
/// where the value has no JSON counterpart.
#[derive(Debug)]
pub struct Element {
    pub identifier: String,
    pub value: Option<String>,
}

/// How a JSON value renders a CBOR value for display: null, booleans
/// and integers carry over, text shows itself, a float shows its
/// display text, byte strings become `data:` URLs over standard base64,
/// arrays and maps convert elementwise with map keys rendered as
/// display text, and a tag shows its inner value.
pub open spec fn json_renders_cbor(v: CborValue, j: JsonValue) -> bool
    decreases v,
{
    match v {
        CborValue::Null => j is Null,
        CborValue::Bool(b) => j matches JsonValue::Bool(jb) && jb == b,
        CborValue::Integer(i) => j matches JsonValue::Number(n) && n == i.value(),
        CborValue::Text(s) => j matches JsonValue::Str(t) && t@ == s@,
        CborValue::Float { text, .. } => j matches JsonValue::Str(t) && t@ == text@,
        CborValue::Bytes(bs) => j matches JsonValue::Str(t) && t@
            == "data:application/octet-stream;base64,"@ + base64_std_of(bs@),
        CborValue::Array(elems) => j matches JsonValue::Array(js) && js@.len() == elems@.len()
            && forall|k: int|
            0 <= k < elems@.len() ==> json_renders_cbor(#[trigger] elems@[k], js@[k]),
        CborValue::ItemMap(entries) => j matches JsonValue::Object(es) && es@.len()
            == entries@.len() && forall|k: int|
            0 <= k < entries@.len() ==> (#[trigger] es@[k]).0@ == cbor_text(entries@[k].0)
                && json_renders_cbor(entries@[k].1, es@[k].1),
        CborValue::Tag(_, inner) => json_renders_cbor(*inner, j),
    }
}

/// The JSON counterpart of a CBOR value, for display.
#[verifier::loop_isolation(false)]
pub fn cbor_to_json(v: &CborValue) -> (r: JsonValue)
    requires
        cbor_wf(*v),
    ensures
        json_renders_cbor(*v, r),
    decreases *v,
{
    match v {
        CborValue::Null => JsonValue::Null,
        CborValue::Bool(b) => JsonValue::Bool(*b),
        CborValue::Integer(i) => JsonValue::Number(i.to_i128()),
        CborValue::Text(s) => JsonValue::Str(s.clone()),
        CborValue::Float { text, .. } => JsonValue::Str(text.clone()),
        CborValue::Bytes(bs) => {
            let mut t = String::from_str("data:application/octet-stream;base64,");
            let encoded = base64_std_encode(bs);
            t.append(encoded.as_str());
            JsonValue::Str(t)
        }
        CborValue::Array(elems) => {
            let mut out: Vec<JsonValue> = Vec::new();
            let mut i: usize = 0;
            while i < elems.len()
                invariant
                    i <= elems@.len(),
                    out@.len() == i,
                    forall|k: int| 0 <= k < i ==> json_renders_cbor(
                        #[trigger] elems@[k],
                        out@[k],
                    ),
                decreases elems@.len() - i,
            {
                proof {
                    assert(decreases_to!(*v => elems@[i as int]));
                    assert(cbor_wf(#[trigger] elems@[i as int]));
                }
                out.push(cbor_to_json(&elems[i]));
                i = i + 1;
            }
            JsonValue::Array(out)
        }
        CborValue::ItemMap(entries) => {
            let mut out: Vec<(String, JsonValue)> = Vec::new();
            let mut i: usize = 0;
            while i < entries.len()
                invariant
                    i <= entries@.len(),
                    out@.len() == i,
                    forall|k: int| 0 <= k < i ==> (#[trigger] out@[k]).0@ == cbor_text(
                        entries@[k].0,
                    ) && json_renders_cbor(entries@[k].1, out@[k].1),
                decreases entries@.len() - i,
            {
                proof {
                    assert(decreases_to!(*v => entries@[i as int]));
                    assert(decreases_to!(entries@[i as int] => entries@[i as int].0));
                    assert(decreases_to!(entries@[i as int] => entries@[i as int].1));
                    assert(cbor_wf(#[trigger] entries@[i as int].0));
                    assert(cbor_wf(entries@[i as int].1));
                }
                let key = cbor_to_text(&entries[i].0);
                let j = cbor_to_json(&entries[i].1);
                out.push((key, j));
                i = i + 1;
            }
            JsonValue::Object(out)
        }
        CborValue::Tag(_, inner) => cbor_to_json(inner),
    }
}

/// The portrait media-type rewrite: a rendering that begins with the
/// generic byte-string data-URL prefix takes the JPEG prefix instead;
/// any other rendering stands unchanged.
pub open spec fn portrait_rewrite(s: Seq<char>) -> Seq<char> {
    if s.len() >= "data:application/octet-stream;base64,"@.len() && s.subrange(
        0,
        "data:application/octet-stream;base64,"@.len() as int,
    ) == "data:application/octet-stream;base64,"@ {
        "data:image/jpeg;base64,"@ + s.skip("data:application/octet-stream;base64,"@.len() as int)
    } else {
        s
    }
}

/// Rewrite the data-URL media type of a portrait rendering, applied to
/// the string content before it is quoted: the issuer stores the
/// portrait as an opaque byte string, and the interface shows it as a
/// JPEG. Only the `data:` prefix can hold the generic media type, as
/// the base64 body has no `-` character, so rewriting the prefix is
/// the whole rewrite.
pub fn rewrite_portrait_media_type(value: String) -> (r: String)
    ensures
        r@ == portrait_rewrite(value@),
{
    let prefix = "data:application/octet-stream;base64,";
    if str_starts_with(value.as_str(), prefix) {
        let n = value.as_str().unicode_len();
        let m = prefix.unicode_len();
        let body = value.as_str().substring_char(m, n);
        let mut out = String::from_str("data:image/jpeg;base64,");
        out.append(body);
        proof {
            assert(body@ =~= value@.skip(m as int));
        }
        out
    } else {
        value
    }
}

/// The rendering of the portrait element: a string value has its
/// content rewritten to the JPEG media type before it is quoted; any
/// other value renders as it is. The portrait is issued as a byte
/// string, so its JSON counterpart is a string holding the data URL.
pub open spec fn portrait_text(j: JsonValue) -> Seq<char> {
    match j {
        JsonValue::Str(s) => crate::json::str_json(portrait_rewrite(s@)),
        _ => json_text(j),
    }
}

/// How an interface element presents a data element: the identifier is
/// carried over, and the value is the compact rendering of the JSON
/// counterpart, with the portrait element's media type rewritten inside
/// the rendered string.
pub open spec fn element_rendered(elem: crate::matcher::MdocElement, out: Element) -> bool {
    &&& out.identifier@ == elem.identifier@
    &&& exists|j: JsonValue|
        {
            &&& #[trigger] json_renders_cbor(elem.value, j)
            &&& out.value matches Some(t) && t@ == (if elem.identifier@ == "portrait"@ {
                portrait_text(j)
            } else {
                json_text(j)
            })
        }
}

/// Simple representation of the mdoc namespaces and data elements for
/// the holder's interface: each element's identifier beside its
/// best-effort JSON rendering, with the portrait element's media type
/// rewritten to JPEG.
pub fn details(mdoc: &MdocModel) -> (r: Vec<(Namespace, Vec<Element>)>)
    requires
        crate::matcher::mdoc_wf(mdoc),
    ensures
        r@.len() == mdoc.namespaces@.len(),
        forall|n: int| 0 <= n < r@.len() ==> (#[trigger] r@[n]).0.0@
            == mdoc.namespaces@[n].namespace@ && r@[n].1@.len()
            == mdoc.namespaces@[n].elements@.len(),
        forall|n: int, e: int|
            0 <= n < r@.len() && 0 <= e < r@[n].1@.len() ==> element_rendered(
                #[trigger] mdoc.namespaces@[n].elements@[e],
                #[trigger] r@[n].1@[e],
            ),
{
    let mut out: Vec<(Namespace, Vec<Element>)> = Vec::new();
    let mut n: usize = 0;
    while n < mdoc.namespaces.len()
        invariant
            forall|k: int| 0 <= k < mdoc.namespaces@.len() ==> forall|e: int|
                0 <= e < (#[trigger] mdoc.namespaces@[k]).elements@.len() ==> cbor_wf(
                    (#[trigger] mdoc.namespaces@[k].elements@[e]).value,
                ),
            n <= mdoc.namespaces@.len(),
            out@.len() == n,
            forall|k: int| 0 <= k < n ==> (#[trigger] out@[k]).0.0@
                == mdoc.namespaces@[k].namespace@ && out@[k].1@.len()
                == mdoc.namespaces@[k].elements@.len(),
            forall|k: int, j: int|
                0 <= k < n && 0 <= j < out@[k].1@.len() ==> element_rendered(
                    #[trigger] mdoc.namespaces@[k].elements@[j],
                    #[trigger] out@[k].1@[j],
                ),
        decreases mdoc.namespaces@.len() - n,
    {
        let ns = &mdoc.namespaces[n];
        let mut elements: Vec<Element> = Vec::new();
        let mut e: usize = 0;
        while e < ns.elements.len()
            invariant
                n < mdoc.namespaces@.len(),
                ns == &mdoc.namespaces@[n as int],
                forall|j: int| 0 <= j < ns.elements@.len() ==> cbor_wf(
                    (#[trigger] ns.elements@[j]).value,
                ),
                e <= ns.elements@.len(),
                elements@.len() == e,
                forall|j: int| 0 <= j < e ==> element_rendered(
                    #[trigger] ns.elements@[j],
                    elements@[j],
                ),
            decreases ns.elements@.len() - e,
        {
            proof {
                assert(cbor_wf((#[trigger] ns.elements@[e as int]).value));
            }
            let elem = &ns.elements[e];
            let j = cbor_to_json(&elem.value);
            let ghost gj = j;
            let value = if str_eq(elem.identifier.as_str(), "portrait") {
                match j {
                    JsonValue::Str(content) => {
                        let rewritten = rewrite_portrait_media_type(content);
                        let quoted = json_render(&JsonValue::Str(rewritten));
                        proof {
                            assert(quoted@ == portrait_text(gj));
                        }
                        Some(quoted)
                    }
                    other => Some(json_render(&other)),
                }
            } else {
                Some(json_render(&j))
            };
            let item = Element { identifier: elem.identifier.clone(), value };
            proof {
                assert(element_rendered(ns.elements@[e as int], item)) by {
                    assert(json_renders_cbor(ns.elements@[e as int].value, gj));
                }
            }
            elements.push(item);
            e = e + 1;
        }
        out.push((Namespace(ns.namespace.clone()), elements));
        n = n + 1;
    }
    out
}

} // verus!
