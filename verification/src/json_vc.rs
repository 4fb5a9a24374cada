use vstd::prelude::*;
use vstd::string::StringExecFns;
use crate::common::{CredentialType, VcdmVersion};
use crate::crypto::KeyAlias;
use crate::json::JsonValue;
use crate::presentation::json_lookup;

verus! {

/// Why a JSON credential could not be constructed.
#[derive(Debug)]
pub enum JsonVcInitError {
    /// The JSON is not a W3C VCDM credential, version 1 or 2.
    CredentialDecoding,
    /// The credential could not be re-encoded as a UTF-8 string.
    CredentialStringEncoding,
    /// The bytes did not decode as JSON.
    JsonBytesDecoding,
    /// The string did not decode as JSON.
    JsonStringDecoding,
}

/// Why a JSON credential could not be encoded.
#[derive(Debug)]
pub enum JsonVcEncodingError {
    /// The JSON could not be encoded as bytes.
    JsonBytesEncoding,
}

/// A verifiable credential secured as JSON, reduced to what the core
/// reads: the raw JSON, the data-model version, the credential types
/// beyond the base type, and the signing key alias. The embedding
/// application parses the credential with its JSON-LD machinery and
/// hands the pieces in.
#[derive(Debug)]
pub struct JsonVc {
    pub id: String,
    pub raw: JsonValue,
    pub version: VcdmVersion,
    pub additional_types: Vec<String>,
    pub key_alias: Option<KeyAlias>,
}

/// The credential types joined with `+`.
pub open spec fn types_joined(ts: Seq<String>) -> Seq<char>
    decreases ts.len(),
{
    if ts.len() == 0 {
        Seq::empty()
    } else {
        ts[0]@ + types_tail(ts.drop_first())
    }
}

/// The tail of a type join: a plus sign before each further type.
pub open spec fn types_tail(ts: Seq<String>) -> Seq<char>
    decreases ts.len(),
{
    if ts.len() == 0 {
        Seq::empty()
    } else {
        seq!['+'] + ts[0]@ + types_tail(ts.drop_first())
    }
}

pub proof fn lemma_types_tail_push(ts: Seq<String>, x: String)
    ensures
        types_tail(ts.push(x)) == types_tail(ts) + seq!['+'] + x@,
    decreases ts.len(),
{
    if ts.len() == 0 {
        let p = ts.push(x);
        assert(p[0] == x);
        assert(p.drop_first() =~= Seq::<String>::empty());
        assert(types_tail(p.drop_first()) == Seq::<char>::empty());
        assert(types_tail(p) =~= seq!['+'] + x@);
        assert(types_tail(ts) + seq!['+'] + x@ =~= seq!['+'] + x@);
    } else {
        assert(ts.push(x).drop_first() =~= ts.drop_first().push(x));
        assert(ts.push(x)[0] == ts[0]);
        lemma_types_tail_push(ts.drop_first(), x);
        assert(types_tail(ts.push(x)) == seq!['+'] + ts[0]@ + (types_tail(ts.drop_first())
            + seq!['+'] + x@));
        assert(seq!['+'] + ts[0]@ + (types_tail(ts.drop_first()) + seq!['+'] + x@) =~= (
        seq!['+'] + ts[0]@ + types_tail(ts.drop_first())) + seq!['+'] + x@);
    }
}

impl JsonVc {
    /// The data-model version the credential conforms to.
    pub fn vcdm_version(&self) -> (r: VcdmVersion)
        ensures
            r == self.version,
    {
        self.version
    }

    /// The credential's types beyond the base type.
    pub fn types(&self) -> (r: &Vec<String>)
        ensures
            r == &self.additional_types,
    {
        &self.additional_types
    }

    /// The credential type label: the types joined with `+`.
    pub fn credential_type(&self) -> (r: CredentialType)
        ensures
            r.0@ == types_joined(self.additional_types@),
    {
        let ts = &self.additional_types;
        let mut out = String::new();
        if ts.len() > 0 {
            out.append(ts[0].as_str());
            let ghost base = out@;
            let mut i: usize = 1;
            while i < ts.len()
                invariant
                    1 <= i <= ts@.len(),
                    base == ts@[0]@,
                    out@ == base + types_tail(ts@.subrange(1, i as int)),
                decreases ts@.len() - i,
            {
                proof {
                    reveal_strlit("+");
                }
                out.append("+");
                out.append(ts[i].as_str());
                proof {
                    lemma_types_tail_push(ts@.subrange(1, i as int), ts@[i as int]);
                    assert(ts@.subrange(1, i as int).push(ts@[i as int]) =~= ts@.subrange(
                        1,
                        i + 1,
                    ));
                    assert(out@ =~= base + types_tail(ts@.subrange(1, i + 1)));
                }
                i = i + 1;
            }
            proof {
                assert(ts@.subrange(1, ts@.len() as int) =~= ts@.drop_first());
                assert(out@ =~= types_joined(ts@));
            }
        } else {
            assert(out@ =~= types_joined(ts@));
        }
        CredentialType(out)
    }

    /// The first entry of the credential's status list, where the
    /// credential carries one: the first element under the
    /// `credentialStatus` member.
    pub fn status_list_entry(&self) -> (r: Option<&JsonValue>)
        ensures
            match &self.raw {
                JsonValue::Object(es) => match json_lookup(es@, "credentialStatus"@) {
                    Some(v) => match v {
                        JsonValue::Array(sts) => if sts@.len() > 0 {
                            r matches Some(out) && *out == sts@[0]
                        } else {
                            r is None
                        },
                        other => r matches Some(out) && *out == other,
                    },
                    None => r is None,
                },
                _ => r is None,
            },
    {
        match &self.raw {
            JsonValue::Object(es) => {
                match crate::presentation::object_entry(es, "credentialStatus") {
                    Some(v) => match v {
                        JsonValue::Array(sts) => {
                            if sts.len() > 0 {
                                Some(&sts[0])
                            } else {
                                None
                            }
                        }
                        other => Some(other),
                    },
                    None => None,
                }
            }
            _ => None,
        }
    }
}

} // verus!
