use vstd::prelude::*;
use vstd::string::StringExecFns;
use vstd::string::StrSliceExecFns;

verus! {

/// A credential type label, such as `"cwt"` or a VCDM type list joined
/// with `+`.
#[derive(Debug, Clone)]
pub struct CredentialType(pub String);

impl From<String> for CredentialType {
    fn from(s: String) -> (r: CredentialType) {
        CredentialType(s)
    }
}

impl vstd::std_specs::convert::FromSpecImpl<String> for CredentialType {
    open spec fn obeys_from_spec() -> bool {
        true
    }

    open spec fn from_spec(s: String) -> CredentialType {
        CredentialType(s)
    }
}

impl From<CredentialType> for String {
    fn from(t: CredentialType) -> (r: String) {
        t.0
    }
}

impl vstd::std_specs::convert::FromSpecImpl<CredentialType> for String {
    open spec fn obeys_from_spec() -> bool {
        true
    }

    open spec fn from_spec(t: CredentialType) -> String {
        t.0
    }
}

/// A storage key: an opaque string, optionally carrying a fixed prefix.
#[derive(Debug, Clone)]
pub struct Key(pub String);

impl Key {
    /// Create a new key by putting `prefix` in front of `key`.
    pub fn with_prefix(prefix: &str, key: &str) -> (r: Self)
        ensures
            r.0@ == prefix@ + key@,
    {
        let mut s = String::new();
        s.append(prefix);
        s.append(key);
        Key(s)
    }

    /// Strip `prefix` from the key: returns the rest of the key exactly
    /// when the key begins with the prefix, character for character.
    pub fn strip_prefix(&self, prefix: &str) -> (r: Option<String>)
        ensures
            match r {
                Some(rest) => self.0@.len() >= prefix@.len() && self.0@.subrange(
                    0,
                    prefix@.len() as int,
                ) == prefix@ && rest@ == self.0@.skip(prefix@.len() as int),
                None => !(self.0@.len() >= prefix@.len() && self.0@.subrange(
                    0,
                    prefix@.len() as int,
                ) == prefix@),
            },
    {
        let n = self.0.as_str().unicode_len();
        let m = prefix.unicode_len();
        if m > n {
            proof {
                if self.0@.len() >= prefix@.len() {
                    assert(false);
                }
            }
            return None;
        }
        let mut i: usize = 0;
        while i < m
            invariant
                m <= n,
                n == self.0@.len(),
                m == prefix@.len(),
                i <= m,
                forall|j: int| 0 <= j < i ==> self.0@[j] == prefix@[j],
            decreases m - i,
        {
            let ca = self.0.as_str().get_char(i);
            let cb = prefix.get_char(i);
            if ca != cb {
                proof {
                    if self.0@.subrange(0, m as int) == prefix@ {
                        assert(self.0@.subrange(0, m as int)[i as int] == prefix@[i as int]);
                        assert(false);
                    }
                }
                return None;
            }
            i = i + 1;
        }
        let rest = self.0.as_str().substring_char(m, n);
        proof {
            assert(self.0@.subrange(0, m as int) =~= prefix@);
            assert(rest@ =~= self.0@.skip(m as int));
        }
        Some(rest.to_owned())
    }
}

impl From<String> for Key {
    fn from(s: String) -> (r: Key) {
        Key(s)
    }
}

impl vstd::std_specs::convert::FromSpecImpl<String> for Key {
    open spec fn obeys_from_spec() -> bool {
        true
    }

    open spec fn from_spec(s: String) -> Key {
        Key(s)
    }
}

impl From<Key> for String {
    fn from(k: Key) -> (r: String) {
        k.0
    }
}

impl vstd::std_specs::convert::FromSpecImpl<Key> for String {
    open spec fn obeys_from_spec() -> bool {
        true
    }

    open spec fn from_spec(k: Key) -> String {
        k.0
    }
}

/// A stored value: an opaque byte blob.
#[derive(Debug)]
pub struct StoredValue(pub Vec<u8>);

/// The version of the W3C Verifiable Credentials Data Model a JSON
/// credential conforms to.
#[derive(Debug, Clone, Copy, PartialEq, Eq, Structural)]
pub enum VcdmVersion {
    V1,
    V2,
}

} // verus!
