use vstd::prelude::*;
use vstd::string::StringExecFns;
use vstd::utf8::encode_utf8;
use crate::cbor::{cbor_wf, CborInteger, CborValue};
use crate::cbor_codec::{enc_spec, encodable, encode_cbor, head_spec};
use crate::crypto::{normalise_spec, p256_valid_raw, CryptoCurveUtils};

verus! {

/// An error while establishing an mDL presentation session.
#[derive(Debug)]
pub enum SessionError {
    Generic { value: String },
}

/// An error while handling a reader's request.
#[derive(Debug)]
pub enum RequestError {
    Generic { value: String },
}

/// The items a reader requests: a document type and, per namespace, the
/// element identifiers with their intent-to-retain flags.
#[derive(Debug)]
pub struct ItemsRequest {
    pub doc_type: String,
    pub namespaces: Vec<(String, Vec<(String, bool)>)>,
}

/// An error while producing a response.
#[derive(Debug)]
pub enum ResponseError {
    /// No signature payload was received from the session.
    MissingSignature,
    Generic { value: String },
}

/// An error while signing a response.
#[derive(Debug)]
pub enum SignatureError {
    /// The signature bytes are not a recognised P-256 encoding.
    InvalidSignature { value: String },
    /// More documents were awaiting signatures than the one expected.
    TooManyDocuments,
    Generic { value: String },
}

/// An error while terminating the session.
#[derive(Debug)]
pub enum TerminationError {
    Generic { value: String },
}

/// An error while translating key material between encodings.
#[derive(Debug)]
pub enum KeyTransformationError {
    ToPkcs8 { value: String },
    FromPkcs8 { value: String },
    FromSec1 { value: String },
    ToSec1 { value: String },
}

/// The phase an mDL presentation session is in. The session is created
/// engaged (a QR engagement has been published); a decoded reader
/// request moves it in process; submitting the signed response makes it
/// ready to terminate.
#[derive(Debug, Clone, Copy, PartialEq, Eq, Structural)]
pub enum SessionPhase {
    Engaged,
    InProcess,
    Responded,
}

/// The holder's side of an ISO 18013-5 presentation session, as the
/// verified core tracks it: the engagement artefacts, the phase, and the
/// reader's decoded request while one is in process. The cryptographic
/// session state lives with the embedding application, which performs
/// the transport and session encryption and feeds decoded values in.
#[derive(Debug)]
pub struct MdlPresentationSession {
    pub qr_code_uri: String,
    pub ble_ident: Vec<u8>,
    pub phase: SessionPhase,
    pub items_requests: Vec<ItemsRequest>,
}

impl MdlPresentationSession {
    /// Start a session from its engagement artefacts: the `mdoc:` QR URI
    /// and the BLE ident bytes.
    pub fn new(qr_code_uri: String, ble_ident: Vec<u8>) -> (r: MdlPresentationSession)
        ensures
            r.phase is Engaged,
            r.qr_code_uri@ == qr_code_uri@,
            r.ble_ident@ == ble_ident@,
            r.items_requests@.len() == 0,
    {
        MdlPresentationSession {
            qr_code_uri,
            ble_ident,
            phase: SessionPhase::Engaged,
            items_requests: Vec::new(),
        }
    }

    /// Record a decoded reader request, moving the session in process.
    /// A later request replaces the cached one; a session that already
    /// responded takes no further requests.
    pub fn accept_request(&mut self, requests: Vec<ItemsRequest>) -> (r: Result<
        (),
        RequestError,
    >)
        ensures
            old(self).phase is Responded ==> r is Err && *final(self) == *old(self),
            !(old(self).phase is Responded) ==> r is Ok && final(self).phase is InProcess
                && final(self).items_requests == requests && final(self).qr_code_uri == old(
                self,
            ).qr_code_uri && final(self).ble_ident == old(self).ble_ident,
    {
        match self.phase {
            SessionPhase::Responded => Err(
                RequestError::Generic {
                    value: String::from_str("the session has already responded"),
                },
            ),
            _ => {
                self.phase = SessionPhase::InProcess;
                self.items_requests = requests;
                Ok(())
            }
        }
    }

    /// Decide whether a response may be produced: allowed exactly while
    /// a request is in process. The session itself is unchanged.
    pub fn begin_response(&self) -> (r: Result<(), SignatureError>)
        ensures
            self.phase is InProcess ==> r is Ok,
            !(self.phase is InProcess) ==> (r matches Err(e) && e is Generic),
    {
        match self.phase {
            SessionPhase::InProcess => Ok(()),
            _ => Err(
                SignatureError::Generic {
                    value: String::from_str("no request is in process"),
                },
            ),
        }
    }

    /// Whether the session may produce a response: only while a request
    /// is in process.
    pub fn may_respond(&self) -> (r: bool)
        ensures
            r == (self.phase is InProcess),
    {
        match self.phase {
            SessionPhase::InProcess => true,
            _ => false,
        }
    }

    /// Accept the detached signature for the response: the signature
    /// must parse as a raw or DER P-256 signature, and is re-encoded in
    /// raw fixed-width form for injection. The session moves to its
    /// responded phase exactly on success.
    pub fn accept_signature(&mut self, signature: Vec<u8>) -> (r: Result<
        Vec<u8>,
        SignatureError,
    >)
        ensures
            !(old(self).phase is InProcess) ==> (r matches Err(e) && e is Generic)
                && *final(self) == *old(self),
            old(self).phase is InProcess ==> match r {
                Ok(raw) => normalise_spec(signature@) == Some(raw@) && p256_valid_raw(raw@)
                    && final(self).phase is Responded && final(self).qr_code_uri == old(
                    self,
                ).qr_code_uri && final(self).ble_ident == old(self).ble_ident,
                Err(e) => normalise_spec(signature@) is None && e is InvalidSignature
                    && *final(self) == *old(self),
            },
    {
        match self.phase {
            SessionPhase::InProcess => {
                let utils = CryptoCurveUtils::secp256r1();
                match utils.ensure_raw_fixed_width_signature_encoding(signature) {
                    Some(raw) => {
                        self.phase = SessionPhase::Responded;
                        Ok(raw)
                    }
                    None => Err(
                        SignatureError::InvalidSignature {
                            value: String::from_str(
                                "the signature is not a recognised P-256 encoding",
                            ),
                        },
                    ),
                }
            }
            _ => Err(
                SignatureError::Generic {
                    value: String::from_str("no request is in process"),
                },
            ),
        }
    }

    /// The generated QR engagement URI.
    pub fn get_qr_code_uri(&self) -> (r: String)
        ensures
            r@ == self.qr_code_uri@,
    {
        self.qr_code_uri.clone()
    }

    /// The BLE identification bytes.
    pub fn get_ble_ident(&self) -> (r: Vec<u8>)
        ensures
            r@ == self.ble_ident@,
    {
        crate::cwt::copy_bytes(&self.ble_ident)
    }

    /// The termination message to transmit to the reader: the CBOR map
    /// `{"status": 20}`, status 20 denoting session termination.
    pub fn terminate_session(&self) -> (r: Vec<u8>)
        ensures
            r@ == termination_message_enc(),
    {
        let mut entries: Vec<(CborValue, CborValue)> = Vec::new();
        entries.push(
            (
                CborValue::Text(String::from_str("status")),
                CborValue::Integer(CborInteger::from_i128(20)),
            ),
        );
        let m = CborValue::ItemMap(entries);
        proof {
            assert(cbor_wf(m)) by {
                assert(forall|k: int|
                    0 <= k < 1 ==> cbor_wf(#[trigger] m->ItemMap_0@[k].0) && cbor_wf(
                        m->ItemMap_0@[k].1,
                    ));
            }
            assert(encodable(m)) by {
                assert(forall|k: int|
                    0 <= k < 1 ==> encodable(#[trigger] m->ItemMap_0@[k].0) && encodable(
                        m->ItemMap_0@[k].1,
                    ));
            }
            let s = m->ItemMap_0@;
            assert(crate::cbor_codec::enc_pairs_spec(s) == enc_spec(s[0].0) + enc_spec(s[0].1)
                + crate::cbor_codec::enc_pairs_spec(s.drop_first()));
            assert(s.drop_first() =~= Seq::<(CborValue, CborValue)>::empty());
            assert(crate::cbor_codec::enc_pairs_spec(s.drop_first()) == Seq::<u8>::empty());
            assert(enc_spec(m) =~= termination_message_enc());
        }
        match encode_cbor(&m) {
            Ok(b) => b,
            Err(_) => {
                proof {
                    assert(false);
                }
                Vec::new()
            }
        }
    }
}

/// The CBOR encoding of the termination message: a one-entry map from
/// the text key `status` to the integer 20.
pub open spec fn termination_message_enc() -> Seq<u8> {
    head_spec(5, 1) + (head_spec(3, encode_utf8("status"@).len()) + encode_utf8("status"@))
        + head_spec(0, 20)
}

} // verus!
