//! Core of a mobile verifiable-credential wallet: parsing, trust
//! evaluation and selective presentation of digital credentials over
//! OpenID for Verifiable Presentations and the ISO 18013-5 mobile
//! driving licence protocols.
use vstd::prelude::*;

pub mod cbor;
pub mod cbor_codec;
pub mod common;
pub mod crypto;
pub mod cwt;
pub mod dc_api;
pub mod display;
pub mod encoding;
pub mod haci;
pub mod json;
pub mod json_vc;
pub mod keymap;
pub mod matcher;
pub mod mdl;
pub mod mdoc;
pub mod permission;
pub mod presentation;
pub mod text;
pub mod trust;

verus! {

} // verus!
