use wallet_sdk::cbor::{CborInteger, CborValue};
use wallet_sdk::cbor_codec::encode_cbor;
use wallet_sdk::crypto::CryptoCurveUtils;
use wallet_sdk::cwt::{CoseSign1, Cwt, CwtError};
use wallet_sdk::trust::{
    build_sig_structure, validate_certificate_chain, validate_with_roots, CertificateInfo,
};

fn int_value(n: i128) -> CborValue {
    CborValue::Integer(CborInteger::from_i128(n))
}

/// Build the compact form of a CWT: '9' and the base-10 numeral of the
/// deflated CBOR of a COSE_Sign1 carrying the given claims.
fn compact_cwt(claims: Vec<(CborValue, CborValue)>) -> Vec<u8> {
    let claims_bytes = encode_cbor(&CborValue::ItemMap(claims)).unwrap();
    let cose = CborValue::Array(vec![
        CborValue::Bytes(vec![0xa0]),
        CborValue::ItemMap(vec![]),
        CborValue::Bytes(claims_bytes),
        CborValue::Bytes(vec![1, 2, 3]),
    ]);
    let cose_bytes = encode_cbor(&cose).unwrap();
    let compressed = miniz_oxide::deflate::compress_to_vec(&cose_bytes, 6);
    let numeral = num_bigint::BigUint::from_bytes_be(&compressed).to_str_radix(10);
    let mut payload = b"9".to_vec();
    payload.extend_from_slice(numeral.as_bytes());
    payload
}

#[test]
fn cwt_compact_round_trip_parses() {
    let payload = compact_cwt(vec![(int_value(4), int_value(4_000_000_000))]);
    let cwt = Cwt::new_from_base10("id-1".to_string(), payload).expect("compact CWT parses");
    assert_eq!(cwt.claims_map.len(), 1);
    let claims = cwt.claims().unwrap();
    assert_eq!(claims[0].0, "Expires");
}

#[test]
fn cwt_missing_prefix_is_rejected() {
    let err = Cwt::new_from_base10("id".to_string(), b"12345".to_vec()).unwrap_err();
    assert!(matches!(err, CwtError::Base10Decode));
}

#[test]
fn cwt_bad_utf8_is_rejected() {
    let err = Cwt::new_from_base10("id".to_string(), vec![0xff, 0xfe]).unwrap_err();
    assert!(matches!(err, CwtError::CwsPayloadDecode));
}

#[test]
fn cwt_bad_numeral_is_rejected() {
    let err = Cwt::new_from_base10("id".to_string(), b"9xyz".to_vec()).unwrap_err();
    assert!(matches!(err, CwtError::Base10Decode));
}

#[test]
fn cwt_undeflatable_stream_is_rejected() {
    // "90" denotes the single byte 0x00, which is not a DEFLATE stream.
    let err = Cwt::new_from_base10("id".to_string(), b"90".to_vec()).unwrap_err();
    assert!(matches!(err, CwtError::Decompression));
}

#[test]
fn cwt_validate_claims_rejects_past_expiration() {
    let payload = compact_cwt(vec![(int_value(4), int_value(1_000))]);
    let cwt = Cwt::new_from_base10("id".to_string(), payload).unwrap();
    let err = cwt.validate_claims(2_000).unwrap_err();
    assert!(matches!(err, CwtError::CwtExpired(_)));
}

#[test]
fn cwt_validate_claims_accepts_future_expiration() {
    let payload = compact_cwt(vec![(int_value(4), int_value(4_000_000_000))]);
    let cwt = Cwt::new_from_base10("id".to_string(), payload).unwrap();
    assert!(cwt.validate_claims(2_000).is_ok());
}

#[test]
fn cwt_validate_claims_accepts_absent_expiration() {
    let payload = compact_cwt(vec![(int_value(1), CborValue::Text("iss".to_string()))]);
    let cwt = Cwt::new_from_base10("id".to_string(), payload).unwrap();
    assert!(cwt.validate_claims(2_000).is_ok());
}

#[test]
fn cose_shape_is_enforced() {
    let not_cose = CborValue::Array(vec![CborValue::Null]);
    assert!(CoseSign1::from_cbor(not_cose).is_err());
}

fn test_cert(not_before: u64, not_after: u64, kcs: bool, ds: bool) -> CertificateInfo {
    CertificateInfo {
        subject_der: vec![1, 2, 3],
        issuer_der: vec![9, 9, 9],
        not_before,
        not_after,
        has_key_usage: true,
        key_cert_sign: kcs,
        digital_signature: ds,
        tbs_der: vec![5, 5],
        signature_bits: vec![6, 6],
        cert_der: vec![7, 7],
    }
}

#[test]
fn chain_rejects_expired_root() {
    let root = test_cert(0, 10, true, false);
    let signer = test_cert(0, 10_000, false, true);
    let err = validate_certificate_chain(100, &root, &signer, &vec![], &vec![]).unwrap_err();
    assert!(matches!(err, CwtError::RootCertificateExpired));
}

#[test]
fn chain_rejects_root_without_cert_sign_usage() {
    let root = test_cert(0, 10_000, false, false);
    let signer = test_cert(0, 10_000, false, true);
    let err = validate_certificate_chain(100, &root, &signer, &vec![], &vec![]).unwrap_err();
    assert!(matches!(err, CwtError::RootCertificateInvalid));
}

#[test]
fn chain_rejects_issuer_mismatch() {
    let mut root = test_cert(0, 10_000, true, false);
    root.subject_der = vec![4, 4];
    let signer = test_cert(0, 10_000, false, true);
    // signer.issuer_der is [9, 9, 9], root.subject_der is [4, 4]
    let err = validate_certificate_chain(100, &root, &signer, &vec![], &vec![]).unwrap_err();
    assert!(matches!(err, CwtError::SignerCertificateMismatch));
}

#[test]
fn chain_rejects_unverifiable_signature() {
    let mut root = test_cert(0, 10_000, true, false);
    root.subject_der = vec![9, 9, 9];
    let signer = test_cert(0, 10_000, false, true);
    // The fabricated certificate bytes cannot verify anything.
    let err = validate_certificate_chain(100, &root, &signer, &vec![], &vec![]).unwrap_err();
    assert!(matches!(err, CwtError::CwtSignatureVerification(_)));
}

#[test]
fn roots_loop_reports_trust_failure() {
    let signer = test_cert(0, 10_000, false, true);
    let err =
        validate_with_roots(100, &signer, &vec![], &vec![], &vec![]).unwrap_err();
    assert!(matches!(err, CwtError::Trust(_)));
}

#[test]
fn sig_structure_is_canonical_cbor() {
    let out = build_sig_structure(&vec![0xa0], &vec![0x01]);
    // ["Signature1", h'a0', h'', h'01']
    let mut expected = vec![0x84, 0x6a];
    expected.extend_from_slice(b"Signature1");
    expected.extend_from_slice(&[0x41, 0xa0, 0x40, 0x41, 0x01]);
    assert_eq!(out, expected);
}

#[test]
fn signature_normalisation_is_idempotent() {
    // r = 1, s = 1: a valid raw signature.
    let mut raw = vec![0u8; 64];
    raw[31] = 1;
    raw[63] = 1;
    // The same signature in ASN.1 DER.
    let der = vec![0x30, 0x06, 0x02, 0x01, 0x01, 0x02, 0x01, 0x01];
    let utils = CryptoCurveUtils::secp256r1();
    let from_der = utils
        .ensure_raw_fixed_width_signature_encoding(der)
        .expect("DER parses");
    assert_eq!(from_der, raw);
    let again = utils
        .ensure_raw_fixed_width_signature_encoding(from_der.clone())
        .expect("raw parses");
    assert_eq!(again, from_der);
}

#[test]
fn signature_normalisation_rejects_garbage() {
    let utils = CryptoCurveUtils::secp256r1();
    assert!(utils
        .ensure_raw_fixed_width_signature_encoding(vec![1, 2, 3])
        .is_none());
}

#[test]
fn signature_normalisation_rejects_zero_scalars() {
    let utils = CryptoCurveUtils::secp256r1();
    assert!(utils
        .ensure_raw_fixed_width_signature_encoding(vec![0u8; 64])
        .is_none());
}
