use wallet_sdk::cbor::{CborInteger, CborValue};
use wallet_sdk::common::Key;
use wallet_sdk::dc_api::{
    effective_client_id, origin_expected, vp_token, AuthRequestInfo, ClientMetadataInfo,
    Handover, Responder, ResponderError, ResponseMode, ResponsePlan,
};
use wallet_sdk::haci::{classify_response, jwt_segments, TokenInfo, WalletServiceClient};
use wallet_sdk::json::{json_render, JsonValue};
use wallet_sdk::matcher::{
    cbor_display_value, find_match, sentence_case, ClaimQueryModel, DcqlQueryModel,
    MdocElement, MdocModel, MdocNamespace,
};
use wallet_sdk::mdl::MdlPresentationSession;
use wallet_sdk::permission::{
    validate_selection, CredentialFormat, PermissionRequestError, PresentableCredential,
};
use wallet_sdk::presentation::{filter_supported_proofs, presentation_item};
use wallet_sdk::crypto::KeyAlias;
use wallet_sdk::text::parse_i128;
use wallet_sdk::trust::{trust_dispatch, TrustPath};

fn text(s: &str) -> CborValue {
    CborValue::Text(s.to_string())
}

#[test]
fn handover_hash_is_deterministic() {
    let a = Handover::new("https://rp.example".into(), "client-1".into(), "n-123".into());
    let b = Handover::new("https://rp.example".into(), "client-1".into(), "n-123".into());
    assert_eq!(a.0, "OpenID4VPDCAPIHandover");
    assert_eq!(a.1.len(), 32);
    assert_eq!(a.1, b.1);
}

#[test]
fn handover_hash_depends_on_nonce() {
    let a = Handover::new("https://rp.example".into(), "client-1".into(), "n-123".into());
    let b = Handover::new("https://rp.example".into(), "client-1".into(), "n-124".into());
    assert_ne!(a.1, b.1);
}

#[test]
fn vp_token_wraps_device_response() {
    let token = vp_token("query-1".to_string(), &vec![1, 2, 3]);
    let rendered = json_render(&token);
    assert_eq!(rendered, r#"{"query-1":"AQID"}"#);
}

#[test]
fn json_renderer_escapes_strings() {
    let v = JsonValue::Object(vec![(
        "k".to_string(),
        JsonValue::Str("a\"b\\c\n".to_string()),
    )]);
    assert_eq!(json_render(&v), "{\"k\":\"a\\\"b\\\\c\\u000a\"}");
}

#[test]
fn json_renderer_renders_compound_values() {
    let v = JsonValue::Array(vec![
        JsonValue::Null,
        JsonValue::Bool(true),
        JsonValue::Number(-7),
        JsonValue::Str("x".to_string()),
    ]);
    assert_eq!(json_render(&v), "[null,true,-7,\"x\"]");
}

fn jwt_request(alg: Option<&str>, enc: Option<&str>, jwk: bool) -> AuthRequestInfo {
    AuthRequestInfo {
        response_mode: ResponseMode::DcApiJwt,
        state: Some("st-1".to_string()),
        client_metadata: Some(ClientMetadataInfo {
            verifier_jwk: if jwk { Some("{\"kty\":\"EC\"}".to_string()) } else { None },
            encrypted_response_alg: alg.map(|s| s.to_string()),
            encrypted_response_enc: enc.map(|s| s.to_string()),
        }),
        nonce: "n".to_string(),
        client_id: Some("client".to_string()),
        expected_origins: None,
    }
}

#[test]
fn responder_selects_json_for_dc_api() {
    let req = AuthRequestInfo {
        response_mode: ResponseMode::DcApi,
        state: None,
        client_metadata: None,
        nonce: "n".to_string(),
        client_id: None,
        expected_origins: None,
    };
    let responder = Responder::new(&req).unwrap();
    let plan = responder.response(&JsonValue::Bool(true));
    match plan {
        ResponsePlan::Body(b) => assert_eq!(b, "{\"vp_token\":true}"),
        _ => panic!("expected a JSON body"),
    }
}

#[test]
fn responder_json_body_carries_state() {
    let req = AuthRequestInfo {
        response_mode: ResponseMode::DcApi,
        state: Some("abc".to_string()),
        client_metadata: None,
        nonce: "n".to_string(),
        client_id: None,
        expected_origins: None,
    };
    let responder = Responder::new(&req).unwrap();
    let plan = responder.response(&JsonValue::Number(1));
    match plan {
        ResponsePlan::Body(b) => assert_eq!(b, "{\"state\":\"abc\",\"vp_token\":1}"),
        _ => panic!("expected a JSON body"),
    }
}

#[test]
fn responder_accepts_ecdh_es_a128gcm() {
    let responder = Responder::new(&jwt_request(Some("ECDH-ES"), Some("A128GCM"), true)).unwrap();
    let plan = responder.response(&JsonValue::Bool(false));
    match plan {
        ResponsePlan::Encrypt { vp_token_json, alg, enc, .. } => {
            assert_eq!(vp_token_json, "false");
            assert_eq!(alg, "ECDH-ES");
            assert_eq!(enc, "A128GCM");
        }
        _ => panic!("expected an encryption plan"),
    }
}

#[test]
fn responder_rejects_other_algorithms() {
    assert_eq!(
        Responder::new(&jwt_request(Some("RSA-OAEP"), Some("A128GCM"), true)).unwrap_err(),
        ResponderError::UnsupportedAlgorithm
    );
    assert_eq!(
        Responder::new(&jwt_request(Some("ECDH-ES"), Some("A256GCM"), true)).unwrap_err(),
        ResponderError::UnsupportedScheme
    );
    assert_eq!(
        Responder::new(&jwt_request(Some("ECDH-ES"), Some("A128GCM"), false)).unwrap_err(),
        ResponderError::MissingVerifierJwk
    );
}

#[test]
fn effective_client_id_binds_unsigned_requests_to_origin() {
    let r = effective_client_id(false, false, "https://rp.example", None).unwrap();
    assert_eq!(r, "web-origin:https://rp.example");
    let r = effective_client_id(true, true, "https://rp.example", None).unwrap();
    assert_eq!(r, "web-origin:https://rp.example");
    let cid = "x509_san_dns:rp.example".to_string();
    let r = effective_client_id(true, false, "https://rp.example", Some(&cid)).unwrap();
    assert_eq!(r, cid);
    assert!(effective_client_id(true, false, "https://rp.example", None).is_err());
}

#[test]
fn origin_check_finds_expected_origin() {
    let expected = vec!["https://a.example".to_string(), "https://b.example".to_string()];
    assert!(origin_expected(&expected, "https://b.example"));
    assert!(!origin_expected(&expected, "https://c.example"));
}

fn test_mdoc() -> MdocModel {
    MdocModel {
        id: "cred-1".to_string(),
        doc_type: "org.iso.18013.5.1.mDL".to_string(),
        namespaces: vec![MdocNamespace {
            namespace: "org.iso.18013.5.1".to_string(),
            elements: vec![
                MdocElement { identifier: "given_name".to_string(), value: text("Jane") },
                MdocElement { identifier: "family_name".to_string(), value: text("Doe") },
                MdocElement { identifier: "age_over_18".to_string(), value: CborValue::Bool(true) },
                MdocElement { identifier: "age_over_21".to_string(), value: CborValue::Bool(true) },
                MdocElement { identifier: "age_over_65".to_string(), value: CborValue::Bool(false) },
            ],
        }],
        key_alias: KeyAlias("alias-1".to_string()),
    }
}

fn claim(ns: &str, el: &str) -> ClaimQueryModel {
    ClaimQueryModel {
        path: vec![ns.to_string(), el.to_string()],
        intent_to_retain: Some(false),
    }
}

#[test]
fn find_match_caps_age_over_attestations_at_two() {
    let query = DcqlQueryModel {
        doctype: Some("org.iso.18013.5.1.mDL".to_string()),
        claims: vec![
            claim("org.iso.18013.5.1", "age_over_18"),
            claim("org.iso.18013.5.1", "age_over_21"),
            claim("org.iso.18013.5.1", "age_over_65"),
            claim("org.iso.18013.5.1", "given_name"),
        ],
    };
    let m = find_match(&query, &test_mdoc()).unwrap();
    let age_fields = m
        .requested_fields
        .iter()
        .filter(|f| f.element_identifier.starts_with("age_over_"))
        .count();
    assert_eq!(age_fields, 2);
    assert_eq!(m.requested_fields.len(), 3);
    assert_eq!(m.credential_id, "cred-1");
}

#[test]
fn find_match_substitutes_nearest_age_attestation() {
    let query = DcqlQueryModel {
        doctype: None,
        claims: vec![claim("org.iso.18013.5.1", "age_over_20")],
    };
    let m = find_match(&query, &test_mdoc()).unwrap();
    assert_eq!(m.requested_fields.len(), 1);
    // age_over_21 is the lowest threshold at or above 20.
    assert_eq!(m.requested_fields[0].element_identifier, "age_over_21");
}

#[test]
fn find_match_records_missing_fields() {
    let query = DcqlQueryModel {
        doctype: None,
        claims: vec![claim("org.iso.18013.5.1", "portrait")],
    };
    let m = find_match(&query, &test_mdoc()).unwrap();
    assert_eq!(m.requested_fields.len(), 0);
    assert_eq!(m.missing_fields.len(), 1);
    assert_eq!(m.missing_fields[0].1, "portrait");
}

#[test]
fn find_match_rejects_wrong_doctype() {
    let query = DcqlQueryModel {
        doctype: Some("org.iso.23220.photoid.1".to_string()),
        claims: vec![],
    };
    assert!(find_match(&query, &test_mdoc()).is_err());
}

#[test]
fn find_match_renders_display_names() {
    let query = DcqlQueryModel {
        doctype: None,
        claims: vec![claim("org.iso.18013.5.1", "given_name")],
    };
    let m = find_match(&query, &test_mdoc()).unwrap();
    assert_eq!(m.requested_fields[0].displayable_name, "Given Name");
    assert_eq!(m.requested_fields[0].displayable_value.as_deref(), Some("Jane"));
}

#[test]
fn sentence_case_capitalises_words() {
    assert_eq!(sentence_case("given_name"), "Given Name");
    assert_eq!(sentence_case("age_over_18"), "Age Over 18");
    assert_eq!(sentence_case(""), "");
}

#[test]
fn display_value_renders_plain_kinds() {
    assert_eq!(cbor_display_value(&text("x")).as_deref(), Some("x"));
    assert_eq!(
        cbor_display_value(&CborValue::Integer(CborInteger::from_i128(-5))).as_deref(),
        Some("-5")
    );
    assert_eq!(cbor_display_value(&CborValue::Bool(true)).as_deref(), Some("true"));
    assert_eq!(cbor_display_value(&CborValue::Array(vec![])), None);
}

#[test]
fn mdl_session_enforces_ordering() {
    let mut s = MdlPresentationSession::new("mdoc:abc".to_string(), vec![1, 2]);
    assert_eq!(s.get_qr_code_uri(), "mdoc:abc");
    assert_eq!(s.get_ble_ident(), vec![1, 2]);
    assert!(!s.may_respond());
    // A signature before any request is refused.
    assert!(s.accept_signature(vec![0u8; 64]).is_err());
    s.accept_request(vec![]).unwrap();
    assert!(s.may_respond());
    let mut raw = vec![0u8; 64];
    raw[31] = 1;
    raw[63] = 1;
    let out = s.accept_signature(raw.clone()).unwrap();
    assert_eq!(out, raw);
    // After responding, no further requests are taken.
    assert!(s.accept_request(vec![]).is_err());
}

#[test]
fn mdl_session_rejects_unparseable_signature() {
    let mut s = MdlPresentationSession::new("mdoc:abc".to_string(), vec![]);
    s.accept_request(vec![]).unwrap();
    assert!(s.accept_signature(vec![1, 2, 3]).is_err());
}

#[test]
fn mdl_termination_message_bytes() {
    let s = MdlPresentationSession::new("mdoc:x".to_string(), vec![]);
    let mut expected = vec![0xa1, 0x66];
    expected.extend_from_slice(b"status");
    expected.push(0x14);
    assert_eq!(s.terminate_session(), expected);
}

#[test]
fn wallet_client_token_lifecycle() {
    let mut c = WalletServiceClient::new("https://wallet.example".to_string());
    assert!(!c.is_token_valid(1_000));
    assert!(c.get_auth_header(1_000).is_err());
    assert_eq!(c.get_client_id(), None);
    c.store_token(TokenInfo {
        token: "tok.abc.xyz".to_string(),
        expires_at: 4_600,
        subject: Some("test_client_id".to_string()),
    });
    // Token issued with exp one hour ahead of a clock reading of 1000.
    assert!(c.is_token_valid(1_000));
    assert_eq!(c.get_client_id().as_deref(), Some("test_client_id"));
    let header = c.get_auth_header(1_000).unwrap();
    assert!(header.starts_with("Bearer "));
    assert_eq!(header, "Bearer tok.abc.xyz");
    // Expired by a later clock reading.
    assert!(!c.is_token_valid(5_000));
    assert!(c.get_auth_header(5_000).is_err());
}

#[test]
fn wallet_client_classifies_server_errors() {
    assert_eq!(classify_response(200, "nonce-1".to_string()).unwrap(), "nonce-1");
    let err = classify_response(500, "oops".to_string()).unwrap_err();
    match err {
        wallet_sdk::haci::WalletServiceError::ServerError { status, error_message } => {
            assert_eq!(status, 500);
            assert_eq!(error_message, "oops");
        }
        _ => panic!("expected a server error"),
    }
}

#[test]
fn wallet_client_builds_urls() {
    let c = WalletServiceClient::new("https://w.example".to_string());
    assert_eq!(c.nonce_url(), "https://w.example/nonce");
    assert_eq!(c.login_url(), "https://w.example/login");
    let i = wallet_sdk::haci::IssuanceServiceClient::new("https://i.example".to_string());
    assert_eq!(i.new_issuance_url(), "https://i.example/issuance/new");
    assert_eq!(
        i.status_url("5431d6df"),
        "https://i.example/issuance/5431d6df/status"
    );
}

#[test]
fn jwt_segments_split_compact_form() {
    let (h, p, s) = jwt_segments("aaa.bbb.ccc").unwrap();
    assert_eq!((h.as_str(), p.as_str(), s.as_str()), ("aaa", "bbb", "ccc"));
    assert!(jwt_segments("aaa.bbb").is_none());
    assert!(jwt_segments("a.b.c.d").is_none());
}

#[test]
fn selection_validation_orders_its_checks() {
    let err = validate_selection(&vec![], &vec![]).unwrap_err();
    assert!(matches!(err, PermissionRequestError::InvalidSelectedCredential(_)));
    let creds = vec![PresentableCredential {
        id: "c".to_string(),
        format: CredentialFormat::LdpVc,
        limit_disclosure: false,
        selected_fields: None,
    }];
    let err = validate_selection(&creds, &vec![]).unwrap_err();
    assert!(matches!(err, PermissionRequestError::InvalidSelectedCredential(_)));
    assert!(validate_selection(&creds, &vec![vec![]]).is_ok());
    let limited = vec![PresentableCredential {
        id: "c".to_string(),
        format: CredentialFormat::LdpVc,
        limit_disclosure: true,
        selected_fields: None,
    }];
    let err = validate_selection(&limited, &vec![vec![]]).unwrap_err();
    assert!(matches!(err, PermissionRequestError::LimitDisclosure));
}

#[test]
fn presentation_items_reject_non_json_formats() {
    assert!(presentation_item(CredentialFormat::MsoMdoc, None, None).is_err());
    assert!(presentation_item(CredentialFormat::Cwt, None, None).is_err());
    let item = presentation_item(
        CredentialFormat::JwtVc,
        Some("ey.ab.cd".to_string()),
        None,
    )
    .unwrap();
    assert_eq!(json_render(&item), "\"ey.ab.cd\"");
}

#[test]
fn proof_filter_keeps_supported_suites_only() {
    let supported = JsonValue::Object(vec![(
        "cryptosuite".to_string(),
        JsonValue::Str("ecdsa-rdfc-2019".to_string()),
    )]);
    let unsupported = JsonValue::Object(vec![(
        "cryptosuite".to_string(),
        JsonValue::Str("bbs-2023".to_string()),
    )]);
    let agnostic = JsonValue::Object(vec![("type".to_string(), JsonValue::Str("DataIntegrityProof".to_string()))]);
    let kept = filter_supported_proofs(vec![supported, unsupported, agnostic]);
    assert_eq!(kept.len(), 2);
}

#[test]
fn key_prefix_round_trip() {
    let k = Key::with_prefix("Credential.", "abc-123");
    assert_eq!(k.0, "Credential.abc-123");
    assert_eq!(k.strip_prefix("Credential.").as_deref(), Some("abc-123"));
    assert_eq!(k.strip_prefix("Other."), None);
}

#[test]
fn decimal_parser_accepts_signed_numerals() {
    assert_eq!(parse_i128("0"), Some(0));
    assert_eq!(parse_i128("-70001"), Some(-70001));
    assert_eq!(parse_i128("+42"), Some(42));
    assert_eq!(parse_i128("007"), Some(7));
    assert_eq!(parse_i128(""), None);
    assert_eq!(parse_i128("12a"), None);
    assert_eq!(
        parse_i128("170141183460469231731687303715884105727"),
        Some(i128::MAX)
    );
    assert_eq!(
        parse_i128("-170141183460469231731687303715884105728"),
        Some(i128::MIN)
    );
    assert_eq!(parse_i128("170141183460469231731687303715884105728"), None);
}

#[test]
fn mdoc_details_renders_each_namespace() {
    let details = wallet_sdk::mdoc::details(&test_mdoc());
    assert_eq!(details.len(), 1);
    assert_eq!(details[0].0 .0, "org.iso.18013.5.1");
    assert_eq!(details[0].1.len(), 5);
    assert_eq!(details[0].1[0].identifier, "given_name");
    assert_eq!(details[0].1[0].value.as_deref(), Some("\"Jane\""));
}

#[test]
fn mdoc_byte_values_render_as_data_urls() {
    let j = wallet_sdk::mdoc::cbor_to_json(&CborValue::Bytes(vec![1, 2, 3]));
    assert_eq!(json_render(&j), "\"data:application/octet-stream;base64,AQID\"");
}

#[test]
fn portrait_media_type_is_rewritten_in_details() {
    let mdoc = MdocModel {
        id: "cred-p".to_string(),
        doc_type: "org.iso.18013.5.1.mDL".to_string(),
        namespaces: vec![MdocNamespace {
            namespace: "org.iso.18013.5.1".to_string(),
            elements: vec![
                MdocElement {
                    identifier: "portrait".to_string(),
                    value: CborValue::Bytes(vec![1, 2, 3]),
                },
                MdocElement {
                    identifier: "signature_usual_mark".to_string(),
                    value: CborValue::Bytes(vec![1, 2, 3]),
                },
            ],
        }],
        key_alias: KeyAlias("alias-p".to_string()),
    };
    let details = wallet_sdk::mdoc::details(&mdoc);
    // The portrait's rendered value carries the JPEG media type.
    assert_eq!(
        details[0].1[0].value.as_deref(),
        Some("\"data:image/jpeg;base64,AQID\"")
    );
    // Every other byte string keeps the generic media type.
    assert_eq!(
        details[0].1[1].value.as_deref(),
        Some("\"data:application/octet-stream;base64,AQID\"")
    );
}

#[test]
fn portrait_content_rewrite_swaps_the_prefix() {
    let rewritten = wallet_sdk::mdoc::rewrite_portrait_media_type(
        "data:application/octet-stream;base64,AQID".to_string(),
    );
    assert_eq!(rewritten, "data:image/jpeg;base64,AQID");
    let untouched =
        wallet_sdk::mdoc::rewrite_portrait_media_type("data:image/png;base64,AQID".to_string());
    assert_eq!(untouched, "data:image/png;base64,AQID");
}

#[test]
fn json_vc_type_label_joins_types() {
    let vc = wallet_sdk::json_vc::JsonVc {
        id: "vc-1".to_string(),
        raw: JsonValue::Null,
        version: wallet_sdk::common::VcdmVersion::V2,
        additional_types: vec!["IdentityCredential".to_string(), "DriverLicense".to_string()],
        key_alias: None,
    };
    assert_eq!(vc.credential_type().0, "IdentityCredential+DriverLicense");
    assert_eq!(vc.vcdm_version(), wallet_sdk::common::VcdmVersion::V2);
}

#[test]
fn json_vc_status_list_entry_takes_first() {
    let vc = wallet_sdk::json_vc::JsonVc {
        id: "vc-2".to_string(),
        raw: JsonValue::Object(vec![(
            "credentialStatus".to_string(),
            JsonValue::Array(vec![JsonValue::Str("entry-0".to_string())]),
        )]),
        version: wallet_sdk::common::VcdmVersion::V1,
        additional_types: vec![],
        key_alias: None,
    };
    match vc.status_list_entry() {
        Some(JsonValue::Str(s)) => assert_eq!(s, "entry-0"),
        _ => panic!("expected the first status entry"),
    }
    let bare = wallet_sdk::json_vc::JsonVc {
        id: "vc-3".to_string(),
        raw: JsonValue::Object(vec![]),
        version: wallet_sdk::common::VcdmVersion::V1,
        additional_types: vec![],
        key_alias: None,
    };
    assert!(bare.status_list_entry().is_none());
}


#[test]
fn json_parse_round_trips_through_renderer() {
    let v = wallet_sdk::json::json_parse("{\"exp\":1700003600,\"sub\":\"test_client_id\"}")
        .expect("JSON parses");
    assert_eq!(json_render(&v), "{\"exp\":1700003600,\"sub\":\"test_client_id\"}");
    assert!(wallet_sdk::json::json_parse("{not json").is_none());
}

#[test]
fn select_credential_query_finds_first_match() {
    let queries = vec![
        ("cred-a".to_string(), DcqlQueryModel { doctype: None, claims: vec![] }),
        ("cred-b".to_string(), DcqlQueryModel { doctype: None, claims: vec![] }),
    ];
    assert_eq!(wallet_sdk::dc_api::select_credential_query(&queries, "cred-b"), Some(1));
    assert_eq!(wallet_sdk::dc_api::select_credential_query(&queries, "cred-c"), None);
}

#[test]
fn pair_selection_attaches_field_lists() {
    let creds = vec![
        PresentableCredential {
            id: "c1".to_string(),
            format: CredentialFormat::LdpVc,
            limit_disclosure: false,
            selected_fields: None,
        },
        PresentableCredential {
            id: "c2".to_string(),
            format: CredentialFormat::JwtVc,
            limit_disclosure: false,
            selected_fields: None,
        },
    ];
    let fields = vec![vec!["a".to_string()], vec!["b".to_string(), "c".to_string()]];
    let out = wallet_sdk::permission::pair_selection(creds, fields).unwrap();
    assert_eq!(out.len(), 2);
    assert_eq!(out[0].id, "c1");
    assert_eq!(out[0].selected_fields.as_deref(), Some(&["a".to_string()][..]));
    assert_eq!(out[1].selected_fields.as_ref().map(|f| f.len()), Some(2));
}

#[test]
fn unsigned_presentation_has_fixed_shape() {
    let vp = wallet_sdk::presentation::assemble_presentation_v1(
        "urn:uuid:1234".to_string(),
        "did:example:holder".to_string(),
        vec![JsonValue::Str("ey.ab.cd".to_string())],
    );
    assert_eq!(
        json_render(&vp),
        "{\"@context\":[\"https://www.w3.org/2018/credentials/v1\"],\"id\":\"urn:uuid:1234\",\"type\":[\"VerifiablePresentation\"],\"holder\":\"did:example:holder\",\"verifiableCredential\":[\"ey.ab.cd\"]}"
    );
    let vp2 = wallet_sdk::presentation::assemble_presentation_v2(
        "urn:uuid:1234".to_string(),
        "did:example:holder".to_string(),
        vec![],
    );
    assert!(json_render(&vp2).contains("https://www.w3.org/ns/credentials/v2"));
}

#[test]
fn descriptor_map_uses_root_path_for_single_credential() {
    let ids = vec!["desc-1".to_string()];
    let m = wallet_sdk::permission::create_descriptor_map(&ids, "ldp_vp", "ldp_vc");
    assert_eq!(
        json_render(&m[0]),
        "{\"id\":\"desc-1\",\"format\":\"ldp_vp\",\"path\":\"$\",\"path_nested\":{\"id\":\"desc-1\",\"format\":\"ldp_vc\",\"path\":\"$.verifiableCredential\"}}"
    );
    let ids2 = vec!["d1".to_string(), "d2".to_string()];
    let m2 = wallet_sdk::permission::create_descriptor_map(&ids2, "ldp_vp", "ldp_vc");
    assert!(json_render(&m2[1]).contains("$.verifiableCredential[1]"));
}

#[test]
fn trust_dispatch_prefers_signer_certificate() {
    let claims = vec![(
        CborValue::Integer(CborInteger::from_i128(1)),
        text("did:web:issuer.example"),
    )];
    match trust_dispatch(Some(vec![1, 2]), &claims) {
        TrustPath::SignerCertificate(der) => assert_eq!(der, vec![1, 2]),
        _ => panic!("expected the signer certificate path"),
    }
    match trust_dispatch(None, &claims) {
        TrustPath::IssuerDid(did) => assert_eq!(did, "did:web:issuer.example"),
        _ => panic!("expected the issuer DID path"),
    }
    match trust_dispatch(None, &vec![]) {
        TrustPath::NoTrust => {}
        _ => panic!("expected no trust path"),
    }
}


#[test]
fn login_flow_assembles_from_parts() {
    // The wire half is the embedding application's; from the body on,
    // every step is the library's.
    let body = classify_response(
        200,
        "head64.eyJleHAiOjQ2MDAsInN1YiI6InRlc3RfY2xpZW50X2lkIn0.sig64".to_string(),
    )
    .unwrap();
    let info = wallet_sdk::haci::login_body_to_token(body.clone()).unwrap();
    assert_eq!(info.token, body);
    assert_eq!(info.expires_at, 4_600);
    let mut client = WalletServiceClient::new("https://w.example".to_string());
    client.store_token(info);
    assert!(client.is_token_valid(1_000));
    assert_eq!(client.get_client_id().as_deref(), Some("test_client_id"));
    assert!(client.get_auth_header(1_000).unwrap().starts_with("Bearer "));
    assert_eq!(
        client.get_auth_header(1_000).unwrap(),
        format!("Bearer {body}")
    );
}

#[test]
fn login_body_rejects_malformed_tokens() {
    assert!(matches!(
        wallet_sdk::haci::login_body_to_token("only.two".to_string()),
        Err(wallet_sdk::haci::WalletServiceError::JwtParseError(_))
    ));
    assert!(matches!(
        wallet_sdk::haci::login_body_to_token("a.!!!.c".to_string()),
        Err(wallet_sdk::haci::WalletServiceError::JwtParseError(_))
    ));
    // A payload without an exp claim: {"sub":"x"}
    assert!(matches!(
        wallet_sdk::haci::login_body_to_token("a.eyJzdWIiOiJ4In0.c".to_string()),
        Err(wallet_sdk::haci::WalletServiceError::JwtParseError(_))
    ));
}

#[test]
fn issuance_bodies_extract_their_fields() {
    let client = wallet_sdk::haci::IssuanceServiceClient::new("https://i.example".to_string());
    let new_body = wallet_sdk::json::json_parse(
        "{\"id\":\"d94062ab-e659-4b70-8532-b758973c2b40\"}",
    )
    .unwrap();
    assert_eq!(
        client.issuance_id_from_json(&new_body).unwrap(),
        "d94062ab-e659-4b70-8532-b758973c2b40"
    );
    let status_body = wallet_sdk::json::json_parse(
        "{\"state\":\"ReadyToProvision\",\"openid_credential_offer\":\"openid-credential-offer://x\"}",
    )
    .unwrap();
    let status = client.check_status_from_json(&status_body).unwrap();
    assert_eq!(status.state, "ReadyToProvision");
    assert_eq!(status.openid_credential_offer, "openid-credential-offer://x");
    let bad = wallet_sdk::json::json_parse("{\"error\":\"Issuance not found\"}").unwrap();
    assert!(client.check_status_from_json(&bad).is_err());
}

#[test]
fn dc_api_request_flows_through_matching_and_response() {
    let request = AuthRequestInfo {
        response_mode: ResponseMode::DcApi,
        state: None,
        client_metadata: None,
        nonce: "n-1".to_string(),
        client_id: None,
        expected_origins: None,
    };
    let queries = vec![(
        "query-1".to_string(),
        DcqlQueryModel {
            doctype: Some("org.iso.18013.5.1.mDL".to_string()),
            claims: vec![claim("org.iso.18013.5.1", "given_name")],
        },
    )];
    let ip = wallet_sdk::dc_api::begin_dc_api_request(
        &request,
        "query-1".to_string(),
        "https://rp.example".to_string(),
        &queries,
        &test_mdoc(),
    )
    .unwrap();
    assert_eq!(ip.request_match.requested_fields.len(), 1);
    match ip.finish_response(&vec![1, 2, 3]) {
        wallet_sdk::dc_api::ResponsePlan::Body(body) => {
            assert_eq!(body, "{\"vp_token\":{\"query-1\":\"AQID\"}}");
        }
        _ => panic!("expected a JSON body"),
    }
    assert!(wallet_sdk::dc_api::begin_dc_api_request(
        &request,
        "query-2".to_string(),
        "https://rp.example".to_string(),
        &queries,
        &test_mdoc(),
    )
    .is_err());
}

#[test]
fn auth_request_parses_from_json() {
    let parsed = wallet_sdk::json::json_parse(
        "{\"response_mode\":\"dc_api.jwt\",\"nonce\":\"n-9\",\"state\":\"st-9\",\"client_id\":\"x509_san_dns:rp.example\",\"expected_origins\":[\"https://rp.example\"],\"client_metadata\":{\"authorization_encrypted_response_alg\":\"ECDH-ES\",\"authorization_encrypted_response_enc\":\"A128GCM\",\"jwks\":{\"keys\":[{\"crv\":\"P-256\",\"kty\":\"EC\"}]}}}",
    )
    .unwrap();
    let info = wallet_sdk::dc_api::auth_request_from_json(&parsed).unwrap();
    assert_eq!(info.response_mode, ResponseMode::DcApiJwt);
    assert_eq!(info.nonce, "n-9");
    assert_eq!(info.state.as_deref(), Some("st-9"));
    assert_eq!(info.client_id.as_deref(), Some("x509_san_dns:rp.example"));
    assert_eq!(
        info.expected_origins.as_deref(),
        Some(&["https://rp.example".to_string()][..])
    );
    let md = info.client_metadata.clone().unwrap();
    assert_eq!(md.encrypted_response_alg.as_deref(), Some("ECDH-ES"));
    assert_eq!(md.encrypted_response_enc.as_deref(), Some("A128GCM"));
    assert_eq!(
        md.verifier_jwk.as_deref(),
        Some("{\"crv\":\"P-256\",\"kty\":\"EC\"}")
    );
    // And the parsed request drives the responder directly.
    assert!(Responder::new(&info).is_ok());
}

#[test]
fn auth_request_without_nonce_is_rejected() {
    let parsed = wallet_sdk::json::json_parse("{\"response_mode\":\"dc_api\"}").unwrap();
    assert!(wallet_sdk::dc_api::auth_request_from_json(&parsed).is_err());
}
