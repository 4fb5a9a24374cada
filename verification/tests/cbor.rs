use wallet_sdk::cbor::{cbor_cmp, cbor_eq, major_type, CborInteger, CborValue};
use wallet_sdk::cbor_codec::{decode_cbor, encode_cbor, reencode_canonical, CborError};
use wallet_sdk::display::cbor_to_text;
use wallet_sdk::keymap::{
    CborKeyMapper, CLAIM_BIRTH_DATE, CLAIM_EMAIL, CLAIM_EXPIRES, CLAIM_FULL_NAME,
    CLAIM_ISSUED, CLAIM_NOT_BEFORE,
};

fn int_value(n: i128) -> CborValue {
    CborValue::Integer(CborInteger::from_i128(n))
}

fn text_value(s: &str) -> CborValue {
    CborValue::Text(s.to_string())
}

#[test]
fn test_cbor_integer_from_i128() {
    let test_cases = vec![
        0i128,
        1i128,
        -1i128,
        i128::MAX,
        i128::MIN,
        123456789i128,
        -123456789i128,
    ];

    for value in test_cases {
        let cbor_int = CborInteger::from_i128(value);
        assert_eq!(cbor_int.to_text(), value.to_string());
    }
}

#[test]
fn test_cbor_integer_byte_manipulation() {
    // Using full i128 value: 0x0123456789ABCDEFFEDCBA9876543210
    let value: i128 = 0x0123456789ABCDEF_FEDCBA9876543210_i128;
    let cbor_int = CborInteger::from_i128(value);

    // Test lower_bytes (least significant 8 bytes)
    assert_eq!(cbor_int.lower_bytes(), 0xFEDCBA9876543210_u64);

    // Test upper_bytes (most significant 8 bytes)
    assert_eq!(cbor_int.upper_bytes(), 0x0123456789ABCDEF_u64);
}

#[test]
fn test_cbor_integer_zero() {
    let zero = CborInteger::from_i128(0i128);
    assert_eq!(zero.lower_bytes(), 0);
    assert_eq!(zero.upper_bytes(), 0);
    assert_eq!(zero.to_text(), "0");
}

#[test]
fn test_cbor_integer_negative() {
    let negative = CborInteger::from_i128(-42i128);
    assert_eq!(negative.to_text(), "-42");
}

#[test]
fn test_cbor_integer_byte_length() {
    let value = CborInteger::from_i128(0i128);
    assert_eq!(
        value.byte_count(),
        16,
        "CborInteger should always have 16 bytes"
    );
}

#[test]
fn test_cbor_value_ordering() {
    // Major type ordering
    assert_eq!(cbor_cmp(&int_value(0), &CborValue::Bytes(vec![1])), -1);
    assert_eq!(
        cbor_cmp(&text_value("a"), &CborValue::Array(vec![])),
        -1
    );
    assert_eq!(
        cbor_cmp(&CborValue::Array(vec![]), &CborValue::ItemMap(vec![])),
        -1
    );

    // Integer comparison
    assert_eq!(cbor_cmp(&int_value(1), &int_value(2)), -1);
    assert!(cbor_eq(&int_value(1), &int_value(1)));

    // Sequence ordering
    assert_eq!(
        cbor_cmp(&CborValue::Bytes(vec![1]), &CborValue::Bytes(vec![1, 2])),
        -1
    );
    assert_eq!(cbor_cmp(&text_value("a"), &text_value("b")), -1);
}

#[test]
fn test_cbor_value_major_types() {
    assert_eq!(major_type(&int_value(1)), 0);
    assert_eq!(major_type(&int_value(-1)), 1);
    assert_eq!(major_type(&CborValue::Bytes(vec![])), 2);
    assert_eq!(major_type(&text_value("x")), 3);
    assert_eq!(major_type(&CborValue::Array(vec![])), 4);
    assert_eq!(major_type(&CborValue::ItemMap(vec![])), 5);
    assert_eq!(
        major_type(&CborValue::Tag(24, Box::new(CborValue::Null))),
        6
    );
    assert_eq!(major_type(&CborValue::Null), 7);
    assert_eq!(major_type(&CborValue::Bool(true)), 7);
}

#[test]
fn test_cbor_value_to_string() {
    // Null
    assert_eq!(cbor_to_text(&CborValue::Null), "");

    // Booleans
    assert_eq!(cbor_to_text(&CborValue::Bool(true)), "true");
    assert_eq!(cbor_to_text(&CborValue::Bool(false)), "false");

    // Integers
    assert_eq!(cbor_to_text(&int_value(42)), "42");
    assert_eq!(cbor_to_text(&int_value(-42)), "-42");

    // Floats carry their display text beside the bits
    let f = CborValue::Float {
        bits: (3.14f64).to_bits(),
        text: "3.14".to_string(),
    };
    assert_eq!(cbor_to_text(&f), "3.14");

    // Bytes
    assert_eq!(
        cbor_to_text(&CborValue::Bytes(vec![65, 66, 67])),
        "65,66,67"
    );

    // Text
    assert_eq!(cbor_to_text(&text_value("hello")), "hello");

    // Array
    assert_eq!(
        cbor_to_text(&CborValue::Array(vec![int_value(1), text_value("two")])),
        "1,two"
    );

    // Map
    let map = CborValue::ItemMap(vec![(text_value("key"), text_value("value"))]);
    assert_eq!(cbor_to_text(&map), r#"{"key":"value"}"#);

    // Tag renders its inner value
    let tag = CborValue::Tag(1, Box::new(text_value("tagged")));
    assert_eq!(cbor_to_text(&tag), "tagged");
}

#[test]
fn test_cbor_key_mapping_bidirectional() {
    // Test key to string
    assert_eq!(
        CborKeyMapper::key_to_string(CLAIM_FULL_NAME),
        "Full Name"
    );
    assert_eq!(CborKeyMapper::key_to_string(CLAIM_EMAIL), "Email");
    assert_eq!(
        CborKeyMapper::key_to_string(CLAIM_BIRTH_DATE),
        "Birth Date"
    );

    // Test string to key
    assert_eq!(
        CborKeyMapper::string_to_key("Full Name"),
        Some(CLAIM_FULL_NAME)
    );
    assert_eq!(CborKeyMapper::string_to_key("Email"), Some(CLAIM_EMAIL));
    assert_eq!(
        CborKeyMapper::string_to_key("Birth Date"),
        Some(CLAIM_BIRTH_DATE)
    );

    // Test unknown key
    assert_eq!(CborKeyMapper::string_to_key("Unknown"), None);
    assert_eq!(CborKeyMapper::key_to_string(999), "999");
}

#[test]
fn test_standard_cbor_keys() {
    // Test standard CBOR keys
    assert_eq!(CborKeyMapper::key_to_string(CLAIM_EXPIRES), "Expires");
    assert_eq!(
        CborKeyMapper::key_to_string(CLAIM_NOT_BEFORE),
        "Not Before"
    );
    assert_eq!(CborKeyMapper::key_to_string(CLAIM_ISSUED), "Issued");

    // Test reverse mapping
    assert_eq!(
        CborKeyMapper::string_to_key("Expires"),
        Some(CLAIM_EXPIRES)
    );
    assert_eq!(
        CborKeyMapper::string_to_key("Not Before"),
        Some(CLAIM_NOT_BEFORE)
    );
    assert_eq!(CborKeyMapper::string_to_key("Issued"), Some(CLAIM_ISSUED));

    // Verify the actual values match the CWT claim numbering
    assert_eq!(CLAIM_EXPIRES, 4);
    assert_eq!(CLAIM_NOT_BEFORE, 5);
    assert_eq!(CLAIM_ISSUED, 6);
}

#[test]
fn test_key_mapping_round_trip_on_table() {
    for label in [
        "Expires",
        "Not Before",
        "Issued",
        "Full Name",
        "Email",
        "Company",
        "Given Names",
        "Family Name",
        "Birth Date",
        "Sex",
        "Birth Locality",
        "County FIPS Code",
        "Mother",
        "Father",
        "Birth Certificate Number",
        "Registration Date",
    ] {
        let key = CborKeyMapper::string_to_key(label).unwrap();
        assert_eq!(CborKeyMapper::key_to_string(key), label);
    }
}

#[test]
fn test_cbor_encode_canonical_values() {
    assert_eq!(encode_cbor(&CborValue::Null).unwrap(), vec![0xf6]);
    assert_eq!(encode_cbor(&CborValue::Bool(false)).unwrap(), vec![0xf4]);
    assert_eq!(encode_cbor(&CborValue::Bool(true)).unwrap(), vec![0xf5]);
    assert_eq!(encode_cbor(&int_value(0)).unwrap(), vec![0x00]);
    assert_eq!(encode_cbor(&int_value(23)).unwrap(), vec![0x17]);
    assert_eq!(encode_cbor(&int_value(24)).unwrap(), vec![0x18, 24]);
    assert_eq!(encode_cbor(&int_value(-1)).unwrap(), vec![0x20]);
    assert_eq!(encode_cbor(&int_value(1000)).unwrap(), vec![0x19, 0x03, 0xe8]);
    assert_eq!(
        encode_cbor(&text_value("a")).unwrap(),
        vec![0x61, 0x61]
    );
    assert_eq!(
        encode_cbor(&CborValue::Array(vec![int_value(1), int_value(2)])).unwrap(),
        vec![0x82, 0x01, 0x02]
    );
}

#[test]
fn test_cbor_encode_rejects_out_of_range_integer() {
    // Larger than any unsigned 64-bit CBOR integer.
    let v = int_value(0x1_0000_0000_0000_0000_i128);
    assert_eq!(encode_cbor(&v).unwrap_err(), CborError::IntegerOutOfRange);
}

#[test]
fn test_cbor_decode_then_encode_round_trips() {
    // A composite canonical item: {1: "a", "b": [2, h'0304']}
    let value = CborValue::ItemMap(vec![
        (int_value(1), text_value("a")),
        (text_value("b"), CborValue::Array(vec![
            int_value(2),
            CborValue::Bytes(vec![3, 4]),
        ])),
    ]);
    let bytes = encode_cbor(&value).unwrap();
    let out = reencode_canonical(&bytes).expect("canonical bytes re-encode");
    assert_eq!(out, bytes);

    let decoded = decode_cbor(&bytes).unwrap();
    assert!(cbor_eq(&decoded, &value));
}

#[test]
fn test_cbor_decode_rejects_non_minimal_header() {
    // 24 with a one-byte argument below 24 is not shortest-form.
    assert_eq!(decode_cbor(&[0x18, 0x01]).unwrap_err(), CborError::NonMinimal);
}

#[test]
fn test_cbor_decode_rejects_truncated_input() {
    assert_eq!(decode_cbor(&[]).unwrap_err(), CborError::Truncated);
    assert_eq!(decode_cbor(&[0x62, 0x61]).unwrap_err(), CborError::Truncated);
}

#[test]
fn test_cbor_decode_rejects_trailing_bytes() {
    assert_eq!(
        decode_cbor(&[0x01, 0x02]).unwrap_err(),
        CborError::TrailingBytes
    );
}

#[test]
fn test_cbor_decode_rejects_unsorted_map_keys() {
    // {2: 0, 1: 0}: keys out of canonical order.
    assert_eq!(
        decode_cbor(&[0xa2, 0x02, 0x00, 0x01, 0x00]).unwrap_err(),
        CborError::UnsortedKeys
    );
}

#[test]
fn test_cbor_decode_rejects_invalid_utf8_text() {
    assert_eq!(
        decode_cbor(&[0x61, 0xff]).unwrap_err(),
        CborError::InvalidUtf8
    );
}

#[test]
fn test_cbor_decode_rejects_indefinite_lengths() {
    assert_eq!(
        decode_cbor(&[0x9f, 0xff]).unwrap_err(),
        CborError::UnsupportedValue
    );
}

#[test]
fn test_cbor_negative_integer_round_trip() {
    let v = int_value(-1000);
    let bytes = encode_cbor(&v).unwrap();
    assert_eq!(bytes, vec![0x39, 0x03, 0xe7]);
    assert_eq!(reencode_canonical(&bytes).unwrap(), bytes);
}
