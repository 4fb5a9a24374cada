use vstd::prelude::*;
use vstd::string::StringExecFns;
use crate::text::{decimal_of, i128_to_decimal, str_eq};

verus! {

/// Standard CWT claim key: issuer.
pub const CLAIM_ISSUER: i128 = 1;

/// Standard CWT claim key: expiration time.
pub const CLAIM_EXPIRES: i128 = 4;

/// Standard CWT claim key: not-before time.
pub const CLAIM_NOT_BEFORE: i128 = 5;

/// Standard CWT claim key: issued-at time.
pub const CLAIM_ISSUED: i128 = 6;

/// Identity claim key: full name.
pub const CLAIM_FULL_NAME: i128 = -70001;

/// Identity claim key: email address.
pub const CLAIM_EMAIL: i128 = -70002;

/// Identity claim key: company.
pub const CLAIM_COMPANY: i128 = -70003;

/// Birth-certificate claim key: certificate number.
pub const CLAIM_BIRTH_CERT_NUMBER: i128 = -70011;

/// Birth-certificate claim key: given names.
pub const CLAIM_GIVEN_NAMES: i128 = -70012;

/// Birth-certificate claim key: family name.
pub const CLAIM_FAMILY_NAME: i128 = -70013;

/// Birth-certificate claim key: birth date.
pub const CLAIM_BIRTH_DATE: i128 = -70014;

/// Birth-certificate claim key: sex.
pub const CLAIM_SEX: i128 = -70015;

/// Birth-certificate claim key: birth locality.
pub const CLAIM_BIRTH_LOCALITY: i128 = -70016;

/// Birth-certificate claim key: county FIPS code.
pub const CLAIM_COUNTY_FIPS_CODE: i128 = -70017;

/// Birth-certificate claim key: mother.
pub const CLAIM_MOTHER: i128 = -70018;

/// Birth-certificate claim key: father.
pub const CLAIM_FATHER: i128 = -70019;

/// Birth-certificate claim key: registration date.
pub const CLAIM_REGISTRATION_DATE: i128 = -70020;

/// The human-readable label of an integer claim key. Unknown keys render
/// as their decimal string.
pub open spec fn key_to_string_spec(key: int) -> Seq<char> {
    if key == 1 {
        "Issuer"@
    } else if key == 4 {
        "Expires"@
    } else if key == 5 {
        "Not Before"@
    } else if key == 6 {
        "Issued"@
    } else if key == -70001 {
        "Full Name"@
    } else if key == -70002 {
        "Email"@
    } else if key == -70003 {
        "Company"@
    } else if key == -70011 {
        "Birth Certificate Number"@
    } else if key == -70012 {
        "Given Names"@
    } else if key == -70013 {
        "Family Name"@
    } else if key == -70014 {
        "Birth Date"@
    } else if key == -70015 {
        "Sex"@
    } else if key == -70016 {
        "Birth Locality"@
    } else if key == -70017 {
        "County FIPS Code"@
    } else if key == -70018 {
        "Mother"@
    } else if key == -70019 {
        "Father"@
    } else if key == -70020 {
        "Registration Date"@
    } else {
        decimal_of(key)
    }
}

/// The integer claim key of a human-readable label, where one exists.
pub open spec fn string_to_key_spec(label: Seq<char>) -> Option<i128> {
    if label == "Expires"@ {
        Some(4i128)
    } else if label == "Not Before"@ {
        Some(5i128)
    } else if label == "Issued"@ {
        Some(6i128)
    } else if label == "Full Name"@ {
        Some(-70001i128)
    } else if label == "Email"@ {
        Some(-70002i128)
    } else if label == "Company"@ {
        Some(-70003i128)
    } else if label == "Birth Certificate Number"@ {
        Some(-70011i128)
    } else if label == "Given Names"@ {
        Some(-70012i128)
    } else if label == "Family Name"@ {
        Some(-70013i128)
    } else if label == "Birth Date"@ {
        Some(-70014i128)
    } else if label == "Sex"@ {
        Some(-70015i128)
    } else if label == "Birth Locality"@ {
        Some(-70016i128)
    } else if label == "County FIPS Code"@ {
        Some(-70017i128)
    } else if label == "Mother"@ {
        Some(-70018i128)
    } else if label == "Father"@ {
        Some(-70019i128)
    } else if label == "Registration Date"@ {
        Some(-70020i128)
    } else {
        None
    }
}

/// Bidirectional mapping between integer claim keys and human-readable
/// labels.
pub struct CborKeyMapper;

impl CborKeyMapper {
    /// Convert an integer claim key to its human-readable label; unknown
    /// keys come back as their decimal string.
    pub fn key_to_string(key: i128) -> (s: String)
        ensures
            s@ == key_to_string_spec(key as int),
    {
        if key == CLAIM_ISSUER {
            String::from_str("Issuer")
        } else if key == CLAIM_EXPIRES {
            String::from_str("Expires")
        } else if key == CLAIM_NOT_BEFORE {
            String::from_str("Not Before")
        } else if key == CLAIM_ISSUED {
            String::from_str("Issued")
        } else if key == CLAIM_FULL_NAME {
            String::from_str("Full Name")
        } else if key == CLAIM_EMAIL {
            String::from_str("Email")
        } else if key == CLAIM_COMPANY {
            String::from_str("Company")
        } else if key == CLAIM_BIRTH_CERT_NUMBER {
            String::from_str("Birth Certificate Number")
        } else if key == CLAIM_GIVEN_NAMES {
            String::from_str("Given Names")
        } else if key == CLAIM_FAMILY_NAME {
            String::from_str("Family Name")
        } else if key == CLAIM_BIRTH_DATE {
            String::from_str("Birth Date")
        } else if key == CLAIM_SEX {
            String::from_str("Sex")
        } else if key == CLAIM_BIRTH_LOCALITY {
            String::from_str("Birth Locality")
        } else if key == CLAIM_COUNTY_FIPS_CODE {
            String::from_str("County FIPS Code")
        } else if key == CLAIM_MOTHER {
            String::from_str("Mother")
        } else if key == CLAIM_FATHER {
            String::from_str("Father")
        } else if key == CLAIM_REGISTRATION_DATE {
            String::from_str("Registration Date")
        } else {
            i128_to_decimal(key)
        }
    }

    /// Convert a human-readable label back to its integer claim key, where
    /// the label is in the table.
    pub fn string_to_key(label: &str) -> (r: Option<i128>)
        ensures
            r == string_to_key_spec(label@),
    {
        if str_eq(label, "Expires") {
            Some(CLAIM_EXPIRES)
        } else if str_eq(label, "Not Before") {
            Some(CLAIM_NOT_BEFORE)
        } else if str_eq(label, "Issued") {
            Some(CLAIM_ISSUED)
        } else if str_eq(label, "Full Name") {
            Some(CLAIM_FULL_NAME)
        } else if str_eq(label, "Email") {
            Some(CLAIM_EMAIL)
        } else if str_eq(label, "Company") {
            Some(CLAIM_COMPANY)
        } else if str_eq(label, "Birth Certificate Number") {
            Some(CLAIM_BIRTH_CERT_NUMBER)
        } else if str_eq(label, "Given Names") {
            Some(CLAIM_GIVEN_NAMES)
        } else if str_eq(label, "Family Name") {
            Some(CLAIM_FAMILY_NAME)
        } else if str_eq(label, "Birth Date") {
            Some(CLAIM_BIRTH_DATE)
        } else if str_eq(label, "Sex") {
            Some(CLAIM_SEX)
        } else if str_eq(label, "Birth Locality") {
            Some(CLAIM_BIRTH_LOCALITY)
        } else if str_eq(label, "County FIPS Code") {
            Some(CLAIM_COUNTY_FIPS_CODE)
        } else if str_eq(label, "Mother") {
            Some(CLAIM_MOTHER)
        } else if str_eq(label, "Father") {
            Some(CLAIM_FATHER)
        } else if str_eq(label, "Registration Date") {
            Some(CLAIM_REGISTRATION_DATE)
        } else {
            None
        }
    }
}

/// Law: on every label of the mapping table, converting the label to its
/// key and the key back to a label returns the same label.
pub proof fn lemma_key_mapping_round_trip(label: Seq<char>, key: i128)
    requires
        string_to_key_spec(label) == Some(key),
    ensures
        key_to_string_spec(key as int) == label,
{
}

} // verus!
