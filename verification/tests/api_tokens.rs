use meteroid_store::api_tokens::{api_key_parts, issue_api_key, issued_api_key};
use meteroid_store::errors::StoreError;
use argon2::PasswordHasher;

#[test]
fn api_key_at_smallest_four_digit_id() {
    let p = api_key_parts("prod", "abcdefghijklmnopqrstuvwxyz01", 238_328);
    assert_eq!(p.api_key, "pv_prod_abcdefghijklmnopqrstuvwxyz01/1000");
    assert_eq!(p.hint, "pv_prod_abcd...1000");
}

#[test]
fn api_key_for_a_uuid_sized_id() {
    let id: u128 = 0x0190f1b2c3d47e8f9a0b1c2d3e4f5061;
    let p = api_key_parts("dev", "Zy9xW8vU7tS6rQ5pO4nM3lK2jI1h", id);
    assert_eq!(p.api_key, "pv_dev_Zy9xW8vU7tS6rQ5pO4nM3lK2jI1h/2xENjeRLnyG43qm1uRySX");
    assert_eq!(p.hint, "pv_dev_Zy9x...RySX");
}

#[test]
fn api_key_for_the_largest_id() {
    let p = api_key_parts("sand", "0000", u128::MAX);
    assert_eq!(p.api_key, "pv_sand_0000/7n42DGM5Tflk9n8mt7Fhc7");
    assert_eq!(p.hint, "pv_sand_0000...Fhc7");
}

#[test]
fn api_key_digits_use_upper_case_before_lower_case() {
    // 1337 is "LZ" in base 62; shifted by three digits it reads "LZ005".
    let p = api_key_parts("qa", "abcd", 1337 * 238_328 + 5);
    assert_eq!(p.api_key, "pv_qa_abcd/LZ005");
    assert_eq!(p.hint, "pv_qa_abcd...Z005");
}

#[test]
fn api_key_hint_cuts_random_part_after_four_bytes() {
    // two 2-byte characters make up the first four bytes
    let p = api_key_parts("prod", "éérest", 238_328);
    assert_eq!(p.hint, "pv_prod_éé...1000");
    assert_eq!(p.api_key, "pv_prod_éérest/1000");
}

#[test]
fn issued_key_stores_an_argon2id_hash_of_the_random_part() {
    let salt = [7u8; 16];
    let issued = issue_api_key("prod", "abcdefghijklmnopqrstuvwxyz01", &salt, 238_328).unwrap();
    assert_eq!(issued.api_key, "pv_prod_abcdefghijklmnopqrstuvwxyz01/1000");
    assert_eq!(issued.stored.hint, "pv_prod_abcd...1000");
    assert!(issued.stored.hash.starts_with("$argon2id$v=19$m=5120,t=1,p=1$"));
    assert!(!issued.stored.hash.contains("abcdefghijklmnopqrstuvwxyz01"));
}

#[test]
fn issued_key_hash_is_the_argon2id_hash_of_the_random_part_with_the_salt() {
    let salt = [42u8; 16];
    let issued = issue_api_key("prod", "abcdefghijklmnopqrstuvwxyz01", &salt, 238_328).unwrap();
    let params = argon2::Params::new(5120, 1, 1, None).unwrap();
    let hasher = argon2::Argon2::new(argon2::Algorithm::Argon2id, argon2::Version::V0x13, params);
    let expected = hasher.hash_password_with_salt(b"abcdefghijklmnopqrstuvwxyz01", &salt).unwrap().to_string();
    assert_eq!(issued.stored.hash, expected);
    let of_env = hasher.hash_password_with_salt(b"prod", &salt).unwrap().to_string();
    assert_ne!(issued.stored.hash, of_env);
}

#[test]
fn issued_key_hash_depends_on_the_salt() {
    let a = issue_api_key("prod", "abcdefghijklmnopqrstuvwxyz01", &[1u8; 16], 238_328).unwrap();
    let b = issue_api_key("prod", "abcdefghijklmnopqrstuvwxyz01", &[1u8; 16], 238_328).unwrap();
    let c = issue_api_key("prod", "abcdefghijklmnopqrstuvwxyz01", &[2u8; 16], 238_328).unwrap();
    assert_eq!(a.stored.hash, b.stored.hash);
    assert_ne!(a.stored.hash, c.stored.hash);
}

#[test]
fn issuing_with_a_short_salt_fails() {
    match issue_api_key("prod", "abcdefghijklmnopqrstuvwxyz01", &[1u8; 4], 238_328) {
        Err(StoreError::InvalidArgument(m)) => assert_eq!(m, "unable to hash api key"),
        other => panic!("unexpected {:?}", other.map(|k| k.api_key)),
    }
}

#[test]
fn issued_api_key_takes_the_hash_or_reports_its_failure() {
    let parts = api_key_parts("prod", "abcdefgh", 238_328);
    let k = issued_api_key(parts, Some("h".to_string())).unwrap();
    assert_eq!(k.api_key, "pv_prod_abcdefgh/1000");
    assert_eq!(k.stored.hint, "pv_prod_abcd...1000");
    assert_eq!(k.stored.hash, "h");
    let parts = api_key_parts("prod", "abcdefgh", 238_328);
    match issued_api_key(parts, None) {
        Err(StoreError::InvalidArgument(m)) => assert_eq!(m, "unable to hash api key"),
        other => panic!("unexpected {:?}", other.map(|k| k.api_key)),
    }
}
