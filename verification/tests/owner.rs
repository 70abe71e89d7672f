use std::time::{SystemTime, UNIX_EPOCH};

use microbin::hashids::HASHID_MIN_LENGTH;
use microbin::owner::{owner_skips_count, verify_owner_token};
use microbin::pasta::Pasta;

fn hasher() -> harsh::Harsh {
    harsh::Harsh::builder().length(HASHID_MIN_LENGTH).build().unwrap()
}

fn pasta(id: u64) -> Pasta {
    Pasta {
        id,
        share_code: None,
        content: String::from("hello"),
        pasta_type: String::from("text"),
        encrypt_server: false,
        encrypt_client: false,
        encrypted_key: None,
        readonly: false,
        editable: true,
        read_count: 0,
        last_read: 0,
    }
}

#[test]
fn owner_token_must_match_expected_pasta_id() {
    let now = SystemTime::now().duration_since(UNIX_EPOCH).unwrap().as_secs();
    let expiry = now + 60;
    let token = hasher().encode(&[expiry, 42]);

    assert!(verify_owner_token(&token, 42, now));
    assert!(!verify_owner_token(&token, 7, now));
}

#[test]
fn owner_token_expires() {
    let token = hasher().encode(&[1_000, 42]);
    assert!(verify_owner_token(&token, 42, 999));
    assert!(!verify_owner_token(&token, 42, 1_000));
    assert!(!verify_owner_token(&token, 42, 5_000));
}

#[test]
fn owner_token_needs_two_numbers() {
    let one = hasher().encode(&[2_000]);
    let three = hasher().encode(&[2_000, 42, 1]);
    assert!(!verify_owner_token(&one, 42, 10));
    assert!(!verify_owner_token(&three, 42, 10));
    assert!(!verify_owner_token("not a token", 42, 10));
    assert!(!verify_owner_token("", 42, 10));
}

#[test]
fn owner_view_is_not_counted() {
    let pastas = vec![pasta(5), pasta(42)];
    let token = hasher().encode(&[1_000, 42]);
    let slug = pastas[1].id_as_animals(false);
    assert!(owner_skips_count(&pastas, &slug, Some(&token), 10, false));
    assert!(!owner_skips_count(&pastas, &slug, None, 10, false));
    assert!(!owner_skips_count(&pastas, "sloth", Some(&token), 10, false));
    assert!(!owner_skips_count(&pastas, "unknown", Some(&token), 10, false));
    assert!(!owner_skips_count(&pastas, &slug, Some(&token), 2_000, false));
}

#[test]
fn owner_token_parts_are_read() {
    let token = hasher().encode(&[1_000, 42]);
    assert_eq!(microbin::owner::owner_token_parts(&token), Some((1_000, 42)));
    assert_eq!(microbin::owner::owner_token_parts("!"), None);
}

#[test]
fn crafted_long_token_is_refused_without_decoding() {
    // A thirteen-character code whose digit segment is twelve characters long.
    assert!(!verify_owner_token("gX11111111111", 42, 10));
    assert!(!microbin::hashids::is_hashid_decodable("gX11111111111"));
    assert!(microbin::hashids::is_hashid_decodable("gX111111111"));
    assert!(microbin::hashids::is_hashid_decodable("gX11111c11111111111"));
    // A piece of thirteen characters fails harsh's power check before any sum.
    assert!(microbin::hashids::is_hashid_decodable("gX111111111111"));
    // Characters before the first guard and after the last are not read.
    assert!(microbin::hashids::is_hashid_decodable("XXXXXXXXXXXXXaXX1aXXXXXXXXXXXXX"));
    assert!(!microbin::hashids::is_hashid_decodable("aXX11111111111a"));
    assert!(!microbin::hashids::is_hashid_decodable("gé"));
}

#[test]
fn owner_token_with_a_large_id_is_accepted() {
    let id = 1_196_683_881_290_399_743u64;
    let token = hasher().encode(&[5_000, id]);
    assert!(verify_owner_token(&token, id, 10));
}
