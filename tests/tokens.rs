use total_recall::{encode_jwt, hash_password, password_matches, token_at, verify_at, verify_jwt, Claims, SecretKey, TokenError};

#[test]
fn token_round_trip() {
    let key = SecretKey::new("secret".to_string());
    let token = encode_jwt(&key, 7, 30).unwrap();
    let claims = verify_jwt(&key, token).unwrap();
    assert_eq!(claims.user_id, 7);
}

#[test]
fn token_expiry_and_signature() {
    let key = SecretKey::new("secret".to_string());
    let token = token_at(&key, 3, 1, 1_000_000).unwrap();
    assert_eq!(verify_at(&key, &token, 1_000_000), Ok(Claims { user_id: 3, exp: 1_086_400 }));
    assert_eq!(verify_at(&key, &token, 1_086_460), Ok(Claims { user_id: 3, exp: 1_086_400 }));
    assert_eq!(verify_at(&key, &token, 1_086_461), Err(TokenError::Expired));
    let other = SecretKey::new("other".to_string());
    assert_eq!(verify_at(&other, &token, 1_000_000), Err(TokenError::Invalid));
    assert_eq!(verify_at(&key, "not a token", 1_000_000), Err(TokenError::Invalid));
    assert_eq!(token_at(&key, 3, i32::MAX, 1_000_000), Err(TokenError::OutOfRange));
    assert_eq!(key.get_secret_key(), "secret");
}

#[test]
fn password_hashes_verify() {
    let h = hash_password("hunter2").unwrap();
    assert_ne!(h, "hunter2");
    assert!(password_matches("hunter2", &h));
    assert!(!password_matches("hunter3", &h));
    assert!(!password_matches("hunter2", "not a hash"));
}

#[test]
fn issued_token_decodes_to_its_claims() {
    let key = SecretKey::new("k".to_string());
    let token = token_at(&key, 42, 2, 500).unwrap();
    assert_eq!(verify_at(&key, &token, 500 + 2 * 86400 + 60), Ok(Claims { user_id: 42, exp: 500 + 2 * 86400 }));
    assert_eq!(verify_at(&key, &token, 500 + 2 * 86400 + 61), Err(TokenError::Expired));
}
