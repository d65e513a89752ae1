use authcore::auth::AuthenticationToken;
use authcore::token::TokenCodec;

const NOW: u64 = 1_700_000_000;

#[test]
fn session_token_round_trip_and_expiry() {
    let codec = TokenCodec::new("secret".to_string());
    let token = codec.generate_jwt(42, NOW);
    assert_eq!(codec.get_user_id(&token, NOW), Some(42));
    assert_eq!(codec.get_user_id(&token, NOW + 3600), Some(42));
    assert_eq!(codec.get_user_id(&token, NOW + 3600 + 60), Some(42));
    assert_eq!(codec.get_user_id(&token, NOW + 3600 + 61), None);
}

#[test]
fn negative_session_id_round_trips() {
    let codec = TokenCodec::new("secret".to_string());
    let token = codec.generate_jwt(-2147483648, NOW);
    assert_eq!(codec.get_user_id(&token, NOW), Some(-2147483648));
}

#[test]
fn session_token_rejected_under_other_secret() {
    let codec = TokenCodec::new("secret".to_string());
    let other = TokenCodec::new("another".to_string());
    let token = codec.generate_jwt(7, NOW);
    assert_eq!(other.get_user_id(&token, NOW), None);
    assert_eq!(codec.get_user_id("abc.def.ghi", NOW), None);
    assert_eq!(codec.get_user_id("", NOW), None);
}

#[test]
fn action_token_round_trip_and_expiry() {
    let codec = TokenCodec::new("secret".to_string());
    let token = codec.verify_token("a@b.com", NOW);
    assert_eq!(codec.extract_email(&token, NOW), Some("a@b.com".to_string()));
    assert_eq!(codec.extract_email(&token, NOW + 1800 + 604800 + 60), Some("a@b.com".to_string()));
    assert_eq!(codec.extract_email(&token, NOW + 1800 + 604800 + 61), None);
}

#[test]
fn session_and_action_tokens_do_not_mix() {
    let codec = TokenCodec::new("secret".to_string());
    let session = codec.generate_jwt(5, NOW);
    let action = codec.verify_token("a@b.com", NOW);
    assert_eq!(codec.extract_email(&session, NOW), None);
    assert_eq!(codec.get_user_id(&action, NOW), None);
}

#[test]
fn header_parsing() {
    let codec = TokenCodec::new("secret".to_string());
    let token = codec.generate_jwt(9, NOW);
    let ok = AuthenticationToken::from_header(Some(&format!("Bearer {}", token)), &codec, NOW);
    assert_eq!(ok.id, Some(9));
    assert!(ok.authenticated);
    let extra = AuthenticationToken::from_header(Some(&format!("Bearer {} trailing", token)), &codec, NOW);
    assert_eq!(extra.id, Some(9));
    let no_space = AuthenticationToken::from_header(Some(&token), &codec, NOW);
    assert!(!no_space.authenticated);
    let empty = AuthenticationToken::from_header(Some(""), &codec, NOW);
    assert!(!empty.authenticated);
    assert_eq!(empty.id, None);
    let zero = codec.generate_jwt(0, NOW);
    let zero_auth = AuthenticationToken::from_header(Some(&format!("Bearer {}", zero)), &codec, NOW);
    assert!(!zero_auth.authenticated);
    let expired = AuthenticationToken::from_header(Some(&format!("Bearer {}", token)), &codec, NOW + 4000);
    assert!(!expired.authenticated);
}
