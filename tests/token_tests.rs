use auth_api::models::Role;
use auth_api::text::push_decimal;
use auth_api::token::{encode_claims, parse_claims_text, payload_text, verify_token, TokenError};
use base64::Engine;

const SECRET: &str = "a-test-signing-secret";

fn flip_char(s: &str, at: usize) -> String {
    let mut chars: Vec<char> = s.chars().collect();
    chars[at] = if chars[at] == 'A' { 'B' } else { 'A' };
    chars.into_iter().collect()
}

#[test]
fn payload_text_has_fixed_shape() {
    let p = payload_text("a@b.com", Role::User, 1700000000);
    assert_eq!(p, "{\"sub\":\"a@b.com\",\"role\":\"User\",\"exp\":1700000000}");
    let q = payload_text("x\"y", Role::Admin, 5);
    assert_eq!(q, "{\"sub\":\"x\\\"y\",\"role\":\"Admin\",\"exp\":5}");
}

#[test]
fn decimal_spelling() {
    let mut s = String::new();
    push_decimal(&mut s, 0);
    assert_eq!(s, "0");
    let mut s = String::from("n=");
    push_decimal(&mut s, 12345);
    assert_eq!(s, "n=12345");
    let mut s = String::new();
    push_decimal(&mut s, u64::MAX);
    assert_eq!(s, "18446744073709551615");
}

#[test]
fn claims_text_parses_back() {
    let c = parse_claims_text("{\"sub\":\"root@x\",\"role\":\"Admin\",\"exp\":42}").unwrap();
    assert_eq!(c.sub, "root@x");
    assert_eq!(c.role, Role::Admin);
    assert_eq!(c.exp, 42);
    let c = parse_claims_text("{\"sub\":\"a,\\\"role\\\":1\",\"role\":\"User\",\"exp\":7}").unwrap();
    assert_eq!(c.sub, "a,\"role\":1");
    assert_eq!(c.role, Role::User);
    assert!(parse_claims_text("{\"sub\":\"r\",\"role\":\"Admin\",\"exp\":042}").is_none());
    assert!(parse_claims_text("{\"sub\":\"r\",\"role\":\"Root\",\"exp\":42}").is_none());
    assert!(parse_claims_text("{\"sub\":r,\"role\":\"User\",\"exp\":42}").is_none());
    assert!(parse_claims_text("{\"sub\":\"r\",\"role\":\"User\",\"exp\":18446744073709551616}").is_none());
    let c = parse_claims_text("{\"exp\":42,\"role\":\"User\",\"sub\":\"r\"}").unwrap();
    assert_eq!((c.sub.as_str(), c.role, c.exp), ("r", Role::User, 42));
    let c = parse_claims_text("{ \"role\" : \"Admin\", \"iat\": 1, \"sub\": \"s\", \"exp\": 9 }").unwrap();
    assert_eq!((c.sub.as_str(), c.role, c.exp), ("s", Role::Admin, 9));
    assert!(parse_claims_text("{\"sub\":\"r\",\"role\":\"User\",\"exp\":5.0}").is_none());
    assert!(parse_claims_text("{\"sub\":\"r\",\"role\":\"User\",\"exp\":-5}").is_none());
    assert!(parse_claims_text("{\"role\":\"User\",\"exp\":5}").is_none());
    assert!(parse_claims_text("{\"sub\":1,\"role\":\"User\",\"exp\":5}").is_none());
    assert!(parse_claims_text("{\"sub\":\"r\",\"role\":\"user\",\"exp\":5}").is_none());
    assert!(parse_claims_text("[\"r\"]").is_none());
}

#[test]
fn token_has_three_url_safe_parts() {
    let t = encode_claims(SECRET, "alice@example.com", Role::User, 1000);
    let parts: Vec<&str> = t.split('.').collect();
    assert_eq!(parts.len(), 3);
    for p in &parts {
        assert!(p.chars().all(|c| c.is_ascii_alphanumeric() || c == '-' || c == '_'));
    }
    let header = base64::engine::general_purpose::URL_SAFE_NO_PAD.decode(parts[0]).unwrap();
    assert_eq!(String::from_utf8(header).unwrap(), "{\"typ\":\"JWT\",\"alg\":\"HS256\"}");
}

#[test]
fn round_trip_before_expiry() {
    let t = encode_claims(SECRET, "alice@example.com", Role::Admin, 1000);
    for now in [0u64, 500, 999] {
        let c = verify_token(SECRET, &t, now).unwrap();
        assert_eq!(c.sub, "alice@example.com");
        assert_eq!(c.role, Role::Admin);
        assert_eq!(c.exp, 1000);
    }
}

#[test]
fn expired_at_and_after_expiry() {
    let t = encode_claims(SECRET, "bob@example.com", Role::User, 1000);
    assert_eq!(verify_token(SECRET, &t, 1000).err(), Some(TokenError::Expired));
    assert_eq!(verify_token(SECRET, &t, 5000).err(), Some(TokenError::Expired));
}

#[test]
fn altered_signature_is_refused() {
    let t = encode_claims(SECRET, "bob@example.com", Role::User, 1000);
    let last = t.len() - 1;
    let forged = flip_char(&t, last);
    let r = verify_token(SECRET, &forged, 10);
    assert!(matches!(r, Err(TokenError::InvalidSignature) | Err(TokenError::Malformed)));
}

#[test]
fn altered_payload_is_refused() {
    let t = encode_claims(SECRET, "bob@example.com", Role::User, 1000);
    let dot = t.find('.').unwrap();
    for k in 1..6 {
        let forged = flip_char(&t, dot + k);
        let r = verify_token(SECRET, &forged, 10);
        assert!(matches!(r, Err(TokenError::InvalidSignature) | Err(TokenError::Malformed)));
    }
}

#[test]
fn other_secret_is_refused() {
    let t = encode_claims(SECRET, "bob@example.com", Role::User, 1000);
    assert_eq!(verify_token("another-secret", &t, 10).err(), Some(TokenError::InvalidSignature));
}

#[test]
fn malformed_tokens() {
    assert_eq!(verify_token(SECRET, "", 0).err(), Some(TokenError::Malformed));
    assert_eq!(verify_token(SECRET, "abc", 0).err(), Some(TokenError::Malformed));
    assert_eq!(verify_token(SECRET, "a.b", 0).err(), Some(TokenError::Malformed));
    assert_eq!(verify_token(SECRET, "a.b.c.d", 0).err(), Some(TokenError::Malformed));
}

#[test]
fn other_algorithm_in_header_is_refused() {
    let engine = base64::engine::general_purpose::URL_SAFE_NO_PAD;
    let header = engine.encode("{\"typ\":\"JWT\",\"alg\":\"HS512\"}");
    let payload = engine.encode("{\"sub\":\"eve\",\"role\":\"Admin\",\"exp\":1000}");
    let message = format!("{}.{}", header, payload);
    let sig = jsonwebtoken::crypto::sign(
        message.as_bytes(),
        &jsonwebtoken::EncodingKey::from_secret(SECRET.as_bytes()),
        jsonwebtoken::Algorithm::HS256,
    )
    .unwrap();
    let token = format!("{}.{}", message, sig);
    assert_eq!(verify_token(SECRET, &token, 10).err(), Some(TokenError::Malformed));
}

#[test]
fn signature_matches_jsonwebtoken() {
    let t = encode_claims(SECRET, "carol@example.com", Role::User, 77);
    let (message, sig) = t.rsplit_once('.').unwrap();
    let ok = jsonwebtoken::crypto::verify(
        sig,
        message.as_bytes(),
        &jsonwebtoken::DecodingKey::from_secret(SECRET.as_bytes()),
        jsonwebtoken::Algorithm::HS256,
    )
    .unwrap();
    assert!(ok);
}

#[test]
fn accepts_token_in_serde_field_order() {
    // The layout that jsonwebtoken::encode writes for a struct with the
    // fields sub, role, exp under the default header.
    let engine = base64::engine::general_purpose::URL_SAFE_NO_PAD;
    let header = engine.encode("{\"typ\":\"JWT\",\"alg\":\"HS256\"}");
    let payload = engine.encode("{\"sub\":\"dave@example.com\",\"role\":\"Admin\",\"exp\":2000}");
    let message = format!("{}.{}", header, payload);
    let sig = jsonwebtoken::crypto::sign(
        message.as_bytes(),
        &jsonwebtoken::EncodingKey::from_secret(SECRET.as_bytes()),
        jsonwebtoken::Algorithm::HS256,
    )
    .unwrap();
    let token = format!("{}.{}", message, sig);
    assert_eq!(token, encode_claims(SECRET, "dave@example.com", Role::Admin, 2000));
    let c = verify_token(SECRET, &token, 1999).unwrap();
    assert_eq!(c.sub, "dave@example.com");
    assert_eq!(c.role, Role::Admin);
    assert_eq!(sig.len(), 43);
}

fn signed_token(header: &str, payload: &str) -> String {
    let engine = base64::engine::general_purpose::URL_SAFE_NO_PAD;
    let message = format!("{}.{}", engine.encode(header), engine.encode(payload));
    let sig = jsonwebtoken::crypto::sign(
        message.as_bytes(),
        &jsonwebtoken::EncodingKey::from_secret(SECRET.as_bytes()),
        jsonwebtoken::Algorithm::HS256,
    )
    .unwrap();
    format!("{}.{}", message, sig)
}

#[test]
fn accepts_claims_in_any_key_order() {
    let t = signed_token("{\"typ\":\"JWT\",\"alg\":\"HS256\"}", "{\"role\":\"User\",\"sub\":\"a\",\"exp\":5}");
    let c = verify_token(SECRET, &t, 0).unwrap();
    assert_eq!(c.sub, "a");
    assert_eq!(c.role, Role::User);
    assert_eq!(c.exp, 5);
}

#[test]
fn accepts_header_with_other_fields() {
    let t = signed_token(
        "{\"alg\":\"HS256\",\"kid\":\"k1\",\"typ\":\"JWT\"}",
        "{\"sub\":\"a\",\"role\":\"Admin\",\"exp\":50,\"iat\":1}",
    );
    let c = verify_token(SECRET, &t, 10).unwrap();
    assert_eq!(c.role, Role::Admin);
}

#[test]
fn refuses_payload_without_claims_shape() {
    let t = signed_token("{\"typ\":\"JWT\",\"alg\":\"HS256\"}", "{\"sub\":\"a\",\"role\":\"Guest\",\"exp\":5}");
    assert_eq!(verify_token(SECRET, &t, 0).err(), Some(TokenError::Malformed));
    let t = signed_token("{\"typ\":\"JWT\"}", "{\"sub\":\"a\",\"role\":\"User\",\"exp\":5}");
    assert_eq!(verify_token(SECRET, &t, 0).err(), Some(TokenError::Malformed));
    let t = signed_token("not json", "{\"sub\":\"a\",\"role\":\"User\",\"exp\":5}");
    assert_eq!(verify_token(SECRET, &t, 0).err(), Some(TokenError::Malformed));
}
