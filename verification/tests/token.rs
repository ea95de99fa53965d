//! The token pipeline: cipher round trips, token validity and expiry,
//! tampering, the exact wire format, and configuration loading.
use base64::Engine;
use holopku::claims::{parse_claims_bytes, claims_json_bytes, Claims};
use holopku::crypto::{decrypt_aes256, encrypt_aes256};
use holopku::errors::AuthError;
use holopku::iaaa::sso_validate_url;
use holopku::jwt::jwt_encode;
use holopku::middleware::{authenticate, issue_token_at, validate_token, TokenCodec};
use holopku::check_envs;

fn test_codec() -> TokenCodec {
    TokenCodec {
        secret: b"server-secret".to_vec(),
        expire_seconds: 60,
        key: b"0123456789abcdef0123456789abcdef".to_vec(),
        iv: b"0123456789abcdef".to_vec(),
    }
}

#[test]
fn cipher_round_trip() {
    let key = [1u8; 32];
    let iv = [2u8; 16];
    let plain = b"attack at dawn";
    let cipher = encrypt_aes256(&key, &iv, plain);
    assert_ne!(cipher.as_slice(), plain.as_slice());
    assert_eq!(cipher.len() % 16, 0);
    let back = decrypt_aes256(&key, &iv, &cipher).expect("same key and IV decrypt");
    assert_eq!(back.as_slice(), plain.as_slice());
}

#[test]
fn cipher_rejects_other_key_and_iv() {
    let key = [1u8; 32];
    let iv = [2u8; 16];
    let cipher = encrypt_aes256(&key, &iv, b"attack at dawn");
    let other_key = [3u8; 32];
    assert!(decrypt_aes256(&other_key, &iv, &cipher).is_none());
    let mut tampered = cipher.clone();
    let last = tampered.len() - 1;
    tampered[last] ^= 0x01;
    assert!(decrypt_aes256(&key, &iv, &tampered).is_none());
}

#[test]
fn issued_token_validates_to_its_claims() {
    let codec = test_codec();
    let token = issue_token_at(&codec, "7", "a@x.com", 1000);
    let claims = validate_token(&codec, &token).expect("own token validates");
    assert_eq!(claims.aud, b"7".to_vec());
    assert_eq!(claims.exp, 60);
    assert_eq!(claims.iat, 1000);
    assert_eq!(claims.iss, b"HoloPKU server".to_vec());
    assert_eq!(claims.sub, b"a@x.com".to_vec());
}

#[test]
fn token_expires_at_the_boundary_second() {
    let codec = test_codec();
    let token = issue_token_at(&codec, "7", "a@x.com", 1000);
    assert!(authenticate(&codec, Some(&token), 1000).is_ok());
    assert!(authenticate(&codec, Some(&token), 1059).is_ok());
    assert_eq!(
        authenticate(&codec, Some(&token), 1060).unwrap_err(),
        AuthError::Unauthenticated,
        "expired exactly at iat + exp"
    );
    assert_eq!(authenticate(&codec, Some(&token), 2000).unwrap_err(), AuthError::Unauthenticated);
}

#[test]
fn missing_token_is_rejected() {
    let codec = test_codec();
    assert_eq!(authenticate(&codec, None, 1000).unwrap_err(), AuthError::Unauthenticated);
}

#[test]
fn tampered_token_never_validates() {
    let codec = test_codec();
    let token = issue_token_at(&codec, "7", "a@x.com", 1000);
    for i in 0..token.len() {
        let mut tampered = token.clone();
        tampered[i] ^= 0x01;
        assert!(
            authenticate(&codec, Some(&tampered), 1000).is_err(),
            "bit flip in byte {i} must not validate"
        );
    }
}

#[test]
fn token_under_another_secret_is_rejected() {
    let codec = test_codec();
    let mut other = test_codec();
    other.secret = b"other-secret".to_vec();
    let token = issue_token_at(&other, "7", "a@x.com", 1000);
    assert!(validate_token(&codec, &token).is_err());
}

#[test]
fn signed_token_has_the_standard_wire_format() {
    let engine = &base64::engine::general_purpose::URL_SAFE_NO_PAD;
    let claims = Claims {
        aud: b"7".to_vec(),
        exp: 60,
        iat: 1000,
        iss: b"HoloPKU server".to_vec(),
        sub: b"a@x.com".to_vec(),
    };
    let produced = jwt_encode(b"server-secret", &claims);

    let header = engine.encode(b"{\"alg\":\"HS256\",\"typ\":\"JWT\"}");
    let payload = engine.encode(
        b"{\"aud\":\"7\",\"exp\":60,\"iat\":1000,\"iss\":\"HoloPKU server\",\"sub\":\"a@x.com\"}",
    );
    let message = format!("{header}.{payload}");
    let key = jsonwebtoken::EncodingKey::from_secret(b"server-secret");
    let sig = jsonwebtoken::crypto::sign(message.as_bytes(), &key, jsonwebtoken::Algorithm::HS256)
        .expect("hmac signing");
    let expected = format!("{message}.{sig}");
    assert_eq!(produced, expected.into_bytes());
}

#[test]
fn claims_document_is_canonical_json_with_escapes() {
    let claims = Claims {
        aud: b"42".to_vec(),
        exp: 120,
        iat: 5,
        iss: b"x".to_vec(),
        sub: b"a\"b\\c\nd".to_vec(),
    };
    let doc = claims_json_bytes(&claims);
    assert_eq!(
        doc,
        b"{\"aud\":\"42\",\"exp\":120,\"iat\":5,\"iss\":\"x\",\"sub\":\"a\\\"b\\\\c\\u000ad\"}"
            .to_vec()
    );
    let back = parse_claims_bytes(&doc).expect("canonical document parses");
    assert_eq!(back.aud, claims.aud);
    assert_eq!(back.exp, claims.exp);
    assert_eq!(back.iat, claims.iat);
    assert_eq!(back.iss, claims.iss);
    assert_eq!(back.sub, claims.sub);
}

#[test]
fn malformed_claims_documents_are_rejected() {
    assert!(parse_claims_bytes(b"").is_none());
    assert!(parse_claims_bytes(b"{}").is_none());
    assert!(parse_claims_bytes(b"{\"aud\":\"7\"}").is_none());
    assert!(parse_claims_bytes(
        b"{\"aud\":\"7\",\"exp\":60,\"iat\":1000,\"iss\":\"x\",\"sub\":\"y\"} "
    )
    .is_none());
    assert!(parse_claims_bytes(
        b"{\"aud\":\"7\",\"exp\":9999999999999999999999,\"iat\":1,\"iss\":\"x\",\"sub\":\"y\"}"
    )
    .is_none());
}

#[test]
fn validation_url_carries_the_keyed_digest() {
    let url = sso_validate_url("myapp", "1.2.3.4", "tok123", "appkey");
    assert_eq!(
        url,
        "https://iaaa.pku.edu.cn/iaaa/svc/token/validate.do?appId=myapp&remoteAddr=1.2.3.4&token=tok123&msgAbs=01ef4da7c0d733d1fc7624747098c327"
    );
}

#[test]
fn check_envs_builds_the_codec() {
    let secret = "sekrit".to_string();
    let expire = "3600".to_string();
    let key = "0123456789abcdef0123456789abcdef".to_string();
    let iv = "0123456789abcdef".to_string();
    let codec = check_envs(Some(&secret), Some(&expire), Some(&key), Some(&iv)).unwrap();
    assert_eq!(codec.secret, b"sekrit".to_vec());
    assert_eq!(codec.expire_seconds, 3600);
    assert_eq!(codec.key, key.as_bytes().to_vec());
    assert_eq!(codec.iv, iv.as_bytes().to_vec());
}

#[test]
fn check_envs_pads_and_truncates_key_material() {
    let secret = "s".to_string();
    let expire = "1".to_string();
    let key = "abc".to_string();
    let iv = "0123456789abcdef0123456789".to_string();
    let codec = check_envs(Some(&secret), Some(&expire), Some(&key), Some(&iv)).unwrap();
    let mut expected_key = b"abc".to_vec();
    expected_key.resize(32, 0);
    assert_eq!(codec.key, expected_key);
    assert_eq!(codec.iv, b"0123456789abcdef".to_vec());
}

fn expect_internal(r: Result<TokenCodec, AuthError>) {
    match r {
        Ok(_) => panic!("configuration should have been rejected"),
        Err(e) => assert_eq!(e, AuthError::Internal),
    }
}

#[test]
fn check_envs_rejects_missing_or_malformed_configuration() {
    let secret = "s".to_string();
    let expire = "60".to_string();
    let key = "k".to_string();
    let iv = "i".to_string();
    expect_internal(check_envs(None, Some(&expire), Some(&key), Some(&iv)));
    let zero = "0".to_string();
    expect_internal(check_envs(Some(&secret), Some(&zero), Some(&key), Some(&iv)));
    let word = "soon".to_string();
    expect_internal(check_envs(Some(&secret), Some(&word), Some(&key), Some(&iv)));
    expect_internal(check_envs(Some(&secret), None, Some(&key), Some(&iv)));
}
