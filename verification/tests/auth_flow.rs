//! Login and registration flows against an in-memory service.
use holopku::api::{LoginRequest, RegisterRequest, PROVIDER_IAAA, PROVIDER_PASSWORD};
use holopku::auth::AuthService;
use holopku::errors::AuthError;
use holopku::iaaa::example_iaaa_validate_response;
use holopku::middleware::TokenCodec;
use holopku::store::{LoginProvider, UserStore};

fn test_codec() -> TokenCodec {
    TokenCodec {
        secret: b"server-secret".to_vec(),
        expire_seconds: 3600,
        key: vec![7u8; 32],
        iv: vec![9u8; 16],
    }
}

fn test_service() -> AuthService {
    AuthService {
        store: UserStore::new(),
        codec: test_codec(),
        iaaa_id: "app".to_string(),
        iaaa_key: "key".to_string(),
    }
}

fn password_login(username: &str, password: &str) -> LoginRequest {
    LoginRequest {
        auth_provider: PROVIDER_PASSWORD,
        iaaa_token: String::new(),
        username: username.to_string(),
        password: password.to_string(),
        ip_address: None,
    }
}

fn password_register(username: &str, password: &str, email: &str) -> RegisterRequest {
    RegisterRequest {
        auth_provider: PROVIDER_PASSWORD,
        username: username.to_string(),
        password: password.to_string(),
        email: email.to_string(),
    }
}

#[test]
fn login_without_register() {
    let mut svc = test_service();
    let response = svc.login(&password_login("test_user_ne", "mypassword"), None, 1000);
    assert!(response.is_err());
}

#[test]
fn register() {
    let mut svc = test_service();
    let response = svc.register(
        &password_register("test_user_note", "mypassword", "lol@example.com"),
        1000,
    );
    assert!(response.is_ok());
    assert!(response.unwrap().success);
}

#[test]
fn login() {
    let mut svc = test_service();
    let reg = svc.register(&password_register("test_user", "mypassword", "lol@example.com"), 1000);
    assert!(reg.is_ok());
    let response = svc.login(&password_login("test_user", "mypassword"), None, 1001);
    assert!(response.is_ok());
    assert!(response.unwrap().success);
}

#[test]
fn register_again() {
    let mut svc = test_service();
    let reg = svc.register(&password_register("test_user", "mypassword", "lol@example.com"), 1000);
    assert!(reg.is_ok());
    let response = svc.register(
        &password_register("test_user", "mypassword", "lol@example.com"),
        1001,
    );
    assert!(response.is_err());
    assert_eq!(response.unwrap_err(), AuthError::AlreadyExists);
}

#[test]
fn register_login_wrong_password_register_again() {
    let mut svc = test_service();

    let reg = svc.register(&password_register("alice", "pw1", "a@x.com"), 500);
    assert!(reg.is_ok());
    assert!(reg.unwrap().success);

    let login_ok = svc.login(&password_login("alice", "pw1"), None, 501);
    assert!(login_ok.is_ok());
    let resp = login_ok.unwrap();
    assert!(resp.success);
    assert!(!resp.token.is_empty());
    let user = resp.user.expect("login returns the user");
    assert_eq!(user.username, "alice");
    assert_eq!(user.email.as_deref(), Some("a@x.com"));

    let login_bad = svc.login(&password_login("alice", "wrongpw"), None, 502);
    assert_eq!(login_bad.unwrap_err(), AuthError::Unauthenticated);

    let reg_again = svc.register(&password_register("alice", "other", "b@x.com"), 503);
    assert_eq!(reg_again.unwrap_err(), AuthError::AlreadyExists);
}

#[test]
fn login_unknown_username_is_not_found() {
    let mut svc = test_service();
    let r = svc.login(&password_login("nobody", "pw"), None, 1);
    assert_eq!(r.unwrap_err(), AuthError::NotFound);
}

#[test]
fn login_empty_fields_is_invalid_argument() {
    let mut svc = test_service();
    let r = svc.login(&password_login("", "pw"), None, 1);
    assert_eq!(r.unwrap_err(), AuthError::InvalidArgument);
    let r = svc.login(&password_login("alice", ""), None, 1);
    assert_eq!(r.unwrap_err(), AuthError::InvalidArgument);
}

#[test]
fn login_unknown_provider_is_invalid_argument() {
    let mut svc = test_service();
    let mut req = password_login("alice", "pw");
    req.auth_provider = 7;
    let r = svc.login(&req, None, 1);
    assert_eq!(r.unwrap_err(), AuthError::InvalidArgument);
}

#[test]
fn sso_register_is_unavailable() {
    let mut svc = test_service();
    let mut req = password_register("someone", "pw", "s@x.com");
    req.auth_provider = PROVIDER_IAAA;
    let r = svc.register(&req, 1);
    assert_eq!(r.unwrap_err(), AuthError::Unavailable);
}

fn sso_login_request() -> LoginRequest {
    LoginRequest {
        auth_provider: PROVIDER_IAAA,
        iaaa_token: "provider-token".to_string(),
        username: String::new(),
        password: String::new(),
        ip_address: Some("10.0.0.1".to_string()),
    }
}

#[test]
fn sso_first_login_provisions_exactly_one_user() {
    let mut svc = test_service();
    let answer = example_iaaa_validate_response();
    assert!(answer.is_success());

    let first = svc.login(&sso_login_request(), Some(&answer), 2000);
    assert!(first.is_ok());
    let resp = first.unwrap();
    let user = resp.user.expect("sso login returns the user");
    assert_eq!(user.username, "2200088888");
    assert_eq!(user.nickname, "Tom");
    assert_eq!(user.login_provider, LoginProvider::Iaaa);
    assert!(user.password.is_none());
    assert_eq!(svc.store.users.len(), 1);

    let answer2 = example_iaaa_validate_response();
    let second = svc.login(&sso_login_request(), Some(&answer2), 2001);
    assert!(second.is_ok());
    assert_eq!(svc.store.users.len(), 1, "no duplicate record for the same external identity");
    assert_eq!(second.unwrap().user.unwrap().id, user.id);
}

#[test]
fn sso_rejected_assertion_fails_closed() {
    let mut svc = test_service();
    let mut answer = example_iaaa_validate_response();
    answer.success = false;
    let r = svc.login(&sso_login_request(), Some(&answer), 2000);
    assert_eq!(r.unwrap_err(), AuthError::Unauthenticated);
    assert_eq!(svc.store.users.len(), 0);
}

#[test]
fn sso_unreachable_provider_fails_closed() {
    let mut svc = test_service();
    let r = svc.login(&sso_login_request(), None, 2000);
    assert_eq!(r.unwrap_err(), AuthError::Unauthenticated);
}

#[test]
fn sso_empty_token_or_address_is_invalid_argument() {
    let mut svc = test_service();
    let answer = example_iaaa_validate_response();

    let mut req = sso_login_request();
    req.iaaa_token = String::new();
    assert_eq!(svc.login(&req, Some(&answer), 1).unwrap_err(), AuthError::InvalidArgument);

    let mut req = sso_login_request();
    req.ip_address = None;
    assert_eq!(svc.login(&req, Some(&answer), 1).unwrap_err(), AuthError::InvalidArgument);

    let mut req = sso_login_request();
    req.ip_address = Some(String::new());
    assert_eq!(svc.login(&req, Some(&answer), 1).unwrap_err(), AuthError::InvalidArgument);
}

#[test]
fn registered_hash_verifies_only_the_registered_password() {
    let mut svc = test_service();
    svc.register(&password_register("bob", "hunter2", "b@x.com"), 1).unwrap();
    let stored = svc.store.users[0].password.clone().expect("password user has a hash");
    assert_ne!(stored, "hunter2", "the stored value is a hash, not the password");
    assert!(holopku::password::verify_password(Some(&stored), "hunter2").unwrap());
    assert!(!holopku::password::verify_password(Some(&stored), "hunter3").unwrap());
}

#[test]
fn missing_stored_hash_is_a_distinct_error() {
    let r = holopku::password::verify_password(None, "pw");
    assert_eq!(r.unwrap_err(), AuthError::Internal);
}

#[test]
fn say_hello() {
    let svc = holopku::hello::HelloService {};
    assert_eq!(svc.say_hello(), "Hello, world!");
}

#[test]
fn malformed_stored_hash_is_a_corrupted_credential() {
    assert_eq!(
        holopku::password::verify_password(Some(&"not-a-bcrypt-hash".to_string()), "pw")
            .unwrap_err(),
        AuthError::Internal
    );

    // a record whose stored credential is unusable fails login with the
    // distinct internal error, never with the plain wrong-password answer
    let store = UserStore {
        users: vec![holopku::store::User {
            id: 1,
            username: "carol".to_string(),
            email: None,
            login_provider: LoginProvider::Password,
            nickname: "carol".to_string(),
            password: Some("garbage".to_string()),
            created_at: 0,
            updated_at: None,
        }],
        next_id: 2,
    };
    let codec = test_codec();
    let r = holopku::password::login_password(&store, &codec, &password_login("carol", "pw"), 10);
    assert_eq!(r.unwrap_err(), AuthError::Internal);
}

#[test]
fn registration_with_a_given_hash_is_owed_success() {
    let mut store = UserStore::new();
    let name = "dora".to_string();
    let email = "d@x.com".to_string();
    let r = holopku::password::register_password_hashed(
        &mut store,
        &name,
        &email,
        "stored-hash".to_string(),
        42,
    );
    let resp = r.expect("a fresh username with a free id must register");
    assert!(resp.success);
    assert_eq!(resp.message, "created success");
    assert_eq!(store.users.len(), 1);
    assert_eq!(store.users[0].password.as_deref(), Some("stored-hash"));

    let again = holopku::password::register_password_hashed(
        &mut store,
        &name,
        &email,
        "other-hash".to_string(),
        43,
    );
    assert_eq!(again.unwrap_err(), AuthError::AlreadyExists);
    assert_eq!(store.users.len(), 1);
}
