use noteauth::errors::{ApiError, ApiErrorCodes, StoreError};
use noteauth::secrets::{ApiKey, ApiKeys};
use noteauth::users::{register, Credentials, LoginError, User, UserStore};

fn creds(u: &str, p: &str) -> Credentials {
    Credentials { username: u.to_string(), password: p.to_string() }
}

#[test]
fn registered_password_verifies_and_others_do_not() {
    let mut store = UserStore::new();
    let u = User::create(&creds("alice", "secret1"), &mut store).unwrap();
    assert_eq!(u.username, "alice");
    assert_ne!(u.pw_hash, "secret1");
    assert_eq!(u.pw_hash.len(), 60);
    assert!(User::verify(&creds("alice", "secret1"), &store));
    assert!(!User::verify(&creds("alice", "secret2"), &store));
    assert!(!User::verify(&creds("bob", "secret1"), &store));
    assert_eq!(store.password_hash("alice"), Some(u.pw_hash.clone()));
    assert_eq!(store.password_hash("bob"), None);
}

#[test]
fn second_create_is_unique_violation() {
    let mut store = UserStore::new();
    assert!(User::create(&creds("dup", "a"), &mut store).is_ok());
    let e = User::create(&creds("dup", "b"), &mut store).unwrap_err();
    assert_eq!(e, StoreError::UniqueViolation);
    assert_eq!(ApiError::from(e).code, ApiErrorCodes::InvalidField);
    assert!(User::verify(&creds("dup", "a"), &store));
    assert!(!User::verify(&creds("dup", "b"), &store));
}

#[test]
fn login_outcomes() {
    let mut store = UserStore::new();
    User::create(&creds("alice", "pw"), &mut store).unwrap();
    let c = User::login_at(&creds("alice", "pw"), &store, 10).unwrap();
    assert_eq!(c.sub, "alice");
    assert_eq!(c.exp, 10 + 86_400);
    assert_eq!(User::login_at(&creds("alice", "no"), &store, 10).unwrap_err(), LoginError::BadRequest);
    assert_eq!(User::login_at(&creds("nobody", "pw"), &store, 10).unwrap_err(), LoginError::BadRequest);
    assert_eq!(User::login_at(&creds("alice", "pw"), &store, i64::MAX).unwrap_err(), LoginError::InternalError);
    assert_eq!(LoginError::BadRequest.status(), 400);
    assert_eq!(LoginError::InternalError.status(), 500);
}

#[test]
fn registration_is_gated_by_api_key() {
    let keys = ApiKeys::parse("apikeys.register=letmein\n");
    let mut store = UserStore::new();
    let e = register(&creds("eve", "pw"), &ApiKey("wrong".to_string()), &keys, &mut store).unwrap_err();
    assert_eq!(e.code, ApiErrorCodes::Forbidden);
    assert_eq!(e.status(), 403);
    assert!(!e.has_body());
    assert!(store.password_hash("eve").is_none());
    let none = ApiKeys::parse("");
    let e = register(&creds("eve", "pw"), &ApiKey("letmein".to_string()), &none, &mut store).unwrap_err();
    assert_eq!(e.code, ApiErrorCodes::Forbidden);
    let e = register(&creds("eve", "pw"), &ApiKey("".to_string()), &keys, &mut store).unwrap_err();
    assert_eq!(e.code, ApiErrorCodes::Forbidden);
    let u = register(&creds("eve", "pw"), &ApiKey("letmein".to_string()), &keys, &mut store).unwrap();
    assert_eq!(u.username, "eve");
    let e = register(&creds("eve", "other"), &ApiKey("letmein".to_string()), &keys, &mut store).unwrap_err();
    assert_eq!(e.code, ApiErrorCodes::InvalidField);
    assert_eq!(e.scope, Some("username".to_string()));
    assert_eq!(e.message, Some("already in use".to_string()));
    assert_eq!(e.status(), 400);
    assert!(e.has_body());
}

#[test]
fn store_errors_map_to_codes() {
    assert_eq!(ApiError::from(StoreError::UniqueViolation).code, ApiErrorCodes::InvalidField);
    let e = ApiError::from(StoreError::Other);
    assert_eq!(e.code, ApiErrorCodes::InternalError);
    assert_eq!(e.status(), 500);
    assert!(e.scope.is_none() && e.message.is_none());
    assert_eq!(ApiError::bare(ApiErrorCodes::Forbidden).status(), 403);
}

#[test]
fn add_user_stores_the_given_hash() {
    let mut store = UserStore::new();
    let u = User::add_user(&creds("zed", "pw"), "h".to_string(), &mut store);
    assert_eq!(u.username, "zed");
    assert_eq!(u.pw_hash, "h");
    assert_eq!(store.password_hash("zed"), Some("h".to_string()));
}
