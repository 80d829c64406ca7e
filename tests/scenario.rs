use noteauth::auth::Bearer;
use noteauth::notes::{create, get_note, NoteForInsert, NoteStore};
use noteauth::secrets::{ApiKey, ApiKeys};
use noteauth::users::{register, Credentials, LoginError, User, UserStore};

#[test]
fn register_login_and_scoped_note() {
    let keys = ApiKeys::parse("apikeys.register=k\n");
    let mut users = UserStore::new();
    let mut notes = NoteStore::new();
    let alice = Credentials { username: "alice".to_string(), password: "secret1".to_string() };
    let u = register(&alice, &ApiKey::from_headers(&vec!["ApiKey k".to_string()]).unwrap(), &keys, &mut users).unwrap();
    assert_eq!(u.username, "alice");
    let claims = User::login(&alice, &users).unwrap();
    assert_eq!(claims.sub, "alice");
    assert!(claims.exp > 0);
    let wrong = Credentials { username: "alice".to_string(), password: "wrong".to_string() };
    let e = User::login(&wrong, &users).unwrap_err();
    assert_eq!(e, LoginError::BadRequest);
    assert_eq!(e.status(), 400);
    let me = Bearer::from_claims(Some(claims), 0).unwrap();
    let n = create(
        NoteForInsert { title: Some("t".to_string()), creator: String::new(), content: "c".to_string() },
        &me,
        &mut notes,
    )
    .unwrap();
    assert_eq!(n.creator, "alice");
    assert!(get_note(n.id, &Bearer("bob".to_string()), &notes).is_none());
}
