use noteauth::auth::{
    accept_claims, create_claims, issue_claims, read_token, AuthError, Bearer, Claims, EXP_TIME,
};

#[test]
fn claims_expire_one_day_after_issue() {
    let c = create_claims("alice", 1_000).unwrap();
    assert_eq!(c.sub, "alice");
    assert_eq!(c.exp, 1_000 + 86_400);
    assert_eq!(EXP_TIME, 86_400);
    assert!(create_claims("alice", i64::MAX - 86_399).is_none());
    assert!(create_claims("alice", i64::MAX - 86_400).is_some());
}

#[test]
fn issued_claims_name_the_user() {
    let c = issue_claims("bob").unwrap();
    assert_eq!(c.sub, "bob");
}

#[test]
fn issued_token_valid_until_expiry() {
    let c = create_claims("alice", 1_000).unwrap();
    let exp = c.exp;
    assert_eq!(accept_claims(Some(Claims { sub: c.sub.clone(), exp }), 1_000), Ok("alice".to_string()));
    assert_eq!(accept_claims(Some(Claims { sub: c.sub.clone(), exp }), exp), Ok("alice".to_string()));
    assert_eq!(accept_claims(Some(Claims { sub: c.sub, exp }), exp + 1), Err(AuthError::Expired));
}

#[test]
fn undecodable_token_is_invalid() {
    assert_eq!(accept_claims(None, 0), Err(AuthError::InvalidToken));
    assert!(matches!(Bearer::from_decoded(None), Err(AuthError::InvalidToken)));
}

#[test]
fn bearer_prefix_is_required() {
    assert_eq!(read_token("Bearer abc.def.ghi"), Ok("abc.def.ghi".to_string()));
    assert_eq!(read_token("bearer abc"), Err(AuthError::MalformedHeader));
    assert_eq!(read_token("abc"), Err(AuthError::MalformedHeader));
    assert_eq!(read_token("Bearer Bearer t"), Ok("Bearer t".to_string()));
}

#[test]
fn bearer_header_must_be_single() {
    assert_eq!(Bearer::token_from_headers(&vec![]), Err(AuthError::MissingHeader));
    let two = vec!["Bearer a".to_string(), "Bearer b".to_string()];
    assert_eq!(Bearer::token_from_headers(&two), Err(AuthError::MissingHeader));
    assert_eq!(Bearer::token_from_headers(&vec!["Bearer t".to_string()]), Ok("t".to_string()));
    assert_eq!(
        Bearer::token_from_headers(&vec!["Token t".to_string()]),
        Err(AuthError::MalformedHeader)
    );
}

#[test]
fn bearer_from_claims_checks_expiry() {
    let b = Bearer::from_claims(Some(Claims { sub: "carol".to_string(), exp: 50 }), 50).unwrap();
    assert_eq!(b.0, "carol");
    assert!(matches!(
        Bearer::from_claims(Some(Claims { sub: "carol".to_string(), exp: 50 }), 51),
        Err(AuthError::Expired)
    ));
}

#[test]
fn issued_claims_expire_a_day_from_now() {
    let before = std::time::SystemTime::now().duration_since(std::time::UNIX_EPOCH).unwrap().as_secs() as i64;
    let c = issue_claims("dora").unwrap();
    let after = std::time::SystemTime::now().duration_since(std::time::UNIX_EPOCH).unwrap().as_secs() as i64;
    assert!(c.exp >= before + EXP_TIME && c.exp <= after + EXP_TIME);
}
