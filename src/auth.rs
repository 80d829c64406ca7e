//! Bearer tokens: the claims a token binds, when a decoded token is accepted,
//! and how the token is found in an `Authorization` header.
use vstd::prelude::*;
use crate::text::strip_prefix;

verus! {

/// Prefix of an `Authorization` header that carries a bearer token.
pub const BEARER: &'static str = "Bearer ";

/// How long an issued token stays valid, in seconds (one day).
pub const EXP_TIME: i64 = 86400;

/// What a token says: whose it is and until when (unix seconds) it holds.
#[derive(Debug)]
pub struct Claims {
    pub sub: String,
    pub exp: i64,
}

/// The user a request has proved to be.
#[derive(Debug)]
pub struct Bearer(pub String);

/// Why a bearer credential was not accepted.
#[derive(Clone, Copy, Debug, PartialEq, Eq, Structural)]
pub enum AuthError {
    /// The request did not carry exactly one `Authorization` header.
    MissingHeader,
    /// The header does not start with `Bearer `.
    MalformedHeader,
    /// The token's signature or format is not valid.
    InvalidToken,
    /// The token's expiry lies before the current time.
    Expired,
}

/// Relies on chrono's `Utc::now` and `DateTime::timestamp`: the current time
/// in unix seconds. Nothing is promised of its value.
#[verifier::external_body]
fn now_timestamp() -> (r: i64) {
    chrono::Utc::now().timestamp()
}

/// The claims issued to `user` at time `now`.
pub open spec fn issued_claims(c: Claims, user: Seq<char>, now: i64) -> bool {
    c.sub@ == user && c.exp == now + EXP_TIME
}

/// Whether a token can be issued at time `now`: its expiry must be
/// representable.
pub open spec fn can_issue_at(now: i64) -> bool {
    now <= i64::MAX - EXP_TIME
}

/// The claims of a token for `user` issued at time `now`, valid for
/// `EXP_TIME` seconds.
pub fn create_claims(user: &str, now: i64) -> (r: Option<Claims>)
    ensures
        r is Some <==> can_issue_at(now),
        r matches Some(c) ==> issued_claims(c, user@, now),
{
    if now > i64::MAX - EXP_TIME {
        return None;
    }
    Some(Claims { sub: String::from_str(user), exp: now + EXP_TIME })
}

/// The claims of a token for `user` issued now.
pub fn issue_claims(user: &str) -> (r: Option<Claims>)
    ensures
        r matches Some(c) ==> c.sub@ == user@,
{
    create_claims(user, now_timestamp())
}

/// The outcome of validating a decoded token at time `now`: a token that
/// did not decode is invalid, one whose expiry lies before `now` has expired,
/// any other names its user.
pub open spec fn token_outcome(decoded: Option<Claims>, now: i64) -> Result<Seq<char>, AuthError> {
    match decoded {
        None => Err(AuthError::InvalidToken),
        Some(c) => if c.exp < now {
            Err(AuthError::Expired)
        } else {
            Ok(c.sub@)
        },
    }
}

/// Validates a decoded token at time `now`; `decoded` is `None` when its
/// signature or format did not check out.
pub fn accept_claims(decoded: Option<Claims>, now: i64) -> (r: Result<String, AuthError>)
    ensures
        match r {
            Ok(s) => token_outcome(decoded, now) == Ok::<Seq<char>, AuthError>(s@),
            Err(e) => token_outcome(decoded, now) == Err::<Seq<char>, AuthError>(e),
        },
{
    match decoded {
        None => Err(AuthError::InvalidToken),
        Some(c) => if c.exp < now {
            Err(AuthError::Expired)
        } else {
            Ok(c.sub)
        },
    }
}

/// The encoded token a header value carries: it must start with `Bearer `,
/// which is removed once.
pub open spec fn token_of_header(h: Seq<char>) -> Result<Seq<char>, AuthError> {
    if BEARER@.len() <= h.len() && h.take(BEARER@.len() as int) == BEARER@ {
        Ok(h.skip(BEARER@.len() as int))
    } else {
        Err(AuthError::MalformedHeader)
    }
}

/// The encoded token that an `Authorization` header value carries.
pub fn read_token(bearer: &str) -> (r: Result<String, AuthError>)
    ensures
        match r {
            Ok(t) => token_of_header(bearer@) == Ok::<Seq<char>, AuthError>(t@),
            Err(e) => token_of_header(bearer@) == Err::<Seq<char>, AuthError>(e),
        },
{
    match strip_prefix(bearer, BEARER) {
        Some(t) => Ok(t),
        None => Err(AuthError::MalformedHeader),
    }
}

impl Bearer {
    /// The encoded token that the `Authorization` header values of a request
    /// carry; there must be exactly one such header.
    pub fn token_from_headers(values: &Vec<String>) -> (r: Result<String, AuthError>)
        ensures
            values@.len() != 1 ==> r == Err::<String, AuthError>(AuthError::MissingHeader),
            values@.len() == 1 ==> match r {
                Ok(t) => token_of_header(values@[0]@) == Ok::<Seq<char>, AuthError>(t@),
                Err(e) => token_of_header(values@[0]@) == Err::<Seq<char>, AuthError>(e),
            },
    {
        if values.len() != 1 {
            return Err(AuthError::MissingHeader);
        }
        read_token(values[0].as_str())
    }

    /// The user that a decoded token proves at time `now`.
    pub fn from_claims(decoded: Option<Claims>, now: i64) -> (r: Result<Bearer, AuthError>)
        ensures
            match r {
                Ok(b) => token_outcome(decoded, now) == Ok::<Seq<char>, AuthError>(b.0@),
                Err(e) => token_outcome(decoded, now) == Err::<Seq<char>, AuthError>(e),
            },
    {
        match accept_claims(decoded, now) {
            Ok(user) => Ok(Bearer(user)),
            Err(e) => Err(e),
        }
    }

    /// The user that a decoded token proves now. Whatever the time, a token
    /// that did not decode is refused as invalid, and a user that comes back
    /// is the token's subject.
    pub fn from_decoded(decoded: Option<Claims>) -> (r: Result<Bearer, AuthError>)
        ensures
            decoded is None ==> r == Err::<Bearer, AuthError>(AuthError::InvalidToken),
            r matches Ok(b) ==> decoded matches Some(c) && b.0@ == c.sub@,
            r matches Err(e) ==> e == AuthError::InvalidToken || e == AuthError::Expired,
    {
        Bearer::from_claims(decoded, now_timestamp())
    }
}

/// A token is accepted as its subject from the moment it is issued until its
/// expiry, and refused as expired at any later time.
pub proof fn lemma_issued_claims_validate(c: Claims, user: Seq<char>, issued_at: i64, now: i64)
    requires
        issued_claims(c, user, issued_at),
    ensures
        issued_at <= now <= c.exp ==> token_outcome(Some(c), now) == Ok::<Seq<char>, AuthError>(user),
        now > c.exp ==> token_outcome(Some(c), now) == Err::<Seq<char>, AuthError>(AuthError::Expired),
{
}

/// A token that fails to decode, whatever was done to it, is refused as
/// invalid at every time.
pub proof fn lemma_undecodable_token_refused(now: i64)
    ensures
        token_outcome(None, now) == Err::<Seq<char>, AuthError>(AuthError::InvalidToken),
{
}

} // verus!
