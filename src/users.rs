//! Accounts: salted password hashes kept by user name, registration behind
//! the API-key gate, and login.
use vstd::prelude::*;
use crate::auth::{can_issue_at, create_claims, issue_claims, issued_claims, Claims};
use crate::errors::{opt_view, ApiError, ApiErrorCodes, StoreError};
use crate::secrets::{key_accepted, ApiKey, ApiKeys, REGISTER_KEY};

verus! {

#[verifier::external_type_specification]
#[verifier::external_body]
pub struct ExBcryptError(bcrypt::BcryptError);

/// Whether `bcrypt::verify(password, hash)` returns `Ok(true)`.
pub uninterp spec fn bcrypt_verifies(password: Seq<char>, hash: Seq<char>) -> bool;

/// Relies on `bcrypt::hash` at `bcrypt::DEFAULT_COST`: a hash with a fresh
/// random salt, which `bcrypt::verify` accepts for the same password (it
/// recomputes the hash with the salt and cost written into it).
#[verifier::external_body]
fn hash_password(password: &str) -> (r: Result<String, bcrypt::BcryptError>)
    ensures
        r matches Ok(h) ==> bcrypt_verifies(password@, h@),
{
    bcrypt::hash(password, bcrypt::DEFAULT_COST)
}

/// Relies on `bcrypt::verify`: whether `password` hashes to `hash` under the
/// salt and cost that `hash` records; an error for a malformed hash.
#[verifier::external_body]
fn verify_password(password: &str, hash: &str) -> (r: Result<bool, bcrypt::BcryptError>)
    ensures
        (r matches Ok(b) && b) == bcrypt_verifies(password@, hash@),
{
    bcrypt::verify(password, hash)
}

/// A registered account.
#[derive(Debug)]
pub struct User {
    pub username: String,
    pub pw_hash: String,
}

/// A user name and a plaintext password, as presented at registration or
/// login.
pub struct Credentials {
    pub username: String,
    pub password: String,
}

/// The table of accounts.
pub struct UserStore {
    users: Vec<User>,
}

/// The password hash of each user name that rows `u` hold; a later row for
/// a name would win, though `User::create` never adds one.
pub open spec fn users_map(u: Seq<User>) -> Map<Seq<char>, Seq<char>>
    decreases u.len(),
{
    if u.len() == 0 {
        Map::empty()
    } else {
        users_map(u.drop_last()).insert(u.last().username@, u.last().pw_hash@)
    }
}

proof fn lemma_users_prefix(u: Seq<User>, i: int, k: Seq<char>)
    requires
        0 <= i <= u.len(),
        forall|j: int| i <= j < u.len() ==> u[j].username@ != k,
    ensures
        users_map(u).contains_key(k) == users_map(u.take(i)).contains_key(k),
        users_map(u).contains_key(k) ==> users_map(u)[k] == users_map(u.take(i))[k],
    decreases u.len(),
{
    if u.len() > i {
        lemma_users_prefix(u.drop_last(), i, k);
        assert(u.drop_last().take(i) =~= u.take(i));
    } else {
        assert(u.take(i) =~= u);
    }
}

impl View for UserStore {
    type V = Map<Seq<char>, Seq<char>>;

    closed spec fn view(&self) -> Map<Seq<char>, Seq<char>> {
        users_map(self.users@)
    }
}

impl UserStore {
    /// A table with no accounts.
    pub fn new() -> (r: UserStore)
        ensures
            r@ == Map::<Seq<char>, Seq<char>>::empty(),
    {
        UserStore { users: Vec::new() }
    }

    /// The stored password hash of `username`, if it has an account.
    pub fn password_hash(&self, username: &str) -> (r: Option<String>)
        ensures
            match r {
                Some(h) => self@.contains_key(username@) && h@ == self@[username@],
                None => !self@.contains_key(username@),
            },
    {
        let mut i: usize = self.users.len();
        while i > 0
            invariant
                i <= self.users@.len(),
                forall|j: int| i <= j < self.users@.len() ==> self.users@[j].username@ != username@,
            decreases i,
        {
            if crate::text::same_text(self.users[i - 1].username.as_str(), username) {
                proof {
                    lemma_users_prefix(self.users@, i as int, username@);
                    assert(self.users@.take(i as int).drop_last() =~= self.users@.take(i - 1));
                }
                return Some(self.users[i - 1].pw_hash.clone());
            }
            i = i - 1;
        }
        proof {
            lemma_users_prefix(self.users@, 0, username@);
            assert(self.users@.take(0) =~= Seq::<User>::empty());
        }
        None
    }
}

/// Whether `password` is the password of `username` in accounts `m`; an
/// unknown name and a wrong password are alike.
pub open spec fn password_matches(m: Map<Seq<char>, Seq<char>>, username: Seq<char>, password: Seq<char>) -> bool {
    m.contains_key(username) && bcrypt_verifies(password, m[username])
}

/// Why a login was refused.
#[derive(Clone, Copy, Debug, PartialEq, Eq, Structural)]
pub enum LoginError {
    /// Unknown user name or wrong password; the two are not told apart.
    BadRequest,
    /// No token could be issued.
    InternalError,
}

impl LoginError {
    /// The HTTP status this refusal is answered with.
    pub fn status(&self) -> (r: u16)
        ensures
            *self == LoginError::BadRequest ==> r == 400,
            *self == LoginError::InternalError ==> r == 500,
    {
        match self {
            LoginError::BadRequest => 400,
            LoginError::InternalError => 500,
        }
    }
}

impl User {
    /// Stores the name of `creds` with the password hash `hash` and returns
    /// the new account.
    pub fn add_user(creds: &Credentials, hash: String, store: &mut UserStore) -> (u: User)
        requires
            !old(store)@.contains_key(creds.username@),
        ensures
            u.username@ == creds.username@,
            u.pw_hash@ == hash@,
            final(store)@ == old(store)@.insert(creds.username@, hash@),
    {
        let user = User { username: creds.username.clone(), pw_hash: hash.clone() };
        store.users.push(User { username: creds.username.clone(), pw_hash: hash });
        proof {
            assert(store.users@.drop_last() =~= old(store).users@);
        }
        user
    }

    /// Registers `creds`: stores the user name with a salted hash of the
    /// password. A name already taken is refused as a unique-key violation
    /// before any hashing; a hashing failure is an internal error.
    pub fn create(creds: &Credentials, store: &mut UserStore) -> (r: Result<User, StoreError>)
        ensures
            old(store)@.contains_key(creds.username@) ==> r == Err::<User, StoreError>(
                StoreError::UniqueViolation,
            ) && final(store)@ == old(store)@,
            !old(store)@.contains_key(creds.username@) ==> match r {
                Ok(u) => u.username@ == creds.username@ && bcrypt_verifies(
                    creds.password@,
                    u.pw_hash@,
                ) && final(store)@ == old(store)@.insert(u.username@, u.pw_hash@),
                Err(e) => e == StoreError::Other && final(store)@ == old(store)@,
            },
    {
        if store.password_hash(creds.username.as_str()).is_some() {
            return Err(StoreError::UniqueViolation);
        }
        let hash = match hash_password(creds.password.as_str()) {
            Ok(h) => h,
            Err(_) => return Err(StoreError::Other),
        };
        Ok(User::add_user(creds, hash, store))
    }

    /// Whether `creds` name an account and its password.
    pub fn verify(creds: &Credentials, store: &UserStore) -> (r: bool)
        ensures
            r == password_matches(store@, creds.username@, creds.password@),
    {
        match store.password_hash(creds.username.as_str()) {
            Some(h) => match verify_password(creds.password.as_str(), h.as_str()) {
                Ok(b) => b,
                Err(_) => false,
            },
            None => false,
        }
    }

    /// Logs in with `creds` at time `now`: the claims of a fresh token for the
    /// user when the password matches.
    pub fn login_at(creds: &Credentials, store: &UserStore, now: i64) -> (r: Result<Claims, LoginError>)
        ensures
            !password_matches(store@, creds.username@, creds.password@) ==> r == Err::<
                Claims,
                LoginError,
            >(LoginError::BadRequest),
            password_matches(store@, creds.username@, creds.password@) ==> match r {
                Ok(c) => can_issue_at(now) && issued_claims(c, creds.username@, now),
                Err(e) => !can_issue_at(now) && e == LoginError::InternalError,
            },
    {
        if !User::verify(creds, store) {
            return Err(LoginError::BadRequest);
        }
        match create_claims(creds.username.as_str(), now) {
            Some(c) => Ok(c),
            None => Err(LoginError::InternalError),
        }
    }

    /// Logs in with `creds` now.
    pub fn login(creds: &Credentials, store: &UserStore) -> (r: Result<Claims, LoginError>)
        ensures
            !password_matches(store@, creds.username@, creds.password@) ==> r == Err::<
                Claims,
                LoginError,
            >(LoginError::BadRequest),
            password_matches(store@, creds.username@, creds.password@) ==> match r {
                Ok(c) => c.sub@ == creds.username@,
                Err(e) => e == LoginError::InternalError,
            },
    {
        if !User::verify(creds, store) {
            return Err(LoginError::BadRequest);
        }
        match issue_claims(creds.username.as_str()) {
            Some(c) => Ok(c),
            None => Err(LoginError::InternalError),
        }
    }
}

/// Registers `creds` if `api_key` is the provisioned registration key. A
/// missing or wrong key is forbidden and changes nothing; a taken name is an
/// invalid `username` field; a storage failure is internal.
pub fn register(creds: &Credentials, api_key: &ApiKey, keys: &ApiKeys, store: &mut UserStore) -> (r: Result<User, ApiError>)
    ensures
        !key_accepted(keys@, REGISTER_KEY@, api_key.0@) ==> {
            &&& r matches Err(e) && e.code == ApiErrorCodes::Forbidden && e.scope is None
                && e.message is None
            &&& final(store)@ == old(store)@
        },
        key_accepted(keys@, REGISTER_KEY@, api_key.0@) && old(store)@.contains_key(creds.username@)
            ==> {
            &&& r matches Err(e) && e.code == ApiErrorCodes::InvalidField && opt_view(e.scope)
                == Some("username"@) && opt_view(e.message) == Some("already in use"@)
            &&& final(store)@ == old(store)@
        },
        key_accepted(keys@, REGISTER_KEY@, api_key.0@) && !old(store)@.contains_key(creds.username@)
            ==> match r {
            Ok(u) => u.username@ == creds.username@ && bcrypt_verifies(creds.password@, u.pw_hash@)
                && final(store)@ == old(store)@.insert(u.username@, u.pw_hash@),
            Err(e) => e.code == ApiErrorCodes::InternalError && e.scope is None && e.message is None
                && final(store)@ == old(store)@,
        },
{
    if keys.check_api_key(REGISTER_KEY, api_key.0.as_str()).is_err() {
        return Err(ApiError::bare(ApiErrorCodes::Forbidden));
    }
    match User::create(creds, store) {
        Ok(u) => Ok(u),
        Err(e) => {
            let mut err = ApiError::from(e);
            if err.code == ApiErrorCodes::InvalidField {
                err.scope = Some(String::from_str("username"));
                err.message = Some(String::from_str("already in use"));
            }
            Err(err)
        },
    }
}

/// Once a name is registered with a password, that password logs in as
/// that name; any other password logs in exactly when bcrypt accepts it
/// against the stored hash.
pub proof fn lemma_registered_password_verifies(
    m: Map<Seq<char>, Seq<char>>,
    username: Seq<char>,
    password: Seq<char>,
    hash: Seq<char>,
)
    requires
        bcrypt_verifies(password, hash),
    ensures
        password_matches(m.insert(username, hash), username, password),
        forall|other: Seq<char>|
            password_matches(m.insert(username, hash), username, other) == bcrypt_verifies(
                other,
                hash,
            ),
{
}

/// Registering a name that was just registered is refused as a unique-key
/// violation, reported as an invalid field and never as an internal error.
pub proof fn lemma_second_create_is_duplicate(
    m: Map<Seq<char>, Seq<char>>,
    username: Seq<char>,
    hash: Seq<char>,
)
    ensures
        m.insert(username, hash).contains_key(username),
        crate::errors::code_of_store_error(StoreError::UniqueViolation)
            == ApiErrorCodes::InvalidField,
{
}

} // verus!
