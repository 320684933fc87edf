use vstd::prelude::*;
use vstd::string::*;
use crate::config::Config;
use crate::hasher::{bcrypt_accepts, bcrypt_hash_of, hash_password, verify_password, HASH_COST};
use crate::models::{LoginRequest, LoginResponse, RegisterRequest, RegisterResponse, Role, User};
use crate::token::{encode_claims, issued_token};

verus! {

/// What the request handlers share: the settings and the credential store.
#[derive(Debug, Clone)]
pub struct AppState {
    pub config: Config,
    pub users: Vec<User>,
}

/// The failures that reach a caller.
#[derive(Debug, Clone, Copy, PartialEq, Eq, Structural)]
pub enum AuthError {
    /// Registration input is missing an email or a password.
    BadRequest,
    /// Credentials or a session token were refused.
    Unauthorized,
    /// The password hasher refused its input.
    HashingError,
}

/// `k` is the first record of `users` with this email.
pub open spec fn is_first_match(users: Seq<User>, email: Seq<char>, k: int) -> bool {
    &&& 0 <= k < users.len()
    &&& users[k].email@ == email
    &&& forall|j: int| 0 <= j < k ==> users[j].email@ != email
}

pub open spec fn has_email(users: Seq<User>, email: Seq<char>) -> bool {
    exists|k: int| 0 <= k < users.len() && users[k].email@ == email
}

/// What a login at time `now` gives for a store and a request: the first
/// record with the email must accept the password, and the token then names
/// that record's email and role and expires `ttl` seconds after `now`.
pub open spec fn login_outcome(
    users: Seq<User>,
    secret: Seq<char>,
    ttl: u32,
    email: Seq<char>,
    password: Seq<char>,
    now: u64,
    r: Result<LoginResponse, AuthError>,
) -> bool {
    &&& !has_email(users, email) ==> r == Err::<LoginResponse, AuthError>(AuthError::Unauthorized)
    &&& forall|k: int| #[trigger] is_first_match(users, email, k) ==> if bcrypt_accepts(password, users[k].password@) {
        r is Ok && issued_token(secret, r->Ok_0.token@, users[k].email@, users[k].role, (now + ttl) as u64)
    } else {
        r == Err::<LoginResponse, AuthError>(AuthError::Unauthorized)
    }
}

/// Relies on `chrono::Utc::now().timestamp()`: the current Unix time in
/// seconds. Nothing is promised of its value.
#[verifier::external_body]
fn unix_now() -> (r: i64) {
    chrono::Utc::now().timestamp()
}

/// The current Unix time in seconds.
pub fn current_time() -> (r: u64)
    ensures
        r <= i64::MAX,
{
    let t = unix_now();
    // The clock is never before 1970; the test only keeps the conversion exact.
    if t < 0 {
        0
    } else {
        t as u64
    }
}

/// The position of the first record with this email.
pub fn find_user(users: &Vec<User>, email: &String) -> (r: Option<usize>)
    ensures
        match r {
            Some(k) => is_first_match(users@, email@, k as int),
            None => !has_email(users@, email@),
        },
{
    let mut i: usize = 0;
    while i < users.len()
        invariant
            i <= users@.len(),
            forall|j: int| 0 <= j < i ==> users@[j].email@ != email@,
        decreases users@.len() - i,
    {
        if users[i].email == *email {
            return Some(i);
        }
        i = i + 1;
    }
    None
}

/// Issues the token for a principal, valid from `now` for the configured lifetime.
pub fn issue(config: &Config, sub: &str, role: Role, now: u64) -> (r: String)
    requires
        now + config.jwt_expiration_secs <= u64::MAX,
    ensures
        issued_token(config.jwt_secret@, r@, sub@, role, (now + config.jwt_expiration_secs) as u64),
{
    let exp = now + config.jwt_expiration_secs as u64;
    encode_claims(config.jwt_secret.as_str(), sub, role, exp)
}

/// Logs in at time `now`. An unknown email and a wrong password give the
/// same error.
pub fn login_at(state: &AppState, req: &LoginRequest, now: u64) -> (r: Result<LoginResponse, AuthError>)
    requires
        now + state.config.jwt_expiration_secs <= u64::MAX,
    ensures
        login_outcome(
            state.users@,
            state.config.jwt_secret@,
            state.config.jwt_expiration_secs,
            req.email@,
            req.password@,
            now,
            r,
        ),
{
    let k = match find_user(&state.users, &req.email) {
        Some(k) => k,
        None => {
            // Spend the same hashing work as for a wrong password, so that
            // the time taken does not tell whether the email is known.
            let _ = verify_password(
                req.password.as_str(),
                "$2y$12$.....................................................",
            );
            return Err(AuthError::Unauthorized);
        },
    };
    let user = &state.users[k];
    if !verify_password(req.password.as_str(), user.password.as_str()) {
        return Err(AuthError::Unauthorized);
    }
    let token = issue(&state.config, user.email.as_str(), user.role, now);
    Ok(LoginResponse { token })
}

/// Logs in now, by the system clock.
pub fn login(state: &AppState, req: &LoginRequest) -> (r: Result<LoginResponse, AuthError>)
    ensures
        exists|now: u64|
            now <= i64::MAX && #[trigger] login_outcome(
                state.users@,
                state.config.jwt_secret@,
                state.config.jwt_expiration_secs,
                req.email@,
                req.password@,
                now,
                r,
            ),
{
    let now = current_time();
    let r = login_at(state, req, now);
    assert(login_outcome(
        state.users@,
        state.config.jwt_secret@,
        state.config.jwt_expiration_secs,
        req.email@,
        req.password@,
        now,
        r,
    ));
    r
}

/// Registers a user with role `User`. The store keeps only the password's
/// hash, and the caller gets the record without it.
pub fn register(state: &mut AppState, req: &RegisterRequest) -> (r: Result<RegisterResponse, AuthError>)
    requires
        old(state).users@.len() < u32::MAX,
    ensures
        final(state).config == old(state).config,
        req.email@.len() == 0 || req.password@.len() == 0 ==> r == Err::<RegisterResponse, AuthError>(
            AuthError::BadRequest,
        ) && final(state).users@ == old(state).users@,
        req.email@.len() > 0 && req.password@.len() > 0 ==> {
            let n = old(state).users@.len();
            let u = final(state).users@[n as int];
            &&& r is Ok
            &&& final(state).users@.len() == n + 1
            &&& final(state).users@.subrange(0, n as int) == old(state).users@
            &&& u.id == n + 1
            &&& u.email@ == req.email@
            &&& u.first_name@ == req.first_name@
            &&& u.last_name@ == req.last_name@
            &&& u.password@ == bcrypt_hash_of(req.password@, HASH_COST, old(state).config.jwt_salt@)
            &&& req.password@.len() != 60 ==> u.password@ != req.password@
            &&& u.role == Role::User
            &&& r->Ok_0.id == u.id
            &&& r->Ok_0.email@ == u.email@
            &&& r->Ok_0.first_name@ == u.first_name@
            &&& r->Ok_0.last_name@ == u.last_name@
            &&& r->Ok_0.password@.len() == 0
            &&& bcrypt_accepts(req.password@, u.password@)
        },
{
    if req.email.as_str().is_empty() || req.password.as_str().is_empty() {
        return Err(AuthError::BadRequest);
    }
    let hashed = match hash_password(req.password.as_str(), HASH_COST, state.config.jwt_salt) {
        Ok(h) => h,
        Err(_) => {
            return Err(AuthError::HashingError);
        },
    };
    let id = state.users.len() as u32 + 1;
    let user = User {
        id,
        email: req.email.clone(),
        first_name: req.first_name.clone(),
        last_name: req.last_name.clone(),
        password: hashed,
        role: Role::User,
    };
    let response = RegisterResponse {
        id,
        first_name: user.first_name.clone(),
        last_name: user.last_name.clone(),
        email: user.email.clone(),
        password: String::new(),
    };
    let ghost before = state.users@;
    state.users.push(user);
    assert(state.users@.subrange(0, before.len() as int) =~= before);
    Ok(response)
}

/// A login with an unknown email and a login with a known email but a wrong
/// password are refused alike: both give `Unauthorized` and nothing else.
pub proof fn lemma_login_refusals_alike(
    users: Seq<User>,
    secret: Seq<char>,
    ttl: u32,
    unknown_email: Seq<char>,
    any_password: Seq<char>,
    known_email: Seq<char>,
    wrong_password: Seq<char>,
    now: u64,
    r1: Result<LoginResponse, AuthError>,
    r2: Result<LoginResponse, AuthError>,
)
    requires
        login_outcome(users, secret, ttl, unknown_email, any_password, now, r1),
        login_outcome(users, secret, ttl, known_email, wrong_password, now, r2),
        !has_email(users, unknown_email),
        forall|k: int| #[trigger] is_first_match(users, known_email, k)
            ==> !bcrypt_accepts(wrong_password, users[k].password@),
        has_email(users, known_email),
    ensures
        r1 == r2,
        r1 == Err::<LoginResponse, AuthError>(AuthError::Unauthorized),
{
    let k0 = choose|k: int| 0 <= k < users.len() && users[k].email@ == known_email;
    lemma_first_match_exists(users, known_email, k0);
    let k = choose|k: int| is_first_match(users, known_email, k);
    assert(is_first_match(users, known_email, k));
}

/// Where some record has the email, a first one does.
proof fn lemma_first_match_exists(users: Seq<User>, email: Seq<char>, k: int)
    requires
        0 <= k < users.len(),
        users[k].email@ == email,
    ensures
        exists|m: int| is_first_match(users, email, m),
    decreases k,
{
    if forall|j: int| 0 <= j < k ==> users[j].email@ != email {
        assert(is_first_match(users, email, k));
    } else {
        let j = choose|j: int| 0 <= j < k && users[j].email@ == email;
        lemma_first_match_exists(users, email, j);
    }
}

} // verus!
