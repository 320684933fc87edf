use vstd::prelude::*;
use vstd::string::*;
use crate::config::Config;
use crate::models::{Role, User};
use crate::session::{current_time, AuthError};
use crate::token::{issued_token, verify_model, verify_token};

verus! {

pub open spec fn bearer_prefix() -> Seq<char> {
    "Bearer "@
}

/// What the access check gives for an `Authorization` header at time `now`: the
/// header must be `Bearer <token>` and the token must check; the principal
/// then carries the token's subject and role and nothing else. Every refusal
/// is the same `Unauthorized`.
pub open spec fn access_outcome(
    secret: Seq<char>,
    header: Option<Seq<char>>,
    now: u64,
    r: Result<User, AuthError>,
) -> bool {
    let b = bearer_prefix();
    match header {
        None => r == Err::<User, AuthError>(AuthError::Unauthorized),
        Some(h) => if !(b.len() <= h.len() && h.subrange(0, b.len() as int) == b) {
            r == Err::<User, AuthError>(AuthError::Unauthorized)
        } else {
            match verify_model(secret, h.skip(b.len() as int), now) {
                Err(_) => r == Err::<User, AuthError>(AuthError::Unauthorized),
                Ok(c) => {
                    &&& r is Ok
                    &&& r->Ok_0.id == 1
                    &&& r->Ok_0.email@ == c.0
                    &&& r->Ok_0.role == c.1
                    &&& r->Ok_0.first_name@.len() == 0
                    &&& r->Ok_0.last_name@.len() == 0
                    &&& r->Ok_0.password@.len() == 0
                },
            }
        },
    }
}

pub open spec fn header_view(header: Option<&str>) -> Option<Seq<char>> {
    match header {
        None => None,
        Some(h) => Some(h@),
    }
}

/// Turns the `Authorization` header of a request into the principal it
/// proves, at time `now`.
pub fn authorize(config: &Config, header: Option<&str>, now: u64) -> (r: Result<User, AuthError>)
    ensures
        access_outcome(config.jwt_secret@, header_view(header), now, r),
        header is Some ==> forall|sub: Seq<char>, role: Role, exp: u64|
            bearer_prefix().len() <= header->Some_0@.len() && header->Some_0@.subrange(
                0,
                bearer_prefix().len() as int,
            ) == bearer_prefix() && #[trigger] issued_token(
                config.jwt_secret@,
                header->Some_0@.skip(bearer_prefix().len() as int),
                sub,
                role,
                exp,
            ) ==> (r is Ok <==> now < exp) && (r is Ok ==> r->Ok_0.email@ == sub && r->Ok_0.role == role),
{
    let h = match header {
        Some(h) => h,
        None => {
            return Err(AuthError::Unauthorized);
        },
    };
    let bearer = "Bearer ";
    let b = bearer.unicode_len();
    let n = h.unicode_len();
    if b > n || !crate::text::matches_at(h, 0, bearer) {
        return Err(AuthError::Unauthorized);
    }
    let token = h.substring_char(b, n);
    assert(token@ =~= h@.skip(b as int));
    match verify_token(config.jwt_secret.as_str(), token, now) {
        Err(_) => Err(AuthError::Unauthorized),
        Ok(claims) => Ok(
            User {
                id: 1,
                email: claims.sub,
                first_name: String::new(),
                last_name: String::new(),
                password: String::new(),
                role: claims.role,
            },
        ),
    }
}

/// The access check at the current time, by the system clock.
pub fn authorize_now(config: &Config, header: Option<&str>) -> (r: Result<User, AuthError>)
    ensures
        exists|now: u64|
            now <= i64::MAX && #[trigger] access_outcome(config.jwt_secret@, header_view(header), now, r),
{
    let now = current_time();
    let r = authorize(config, header, now);
    assert(access_outcome(config.jwt_secret@, header_view(header), now, r));
    r
}

} // verus!
