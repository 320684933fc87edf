use vstd::prelude::*;
use vstd::string::*;
use crate::codec::{
    b64url_decode_text, b64url_encode, b64url_of, b64url_text_decoding_of, hs256_sign,
    hs256_signature_of, hs256_verify, json_quote, json_quoted_of, json_str_member,
    json_str_member_of, json_u64_member, json_u64_member_of, no_dot, url_safe,
};
use crate::models::Role;
use crate::text::{
    decimal_of, push_decimal,
};

verus! {

/// Why a token was refused.
#[derive(Debug, Clone, Copy, PartialEq, Eq, Structural)]
pub enum TokenError {
    /// The token does not decode into the expected shape.
    Malformed,
    /// The signature is not the one the secret gives.
    InvalidSignature,
    /// The expiry is not after the time of the check.
    Expired,
}

/// The claims a session token carries.
#[derive(Debug, Clone)]
pub struct Claims {
    pub sub: String,
    pub role: Role,
    pub exp: u64,
}

/// What a check of a token yields, over plain values.
pub type ClaimsView = (Seq<char>, Role, u64);

impl Claims {
    pub open spec fn view(&self) -> ClaimsView {
        (self.sub@, self.role, self.exp)
    }
}

pub open spec fn header_text() -> Seq<char> {
    "{\"typ\":\"JWT\",\"alg\":\"HS256\"}"@
}

pub open spec fn sub_field() -> Seq<char> {
    "{\"sub\":"@
}

pub open spec fn role_field(role: Role) -> Seq<char> {
    match role {
        Role::Admin => ",\"role\":\"Admin\",\"exp\":"@,
        Role::User => ",\"role\":\"User\",\"exp\":"@,
    }
}

/// The JSON text of the claims, keys in the order `sub`, `role`, `exp`:
/// `{"sub":<string>,"role":"<role>","exp":<n>}`.
pub open spec fn payload_of(sub: Seq<char>, role: Role, exp: u64) -> Seq<char> {
    sub_field() + json_quoted_of(sub) + role_field(role) + decimal_of(exp as nat) + seq!['}']
}

/// The encoded header and payload, the text that the signature covers.
pub open spec fn signing_input_of(sub: Seq<char>, role: Role, exp: u64) -> Seq<char> {
    b64url_of(header_text()) + seq!['.'] + b64url_of(payload_of(sub, role, exp))
}

/// The compact token: header, payload and signature, joined by dots.
pub open spec fn token_of(secret: Seq<char>, sub: Seq<char>, role: Role, exp: u64) -> Seq<char> {
    signing_input_of(sub, role, exp) + seq!['.'] + hs256_signature_of(
        secret,
        signing_input_of(sub, role, exp),
    )
}

/// `t` is the token issued under `secret` for these claims, each of its three
/// parts non-empty and written in the URL-safe base64 alphabet.
pub open spec fn issued_token(
    secret: Seq<char>,
    t: Seq<char>,
    sub: Seq<char>,
    role: Role,
    exp: u64,
) -> bool {
    &&& t == token_of(secret, sub, role, exp)
    &&& url_safe(b64url_of(header_text())) && b64url_of(header_text()).len() > 0
    &&& url_safe(b64url_of(payload_of(sub, role, exp))) && b64url_of(payload_of(sub, role, exp)).len() > 0
    &&& url_safe(hs256_signature_of(secret, signing_input_of(sub, role, exp)))
    &&& hs256_signature_of(secret, signing_input_of(sub, role, exp)).len() == 43
}

/// The first position at or after `from` that holds `c`, or -1.
pub open spec fn find_from(s: Seq<char>, from: int, c: char) -> int
    decreases s.len() - from,
{
    if from < 0 || from >= s.len() {
        -1
    } else if s[from] == c {
        from
    } else {
        find_from(s, from + 1, c)
    }
}

/// The text of a role in the claims.
pub open spec fn role_name(role: Role) -> Seq<char> {
    match role {
        Role::Admin => "Admin"@,
        Role::User => "User"@,
    }
}

/// The claims that a payload text holds: it must be a JSON object whose
/// `sub` is a string, whose `role` is the string `Admin` or `User`, and whose
/// `exp` is an integer from 0 to `u64::MAX`. Key order, spacing and other
/// keys do not matter.
pub open spec fn parse_payload(t: Seq<char>) -> Option<ClaimsView> {
    match (json_str_member_of(t, "sub"@), json_str_member_of(t, "role"@), json_u64_member_of(t, "exp"@)) {
        (Some(sub), Some(r), Some(exp)) => if r == role_name(Role::Admin) {
            Some((sub, Role::Admin, exp))
        } else if r == role_name(Role::User) {
            Some((sub, Role::User, exp))
        } else {
            None
        },
        _ => None,
    }
}

/// The header must be a JSON object that declares the algorithm HS256.
pub open spec fn header_ok(h: Seq<char>) -> bool {
    json_str_member_of(h, "alg"@) == Some("HS256"@)
}

/// What checking `t` under `secret` at time `now` yields: the three parts are
/// split at the dots, the signature is checked first, then the header must be
/// the HS256 one, then the payload must parse and not have expired.
pub open spec fn verify_model(secret: Seq<char>, t: Seq<char>, now: u64) -> Result<ClaimsView, TokenError> {
    let i = find_from(t, 0, '.');
    let j = find_from(t, i + 1, '.');
    if i < 0 || j < 0 || find_from(t, j + 1, '.') >= 0 {
        Err(TokenError::Malformed)
    } else if t.subrange(j + 1, t.len() as int) != hs256_signature_of(secret, t.subrange(0, j)) {
        Err(TokenError::InvalidSignature)
    } else if !(b64url_text_decoding_of(t.subrange(0, i)) matches Some(h) && header_ok(h)) {
        Err(TokenError::Malformed)
    } else {
        match b64url_text_decoding_of(t.subrange(i + 1, j)) {
            None => Err(TokenError::Malformed),
            Some(pt) => match parse_payload(pt) {
                None => Err(TokenError::Malformed),
                Some(c) => if c.2 <= now {
                    Err(TokenError::Expired)
                } else {
                    Ok(c)
                },
            },
        }
    }
}

/// Where a position at or after `from` holds `c`, and none before it does,
/// the search finds it.
proof fn lemma_find_at(s: Seq<char>, from: int, at: int, c: char)
    requires
        0 <= from <= at < s.len(),
        s[at] == c,
        forall|k: int| from <= k < at ==> s[k] != c,
    ensures
        find_from(s, from, c) == at,
    decreases at - from,
{
    if from < at {
        lemma_find_at(s, from + 1, at, c);
    }
}

proof fn lemma_find_none(s: Seq<char>, from: int, c: char)
    requires
        0 <= from <= s.len(),
        forall|k: int| from <= k < s.len() ==> s[k] != c,
    ensures
        find_from(s, from, c) == -1,
    decreases s.len() - from,
{
    if from < s.len() {
        lemma_find_none(s, from + 1, c);
    }
}

/// Where some position at or after `from` holds `c`, the search finds one no
/// later than it.
proof fn lemma_find_some(s: Seq<char>, from: int, at: int, c: char)
    requires
        0 <= from <= at < s.len(),
        s[at] == c,
    ensures
        from <= find_from(s, from, c) <= at,
    decreases at - from,
{
    if from < at && s[from] != c {
        lemma_find_some(s, from + 1, at, c);
    }
}

/// How `verify_model` splits an issued token.
pub open spec fn token_shape(secret: Seq<char>, t: Seq<char>, sub: Seq<char>, role: Role, exp: u64) -> bool {
    let h = b64url_of(header_text());
    let b = b64url_of(payload_of(sub, role, exp));
    let i = h.len() as int;
    let j = i + 1 + b.len();
    &&& find_from(t, 0, '.') == i
    &&& find_from(t, i + 1, '.') == j
    &&& find_from(t, j + 1, '.') == -1
    &&& t.subrange(0, i) == h
    &&& t.subrange(i + 1, j) == b
    &&& t.subrange(0, j) == signing_input_of(sub, role, exp)
    &&& t.subrange(j + 1, t.len() as int) == hs256_signature_of(secret, signing_input_of(sub, role, exp))
}

proof fn lemma_token_shape(secret: Seq<char>, t: Seq<char>, sub: Seq<char>, role: Role, exp: u64)
    requires
        issued_token(secret, t, sub, role, exp),
    ensures
        token_shape(secret, t, sub, role, exp),
{
    let h = b64url_of(header_text());
    let b = b64url_of(payload_of(sub, role, exp));
    let g = hs256_signature_of(secret, signing_input_of(sub, role, exp));
    let i = h.len() as int;
    let j = i + 1 + b.len();
    assert(t =~= h + seq!['.'] + b + seq!['.'] + g);
    assert forall|k: int| 0 <= k < i implies t[k] != '.' by {
        assert(t[k] == h[k]);
    }
    lemma_find_at(t, 0, i, '.');
    assert forall|k: int| i + 1 <= k < j implies t[k] != '.' by {
        assert(t[k] == b[k - i - 1]);
    }
    lemma_find_at(t, i + 1, j, '.');
    assert forall|k: int| j + 1 <= k < t.len() implies t[k] != '.' by {
        assert(t[k] == g[k - j - 1]);
    }
    lemma_find_none(t, j + 1, '.');
    assert(t.subrange(0, i) =~= h);
    assert(t.subrange(i + 1, j) =~= b);
    assert(t.subrange(0, j) =~= signing_input_of(sub, role, exp));
    assert(t.subrange(j + 1, t.len() as int) =~= g);
}

/// The first position at or after `from` where `s` holds `c`.
fn find_char(s: &str, from: usize, c: char) -> (r: Option<usize>)
    requires
        from <= s@.len(),
    ensures
        match r {
            Some(k) => find_from(s@, from as int, c) == k && from <= k < s@.len(),
            None => find_from(s@, from as int, c) == -1,
        },
{
    let n = s.unicode_len();
    let mut i: usize = from;
    while i < n
        invariant
            from <= i <= n,
            n == s@.len(),
            find_from(s@, from as int, c) == find_from(s@, i as int, c),
        decreases n - i,
    {
        if s.get_char(i) == c {
            return Some(i);
        }
        i = i + 1;
    }
    None
}

fn role_field_str(role: Role) -> (r: &'static str)
    ensures
        r@ == role_field(role),
{
    match role {
        Role::Admin => ",\"role\":\"Admin\",\"exp\":",
        Role::User => ",\"role\":\"User\",\"exp\":",
    }
}

/// The JSON text of the claims.
pub fn payload_text(sub: &str, role: Role, exp: u64) -> (r: String)
    ensures
        r@ == payload_of(sub@, role, exp),
{
    let mut out = String::from_str("{\"sub\":");
    let q = match json_quote(sub) {
        Ok(q) => q,
        Err(_) => String::new(),
    };
    out.append(q.as_str());
    out.append(role_field_str(role));
    push_decimal(&mut out, exp);
    proof {
        reveal_strlit("}");
    }
    out.append("}");
    assert(out@ =~= payload_of(sub@, role, exp));
    out
}

/// Reads the claims that a payload text holds.
pub fn parse_claims_text(t: &str) -> (r: Option<Claims>)
    ensures
        match r {
            Some(c) => parse_payload(t@) == Some(c@),
            None => parse_payload(t@) is None,
        },
        forall|sub: Seq<char>, role: Role, exp: u64|
            t@ == #[trigger] payload_of(sub, role, exp) ==> r is Some && r->Some_0@ == (sub, role, exp),
{
    let sub = json_str_member(t, "sub");
    let role_text = json_str_member(t, "role");
    let exp = json_u64_member(t, "exp");
    proof {
        reveal_strlit("Admin");
        reveal_strlit("User");
        assert("Admin"@ != "User"@) by {
            assert("Admin"@.len() != "User"@.len());
        }
        assert forall|s: Seq<char>, ro: Role, e: u64| t@ == #[trigger] payload_of(s, ro, e) implies sub
            is Some && sub->Some_0@ == s && role_text is Some && role_text->Some_0@ == role_name(ro)
            && exp == Some(e) by {}
    }
    match (sub, role_text, exp) {
        (Some(sub), Some(role_text), Some(exp)) => {
            if role_text == String::from_str("Admin") {
                Some(Claims { sub, role: Role::Admin, exp })
            } else if role_text == String::from_str("User") {
                Some(Claims { sub, role: Role::User, exp })
            } else {
                None
            }
        },
        _ => None,
    }
}

/// The token for these claims, signed with `secret`.
pub fn encode_claims(secret: &str, sub: &str, role: Role, exp: u64) -> (r: String)
    ensures
        issued_token(secret@, r@, sub@, role, exp),
{
    let payload = payload_text(sub, role, exp);
    let mut input = b64url_encode("{\"typ\":\"JWT\",\"alg\":\"HS256\"}");
    let ghost h = input@;
    proof {
        reveal_strlit(".");
    }
    input.append(".");
    let encoded = b64url_encode(payload.as_str());
    input.append(encoded.as_str());
    assert(input@ =~= signing_input_of(sub@, role, exp));
    let sig = match hs256_sign(secret, input.as_str()) {
        Ok(s) => s,
        Err(_) => String::new(),
    };
    input.append(".");
    input.append(sig.as_str());
    assert(input@ =~= token_of(secret@, sub@, role, exp));
    proof {
        reveal_strlit("{\"typ\":\"JWT\",\"alg\":\"HS256\"}");
    }
    assert(payload@.len() > 0);
    input
}

/// Checks a token under `secret` at time `now` and gives its claims.
pub fn verify_token(secret: &str, token: &str, now: u64) -> (r: Result<Claims, TokenError>)
    ensures
        match r {
            Ok(c) => verify_model(secret@, token@, now) == Ok::<ClaimsView, TokenError>(c@),
            Err(e) => verify_model(secret@, token@, now) == Err::<ClaimsView, TokenError>(e),
        },
        forall|sub: Seq<char>, role: Role, exp: u64|
            #[trigger] issued_token(secret@, token@, sub, role, exp) ==> match r {
                Ok(c) => now < exp && c@ == (sub, role, exp),
                Err(e) => exp <= now && e == TokenError::Expired,
            },
{
    proof {
        assert forall|sub: Seq<char>, role: Role, exp: u64|
            #[trigger] issued_token(secret@, token@, sub, role, exp) implies token_shape(
            secret@,
            token@,
            sub,
            role,
            exp,
        ) by {
            lemma_token_shape(secret@, token@, sub, role, exp);
        }
    }
    let n = token.unicode_len();
    let i = match find_char(token, 0, '.') {
        Some(i) => i,
        None => {
            return Err(TokenError::Malformed);
        },
    };
    let j = match find_char(token, i + 1, '.') {
        Some(j) => j,
        None => {
            return Err(TokenError::Malformed);
        },
    };
    if find_char(token, j + 1, '.').is_some() {
        return Err(TokenError::Malformed);
    }
    let message = token.substring_char(0, j);
    let signature = token.substring_char(j + 1, n);
    let signed = match hs256_verify(signature, message, secret) {
        Ok(b) => b,
        Err(_) => false,
    };
    if !signed {
        return Err(TokenError::InvalidSignature);
    }
    let header = match b64url_decode_text(token.substring_char(0, i)) {
        Some(h) => h,
        None => {
            return Err(TokenError::Malformed);
        },
    };
    let alg = json_str_member(header.as_str(), "alg");
    let pinned = match alg {
        Some(a) => a == String::from_str("HS256"),
        None => false,
    };
    if !pinned {
        return Err(TokenError::Malformed);
    }
    let payload = match b64url_decode_text(token.substring_char(i + 1, j)) {
        Some(p) => p,
        None => {
            return Err(TokenError::Malformed);
        },
    };
    let claims = match parse_claims_text(payload.as_str()) {
        Some(c) => c,
        None => {
            return Err(TokenError::Malformed);
        },
    };
    if claims.exp <= now {
        return Err(TokenError::Expired);
    }
    Ok(claims)
}

/// A token whose signature part was replaced by any other text is refused,
/// as malformed or for its signature, at any time.
pub proof fn lemma_altered_signature_refused(
    secret: Seq<char>,
    t: Seq<char>,
    sub: Seq<char>,
    role: Role,
    exp: u64,
    forged: Seq<char>,
    now: u64,
)
    requires
        issued_token(secret, t, sub, role, exp),
        forged != hs256_signature_of(secret, signing_input_of(sub, role, exp)),
    ensures
        verify_model(secret, signing_input_of(sub, role, exp) + seq!['.'] + forged, now) is Err,
{
    let h = b64url_of(header_text());
    let b = b64url_of(payload_of(sub, role, exp));
    let m = signing_input_of(sub, role, exp);
    let t2 = m + seq!['.'] + forged;
    let i = h.len() as int;
    let j = i + 1 + b.len();
    assert(t2 =~= h + seq!['.'] + b + seq!['.'] + forged);
    assert forall|k: int| 0 <= k < i implies t2[k] != '.' by {
        assert(t2[k] == h[k]);
    }
    lemma_find_at(t2, 0, i, '.');
    assert forall|k: int| i + 1 <= k < j implies t2[k] != '.' by {
        assert(t2[k] == b[k - i - 1]);
    }
    lemma_find_at(t2, i + 1, j, '.');
    if no_dot(forged) {
        assert forall|k: int| j + 1 <= k < t2.len() implies t2[k] != '.' by {
            assert(t2[k] == forged[k - j - 1]);
        }
        lemma_find_none(t2, j + 1, '.');
        assert(t2.subrange(j + 1, t2.len() as int) =~= forged);
        assert(t2.subrange(0, j) =~= m);
    } else {
        let p = choose|p: int| 0 <= p < forged.len() && forged[p] == '.';
        assert(t2[j + 1 + p] == forged[p]);
        lemma_find_some(t2, j + 1, j + 1 + p, '.');
    }
}

/// A token whose payload part was replaced by other text passes only where
/// the original signature is also the signature of the altered header and
/// payload under the same secret.
pub proof fn lemma_altered_payload_needs_same_signature(
    secret: Seq<char>,
    t: Seq<char>,
    sub: Seq<char>,
    role: Role,
    exp: u64,
    forged: Seq<char>,
    now: u64,
)
    requires
        issued_token(secret, t, sub, role, exp),
    ensures
        verify_model(
            secret,
            b64url_of(header_text()) + seq!['.'] + forged + seq!['.'] + hs256_signature_of(
                secret,
                signing_input_of(sub, role, exp),
            ),
            now,
        ) is Ok ==> hs256_signature_of(secret, b64url_of(header_text()) + seq!['.'] + forged)
            == hs256_signature_of(secret, signing_input_of(sub, role, exp)),
{
    let h = b64url_of(header_text());
    let g = hs256_signature_of(secret, signing_input_of(sub, role, exp));
    let t2 = h + seq!['.'] + forged + seq!['.'] + g;
    let i = h.len() as int;
    let d = i + 1 + forged.len();
    assert forall|k: int| 0 <= k < i implies t2[k] != '.' by {
        assert(t2[k] == h[k]);
    }
    lemma_find_at(t2, 0, i, '.');
    if no_dot(forged) {
        assert forall|k: int| i + 1 <= k < d implies t2[k] != '.' by {
            assert(t2[k] == forged[k - i - 1]);
        }
        lemma_find_at(t2, i + 1, d, '.');
        assert forall|k: int| d + 1 <= k < t2.len() implies t2[k] != '.' by {
            assert(t2[k] == g[k - d - 1]);
        }
        lemma_find_none(t2, d + 1, '.');
        assert(t2.subrange(d + 1, t2.len() as int) =~= g);
        assert(t2.subrange(0, d) =~= h + seq!['.'] + forged);
    } else {
        let p = choose|p: int| 0 <= p < forged.len() && forged[p] == '.';
        assert(t2[i + 1 + p] == forged[p]);
        lemma_find_some(t2, i + 1, i + 1 + p, '.');
        let j = find_from(t2, i + 1, '.');
        assert(t2[d] == '.');
        lemma_find_some(t2, j + 1, d, '.');
    }
}

} // verus!
