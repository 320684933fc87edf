use vstd::prelude::*;
use vstd::string::*;
use base64::Engine;
use crate::models::Role;
use crate::token::{header_text, payload_of, role_name};

verus! {

#[verifier::external_type_specification]
#[verifier::external_body]
pub struct ExSerdeJsonError(serde_json::Error);

#[verifier::external_type_specification]
#[verifier::external_body]
pub struct ExJwtError(jsonwebtoken::errors::Error);

/// The URL-safe, unpadded base64 text of the UTF-8 bytes of a text.
pub uninterp spec fn b64url_of(text: Seq<char>) -> Seq<char>;

/// The text whose UTF-8 bytes an URL-safe, unpadded base64 text encodes, if any.
pub uninterp spec fn b64url_text_decoding_of(t: Seq<char>) -> Option<Seq<char>>;

/// The JSON string literal that spells a text.
pub uninterp spec fn json_quoted_of(s: Seq<char>) -> Seq<char>;

/// The string member `key` of the JSON object that a text holds, if the text
/// is a JSON object and that member is a string.
pub uninterp spec fn json_str_member_of(text: Seq<char>, key: Seq<char>) -> Option<Seq<char>>;

/// The member `key` of the JSON object that a text holds, if the text is a
/// JSON object and that member is an integer from 0 to `u64::MAX`.
pub uninterp spec fn json_u64_member_of(text: Seq<char>, key: Seq<char>) -> Option<u64>;

/// The base64url HMAC-SHA256 signature of a message under a secret.
pub uninterp spec fn hs256_signature_of(secret: Seq<char>, message: Seq<char>) -> Seq<char>;

/// The characters of the URL-safe base64 alphabet.
pub open spec fn is_b64url_char(c: char) -> bool {
    ('A' <= c && c <= 'Z') || ('a' <= c && c <= 'z') || ('0' <= c && c <= '9') || c == '-' || c == '_'
}

pub open spec fn url_safe(s: Seq<char>) -> bool {
    forall|k: int| 0 <= k < s.len() ==> is_b64url_char(#[trigger] s[k])
}

pub open spec fn no_dot(s: Seq<char>) -> bool {
    forall|k: int| 0 <= k < s.len() ==> #[trigger] s[k] != '.'
}

/// Relies on base64's `URL_SAFE_NO_PAD` engine `encode`: the result is
/// determined by the bytes, is written in the URL-safe alphabet, and is
/// empty only for empty input.
#[verifier::external_body]
pub(crate) fn b64url_encode(text: &str) -> (r: String)
    ensures
        r@ == b64url_of(text@),
        url_safe(r@),
        text@.len() > 0 ==> r@.len() > 0,
{
    base64::engine::general_purpose::URL_SAFE_NO_PAD.encode(text.as_bytes())
}

/// Relies on base64's `URL_SAFE_NO_PAD` engine `decode`, read as UTF-8 by
/// `String::from_utf8`: decoding gives back what encoding was given.
#[verifier::external_body]
pub(crate) fn b64url_decode_text(t: &str) -> (r: Option<String>)
    ensures
        (r is Some) == (b64url_text_decoding_of(t@) is Some),
        r is Some ==> r->Some_0@ == b64url_text_decoding_of(t@)->Some_0,
        forall|x: Seq<char>| t@ == #[trigger] b64url_of(x) ==> r is Some && r->Some_0@ == x,
{
    match base64::engine::general_purpose::URL_SAFE_NO_PAD.decode(t) {
        Ok(bytes) => String::from_utf8(bytes).ok(),
        Err(_) => None,
    }
}

/// Relies on `serde_json::to_string` of a `String`: it writes into memory
/// and does not fail.
#[verifier::external_body]
pub(crate) fn json_quote(s: &str) -> (r: Result<String, serde_json::Error>)
    ensures
        r is Ok,
        r is Ok ==> r->Ok_0@ == json_quoted_of(s@),
{
    serde_json::to_string(s)
}

/// Relies on `serde_json::from_str::<serde_json::Value>`: it reads any JSON
/// text, in any key order and spacing, and gives back each string that
/// `serde_json::to_string` wrote. Here the member `key` of the object is
/// taken where it is a string.
#[verifier::external_body]
pub(crate) fn json_str_member(text: &str, key: &str) -> (r: Option<String>)
    ensures
        (r is Some) == (json_str_member_of(text@, key@) is Some),
        r is Some ==> r->Some_0@ == json_str_member_of(text@, key@)->Some_0,
        text@ == header_text() && key@ == "alg"@ ==> r is Some && r->Some_0@ == "HS256"@,
        forall|sub: Seq<char>, role: Role, exp: u64|
            text@ == #[trigger] payload_of(sub, role, exp) ==> (key@ == "sub"@ ==> r is Some
                && r->Some_0@ == sub) && (key@ == "role"@ ==> r is Some && r->Some_0@ == role_name(
                role,
            )),
{
    match serde_json::from_str::<serde_json::Value>(text) {
        Ok(serde_json::Value::Object(map)) => match map.get(key) {
            Some(serde_json::Value::String(s)) => Some(s.clone()),
            _ => None,
        },
        _ => None,
    }
}

/// Relies on `serde_json::from_str::<serde_json::Value>` and `Value::as_u64`:
/// the member `key` of the object, where it is a non-negative integer that
/// fits in a `u64`; a decimal that `to_string` of a `u64` wrote reads back.
#[verifier::external_body]
pub(crate) fn json_u64_member(text: &str, key: &str) -> (r: Option<u64>)
    ensures
        r == json_u64_member_of(text@, key@),
        forall|sub: Seq<char>, role: Role, exp: u64|
            text@ == #[trigger] payload_of(sub, role, exp) && key@ == "exp"@ ==> r == Some(exp),
{
    match serde_json::from_str::<serde_json::Value>(text) {
        Ok(serde_json::Value::Object(map)) => match map.get(key) {
            Some(v) => v.as_u64(),
            None => None,
        },
        _ => None,
    }
}

/// Relies on `jsonwebtoken::crypto::sign` with `Algorithm::HS256`: it always
/// succeeds and gives the 32-byte HMAC of the message in unpadded base64url,
/// 43 characters of the URL-safe alphabet.
#[verifier::external_body]
pub(crate) fn hs256_sign(secret: &str, message: &str) -> (r: Result<String, jsonwebtoken::errors::Error>)
    ensures
        r is Ok,
        r is Ok ==> r->Ok_0@ == hs256_signature_of(secret@, message@),
        r is Ok ==> url_safe(r->Ok_0@) && r->Ok_0@.len() == 43,
{
    jsonwebtoken::crypto::sign(
        message.as_bytes(),
        &jsonwebtoken::EncodingKey::from_secret(secret.as_bytes()),
        jsonwebtoken::Algorithm::HS256,
    )
}

/// Relies on `jsonwebtoken::crypto::verify` with `Algorithm::HS256`: it signs
/// the message again and compares the two signatures in constant time.
#[verifier::external_body]
pub(crate) fn hs256_verify(signature: &str, message: &str, secret: &str) -> (r: Result<bool, jsonwebtoken::errors::Error>)
    ensures
        r is Ok,
        r is Ok ==> r->Ok_0 == (signature@ == hs256_signature_of(secret@, message@)),
{
    jsonwebtoken::crypto::verify(
        signature,
        message.as_bytes(),
        &jsonwebtoken::DecodingKey::from_secret(secret.as_bytes()),
        jsonwebtoken::Algorithm::HS256,
    )
}

} // verus!
