use vstd::prelude::*;
use base64::Engine;
use crate::text::{
    all_digits, count_leading_digits, digits_value, lemma_leading_digits_bound, parse_digits,
};

verus! {

/// Process-wide settings, read once at start-up and never changed.
#[derive(Debug, Clone)]
pub struct Config {
    /// The salt of every password hash.
    pub jwt_salt: [u8; 16],
    /// The key that signs and checks session tokens.
    pub jwt_secret: String,
    /// How long an issued token stays valid, in seconds.
    pub jwt_expiration_secs: u32,
}

/// Why settings could not be read.
#[derive(Debug, Clone, Copy, PartialEq, Eq, Structural)]
pub enum ConfigError {
    /// The salt is not standard base64.
    SaltNotBase64,
    /// The salt does not decode to exactly 16 bytes.
    SaltLength,
    /// The token lifetime is not a decimal `u32`.
    InvalidExpiration,
}

/// The bytes that a standard, padded base64 text encodes, if any.
pub uninterp spec fn b64_standard_decoding_of(t: Seq<char>) -> Option<Seq<u8>>;

/// Relies on base64's `STANDARD` engine `decode`: the bytes depend on the text alone.
#[verifier::external_body]
fn b64_standard_decode(t: &str) -> (r: Option<Vec<u8>>)
    ensures
        (r is Some) == (b64_standard_decoding_of(t@) is Some),
        r is Some ==> r->Some_0@ == b64_standard_decoding_of(t@)->Some_0,
{
    base64::engine::general_purpose::STANDARD.decode(t).ok()
}

/// The value of a decimal `u32` text: an optional `+`, then one or more digits.
pub open spec fn u32_text_value(s: Seq<char>) -> Option<u32> {
    let d = if s.len() > 0 && s[0] == '+' { s.skip(1) } else { s };
    if d.len() > 0 && all_digits(d) && digits_value(d) <= u32::MAX {
        Some(digits_value(d) as u32)
    } else {
        None
    }
}

/// Reads a decimal `u32`.
pub fn parse_u32(s: &str) -> (r: Option<u32>)
    ensures
        r == u32_text_value(s@),
{
    let len = s.unicode_len();
    let start: usize = if len > 0 && s.get_char(0) == '+' { 1 } else { 0 };
    let ghost d = if s@.len() > 0 && s@[0] == '+' { s@.skip(1) } else { s@ };
    assert(d =~= s@.subrange(start as int, len as int));
    assert(d =~= s@.skip(start as int));
    if start == len {
        return None;
    }
    let n = count_leading_digits(s, start);
    proof {
        lemma_leading_digits_bound(d);
    }
    if start + n != len {
        assert(d[n as int] == s@[start + n]);
        return None;
    }
    assert(all_digits(d));
    match parse_digits(s, start, len) {
        None => None,
        Some(v) => {
            if v > 4294967295 {
                None
            } else {
                Some(v as u32)
            }
        },
    }
}

impl Config {
    /// Builds the settings from their text forms: the salt in standard
    /// base64, the signing secret, and the token lifetime in seconds.
    pub fn from_values(salt_b64: &str, secret: String, expiration: &str) -> (r: Result<Config, ConfigError>)
        ensures
            match b64_standard_decoding_of(salt_b64@) {
                None => r == Err::<Config, ConfigError>(ConfigError::SaltNotBase64),
                Some(b) => if b.len() != 16 {
                    r == Err::<Config, ConfigError>(ConfigError::SaltLength)
                } else {
                    match u32_text_value(expiration@) {
                        None => r == Err::<Config, ConfigError>(ConfigError::InvalidExpiration),
                        Some(v) => r is Ok && r->Ok_0.jwt_salt@ == b && r->Ok_0.jwt_secret == secret
                            && r->Ok_0.jwt_expiration_secs == v,
                    }
                },
            },
    {
        let bytes = match b64_standard_decode(salt_b64) {
            Some(b) => b,
            None => {
                return Err(ConfigError::SaltNotBase64);
            },
        };
        if bytes.len() != 16 {
            return Err(ConfigError::SaltLength);
        }
        let mut salt = [0u8; 16];
        let mut i: usize = 0;
        while i < 16
            invariant
                bytes@.len() == 16,
                i <= 16,
                forall|k: int| 0 <= k < i ==> salt@[k] == bytes@[k],
            decreases 16 - i,
        {
            salt[i] = bytes[i];
            i = i + 1;
        }
        assert(salt@ =~= bytes@);
        let secs = match parse_u32(expiration) {
            Some(v) => v,
            None => {
                return Err(ConfigError::InvalidExpiration);
            },
        };
        Ok(Config { jwt_salt: salt, jwt_secret: secret, jwt_expiration_secs: secs })
    }
}

} // verus!
