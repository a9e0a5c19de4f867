use base64::Engine;
use rand::RngCore;
use sha2::Digest;
use vstd::prelude::*;

use crate::error::ApiError;
use crate::text::{contains_char, lowercase_of, starts_with, strip_prefix, to_lowercase, trim, trimmed_of};

verus! {

/// The scheme word that precedes a session token in an `Authorization` header.
pub open spec fn bearer_prefix() -> Seq<char> {
    "Bearer "@
}

/// The credential carried by an `Authorization` header value, if well formed.
pub open spec fn bearer_token_of(header: Option<Seq<char>>) -> Option<Seq<char>> {
    match header {
        Some(h) => if starts_with(h, bearer_prefix()) {
            Some(h.subrange(bearer_prefix().len() as int, h.len() as int))
        } else {
            None
        },
        None => None,
    }
}

/// Extracts the token of a `Bearer <token>` header value; an absent or
/// malformed header is unauthorized.
pub fn extract_bearer_token(authorization: Option<&str>) -> (r: Result<&str, ApiError>)
    ensures
        match bearer_token_of(
            match authorization {
                Some(h) => Some(h@),
                None => None,
            },
        ) {
            Some(t) => r matches Ok(s) && s@ == t,
            None => r == Err::<&str, ApiError>(ApiError::Unauthorized),
        },
{
    match authorization {
        None => Err(ApiError::Unauthorized),
        Some(h) => {
            let stripped = strip_prefix(h, "Bearer ");
            proof {
                reveal_strlit("Bearer ");
            }
            match stripped {
                Some(t) => {
                    assert(h@.subrange(7, h@.len() as int) =~= t@);
                    Ok(t)
                },
                None => Err(ApiError::Unauthorized),
            }
        },
    }
}

/// An email address in the form in which it is stored: trimmed, then lower-cased.
pub open spec fn normal_email(raw: Seq<char>) -> Seq<char> {
    lowercase_of(trimmed_of(raw))
}

/// What email normalisation reports for an already trimmed and lower-cased
/// address: it must be non-empty and hold an `@`.
pub open spec fn email_result(e: Seq<char>) -> Result<Seq<char>, ApiError> {
    if e.len() == 0 || !e.contains('@') {
        Err(ApiError::Validation)
    } else {
        Ok(e)
    }
}

/// Checks an already trimmed and lower-cased email address.
pub fn check_normal_email(e: String) -> (r: Result<String, ApiError>)
    ensures
        match email_result(e@) {
            Ok(s) => r matches Ok(t) && t@ == s,
            Err(x) => r == Err::<String, ApiError>(x),
        },
{
    if e.as_str().is_empty() || !contains_char(e.as_str(), '@') {
        Err(ApiError::Validation)
    } else {
        Ok(e)
    }
}

/// Trims and lower-cases an email address, rejecting an empty one or one
/// without `@`.
pub fn normalize_email(raw: &str) -> (r: Result<String, ApiError>)
    ensures
        match email_result(normal_email(raw@)) {
            Ok(s) => r matches Ok(t) && t@ == s,
            Err(x) => r == Err::<String, ApiError>(x),
        },
{
    check_normal_email(to_lowercase(trim(raw)))
}

/// The text that base64's URL-safe engine without padding makes of `bytes`.
pub uninterp spec fn base64_url_of(bytes: Seq<u8>) -> Seq<char>;

/// Relies on base64's `URL_SAFE_NO_PAD.encode` (and `encoded_len` without
/// padding: four characters per three bytes, rounded up); its buffer size
/// must fit in `usize`.
#[verifier::external_body]
fn encode_url_safe(bytes: &[u8]) -> (r: String)
    requires
        bytes@.len() <= usize::MAX / 4,
    ensures
        r@ == base64_url_of(bytes@),
        r@.len() == (4 * bytes@.len() + 2) / 3,
{
    base64::engine::general_purpose::URL_SAFE_NO_PAD.encode(bytes)
}

/// Relies on rand's `OsRng::try_fill_bytes`: `n` bytes from the operating
/// system's generator, or `None` where it reports an error.
#[verifier::external_body]
fn os_random_bytes(n: usize) -> (r: Option<Vec<u8>>)
    ensures
        r matches Some(b) ==> b@.len() == n,
{
    let mut bytes = vec![0u8; n];
    match rand::rngs::OsRng.try_fill_bytes(&mut bytes) {
        Ok(()) => Some(bytes),
        Err(_) => None,
    }
}

/// A fresh secret: `n_bytes` random bytes in URL-safe base64.
pub fn random_token(n_bytes: usize) -> (r: Result<String, ApiError>)
    requires
        n_bytes <= usize::MAX / 4,
    ensures
        r matches Ok(t) ==> exists|b: Seq<u8>| b.len() == n_bytes && t@ == base64_url_of(b),
        r matches Ok(t) ==> t@.len() == (4 * n_bytes + 2) / 3,
        r is Err ==> r == Err::<String, ApiError>(ApiError::Internal),
{
    match os_random_bytes(n_bytes) {
        Some(bytes) => Ok(encode_url_safe(bytes.as_slice())),
        None => Err(ApiError::Internal),
    }
}

/// The lower-case hex SHA-256 digest of the UTF-8 text `s`.
pub uninterp spec fn sha256_hex_of(s: Seq<char>) -> Seq<char>;

/// Relies on sha2's `Sha256` and the `LowerHex` form of its digest.
#[verifier::external_body]
pub(crate) fn sha256_hex(value: &str) -> (r: String)
    ensures
        r@ == sha256_hex_of(value@),
{
    let mut hasher = sha2::Sha256::new();
    hasher.update(value.as_bytes());
    format!("{:x}", hasher.finalize())
}

} // verus!
