//! Bearer-token authentication of API requests.
use vstd::prelude::*;

use crate::text::{owned, same_text, starts_with, strip_prefix};

verus! {

/// The token of an `Authorization` header value of the form `Bearer <token>`.
pub open spec fn bearer_token(header: Seq<char>) -> Option<Seq<char>> {
    if starts_with(header, "Bearer "@) {
        Some(header.skip("Bearer "@.len() as int))
    } else {
        None
    }
}

/// The token of the `Authorization` header, if the header is present,
/// readable as text and of the form `Bearer <token>`.
pub fn extract_bearer(header: Option<&str>) -> (r: Option<String>)
    ensures
        match header {
            Some(h) => match bearer_token(h@) {
                Some(t) => r matches Some(s) && s@ == t,
                None => r is None,
            },
            None => r is None,
        },
{
    match header {
        Some(h) => strip_prefix(h, "Bearer "),
        None => None,
    }
}

/// A request is let through exactly when its bearer token is the
/// configured token.
pub fn bearer_authorized(header: Option<&str>, api_token: &str) -> (r: bool)
    ensures
        r == (header matches Some(h) && bearer_token(h@) == Some(api_token@)),
{
    match extract_bearer(header) {
        Some(t) => same_text(t.as_str(), api_token),
        None => false,
    }
}

/// The error text of a refused request.
pub fn unauthorized_message() -> (r: String)
    ensures
        r@ == "unauthorized"@,
{
    owned("unauthorized")
}

} // verus!
