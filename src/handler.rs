//! Decisions of the request handlers that do not depend on the HTTP layer.
use vstd::prelude::*;
use crate::cache::{cache_error_as_api, CacheError};
use crate::error::ApiError;

verus! {

/// The answer to a user lookup that failed: an absent user is reported as
/// `User does not exist`; any other cache error surfaces as it is.
pub fn user_lookup_error(err: CacheError) -> (r: ApiError)
    ensures
        match err {
            CacheError::NotFound => r matches ApiError::NotFound(m) && m@ == "User does not exist"@,
            _ => cache_error_as_api(err, r),
        },
{
    match err {
        CacheError::NotFound => ApiError::NotFound("User does not exist".to_owned()),
        other => other.into_api_error(),
    }
}

/// The message of the health endpoint.
pub fn health_message() -> (r: &'static str)
    ensures
        r@ == "Hello from rust-backend core!"@,
{
    "Hello from rust-backend core!"
}

} // verus!
