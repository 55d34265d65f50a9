//! The OAuth sign-in flow's own rules.
use vstd::prelude::*;
use vstd::string::StringExecFns;
use crate::extractor::{starts_with, strip_prefix};

verus! {

/// The query of the provider's redirect back to the callback.
pub struct QueryAxumCallback {
    pub code: String,
    pub state: String,
}

/// Seconds for which the PKCE verifier is kept under its `state`.
pub const PKCE_STATE_TTL_SECS: u64 = 300;

/// A local host is reached over plain HTTP.
pub open spec fn is_local_host(host: Seq<char>) -> bool {
    starts_with(host, "localhost"@) || starts_with(host, "127.0.0.1"@)
}

/// The redirect URL that the provider is given for a host:
/// `<scheme>://<host>/api/v1/auth/callback`, with `http` for a local host
/// and `https` otherwise.
pub fn callback_url(hostname: &str) -> (r: String)
    ensures
        r@ == (if is_local_host(hostname@) { "http"@ } else { "https"@ }) + "://"@ + hostname@
            + "/api/v1/auth/callback"@,
{
    let local = strip_prefix(hostname, "localhost").is_some() || strip_prefix(hostname, "127.0.0.1").is_some();
    let mut url = if local {
        "http".to_owned()
    } else {
        "https".to_owned()
    };
    url.append("://");
    url.append(hostname);
    url.append("/api/v1/auth/callback");
    url
}

} // verus!
