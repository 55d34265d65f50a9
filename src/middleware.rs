//! The decisions of the request guards: the client-clock freshness check and
//! the init-data authenticity check. The HTTP layer hands them header values
//! and the current time, and acts on the verdict.
use vstd::prelude::*;
use vstd::string::StringSliceAdditionalSpecFns;
use vstd::utf8::{decode_utf8, encode_utf8, valid_utf8};
use crate::bytes::{parse_u64, parse_u64_spec};
use crate::error::ApiError;
use crate::validator::{init_data_verdict, validate_init_data};

verus! {

/// Largest drift, in seconds, between the client's `x-timestamp` and now.
pub const MAX_TIME_DIFF: u64 = 30;

pub open spec fn abs_diff(a: u64, b: u64) -> int {
    if a >= b {
        a - b
    } else {
        b - a
    }
}

/// What the freshness guard decides for a request.
pub open spec fn timestamp_verdict(is_preflight: bool, header: Option<Seq<u8>>, now: u64) -> Result<(), ApiError> {
    if is_preflight {
        Ok(())
    } else {
        match header {
            None => Err(ApiError::BadRequest),
            Some(h) => match parse_u64_spec(h) {
                None => Err(ApiError::BadRequest),
                Some(ts) => if abs_diff(now, ts) > MAX_TIME_DIFF {
                    Err(ApiError::Forbidden)
                } else {
                    Ok(())
                },
            },
        }
    }
}

/// The freshness guard: a preflight (`OPTIONS`) request passes; otherwise the
/// `x-timestamp` header must hold Unix seconds within `MAX_TIME_DIFF` of
/// `now`. A missing or malformed header is a bad request, a stale or future
/// one is forbidden.
pub fn check_timestamp(is_preflight: bool, header: Option<&str>, now: u64) -> (r: Result<(), ApiError>)
    ensures
        r == timestamp_verdict(
            is_preflight,
            match header {
                Some(h) => Some(h.spec_bytes()),
                None => None,
            },
            now,
        ),
{
    if is_preflight {
        return Ok(());
    }
    let h = match header {
        Some(h) => h,
        None => {
            return Err(ApiError::BadRequest);
        },
    };
    let ts = match parse_u64(h.as_bytes()) {
        Some(ts) => ts,
        None => {
            return Err(ApiError::BadRequest);
        },
    };
    let diff = if now >= ts {
        now - ts
    } else {
        ts - now
    };
    if diff > MAX_TIME_DIFF {
        Err(ApiError::Forbidden)
    } else {
        Ok(())
    }
}

/// The value of a hexadecimal digit of either case.
pub open spec fn hex_value(b: u8) -> Option<u8> {
    if 48 <= b <= 57 {
        Some((b - 48) as u8)
    } else if 65 <= b <= 70 {
        Some((b - 55) as u8)
    } else if 97 <= b <= 102 {
        Some((b - 87) as u8)
    } else {
        None
    }
}

/// Percent-decoding: `%` and two hex digits become the byte they name; every
/// other byte, a `+` too, stays as it is.
pub open spec fn percent_decode(s: Seq<u8>) -> Seq<u8>
    decreases s.len(),
{
    if s.len() == 0 {
        seq![]
    } else if s.len() >= 3 && s[0] == 37 && hex_value(s[1]) is Some && hex_value(s[2]) is Some {
        seq![(hex_value(s[1])->0 * 16 + hex_value(s[2])->0) as u8] + percent_decode(s.skip(3))
    } else {
        seq![s[0]] + percent_decode(s.drop_first())
    }
}

/// Relies on `urlencoding::decode`: percent escapes decoded as
/// `percent_decode` states, then read as UTF-8, which fails where the bytes
/// are not UTF-8.
#[verifier::external_body]
fn url_decode(s: &str) -> (r: Option<String>)
    ensures
        match r {
            Some(d) => valid_utf8(percent_decode(s.spec_bytes())) && d@ == decode_utf8(
                percent_decode(s.spec_bytes()),
            ),
            None => !valid_utf8(percent_decode(s.spec_bytes())),
        },
{
    urlencoding::decode(s).ok().map(|d| d.into_owned())
}

/// What the init-data guard decides for a request whose `X-InitData` header
/// is `header`.
pub open spec fn init_data_guard_ok(
    header: Option<Seq<u8>>,
    secret: Seq<u8>,
    now: u64,
    r: Result<String, ApiError>,
) -> bool {
    match header {
        None => r == Err::<String, ApiError>(ApiError::BadRequest),
        Some(h) => if !valid_utf8(percent_decode(h)) {
            r == Err::<String, ApiError>(ApiError::BadRequest)
        } else {
            let d = decode_utf8(percent_decode(h));
            match init_data_verdict(encode_utf8(d), secret, now) {
                Ok(true) => r matches Ok(s) && s@ == d,
                Ok(false) => r == Err::<String, ApiError>(ApiError::Unauthorized),
                Err(_) => r == Err::<String, ApiError>(ApiError::BadRequest),
            }
        },
    }
}

/// The init-data guard: decodes the `X-InitData` header and checks it with
/// `validate_init_data`. Authentic data is handed back, decoded, for the
/// request context; a bad signature is unauthorised; a missing, undecodable,
/// malformed or expired payload is a bad request.
pub fn check_init_data(header: Option<&str>, secret_key: &[u8], now: u64) -> (r: Result<String, ApiError>)
    ensures
        init_data_guard_ok(
            match header {
                Some(h) => Some(h.spec_bytes()),
                None => None,
            },
            secret_key@,
            now,
            r,
        ),
{
    let h = match header {
        Some(h) => h,
        None => {
            return Err(ApiError::BadRequest);
        },
    };
    let decoded = match url_decode(h) {
        Some(d) => d,
        None => {
            return Err(ApiError::BadRequest);
        },
    };
    match validate_init_data(decoded.as_str(), secret_key, now) {
        Ok(true) => Ok(decoded),
        Ok(false) => Err(ApiError::Unauthorized),
        Err(_) => Err(ApiError::BadRequest),
    }
}

} // verus!
