//! The error taxonomy of the HTTP surface: each kind has a status code and a
//! message for the uniform error envelope.
use vstd::prelude::*;

verus! {

/// An error as the HTTP surface reports it. Errors of outside services carry
/// the text that their source gave, for the log only: the answer to the
/// client never shows it.
pub enum ApiError {
    BadRequest,
    Unauthorized,
    Forbidden,
    NotFound(String),
    Conflict(String),
    Timeout,
    InternalServerError,
    Redis(String),
    Reqwest(String),
    Serialization(String),
    Custom(u16, String),
}

/// The HTTP status of each kind.
pub open spec fn status_of(e: ApiError) -> u16 {
    match e {
        ApiError::BadRequest => 400,
        ApiError::Unauthorized => 401,
        ApiError::Forbidden => 403,
        ApiError::NotFound(_) => 404,
        ApiError::Conflict(_) => 409,
        ApiError::Timeout => 504,
        ApiError::InternalServerError => 500,
        ApiError::Redis(_) => 500,
        ApiError::Reqwest(_) => 500,
        ApiError::Serialization(_) => 500,
        ApiError::Custom(code, _) => code,
    }
}

/// The message of each kind; an empty not-found or conflict text falls back
/// to a generic one, and an internal error never shows its upstream text.
pub open spec fn message_of(e: ApiError) -> Seq<char> {
    match e {
        ApiError::BadRequest => "bad request"@,
        ApiError::Unauthorized => "unauthorised"@,
        ApiError::Forbidden => "forbidden"@,
        ApiError::NotFound(m) => if m@.len() == 0 { "not found"@ } else { m@ },
        ApiError::Conflict(m) => if m@.len() == 0 { "conflict"@ } else { m@ },
        ApiError::Timeout => "request timed out"@,
        ApiError::InternalServerError => "internal error"@,
        ApiError::Redis(_) => "internal error"@,
        ApiError::Reqwest(_) => "internal error"@,
        ApiError::Serialization(_) => "internal error"@,
        ApiError::Custom(_, m) => m@,
    }
}

impl ApiError {
    /// The upstream text of an internal error, for the log.
    pub fn upstream_detail(&self) -> (r: Option<&String>)
        ensures
            match *self {
                ApiError::Redis(m) => r == Some(&m),
                ApiError::Reqwest(m) => r == Some(&m),
                ApiError::Serialization(m) => r == Some(&m),
                _ => r is None,
            },
    {
        match self {
            ApiError::Redis(m) => Some(m),
            ApiError::Reqwest(m) => Some(m),
            ApiError::Serialization(m) => Some(m),
            _ => None,
        }
    }

    pub fn status_code(&self) -> (r: u16)
        ensures
            r == status_of(*self),
    {
        match self {
            ApiError::BadRequest => 400,
            ApiError::Unauthorized => 401,
            ApiError::Forbidden => 403,
            ApiError::NotFound(_) => 404,
            ApiError::Conflict(_) => 409,
            ApiError::Timeout => 504,
            ApiError::InternalServerError => 500,
            ApiError::Redis(_) => 500,
            ApiError::Reqwest(_) => 500,
            ApiError::Serialization(_) => 500,
            ApiError::Custom(code, _) => *code,
        }
    }

    pub fn message(&self) -> (r: String)
        ensures
            r@ == message_of(*self),
    {
        match self {
            ApiError::BadRequest => "bad request".to_owned(),
            ApiError::Unauthorized => "unauthorised".to_owned(),
            ApiError::Forbidden => "forbidden".to_owned(),
            ApiError::NotFound(m) => if m.as_str().is_empty() {
                "not found".to_owned()
            } else {
                m.clone()
            },
            ApiError::Conflict(m) => if m.as_str().is_empty() {
                "conflict".to_owned()
            } else {
                m.clone()
            },
            ApiError::Timeout => "request timed out".to_owned(),
            ApiError::InternalServerError => "internal error".to_owned(),
            ApiError::Redis(_) => "internal error".to_owned(),
            ApiError::Reqwest(_) => "internal error".to_owned(),
            ApiError::Serialization(_) => "internal error".to_owned(),
            ApiError::Custom(_, m) => m.clone(),
        }
    }
}

} // verus!
