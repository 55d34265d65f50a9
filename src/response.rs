//! The uniform JSON envelope of every answer.
use vstd::prelude::*;
use crate::error::{message_of, status_of, ApiError};
use crate::extractor::GoogleUser;
use crate::model::User;

verus! {

/// The payload of an envelope; `Empty` is written as `null`.
pub enum ApiData<T> {
    Data(T),
    Empty,
}

/// `{ status, message, data, code? }`.
pub struct ApiResponse<T> {
    pub status: String,
    pub message: String,
    pub data: ApiData<T>,
    pub code: Option<u16>,
}

impl<T> ApiResponse<T> {
    /// A success envelope carrying `data`, with an empty message.
    pub fn success(data: T) -> (r: Self)
        ensures
            r.status@ == "success"@,
            r.message@ == Seq::<char>::empty(),
            r.data == ApiData::Data(data),
            r.code is None,
    {
        ApiResponse { status: "success".to_owned(), message: String::new(), data: ApiData::Data(data), code: None }
    }

    /// A success envelope with a message and no data.
    pub fn message_only(message: &str) -> (r: Self)
        ensures
            r.status@ == "success"@,
            r.message@ == message@,
            r.data is Empty,
            r.code is None,
    {
        ApiResponse { status: "success".to_owned(), message: message.to_owned(), data: ApiData::Empty, code: None }
    }

    /// An error envelope with a message and the HTTP status code.
    pub fn error(message: &str, code: u16) -> (r: Self)
        ensures
            r.status@ == "error"@,
            r.message@ == message@,
            r.data is Empty,
            r.code == Some(code),
    {
        ApiResponse { status: "error".to_owned(), message: message.to_owned(), data: ApiData::Empty, code: Some(code) }
    }
}

impl ApiError {
    /// The status and envelope that answer this error.
    pub fn to_response(&self) -> (r: (u16, ApiResponse<()>))
        ensures
            r.0 == status_of(*self),
            r.1.status@ == "error"@,
            r.1.message@ == message_of(*self),
            r.1.data is Empty,
            r.1.code == Some(status_of(*self)),
    {
        let status = self.status_code();
        let message = self.message();
        (status, ApiResponse::error(message.as_str(), status))
    }
}

pub struct GenericResponse {
    pub status: String,
    pub message: String,
}

pub struct UserResponse {
    pub status: String,
    pub user: User,
}

pub struct UserResponseData {
    pub user: GoogleUser,
}

} // verus!
