//! The records that the core reads and writes.
use vstd::prelude::*;

pub mod lesson;
pub mod user;

verus! {

/// The user that signed init data asserts.
pub struct User {
    pub id: i64,
    pub first_name: String,
    pub last_name: String,
    pub username: String,
    pub language_code: String,
    pub allows_write_to_pm: bool,
    pub photo_url: String,
}

/// A stored user row.
pub struct UserRecord {
    pub id: i64,
    pub first_name: String,
    pub last_name: String,
    pub username: String,
    pub language_code: String,
    pub allows_write_to_pm: bool,
    pub photo_url: String,
}

} // verus!
