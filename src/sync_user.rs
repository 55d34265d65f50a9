//! Reconciling the identity a request asserts with the stored user row.
use vstd::prelude::*;
use crate::cache::{cache_error_as_api, CacheError};
use crate::error::ApiError;
use crate::model::{User, UserRecord};

verus! {

/// Every asserted field equals the stored one.
pub open spec fn same_fields(u: User, d: UserRecord) -> bool {
    &&& u.first_name@ == d.first_name@
    &&& u.last_name@ == d.last_name@
    &&& u.username@ == d.username@
    &&& u.language_code@ == d.language_code@
    &&& u.allows_write_to_pm == d.allows_write_to_pm
    &&& u.photo_url@ == d.photo_url@
}

/// Whether the stored row differs from the asserted identity in any field.
pub fn needs_update(init_user: &User, db_user: &UserRecord) -> (r: bool)
    ensures
        r == !same_fields(*init_user, *db_user),
{
    init_user.first_name != db_user.first_name || init_user.last_name != db_user.last_name
        || init_user.username != db_user.username || init_user.language_code
        != db_user.language_code || init_user.allows_write_to_pm != db_user.allows_write_to_pm
        || init_user.photo_url != db_user.photo_url
}

/// The row that the asserted identity stands for.
pub open spec fn record_of(u: User, d: UserRecord) -> bool {
    d.id == u.id && same_fields(u, d)
}

/// The row to write for the asserted identity, on create or on update.
pub fn record_for(init_user: &User) -> (r: UserRecord)
    ensures
        record_of(*init_user, r),
{
    UserRecord {
        id: init_user.id,
        first_name: init_user.first_name.clone(),
        last_name: init_user.last_name.clone(),
        username: init_user.username.clone(),
        language_code: init_user.language_code.clone(),
        allows_write_to_pm: init_user.allows_write_to_pm,
        photo_url: init_user.photo_url.clone(),
    }
}

/// What user synchronisation does after the cached read of the user row.
pub enum SyncAction {
    /// The stored row matches: nothing to write.
    Keep,
    /// Update the stored row to this one, then write it through the cache.
    Update(UserRecord),
    /// Create this row, then write it through the cache.
    Create(UserRecord),
    /// Surface this error; the request does not proceed.
    Fail(ApiError),
}

/// Decides, from the read-through of `user:<id>`, how to reconcile the
/// asserted identity with the store: keep a matching row, update a
/// diverging one, create a missing one, and surface any other error.
pub fn sync_decision(cached: Result<UserRecord, CacheError>, init_user: &User) -> (r: SyncAction)
    ensures
        match cached {
            Ok(d) => if same_fields(*init_user, d) {
                r is Keep
            } else {
                r matches SyncAction::Update(n) && record_of(*init_user, n)
            },
            Err(CacheError::NotFound) => r matches SyncAction::Create(n) && record_of(*init_user, n),
            Err(e) => r matches SyncAction::Fail(a) && cache_error_as_api(e, a),
        },
{
    match cached {
        Ok(existing) => {
            if needs_update(init_user, &existing) {
                SyncAction::Update(record_for(init_user))
            } else {
                SyncAction::Keep
            }
        },
        Err(CacheError::NotFound) => SyncAction::Create(record_for(init_user)),
        Err(e) => SyncAction::Fail(e.into_api_error()),
    }
}

} // verus!
