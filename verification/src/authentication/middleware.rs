//! The guard in front of the admin pages.
use crate::response::{see_other, see_other_view, Response, ResponseView};
use vstd::prelude::*;

verus! {

/// The id of the user who is logged in.
#[derive(Clone, Copy, Debug, PartialEq, Eq, Structural)]
pub struct UserId(pub u128);

/// The content of the outcome of [`reject_anonymous_users`].
pub open spec fn guard_view(r: Result<UserId, Response>) -> Result<UserId, ResponseView> {
    match r {
        Ok(user_id) => Ok(user_id),
        Err(response) => Err(response@),
    }
}

/// Lets a request pass where its session names a user, and redirects it to
/// the login page where it does not.
pub fn reject_anonymous_users(session_user_id: Option<u128>) -> (r: Result<UserId, Response>)
    ensures
        guard_view(r) == match session_user_id {
            Some(user_id) => Ok::<UserId, ResponseView>(UserId(user_id)),
            None => Err::<UserId, ResponseView>(see_other_view("/login")),
        },
{
    match session_user_id {
        Some(user_id) => Ok(UserId(user_id)),
        None => Err(see_other("/login")),
    }
}

} // verus!
