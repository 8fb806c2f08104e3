//! Changing the password of the logged-in user: what is checked before the
//! change, and what the user is told.
use crate::authentication::password::{AuthError, AuthErrorView};
use vstd::prelude::*;

verus! {

/// The notice for a new password that was not repeated exactly.
pub open spec fn mismatch_notice() -> Seq<char> {
    "<p><i>You entered two different new passwords - the field values must match</i></p>"@
}

/// The notice for a current password that is wrong.
pub open spec fn incorrect_notice() -> Seq<char> {
    "The current password is incorrect"@
}

/// The notice for a password that was changed.
pub open spec fn changed_notice() -> Seq<char> {
    "Your password has been changed"@
}

/// Checks that the new password was repeated exactly: the notice to show
/// where it was not.
pub fn check_new_password(new_password: &str, new_password_check: &str) -> (r: Result<(), String>)
    ensures
        r is Ok <==> new_password@ == new_password_check@,
        r is Err ==> r.unwrap_err()@ == mismatch_notice(),
{
    let first = new_password.to_string();
    let second = new_password_check.to_string();
    if first == second {
        Ok(())
    } else {
        Err(
            "<p><i>You entered two different new passwords - the field values must match</i></p>".to_string(),
        )
    }
}

/// What the user is told where the current password was not accepted: that
/// it is incorrect, or nothing where the check itself failed and the request
/// is to end as a server error.
pub fn current_password_notice(error: &AuthError) -> (notice: Option<String>)
    ensures
        match error@ {
            AuthErrorView::InvalidCredentials(_) => notice is Some && notice.unwrap()@
                == incorrect_notice(),
            AuthErrorView::UnexpectedError(_) => notice is None,
        },
{
    match error {
        AuthError::InvalidCredentials(_) => Some("The current password is incorrect".to_string()),
        AuthError::UnexpectedError(_) => None,
    }
}

/// What the user is told once the password has been changed.
pub fn password_changed_notice() -> (notice: String)
    ensures
        notice@ == changed_notice(),
{
    "Your password has been changed".to_string()
}

} // verus!
