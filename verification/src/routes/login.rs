//! Logging in: how a failed check of credentials is reported.
use crate::authentication::password::{AuthError, AuthErrorView};
use crate::response::{see_other, see_other_view, Response};
use vstd::prelude::*;

verus! {

/// Why a login failed.
#[derive(Debug)]
pub enum LoginError {
    /// The credentials were not accepted.
    AuthError(String),
    /// The check itself failed.
    UnexpectedError(String),
}

/// The content of a [`LoginError`].
pub enum LoginErrorView {
    AuthError(Seq<char>),
    UnexpectedError(Seq<char>),
}

impl View for LoginError {
    type V = LoginErrorView;

    open spec fn view(&self) -> LoginErrorView {
        match self {
            LoginError::AuthError(cause) => LoginErrorView::AuthError(cause@),
            LoginError::UnexpectedError(cause) => LoginErrorView::UnexpectedError(cause@),
        }
    }
}

impl LoginErrorView {
    /// What the user is told: never more than that the login failed.
    pub open spec fn message(self) -> Seq<char> {
        match self {
            LoginErrorView::AuthError(_) => "Authentication failed"@,
            LoginErrorView::UnexpectedError(_) => "Something went wrong"@,
        }
    }
}

impl LoginError {
    /// What the user is told.
    pub fn message(&self) -> (s: String)
        ensures
            s@ == self@.message(),
    {
        match self {
            LoginError::AuthError(_) => "Authentication failed".to_string(),
            LoginError::UnexpectedError(_) => "Something went wrong".to_string(),
        }
    }

    /// The login error that stands for a failed check of credentials; the
    /// cause is what the check said of itself.
    pub fn from_auth_error(error: AuthError) -> (e: LoginError)
        ensures
            e@ == match error@ {
                AuthErrorView::InvalidCredentials(_) => LoginErrorView::AuthError(error@.message()),
                AuthErrorView::UnexpectedError(_) => LoginErrorView::UnexpectedError(
                    error@.message(),
                ),
            },
    {
        let cause = error.message();
        match error {
            AuthError::InvalidCredentials(_) => LoginError::AuthError(cause),
            AuthError::UnexpectedError(_) => LoginError::UnexpectedError(cause),
        }
    }
}

/// What follows a failed login: the notice to flash, and the redirect back
/// to the login form.
pub fn login_redirect(login_error: &LoginError) -> (r: (String, Response))
    ensures
        r.0@ == login_error@.message(),
        r.1@ == see_other_view("/login"),
{
    (login_error.message(), see_other("/login"))
}

/// What follows a successful login: the redirect to the dashboard.
pub fn login_success() -> (r: Response)
    ensures
        r@ == see_other_view("/admin/dashboard"),
{
    see_other("/admin/dashboard")
}

} // verus!
