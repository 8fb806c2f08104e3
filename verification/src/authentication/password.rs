//! Checking a user's credentials against what is stored for them.
use vstd::prelude::*;

verus! {

/// Why credentials were not accepted.
#[derive(Debug)]
pub enum AuthError {
    /// The user is unknown or the password is wrong.
    InvalidCredentials(String),
    /// The check itself failed.
    UnexpectedError(String),
}

/// The content of an [`AuthError`].
pub enum AuthErrorView {
    InvalidCredentials(Seq<char>),
    UnexpectedError(Seq<char>),
}

impl View for AuthError {
    type V = AuthErrorView;

    open spec fn view(&self) -> AuthErrorView {
        match self {
            AuthError::InvalidCredentials(cause) => AuthErrorView::InvalidCredentials(cause@),
            AuthError::UnexpectedError(cause) => AuthErrorView::UnexpectedError(cause@),
        }
    }
}

impl AuthErrorView {
    /// What the error says of itself: a fixed text for invalid credentials,
    /// and the cause for anything else.
    pub open spec fn message(self) -> Seq<char> {
        match self {
            AuthErrorView::InvalidCredentials(_) => "Invalid credentials"@,
            AuthErrorView::UnexpectedError(cause) => cause,
        }
    }
}

impl AuthError {
    /// What the error says of itself.
    pub fn message(&self) -> (s: String)
        ensures
            s@ == self@.message(),
    {
        match self {
            AuthError::InvalidCredentials(_) => "Invalid credentials".to_string(),
            AuthError::UnexpectedError(cause) => cause.clone(),
        }
    }
}

/// A username and the password given for it.
#[derive(Debug)]
pub struct Credentials {
    pub username: String,
    pub password: String,
}

/// How a password compares with the hash stored for its user.
#[derive(Clone, Copy, Debug, PartialEq, Eq, Structural)]
pub enum PasswordCheck {
    /// The password is the one that was hashed.
    Matches,
    /// The password is another one.
    Mismatch,
    /// The stored hash could not be read.
    MalformedHash,
}

/// The content of the outcome of [`validate_credentials`].
pub open spec fn validation_view(r: Result<u128, AuthError>) -> Result<u128, AuthErrorView> {
    match r {
        Ok(user_id) => Ok(user_id),
        Err(e) => Err(e@),
    }
}

/// The outcome of validating credentials, given the user that the store
/// holds under the username, if any, and how the password compares with
/// that user's hash.
pub open spec fn validation(stored_user: Option<u128>, check: PasswordCheck) -> Result<
    u128,
    AuthErrorView,
> {
    match stored_user {
        None => Err(AuthErrorView::InvalidCredentials("Unknown username"@)),
        Some(user_id) => match check {
            PasswordCheck::Matches => Ok(user_id),
            PasswordCheck::Mismatch => Err(AuthErrorView::InvalidCredentials("Invalid password"@)),
            PasswordCheck::MalformedHash => Err(
                AuthErrorView::UnexpectedError(
                    "Failed to parse password_hash (from users table) in PHC format"@,
                ),
            ),
        },
    }
}

/// Decides whether credentials are accepted: by an unknown user never, by a
/// known one exactly when the password matches the stored hash.
pub fn validate_credentials(stored_user: Option<u128>, check: PasswordCheck) -> (r: Result<
    u128,
    AuthError,
>)
    ensures
        validation_view(r) == validation(stored_user, check),
{
    match stored_user {
        None => Err(AuthError::InvalidCredentials("Unknown username".to_string())),
        Some(user_id) => match check {
            PasswordCheck::Matches => Ok(user_id),
            PasswordCheck::Mismatch => Err(
                AuthError::InvalidCredentials("Invalid password".to_string()),
            ),
            PasswordCheck::MalformedHash => Err(
                AuthError::UnexpectedError(
                    "Failed to parse password_hash (from users table) in PHC format".to_string(),
                ),
            ),
        },
    }
}

} // verus!
