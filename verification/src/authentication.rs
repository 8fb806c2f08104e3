//! Who is calling: credentials, their validation, and the identity of a
//! logged-in user.
pub mod middleware;
pub mod password;

pub use middleware::{reject_anonymous_users, UserId};
pub use password::{validate_credentials, AuthError, Credentials};
