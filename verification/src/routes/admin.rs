//! Handlers that only a logged-in user reaches.
pub mod newsletters;
pub mod password;
