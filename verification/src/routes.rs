//! The request handlers, as functions on the store.
pub mod admin;
pub mod login;
pub mod newsletters;
pub mod subscriptions;
pub mod subscriptions_confirm;
