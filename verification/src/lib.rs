//! A newsletter service: subscriber validation, an idempotent publish
//! handler, a durable delivery queue and the worker that drains it.
//!
//! The publish handler and the worker are rules from a state and an event to
//! the next state and an action, so that whoever performs the actions (on a
//! database, over the network) takes every decision from here. The
//! relational state is also held as plain values in [`store::Store`]; on it
//! the rules run from end to end, and what they guarantee is stated and
//! proved over its mathematical view.
pub mod authentication;
pub mod domain;
pub mod email_client;
pub mod idempotency;
pub mod issue_delivery_worker;
pub mod response;
pub mod routes;
pub mod startup;
pub mod store;
pub mod utils;
