//! Retry safety for requests: a key names one logical request, and the
//! response given to its first attempt is replayed to every later one.
pub mod key;
pub mod persistence;

pub use key::IdempotencyKey;
pub use persistence::{get_saved_response, save_response, try_processing, NextAction};
