//! Settings shared by the handlers.
use vstd::prelude::*;

verus! {

/// The public address of the service, under which confirmation links are
/// built.
#[derive(Debug)]
pub struct ApplicationBaseUrl(pub String);

} // verus!
