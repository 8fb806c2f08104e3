//! Small helpers for handlers: errors that carry their HTTP status.
use vstd::prelude::*;

pub use crate::response::see_other;

verus! {

/// A failure of a handler, with the status it is answered with.
#[derive(Debug)]
pub struct HttpError {
    pub status_code: u16,
    pub message: String,
}

/// The content of an [`HttpError`].
pub struct HttpErrorView {
    pub status_code: u16,
    pub message: Seq<char>,
}

impl View for HttpError {
    type V = HttpErrorView;

    open spec fn view(&self) -> HttpErrorView {
        HttpErrorView { status_code: self.status_code, message: self.message@ }
    }
}

/// A failure that the client caused: answered with 400.
pub fn e400(message: String) -> (e: HttpError)
    ensures
        e@ == (HttpErrorView { status_code: 400, message: message@ }),
{
    HttpError { status_code: 400, message }
}

/// A failure on the server's side: answered with 500.
pub fn e500(message: String) -> (e: HttpError)
    ensures
        e@ == (HttpErrorView { status_code: 500, message: message@ }),
{
    HttpError { status_code: 500, message }
}

/// Draws a random id with `uuid::Uuid::new_v4` and returns it as a number.
/// Which id comes is a matter of chance; its version bits say 4 and its
/// variant bits say RFC 4122.
#[verifier::external_body]
pub(crate) fn new_uuid() -> (id: u128)
    ensures
        (id >> 76) & 0xF == 4,
        (id >> 62) & 0x3 == 2,
{
    uuid::Uuid::new_v4().as_u128()
}

} // verus!
