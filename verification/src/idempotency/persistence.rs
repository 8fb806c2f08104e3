//! Capturing the response of a request under its key, and replaying it.
use crate::idempotency::key::IdempotencyKey;
use crate::response::{is_status_code, Response, ResponseView};
use crate::store::{Store, StoreView, StoredResponse, StoredResponseView};
use vstd::prelude::*;

verus! {

/// What can go wrong when a saved response is read back.
#[derive(Clone, Copy, Debug, PartialEq, Eq, Structural)]
pub enum IdempotencyError {
    /// A record exists for the key, but no response has been captured yet:
    /// the first attempt is still in flight, or it never finished.
    MissingSavedResponse,
    /// The stored status code is not one that HTTP admits.
    InvalidStatusCode,
}

impl IdempotencyError {
    /// The message reported for this error.
    pub open spec fn message_view(self) -> Seq<char> {
        match self {
            IdempotencyError::MissingSavedResponse => {
                "We expected a saved response but didn't find it"@
            },
            IdempotencyError::InvalidStatusCode => "invalid status code"@,
        }
    }

    /// The message reported for this error.
    pub fn message(&self) -> (s: String)
        ensures
            s@ == self.message_view(),
    {
        match self {
            IdempotencyError::MissingSavedResponse => {
                "We expected a saved response but didn't find it".to_string()
            },
            IdempotencyError::InvalidStatusCode => "invalid status code".to_string(),
        }
    }
}

/// The right to finish a request that began under a key: whoever holds it
/// either captures the response or rolls the attempt back.
#[derive(Debug)]
pub struct Transaction {
    user_id: u128,
    key: String,
}

impl View for Transaction {
    type V = (u128, Seq<char>);

    closed spec fn view(&self) -> (u128, Seq<char>) {
        (self.user_id, self.key@)
    }
}

/// What a handler does with a request, given the key's history.
#[derive(Debug)]
pub enum NextAction {
    /// No attempt was made before: process the request.
    StartProcessing(Transaction),
    /// An attempt was answered before: answer likewise.
    ReturnSavedResponse(Response),
}

/// The content of a [`NextAction`].
pub enum NextActionView {
    StartProcessing(u128, Seq<char>),
    ReturnSavedResponse(ResponseView),
}

impl View for NextAction {
    type V = NextActionView;

    open spec fn view(&self) -> NextActionView {
        match self {
            NextAction::StartProcessing(t) => NextActionView::StartProcessing(t@.0, t@.1),
            NextAction::ReturnSavedResponse(r) => NextActionView::ReturnSavedResponse(r@),
        }
    }
}

/// A response as the table keeps it.
pub open spec fn encode_response(response: ResponseView) -> StoredResponseView {
    StoredResponseView {
        status_code: response.status_code as i16,
        headers: response.headers,
        body: response.body,
    }
}

/// The response that a row of the table stands for, if its status code is
/// one that HTTP admits.
pub open spec fn decode_response(stored: StoredResponseView) -> Option<ResponseView> {
    if is_status_code(stored.status_code as int) {
        Some(
            ResponseView {
                status_code: stored.status_code as u16,
                headers: stored.headers,
                body: stored.body,
            },
        )
    } else {
        None
    }
}

/// What reading the saved response of a key gives.
pub open spec fn saved_response_of(s: StoreView, user_id: u128, key: Seq<char>) -> Result<
    Option<ResponseView>,
    IdempotencyError,
> {
    if !s.has_record(user_id, key) {
        Ok(None)
    } else {
        match s.record(user_id, key).response {
            None => Ok(None),
            Some(stored) => match decode_response(stored) {
                Some(response) => Ok(Some(response)),
                None => Err(IdempotencyError::InvalidStatusCode),
            },
        }
    }
}

/// The store and the decision after a request begins under a key.
pub open spec fn begin_or_join(s: StoreView, user_id: u128, key: Seq<char>) -> (
    StoreView,
    Result<NextActionView, IdempotencyError>,
) {
    if !s.has_record(user_id, key) {
        (s.with_record(user_id, key, None), Ok(NextActionView::StartProcessing(user_id, key)))
    } else {
        (
            s,
            match saved_response_of(s, user_id, key) {
                Ok(Some(response)) => Ok(NextActionView::ReturnSavedResponse(response)),
                Ok(None) => Err(IdempotencyError::MissingSavedResponse),
                Err(e) => Err(e),
            },
        )
    }
}

/// The content of the outcome of [`try_processing`].
pub open spec fn outcome_view(r: Result<NextAction, IdempotencyError>) -> Result<
    NextActionView,
    IdempotencyError,
> {
    match r {
        Ok(action) => Ok(action@),
        Err(e) => Err(e),
    }
}

/// The content of the outcome of [`get_saved_response`].
pub open spec fn saved_view(r: Result<Option<Response>, IdempotencyError>) -> Result<
    Option<ResponseView>,
    IdempotencyError,
> {
    match r {
        Ok(Some(response)) => Ok(Some(response@)),
        Ok(None) => Ok(None),
        Err(e) => Err(e),
    }
}

/// Puts a response into the form of the table's columns.
pub fn capture_response(response: &Response) -> (stored: StoredResponse)
    requires
        is_status_code(response.status_code as int),
    ensures
        stored@ == encode_response(response@),
{
    StoredResponse {
        status_code: response.status_code as i16,
        headers: crate::response::clone_headers(&response.headers),
        body: crate::response::clone_bytes(&response.body),
    }
}

/// Rebuilds a response from the table's columns. It fails exactly when the
/// stored status code is negative or not of three digits.
pub fn restore_response(stored: StoredResponse) -> (r: Result<Response, IdempotencyError>)
    ensures
        match decode_response(stored@) {
            Some(response) => r is Ok && r.unwrap()@ == response,
            None => r == Err::<Response, IdempotencyError>(IdempotencyError::InvalidStatusCode),
        },
{
    if stored.status_code < 100 || stored.status_code >= 1000 {
        return Err(IdempotencyError::InvalidStatusCode);
    }
    Ok(
        Response {
            status_code: stored.status_code as u16,
            headers: stored.headers,
            body: stored.body,
        },
    )
}

/// The content of what the table holds under a key: nothing, a record
/// without a response, or a record with one.
pub open spec fn row_view(row: Option<Option<StoredResponse>>) -> Option<Option<StoredResponseView>> {
    match row {
        None => None,
        Some(None) => Some(None),
        Some(Some(stored)) => Some(Some(stored@)),
    }
}

/// The saved response that a key's row stands for.
pub open spec fn saved_response_of_row(row: Option<Option<StoredResponseView>>) -> Result<
    Option<ResponseView>,
    IdempotencyError,
> {
    match row {
        None => Ok(None),
        Some(None) => Ok(None),
        Some(Some(stored)) => match decode_response(stored) {
            Some(response) => Ok(Some(response)),
            None => Err(IdempotencyError::InvalidStatusCode),
        },
    }
}

/// Reads a key's row: no row, or a row without a response, is no saved
/// response; a row with a response is that response, or an error where its
/// status code is not one that HTTP admits.
pub fn read_saved_response(row: Option<Option<StoredResponse>>) -> (r: Result<
    Option<Response>,
    IdempotencyError,
>)
    ensures
        saved_view(r) == saved_response_of_row(row_view(row)),
{
    match row {
        None => Ok(None),
        Some(None) => Ok(None),
        Some(Some(stored)) => match restore_response(stored) {
            Ok(response) => Ok(Some(response)),
            Err(e) => Err(e),
        },
    }
}

/// What a repeated request is answered with: the saved response, or an
/// error where none has been saved.
pub fn expect_saved_response(saved: Option<Response>) -> (r: Result<Response, IdempotencyError>)
    ensures
        match saved {
            Some(response) => r is Ok && r.unwrap()@ == response@,
            None => r == Err::<Response, IdempotencyError>(IdempotencyError::MissingSavedResponse),
        },
{
    match saved {
        Some(response) => Ok(response),
        None => Err(IdempotencyError::MissingSavedResponse),
    }
}

/// Reads the response captured for a key: nothing where the key is unknown
/// or its first attempt has not been answered yet.
pub fn get_saved_response(store: &Store, idempotency_key: &IdempotencyKey, user_id: u128) -> (r:
    Result<Option<Response>, IdempotencyError>)
    requires
        store.wf(),
    ensures
        saved_view(r) == saved_response_of(store@, user_id, idempotency_key@),
{
    read_saved_response(store.saved_response(user_id, idempotency_key.as_ref()))
}

/// Begins a request under a key. Where the key is new, a record without a
/// response is added and the caller is to process the request; where it is
/// known, nothing changes and the saved response comes back, or an error
/// where none has been captured.
pub fn try_processing(store: &mut Store, idempotency_key: &IdempotencyKey, user_id: u128) -> (r:
    Result<NextAction, IdempotencyError>)
    requires
        old(store).wf(),
    ensures
        final(store).wf(),
        (final(store)@, outcome_view(r)) == begin_or_join(old(store)@, user_id, idempotency_key@),
{
    let n_inserted_rows: u64 = store.insert_idempotency_record(
        user_id,
        idempotency_key.as_ref(),
    );
    if n_inserted_rows > 0 {
        Ok(
            NextAction::StartProcessing(
                Transaction { user_id, key: idempotency_key.as_ref().to_string() },
            ),
        )
    } else {
        let saved = match get_saved_response(store, idempotency_key, user_id) {
            Ok(saved) => saved,
            Err(e) => {
                return Err(e);
            },
        };
        match expect_saved_response(saved) {
            Ok(response) => Ok(NextAction::ReturnSavedResponse(response)),
            Err(e) => Err(e),
        }
    }
}

/// Ends a request: captures `http_response` under the key and hands the
/// same response back. The right to finish the request is used up.
pub fn save_response(
    store: &mut Store,
    transaction: Transaction,
    idempotency_key: &IdempotencyKey,
    user_id: u128,
    http_response: Response,
) -> (r: Response)
    requires
        old(store).wf(),
        is_status_code(http_response.status_code as int),
    ensures
        final(store).wf(),
        final(store)@ == old(store)@.with_response(
            user_id,
            idempotency_key@,
            encode_response(http_response@),
        ),
        r@ == http_response@,
{
    let stored = capture_response(&http_response);
    store.update_saved_response(user_id, idempotency_key.as_ref(), stored);
    http_response
}

/// Gives a request up: the record that its beginning added is removed, so
/// that a retry starts afresh.
pub fn rollback(store: &mut Store, transaction: Transaction)
    requires
        old(store).wf(),
    ensures
        final(store).wf(),
        final(store)@ == old(store)@.without_record(transaction@.0, transaction@.1),
{
    store.delete_idempotency_record(transaction.user_id, transaction.key.as_str());
}

/// A response that was captured is the response that is replayed.
pub proof fn law_captured_response_is_restored(response: ResponseView)
    requires
        is_status_code(response.status_code as int),
    ensures
        decode_response(encode_response(response)) == Some(response),
{
}

} // verus!
