//! Confirming a subscription with the token from the confirmation email.
use crate::store::{Store, StoreView};
use vstd::prelude::*;

verus! {

/// The query of a confirmation link.
#[derive(Debug)]
pub struct Parameters {
    pub subscription_token: String,
}

/// Why a confirmation failed.
#[derive(Debug)]
pub enum SubscriptionConfirmationError {
    /// No subscription awaits confirmation under the token.
    UnauthorizedError,
    /// The store failed.
    UnexpectedError(String),
}

impl SubscriptionConfirmationError {
    /// The status that answers the error.
    pub open spec fn status_code_spec(&self) -> u16 {
        match self {
            SubscriptionConfirmationError::UnauthorizedError => 401,
            SubscriptionConfirmationError::UnexpectedError(_) => 500,
        }
    }

    /// The status that answers the error: 401 for an unknown token, 500 for
    /// anything else.
    pub fn status_code(&self) -> (code: u16)
        ensures
            code == self.status_code_spec(),
    {
        match self {
            SubscriptionConfirmationError::UnauthorizedError => 401,
            SubscriptionConfirmationError::UnexpectedError(_) => 500,
        }
    }
}

/// What confirming does to the store: the subscription that the token
/// belongs to becomes confirmed; an unknown token changes nothing.
pub open spec fn confirmation(s: StoreView, token: Seq<char>) -> StoreView {
    if s.has_token(token) {
        s.with_confirmation(s.token_owner(token))
    } else {
        s
    }
}

/// Confirms the subscription that the token of `parameters` belongs to. It
/// fails, as unauthorized, exactly when the token is unknown.
pub fn confirm(store: &mut Store, parameters: &Parameters) -> (r: Result<
    (),
    SubscriptionConfirmationError,
>)
    requires
        old(store).wf(),
    ensures
        final(store).wf(),
        final(store)@ == confirmation(old(store)@, parameters.subscription_token@),
        r is Ok <==> old(store)@.has_token(parameters.subscription_token@),
        r is Err ==> r.unwrap_err() is UnauthorizedError,
{
    match store.get_subscriber_id_from_token(parameters.subscription_token.as_str()) {
        Some(subscriber_id) => {
            store.confirm_subscriber(subscriber_id);
            Ok(())
        },
        None => Err(SubscriptionConfirmationError::UnauthorizedError),
    }
}

} // verus!
