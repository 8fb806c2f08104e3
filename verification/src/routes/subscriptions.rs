//! Subscribing: the details are validated, the subscription is stored as
//! pending together with a fresh token, and a confirmation email is prepared.
use crate::domain::new_subscriber::NewSubscriber;
use crate::domain::subscriber_email::{invalid_email_message, is_valid_email, SubscriberEmail};
use crate::domain::subscriber_name::{name_rejection, SubscriberName};
use crate::email_client::{EmailClient, EmailClientView, EmailRequest, EmailRequestView};
use crate::store::{Store, StoreView};
use crate::utils::new_uuid;
use rand::distributions::Alphanumeric;
use rand::Rng;
use vstd::prelude::*;
use vstd::string::*;

verus! {

/// The fields of the subscription form.
#[derive(Debug)]
pub struct FormData {
    pub email: String,
    pub name: String,
}

/// Why a subscription failed.
#[derive(Debug)]
pub enum SubscribeError {
    /// The details did not pass validation.
    ValidationError(String),
    /// The store refused the subscription or its token.
    UnexpectedError(String),
}

/// The content of a [`SubscribeError`].
pub enum SubscribeErrorView {
    ValidationError(Seq<char>),
    UnexpectedError(Seq<char>),
}

impl View for SubscribeError {
    type V = SubscribeErrorView;

    open spec fn view(&self) -> SubscribeErrorView {
        match self {
            SubscribeError::ValidationError(cause) => SubscribeErrorView::ValidationError(cause@),
            SubscribeError::UnexpectedError(cause) => SubscribeErrorView::UnexpectedError(cause@),
        }
    }
}

impl SubscribeError {
    /// The status that answers the error.
    pub open spec fn status_code_spec(&self) -> u16 {
        match self {
            SubscribeError::ValidationError(_) => 400,
            SubscribeError::UnexpectedError(_) => 500,
        }
    }

    /// The status that answers the error: 400 for details that are not
    /// valid, 500 for anything else.
    pub fn status_code(&self) -> (code: u16)
        ensures
            code == self.status_code_spec(),
    {
        match self {
            SubscribeError::ValidationError(_) => 400,
            SubscribeError::UnexpectedError(_) => 500,
        }
    }

    /// What the error says of itself: its cause.
    pub fn message(&self) -> (s: String)
        ensures
            s@ == match self@ {
                SubscribeErrorView::ValidationError(cause) => cause,
                SubscribeErrorView::UnexpectedError(cause) => cause,
            },
    {
        match self {
            SubscribeError::ValidationError(cause) => cause.clone(),
            SubscribeError::UnexpectedError(cause) => cause.clone(),
        }
    }
}

/// The length of a subscription token, in characters.
pub const TOKEN_LENGTH: usize = 25;

/// Letters and digits of ASCII.
pub open spec fn is_ascii_alphanumeric(c: char) -> bool {
    ||| 'A' <= c <= 'Z'
    ||| 'a' <= c <= 'z'
    ||| '0' <= c <= '9'
}

/// What a subscription token looks like.
pub open spec fn is_subscription_token(token: Seq<char>) -> bool {
    &&& token.len() == TOKEN_LENGTH
    &&& forall|i: int| 0 <= i < token.len() ==> is_ascii_alphanumeric(#[trigger] token[i])
}

/// Why a form is refused, if it is: the address is checked first, then the
/// name.
pub open spec fn form_rejection(email: Seq<char>, name: Seq<char>) -> Option<Seq<char>> {
    if !is_valid_email(email) {
        Some(invalid_email_message())
    } else {
        match name_rejection(name) {
            Some(e) => Some(e.message()),
            None => None,
        }
    }
}

impl NewSubscriber {
    /// Validates the fields of a form: accepted exactly when both the
    /// address and the name are, and refused with the message of the first
    /// that is not.
    pub fn try_from(value: FormData) -> (r: Result<NewSubscriber, String>)
        ensures
            match form_rejection(value.email@, value.name@) {
                None => r is Ok && r.unwrap().email@ == value.email@ && r.unwrap().name@
                    == value.name@,
                Some(message) => r is Err && r.unwrap_err()@ == message,
            },
    {
        let email = match SubscriberEmail::parse(value.email.as_str()) {
            Ok(email) => email,
            Err(message) => {
                return Err(message);
            },
        };
        let name = match SubscriberName::parse(value.name.as_str()) {
            Ok(name) => name,
            Err(message) => {
                return Err(message);
            },
        };
        Ok(NewSubscriber { email, name })
    }
}

/// The link that confirms a subscription.
pub open spec fn confirmation_link(base_url: Seq<char>, token: Seq<char>) -> Seq<char> {
    base_url + "/subscriptions/confirm?subscription_token="@ + token
}

/// The plain text of the confirmation email.
pub open spec fn confirmation_text(link: Seq<char>) -> Seq<char> {
    "Welcome to Sanjay's newsletter!\n Confirmation link: "@ + link
}

/// The HTML of the confirmation email.
pub open spec fn confirmation_html(link: Seq<char>) -> Seq<char> {
    "Welcome to our newsletter!<br />Click <a href=\""@ + link
        + "\">here</a> to confirm your subscription."@
}

/// The confirmation email for a new subscriber.
pub open spec fn confirmation_request(
    client: EmailClientView,
    recipient: Seq<char>,
    base_url: Seq<char>,
    token: Seq<char>,
) -> EmailRequestView {
    let link = confirmation_link(base_url, token);
    client.request(recipient, "Welcome!"@, confirmation_html(link), confirmation_text(link))
}

/// Prepares the email that asks a new subscriber to confirm: it carries the
/// link under `base_url` that holds the token.
pub fn send_confirmation_email(
    email_client: &EmailClient,
    new_subscriber: &NewSubscriber,
    base_url: &str,
    confirmation_token: &str,
) -> (request: EmailRequest)
    ensures
        request@ == confirmation_request(
            email_client@,
            new_subscriber.email@,
            base_url@,
            confirmation_token@,
        ),
{
    let link = base_url.to_string().concat("/subscriptions/confirm?subscription_token=").concat(
        confirmation_token,
    );
    let text = "Welcome to Sanjay's newsletter!\n Confirmation link: ".to_string().concat(
        link.as_str(),
    );
    let html = "Welcome to our newsletter!<br />Click <a href=\"".to_string().concat(
        link.as_str(),
    ).concat("\">here</a> to confirm your subscription.");
    email_client.build_request(&new_subscriber.email, "Welcome!", html.as_str(), text.as_str())
}

/// Draws one character with rand's `Alphanumeric` distribution from the
/// thread's generator. Which one is a matter of chance; it is a letter or a
/// digit of ASCII.
#[verifier::external_body]
fn random_alphanumeric() -> (c: String)
    ensures
        c@.len() == 1,
        is_ascii_alphanumeric(c@[0]),
{
    String::from(char::from(rand::thread_rng().sample(Alphanumeric)))
}

/// Draws a fresh subscription token: 25 letters and digits, at random.
pub fn generate_subscription_token() -> (token: String)
    ensures
        is_subscription_token(token@),
{
    let mut token = String::new();
    let mut i: usize = 0;
    while i < TOKEN_LENGTH
        invariant
            i <= TOKEN_LENGTH,
            token@.len() == i,
            forall|j: int| 0 <= j < i ==> is_ascii_alphanumeric(#[trigger] token@[j]),
        decreases TOKEN_LENGTH - i,
    {
        let c = random_alphanumeric();
        token.append(c.as_str());
        i += 1;
    }
    token
}

/// The message reported where the store refuses a new subscription.
pub open spec fn insert_failed_message() -> Seq<char> {
    "Failed to insert new subscriber into the database"@
}

/// The message reported where the store refuses a new token.
pub open spec fn token_failed_message() -> Seq<char> {
    "Failed to store generated subscription token into the database"@
}

/// What subscribing does to the store, and what it answers with, where
/// `subscriber_id` and `token` are the id and the token drawn for the
/// subscription.
///
/// A form that is not valid is refused. A subscription whose id or address
/// is taken, or whose token is taken, is an error. Otherwise the
/// subscription is stored as pending with its token, and the confirmation
/// email comes back. In every failing case the store stays as it was.
pub open spec fn subscription(
    s: StoreView,
    client: EmailClientView,
    base_url: Seq<char>,
    email: Seq<char>,
    name: Seq<char>,
    subscriber_id: u128,
    token: Seq<char>,
) -> (StoreView, Result<EmailRequestView, SubscribeErrorView>) {
    match form_rejection(email, name) {
        Some(message) => (s, Err(SubscribeErrorView::ValidationError(message))),
        None => {
            if s.has_subscriber(subscriber_id) || s.has_subscriber_email(email) {
                (s, Err(SubscribeErrorView::UnexpectedError(insert_failed_message())))
            } else if s.has_token(token) {
                (s, Err(SubscribeErrorView::UnexpectedError(token_failed_message())))
            } else {
                (
                    s.with_subscriber(subscriber_id, email, name).with_token(token, subscriber_id),
                    Ok(confirmation_request(client, email, base_url, token)),
                )
            }
        },
    }
}

/// The content of the outcome of [`subscribe`].
pub open spec fn subscribe_view(r: Result<EmailRequest, SubscribeError>) -> Result<
    EmailRequestView,
    SubscribeErrorView,
> {
    match r {
        Ok(request) => Ok(request@),
        Err(e) => Err(e@),
    }
}

/// Subscribes under the id `subscriber_id` and the token
/// `subscription_token`, as [`subscription`] says.
pub fn subscribe_as(
    store: &mut Store,
    email_client: &EmailClient,
    base_url: &str,
    form: FormData,
    subscriber_id: u128,
    subscription_token: &str,
) -> (r: Result<EmailRequest, SubscribeError>)
    requires
        old(store).wf(),
    ensures
        final(store).wf(),
        (final(store)@, subscribe_view(r)) == subscription(
            old(store)@,
            email_client@,
            base_url@,
            form.email@,
            form.name@,
            subscriber_id,
            subscription_token@,
        ),
{
    let new_subscriber = match NewSubscriber::try_from(form) {
        Ok(new_subscriber) => new_subscriber,
        Err(message) => {
            return Err(SubscribeError::ValidationError(message));
        },
    };
    if store.has_subscriber(subscriber_id) || store.has_subscriber_email(
        new_subscriber.email.as_ref(),
    ) {
        return Err(
            SubscribeError::UnexpectedError(
                "Failed to insert new subscriber into the database".to_string(),
            ),
        );
    }
    if store.get_subscriber_id_from_token(subscription_token).is_some() {
        return Err(
            SubscribeError::UnexpectedError(
                "Failed to store generated subscription token into the database".to_string(),
            ),
        );
    }
    store.insert_subscriber(subscriber_id, new_subscriber.email.as_ref(), new_subscriber.name.as_ref());
    proof {
        let added = old(store)@.with_subscriber(
            subscriber_id,
            new_subscriber.email@,
            new_subscriber.name@,
        );
        assert(added.subscriber_ids()[old(store)@.subscriptions.len() as int] == subscriber_id);
    }
    store.store_token(subscriber_id, subscription_token);
    Ok(send_confirmation_email(email_client, &new_subscriber, base_url, subscription_token))
}

/// Subscribes the sender of a form.
///
/// The id and the token of the subscription are drawn at random; for those
/// that were drawn, the store and the outcome are what [`subscription`]
/// gives, and the token is of the right shape.
pub fn subscribe(store: &mut Store, email_client: &EmailClient, base_url: &str, form: FormData) -> (r:
    Result<EmailRequest, SubscribeError>)
    requires
        old(store).wf(),
    ensures
        final(store).wf(),
        exists|subscriber_id: u128, token: Seq<char>|
            is_subscription_token(token) && (final(store)@, subscribe_view(r))
                == #[trigger] subscription(
                old(store)@,
                email_client@,
                base_url@,
                form.email@,
                form.name@,
                subscriber_id,
                token,
            ),
{
    let subscriber_id = new_uuid();
    let subscription_token = generate_subscription_token();
    subscribe_as(
        store,
        email_client,
        base_url,
        form,
        subscriber_id,
        subscription_token.as_str(),
    )
}

} // verus!
