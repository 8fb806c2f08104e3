//! Publishing a newsletter issue: the issue and one queue row per confirmed
//! subscriber are stored together with the response, and no email is sent.
use crate::domain::subscriber_email::{is_valid_email, SubscriberEmail};
use crate::email_client::EmailClientView;
use crate::issue_delivery_worker::{drain, law_drain_leaves_nothing_pending};
use crate::idempotency::key::{empty_key_message, IdempotencyKey};
use crate::idempotency::persistence::{
    begin_or_join, capture_response, encode_response, expect_saved_response, read_saved_response,
    row_view, saved_response_of_row, IdempotencyError, NextActionView,
};
use crate::response::{see_other, see_other_view, Response, ResponseView};
use crate::store::{
    confirmed_emails, lemma_confirmed_emails_members, lemma_confirmed_emails_unique,
    lemma_index_of_unique, lemma_push_unique, lemma_record_added_then_removed, strings_view,
    IssueView, NewsletterIssue, Store, StoreView, StoredResponse, StoredResponseView, TaskView,
};
use crate::utils::{e400, e500, new_uuid, HttpError, HttpErrorView};
use vstd::pervasive::unreached;
use vstd::prelude::*;

verus! {

/// The fields of the publish form.
#[derive(Debug)]
pub struct NewsletterForm {
    pub title: String,
    pub html: String,
    pub text: String,
    pub idempotency_key: String,
}

/// The content of a [`NewsletterForm`].
pub struct NewsletterFormView {
    pub title: Seq<char>,
    pub html: Seq<char>,
    pub text: Seq<char>,
    pub idempotency_key: Seq<char>,
}

impl View for NewsletterForm {
    type V = NewsletterFormView;

    open spec fn view(&self) -> NewsletterFormView {
        NewsletterFormView {
            title: self.title@,
            html: self.html@,
            text: self.text@,
            idempotency_key: self.idempotency_key@,
        }
    }
}

/// The notice shown to the user once an issue has been accepted.
pub open spec fn success_message_view() -> Seq<char> {
    "The newsletter issue has been accepted - emails will go out shortly"@
}

/// The message reported where the id drawn for a new issue is in use.
pub open spec fn issue_id_taken_message() -> Seq<char> {
    "The newsletter issue could not be stored: its id is already in use"@
}

/// The response to an accepted issue: a redirect back to the form.
pub open spec fn accepted() -> ResponseView {
    see_other_view("/admin/newsletters")
}

/// The store after a queue row for `email` is asked for: added where the
/// address is valid, the issue exists and the row is not there yet.
pub open spec fn enqueue(s: StoreView, issue_id: u128, email: Seq<char>) -> StoreView {
    if is_valid_email(email) && s.has_issue(issue_id) && !s.has_task(issue_id, email) {
        s.with_task(issue_id, email)
    } else {
        s
    }
}

/// The store after a queue row is asked for each of `emails`, in order.
pub open spec fn enqueue_all(s: StoreView, issue_id: u128, emails: Seq<Seq<char>>) -> StoreView
    decreases emails.len(),
{
    if emails.len() == 0 {
        s
    } else {
        enqueue(enqueue_all(s, issue_id, emails.drop_last()), issue_id, emails.last())
    }
}

/// What publishing does to the store, and how it answers, where `issue_id`
/// is the id drawn for the new issue.
///
/// An empty key is refused. A key that was answered before gets that answer
/// again and nothing changes; one whose first attempt has no answer yet is
/// an error. A new key stores the issue, one queue row per confirmed
/// subscriber with a valid address, and the answer, all or nothing.
pub open spec fn publish(s: StoreView, user_id: u128, form: NewsletterFormView, issue_id: u128) -> (
    StoreView,
    Result<ResponseView, HttpErrorView>,
) {
    let key = form.idempotency_key;
    if key.len() == 0 {
        (s, Err(HttpErrorView { status_code: 400, message: empty_key_message() }))
    } else {
        match begin_or_join(s, user_id, key).1 {
            Err(e) => (s, Err(HttpErrorView { status_code: 500, message: e.message_view() })),
            Ok(NextActionView::ReturnSavedResponse(response)) => (s, Ok(response)),
            Ok(NextActionView::StartProcessing(_, _)) => {
                if s.has_issue(issue_id) {
                    (s, Err(HttpErrorView { status_code: 500, message: issue_id_taken_message() }))
                } else {
                    let issue = IssueView {
                        id: issue_id,
                        title: form.title,
                        text: form.text,
                        html: form.html,
                    };
                    let started = s.with_record(user_id, key, None).with_issue(issue);
                    let queued = enqueue_all(started, issue_id, confirmed_emails(s.subscriptions));
                    (
                        queued.with_response(user_id, key, encode_response(accepted())),
                        Ok(accepted()),
                    )
                }
            },
        }
    }
}

/// The content of a handler's result.
pub open spec fn result_view(r: Result<Response, HttpError>) -> Result<ResponseView, HttpErrorView> {
    match r {
        Ok(response) => Ok(response@),
        Err(e) => Err(e@),
    }
}

/// The notice shown to the user once an issue has been accepted.
pub fn success_message() -> (s: String)
    ensures
        s@ == success_message_view(),
{
    "The newsletter issue has been accepted - emails will go out shortly".to_string()
}

/// The addresses among `emails` that are valid, in order.
pub open spec fn valid_only(emails: Seq<Seq<char>>) -> Seq<Seq<char>>
    decreases emails.len(),
{
    if emails.len() == 0 {
        Seq::empty()
    } else {
        let rest = valid_only(emails.drop_last());
        if is_valid_email(emails.last()) {
            rest.push(emails.last())
        } else {
            rest
        }
    }
}

/// The content of a list of recipients.
pub open spec fn recipients_view(recipients: Seq<SubscriberEmail>) -> Seq<Seq<char>> {
    Seq::new(recipients.len(), |i: int| recipients[i]@)
}

/// Asking for a row for every address comes to the same as asking for a row
/// for every valid one: an address that is not valid gets none.
pub proof fn lemma_enqueue_all_skips_invalid(s: StoreView, issue_id: u128, emails: Seq<Seq<char>>)
    ensures
        enqueue_all(s, issue_id, valid_only(emails)) == enqueue_all(s, issue_id, emails),
    decreases emails.len(),
{
    if emails.len() > 0 {
        let front = emails.drop_last();
        lemma_enqueue_all_skips_invalid(s, issue_id, front);
        if is_valid_email(emails.last()) {
            let kept = valid_only(front).push(emails.last());
            assert(kept.drop_last() =~= valid_only(front));
            assert(kept.last() == emails.last());
        }
    }
}

/// Picks the recipients of an issue out of the stored addresses of the
/// confirmed subscribers: those that are valid, in order. An address that
/// is not valid is passed over.
pub fn valid_recipients(emails: &Vec<String>) -> (recipients: Vec<SubscriberEmail>)
    ensures
        recipients_view(recipients@) == valid_only(strings_view(emails@)),
{
    let mut recipients: Vec<SubscriberEmail> = Vec::new();
    let mut i: usize = 0;
    assert(strings_view(emails@).take(0) =~= Seq::empty());
    assert(recipients_view(recipients@) =~= Seq::empty());
    while i < emails.len()
        invariant
            i <= emails.len(),
            recipients_view(recipients@) == valid_only(strings_view(emails@).take(i as int)),
        decreases emails.len() - i,
    {
        proof {
            let next = strings_view(emails@).take(i + 1);
            assert(next.drop_last() =~= strings_view(emails@).take(i as int));
            assert(next.last() == emails@[i as int]@);
        }
        let ghost picked = recipients_view(recipients@);
        match SubscriberEmail::parse(emails[i].as_str()) {
            Ok(recipient) => {
                recipients.push(recipient);
                assert(recipients_view(recipients@) =~= picked.push(emails@[i as int]@));
            },
            Err(_) => {},
        }
        i += 1;
    }
    assert(strings_view(emails@).take(i as int) =~= strings_view(emails@));
    recipients
}

/// The response to an accepted issue: a redirect back to the form.
pub fn accepted_response() -> (r: Response)
    ensures
        r@ == accepted(),
{
    see_other("/admin/newsletters")
}

/// Adds a queue row for the issue and each recipient.
fn enqueue_delivery_tasks(store: &mut Store, issue_id: u128, recipients: &Vec<SubscriberEmail>)
    requires
        old(store).wf(),
    ensures
        final(store).wf(),
        final(store)@ == enqueue_all(old(store)@, issue_id, recipients_view(recipients@)),
{
    let mut i: usize = 0;
    assert(recipients_view(recipients@).take(0) =~= Seq::empty());
    while i < recipients.len()
        invariant
            i <= recipients.len(),
            store.wf(),
            store@ == enqueue_all(old(store)@, issue_id, recipients_view(recipients@).take(i as int)),
        decreases recipients.len() - i,
    {
        proof {
            let next = recipients_view(recipients@).take(i + 1);
            assert(next.drop_last() =~= recipients_view(recipients@).take(i as int));
            assert(next.last() == recipients@[i as int]@);
        }
        store.enqueue_task(issue_id, recipients[i].as_ref());
        i += 1;
    }
    assert(recipients_view(recipients@).take(i as int) =~= recipients_view(recipients@));
}

/// Where the handling of one publish request stands.
#[derive(Debug)]
pub enum PublishState {
    /// Nothing has been done yet.
    Received,
    /// The key's record was asked to be added.
    Inserting { user_id: u128, key: IdempotencyKey, issue: NewsletterIssue },
    /// The key is known; its saved response was asked for.
    Reading,
    /// The issue was asked to be stored.
    Storing { user_id: u128, key: IdempotencyKey, issue_id: u128 },
    /// The addresses of the confirmed subscribers were asked for.
    Listing { user_id: u128, key: IdempotencyKey, issue_id: u128 },
    /// The queue rows were asked to be added.
    Queuing { user_id: u128, key: IdempotencyKey },
    /// The response was asked to be saved and everything committed.
    Saving,
    /// Everything was asked to be undone.
    RollingBack,
}

/// What the outside reports to the handler.
#[derive(Debug)]
pub enum PublishEvent {
    /// A form arrived from a logged-in user, with the id drawn for its issue.
    Submitted { user_id: u128, form: NewsletterForm, issue_id: u128 },
    /// How many records the insertion added.
    Inserted(u64),
    /// What the table holds under the key.
    SavedRow(Option<Option<StoredResponse>>),
    /// Whether the issue was stored.
    IssueStored(bool),
    /// The stored addresses of the confirmed subscribers.
    Recipients(Vec<String>),
    /// The queue rows are added.
    Queued,
    /// The response is saved and everything committed.
    Saved,
    /// Everything is undone.
    RolledBack,
}

/// What the handler asks the outside to do next.
#[derive(Debug)]
pub enum PublishAction {
    /// Add a record without a response under the key, unless one exists.
    InsertRecord { user_id: u128, key: String },
    /// Read what the table holds under the key.
    ReadSaved { user_id: u128, key: String },
    /// Store the issue.
    StoreIssue(NewsletterIssue),
    /// Read the addresses of the confirmed subscribers.
    ListRecipients,
    /// Add one queue row for the issue and each recipient.
    Queue { issue_id: u128, recipients: Vec<SubscriberEmail> },
    /// Save the response under the key and commit.
    Save { user_id: u128, key: String, response: StoredResponse },
    /// Undo what was done for this request.
    Rollback { user_id: u128, key: String },
    /// Answer the request.
    Done(Result<Response, HttpError>),
    /// The event does not answer what was asked: give the request up.
    Abort,
}

/// The content of a [`PublishState`].
pub enum PublishStateView {
    Received,
    Inserting(u128, Seq<char>, IssueView),
    Reading,
    Storing(u128, Seq<char>, u128),
    Listing(u128, Seq<char>, u128),
    Queuing(u128, Seq<char>),
    Saving,
    RollingBack,
}

/// The content of a [`PublishEvent`].
pub enum PublishEventView {
    Submitted(u128, NewsletterFormView, u128),
    Inserted(u64),
    SavedRow(Option<Option<StoredResponseView>>),
    IssueStored(bool),
    Recipients(Seq<Seq<char>>),
    Queued,
    Saved,
    RolledBack,
}

/// The content of a [`PublishAction`].
pub enum PublishActionView {
    InsertRecord(u128, Seq<char>),
    ReadSaved(u128, Seq<char>),
    StoreIssue(IssueView),
    ListRecipients,
    Queue(u128, Seq<Seq<char>>),
    Save(u128, Seq<char>, StoredResponseView),
    Rollback(u128, Seq<char>),
    Done(Result<ResponseView, HttpErrorView>),
    Abort,
}

impl View for PublishState {
    type V = PublishStateView;

    open spec fn view(&self) -> PublishStateView {
        match self {
            PublishState::Received => PublishStateView::Received,
            PublishState::Inserting { user_id, key, issue } => PublishStateView::Inserting(
                *user_id,
                key@,
                issue@,
            ),
            PublishState::Reading => PublishStateView::Reading,
            PublishState::Storing { user_id, key, issue_id } => PublishStateView::Storing(
                *user_id,
                key@,
                *issue_id,
            ),
            PublishState::Listing { user_id, key, issue_id } => PublishStateView::Listing(
                *user_id,
                key@,
                *issue_id,
            ),
            PublishState::Queuing { user_id, key } => PublishStateView::Queuing(*user_id, key@),
            PublishState::Saving => PublishStateView::Saving,
            PublishState::RollingBack => PublishStateView::RollingBack,
        }
    }
}

impl View for PublishEvent {
    type V = PublishEventView;

    open spec fn view(&self) -> PublishEventView {
        match self {
            PublishEvent::Submitted { user_id, form, issue_id } => PublishEventView::Submitted(
                *user_id,
                form@,
                *issue_id,
            ),
            PublishEvent::Inserted(rows) => PublishEventView::Inserted(*rows),
            PublishEvent::SavedRow(row) => PublishEventView::SavedRow(row_view(*row)),
            PublishEvent::IssueStored(stored) => PublishEventView::IssueStored(*stored),
            PublishEvent::Recipients(emails) => PublishEventView::Recipients(strings_view(emails@)),
            PublishEvent::Queued => PublishEventView::Queued,
            PublishEvent::Saved => PublishEventView::Saved,
            PublishEvent::RolledBack => PublishEventView::RolledBack,
        }
    }
}

impl View for PublishAction {
    type V = PublishActionView;

    open spec fn view(&self) -> PublishActionView {
        match self {
            PublishAction::InsertRecord { user_id, key } => PublishActionView::InsertRecord(
                *user_id,
                key@,
            ),
            PublishAction::ReadSaved { user_id, key } => PublishActionView::ReadSaved(*user_id, key@),
            PublishAction::StoreIssue(issue) => PublishActionView::StoreIssue(issue@),
            PublishAction::ListRecipients => PublishActionView::ListRecipients,
            PublishAction::Queue { issue_id, recipients } => PublishActionView::Queue(
                *issue_id,
                recipients_view(recipients@),
            ),
            PublishAction::Save { user_id, key, response } => PublishActionView::Save(
                *user_id,
                key@,
                response@,
            ),
            PublishAction::Rollback { user_id, key } => PublishActionView::Rollback(*user_id, key@),
            PublishAction::Done(r) => PublishActionView::Done(result_view(*r)),
            PublishAction::Abort => PublishActionView::Abort,
        }
    }
}

/// The answer to a request under a known key, given what the table holds
/// under it: the saved response, or a server error where none was saved or
/// what was saved cannot be read.
pub open spec fn replay(row: Option<Option<StoredResponseView>>) -> Result<
    ResponseView,
    HttpErrorView,
> {
    match saved_response_of_row(row) {
        Ok(Some(response)) => Ok(response),
        Ok(None) => Err(
            HttpErrorView {
                status_code: 500,
                message: IdempotencyError::MissingSavedResponse.message_view(),
            },
        ),
        Err(e) => Err(HttpErrorView { status_code: 500, message: e.message_view() }),
    }
}

/// The handler's rule: from where a request stands and what was reported,
/// where it stands next and what it asks for.
///
/// An empty key is refused at once. Where the record could be added the
/// request is new: its issue is stored, the valid addresses among the
/// confirmed subscribers' get a queue row each, and the accepted response is
/// saved. Where it could not, the request is a repetition and is answered
/// from what was saved. An issue that cannot be stored undoes the request.
/// An event that does not answer the last request ends with `Abort`.
pub open spec fn publish_step(state: PublishStateView, event: PublishEventView) -> (
    PublishStateView,
    PublishActionView,
) {
    match (state, event) {
        (PublishStateView::Received, PublishEventView::Submitted(user_id, form, issue_id)) => {
            if form.idempotency_key.len() == 0 {
                (
                    PublishStateView::Received,
                    PublishActionView::Done(
                        Err(HttpErrorView { status_code: 400, message: empty_key_message() }),
                    ),
                )
            } else {
                (
                    PublishStateView::Inserting(
                        user_id,
                        form.idempotency_key,
                        IssueView {
                            id: issue_id,
                            title: form.title,
                            text: form.text,
                            html: form.html,
                        },
                    ),
                    PublishActionView::InsertRecord(user_id, form.idempotency_key),
                )
            }
        },
        (PublishStateView::Inserting(user_id, key, issue), PublishEventView::Inserted(rows)) => {
            if rows > 0 {
                (
                    PublishStateView::Storing(user_id, key, issue.id),
                    PublishActionView::StoreIssue(issue),
                )
            } else {
                (PublishStateView::Reading, PublishActionView::ReadSaved(user_id, key))
            }
        },
        (PublishStateView::Reading, PublishEventView::SavedRow(row)) => (
            PublishStateView::Received,
            PublishActionView::Done(replay(row)),
        ),
        (
            PublishStateView::Storing(user_id, key, issue_id),
            PublishEventView::IssueStored(stored),
        ) => {
            if stored {
                (
                    PublishStateView::Listing(user_id, key, issue_id),
                    PublishActionView::ListRecipients,
                )
            } else {
                (PublishStateView::RollingBack, PublishActionView::Rollback(user_id, key))
            }
        },
        (
            PublishStateView::Listing(user_id, key, issue_id),
            PublishEventView::Recipients(emails),
        ) => (
            PublishStateView::Queuing(user_id, key),
            PublishActionView::Queue(issue_id, valid_only(emails)),
        ),
        (PublishStateView::Queuing(user_id, key), PublishEventView::Queued) => (
            PublishStateView::Saving,
            PublishActionView::Save(user_id, key, encode_response(accepted())),
        ),
        (PublishStateView::Saving, PublishEventView::Saved) => (
            PublishStateView::Received,
            PublishActionView::Done(Ok(accepted())),
        ),
        (PublishStateView::RollingBack, PublishEventView::RolledBack) => (
            PublishStateView::Received,
            PublishActionView::Done(
                Err(HttpErrorView { status_code: 500, message: issue_id_taken_message() }),
            ),
        ),
        _ => (PublishStateView::Received, PublishActionView::Abort),
    }
}

/// Applies the handler's rule once.
pub fn publish_next(state: PublishState, event: PublishEvent) -> (r: (PublishState, PublishAction))
    ensures
        (r.0@, r.1@) == publish_step(state@, event@),
{
    match (state, event) {
        (PublishState::Received, PublishEvent::Submitted { user_id, form, issue_id }) => {
            let NewsletterForm { title, html, text, idempotency_key } = form;
            match IdempotencyKey::parse(idempotency_key) {
                Err(message) => (PublishState::Received, PublishAction::Done(Err(e400(message)))),
                Ok(key) => {
                    let action = PublishAction::InsertRecord {
                        user_id,
                        key: key.as_ref().to_string(),
                    };
                    let issue = NewsletterIssue { id: issue_id, title, text, html };
                    (PublishState::Inserting { user_id, key, issue }, action)
                },
            }
        },
        (PublishState::Inserting { user_id, key, issue }, PublishEvent::Inserted(rows)) => {
            if rows > 0 {
                (
                    PublishState::Storing { user_id, key, issue_id: issue.id },
                    PublishAction::StoreIssue(issue),
                )
            } else {
                (
                    PublishState::Reading,
                    PublishAction::ReadSaved { user_id, key: key.as_ref().to_string() },
                )
            }
        },
        (PublishState::Reading, PublishEvent::SavedRow(row)) => {
            let answer = match read_saved_response(row) {
                Ok(saved) => match expect_saved_response(saved) {
                    Ok(response) => Ok(response),
                    Err(e) => Err(e500(e.message())),
                },
                Err(e) => Err(e500(e.message())),
            };
            (PublishState::Received, PublishAction::Done(answer))
        },
        (PublishState::Storing { user_id, key, issue_id }, PublishEvent::IssueStored(stored)) => {
            if stored {
                (PublishState::Listing { user_id, key, issue_id }, PublishAction::ListRecipients)
            } else {
                (
                    PublishState::RollingBack,
                    PublishAction::Rollback { user_id, key: key.as_ref().to_string() },
                )
            }
        },
        (PublishState::Listing { user_id, key, issue_id }, PublishEvent::Recipients(emails)) => {
            let recipients = valid_recipients(&emails);
            (PublishState::Queuing { user_id, key }, PublishAction::Queue { issue_id, recipients })
        },
        (PublishState::Queuing { user_id, key }, PublishEvent::Queued) => {
            let response = capture_response(&accepted_response());
            (
                PublishState::Saving,
                PublishAction::Save { user_id, key: key.as_ref().to_string(), response },
            )
        },
        (PublishState::Saving, PublishEvent::Saved) => (
            PublishState::Received,
            PublishAction::Done(Ok(accepted_response())),
        ),
        (PublishState::RollingBack, PublishEvent::RolledBack) => (
            PublishState::Received,
            PublishAction::Done(
                Err(
                    e500(
                        "The newsletter issue could not be stored: its id is already in use".to_string(),
                    ),
                ),
            ),
        ),
        _ => (PublishState::Received, PublishAction::Abort),
    }
}

/// What holds between the steps of a request that arrived on the store
/// `before`: how far the store has come.
pub open spec fn publishing(
    before: StoreView,
    now: StoreView,
    state: PublishStateView,
    event: PublishEventView,
    user_id: u128,
    form: NewsletterFormView,
    issue_id: u128,
) -> bool {
    let key = form.idempotency_key;
    let issue = IssueView { id: issue_id, title: form.title, text: form.text, html: form.html };
    let recorded = before.with_record(user_id, key, None);
    let started = recorded.with_issue(issue);
    let queued = enqueue_all(started, issue_id, confirmed_emails(before.subscriptions));
    match (state, event) {
        (PublishStateView::Received, PublishEventView::Submitted(u, f, i)) => {
            &&& now == before
            &&& u == user_id
            &&& f == form
            &&& i == issue_id
        },
        (PublishStateView::Inserting(u, k, held), PublishEventView::Inserted(rows)) => {
            &&& u == user_id && k == key && held == issue && key.len() > 0
            &&& rows == if before.has_record(user_id, key) { 0u64 } else { 1u64 }
            &&& now == if rows == 1 { recorded } else { before }
        },
        (PublishStateView::Reading, PublishEventView::SavedRow(row)) => {
            &&& key.len() > 0
            &&& before.has_record(user_id, key)
            &&& now == before
            &&& row == Some(before.record(user_id, key).response)
        },
        (PublishStateView::Storing(u, k, i), PublishEventView::IssueStored(stored)) => {
            &&& u == user_id && k == key && i == issue_id && key.len() > 0
            &&& !before.has_record(user_id, key)
            &&& stored == !before.has_issue(issue_id)
            &&& now == if stored { started } else { recorded }
        },
        (PublishStateView::Listing(u, k, i), PublishEventView::Recipients(emails)) => {
            &&& u == user_id && k == key && i == issue_id && key.len() > 0
            &&& !before.has_record(user_id, key)
            &&& !before.has_issue(issue_id)
            &&& now == started
            &&& emails == confirmed_emails(before.subscriptions)
        },
        (PublishStateView::Queuing(u, k), PublishEventView::Queued) => {
            &&& u == user_id && k == key && key.len() > 0
            &&& !before.has_record(user_id, key)
            &&& !before.has_issue(issue_id)
            &&& now == queued
        },
        (PublishStateView::Saving, PublishEventView::Saved) => {
            &&& key.len() > 0
            &&& !before.has_record(user_id, key)
            &&& !before.has_issue(issue_id)
            &&& now == queued.with_response(user_id, key, encode_response(accepted()))
        },
        (PublishStateView::RollingBack, PublishEventView::RolledBack) => {
            &&& key.len() > 0
            &&& !before.has_record(user_id, key)
            &&& before.has_issue(issue_id)
            &&& now == before
        },
        _ => false,
    }
}

/// The steps that a request in this state has before it.
pub open spec fn publish_steps_left(state: PublishStateView) -> nat {
    match state {
        PublishStateView::Received => 7,
        PublishStateView::Inserting(_, _, _) => 6,
        PublishStateView::Storing(_, _, _) => 5,
        PublishStateView::Listing(_, _, _) => 4,
        PublishStateView::Queuing(_, _) => 3,
        PublishStateView::Saving => 1,
        PublishStateView::Reading => 1,
        PublishStateView::RollingBack => 1,
    }
}

/// Publishes an issue under the id `issue_id`, as [`publish`] says: the
/// handler's rule is applied step by step, and the store does what each step
/// asks for.
pub fn publish_newsletter_as(
    store: &mut Store,
    user_id: u128,
    form: NewsletterForm,
    issue_id: u128,
) -> (r: Result<Response, HttpError>)
    requires
        old(store).wf(),
    ensures
        final(store).wf(),
        (final(store)@, result_view(r)) == publish(old(store)@, user_id, form@, issue_id),
{
    let ghost asked = form@;
    let mut state = PublishState::Received;
    let mut event = PublishEvent::Submitted { user_id, form, issue_id };
    loop
        invariant
            old(store).wf(),
            store.wf(),
            asked == form@,
            publishing(old(store)@, store@, state@, event@, user_id, asked, issue_id),
        decreases publish_steps_left(state@),
    {
        let ghost here = store@;
        proof {
            if !old(store)@.has_record(user_id, asked.idempotency_key) {
                lemma_record_added_then_removed(
                    old(store)@,
                    user_id,
                    asked.idempotency_key,
                    None,
                );
            }
        }
        let (next, action) = publish_next(state, event);
        state = next;
        match action {
            PublishAction::InsertRecord { user_id, key } => {
                event = PublishEvent::Inserted(store.insert_idempotency_record(user_id, key.as_str()));
            },
            PublishAction::ReadSaved { user_id, key } => {
                event = PublishEvent::SavedRow(store.saved_response(user_id, key.as_str()));
            },
            PublishAction::StoreIssue(issue) => {
                event = PublishEvent::IssueStored(store.insert_issue(issue));
            },
            PublishAction::ListRecipients => {
                event = PublishEvent::Recipients(store.confirmed_subscriber_emails());
            },
            PublishAction::Queue { issue_id, recipients } => {
                proof {
                    lemma_enqueue_all_skips_invalid(
                        here,
                        issue_id,
                        confirmed_emails(old(store)@.subscriptions),
                    );
                }
                enqueue_delivery_tasks(store, issue_id, &recipients);
                event = PublishEvent::Queued;
            },
            PublishAction::Save { user_id, key, response } => {
                store.update_saved_response(user_id, key.as_str(), response);
                event = PublishEvent::Saved;
            },
            PublishAction::Rollback { user_id, key } => {
                store.delete_idempotency_record(user_id, key.as_str());
                event = PublishEvent::RolledBack;
            },
            PublishAction::Done(answer) => {
                return answer;
            },
            PublishAction::Abort => {
                return unreached();
            },
        }
    }
}

/// Publishes an issue for the logged-in user `user_id`.
///
/// The id of the issue is drawn at random; for the id that was drawn, the
/// store and the answer are those that [`publish`] gives.
pub fn publish_newsletter(store: &mut Store, user_id: u128, form: NewsletterForm) -> (r: Result<
    Response,
    HttpError,
>)
    requires
        old(store).wf(),
    ensures
        final(store).wf(),
        exists|issue_id: u128|
            (final(store)@, result_view(r)) == #[trigger] publish(
                old(store)@,
                user_id,
                form@,
                issue_id,
            ),
{
    let issue_id = new_uuid();
    publish_newsletter_as(store, user_id, form, issue_id)
}

/// Asking for queue rows touches no table but the queue, keeps the rows
/// that were there, and keeps the schema's constraints.
pub proof fn lemma_enqueue_all_frame(s: StoreView, issue_id: u128, emails: Seq<Seq<char>>)
    requires
        s.wf(),
    ensures
        enqueue_all(s, issue_id, emails).wf(),
        enqueue_all(s, issue_id, emails).subscriptions == s.subscriptions,
        enqueue_all(s, issue_id, emails).issues == s.issues,
        enqueue_all(s, issue_id, emails).idempotency == s.idempotency,
        s.queue.len() <= enqueue_all(s, issue_id, emails).queue.len() <= s.queue.len() + emails.len(),
        forall|j: int|
            0 <= j < s.queue.len() ==> enqueue_all(s, issue_id, emails).queue[j] == s.queue[j],
        forall|j: int|
            s.queue.len() <= j < enqueue_all(s, issue_id, emails).queue.len() ==> {
                let row = #[trigger] enqueue_all(s, issue_id, emails).queue[j];
                &&& row.issue_id == issue_id
                &&& !row.locked
                &&& is_valid_email(row.email)
                &&& emails.contains(row.email)
            },
    decreases emails.len(),
{
    if emails.len() > 0 {
        let before = enqueue_all(s, issue_id, emails.drop_last());
        lemma_enqueue_all_frame(s, issue_id, emails.drop_last());
        let after = enqueue(before, issue_id, emails.last());
        assert forall|e: Seq<char>| emails.drop_last().contains(e) implies emails.contains(e) by {
            let k = emails.drop_last().index_of(e);
            assert(emails[k] == e);
        }
        assert(emails.contains(emails.last())) by {
            assert(emails[emails.len() - 1] == emails.last());
        }
        if after != before {
            assert(after.task_keys() =~= before.task_keys().push((issue_id, emails.last())));
            lemma_push_unique(before.task_keys(), (issue_id, emails.last()));
        }
    }
}

/// A key that was answered once is answered likewise ever after: a second
/// publish call under the same key, whatever else its form holds, returns
/// the response of the first and leaves the store as the first left it, so
/// that one issue and one set of queue rows exist for the key.
pub proof fn law_publish_is_idempotent(
    s: StoreView,
    user_id: u128,
    first: NewsletterFormView,
    first_id: u128,
    second: NewsletterFormView,
    second_id: u128,
)
    requires
        s.wf(),
        second.idempotency_key == first.idempotency_key,
        publish(s, user_id, first, first_id).1 is Ok,
    ensures
        publish(publish(s, user_id, first, first_id).0, user_id, second, second_id) == publish(
            s,
            user_id,
            first,
            first_id,
        ),
        publish(s, user_id, first, first_id).0.issues.len() <= s.issues.len() + 1,
{
    let key = first.idempotency_key;
    if !s.has_record(user_id, key) {
        lemma_accepted_is_recorded(s, user_id, first, first_id);
    }
}

/// After a new key's issue has been accepted, the key's record holds the
/// accepted response, and exactly one issue has been added.
pub proof fn lemma_accepted_is_recorded(
    s: StoreView,
    user_id: u128,
    form: NewsletterFormView,
    issue_id: u128,
)
    requires
        s.wf(),
        form.idempotency_key.len() > 0,
        !s.has_record(user_id, form.idempotency_key),
        !s.has_issue(issue_id),
    ensures
        publish(s, user_id, form, issue_id).1 == Ok::<ResponseView, HttpErrorView>(accepted()),
        publish(s, user_id, form, issue_id).0.wf(),
        publish(s, user_id, form, issue_id).0.has_record(user_id, form.idempotency_key),
        publish(s, user_id, form, issue_id).0.record(user_id, form.idempotency_key).response == Some(
            encode_response(accepted()),
        ),
        publish(s, user_id, form, issue_id).0.issues == s.issues.push(
            IssueView { id: issue_id, title: form.title, text: form.text, html: form.html },
        ),
        publish(s, user_id, form, issue_id).0.subscriptions == s.subscriptions,
        publish(s, user_id, form, issue_id).0.queue == enqueue_all(
            s.with_record(user_id, form.idempotency_key, None).with_issue(
                IssueView { id: issue_id, title: form.title, text: form.text, html: form.html },
            ),
            issue_id,
            confirmed_emails(s.subscriptions),
        ).queue,
{
    let key = form.idempotency_key;
    let issue = IssueView { id: issue_id, title: form.title, text: form.text, html: form.html };
    let recorded = s.with_record(user_id, key, None);
    lemma_record_added_then_removed(s, user_id, key, None);
    let started = recorded.with_issue(issue);
    lemma_issue_added(recorded, issue);
    let queued = enqueue_all(started, issue_id, confirmed_emails(s.subscriptions));
    lemma_enqueue_all_frame(started, issue_id, confirmed_emails(s.subscriptions));
    let done = queued.with_response(user_id, key, encode_response(accepted()));
    let n = s.idempotency.len() as int;
    assert(queued.record_keys() =~= recorded.record_keys());
    assert(done.record_keys() =~= recorded.record_keys());
    assert(done.issue_ids() =~= queued.issue_ids());
    assert(done.task_keys() =~= queued.task_keys());
    assert(done.subscriber_ids() =~= queued.subscriber_ids());
    assert(done.subscriber_emails() =~= queued.subscriber_emails());
}

/// Adding an issue under a new id keeps the schema's constraints.
pub proof fn lemma_issue_added(s: StoreView, issue: IssueView)
    requires
        s.wf(),
        !s.has_issue(issue.id),
    ensures
        s.with_issue(issue).wf(),
        s.with_issue(issue).has_issue(issue.id),
        s.with_issue(issue).issue(issue.id) == issue,
{
    let added = s.with_issue(issue);
    let n = s.issues.len() as int;
    assert(added.issue_ids() =~= s.issue_ids().push(issue.id));
    lemma_push_unique(s.issue_ids(), issue.id);
    assert(added.issue_ids()[n] == issue.id);
    lemma_index_of_unique(added.issue_ids(), n);
    assert forall|i: int| 0 <= i < added.queue.len() implies added.issue_ids().contains(
        #[trigger] added.queue[i].issue_id,
    ) by {
        let id = s.queue[i].issue_id;
        let k = s.issue_ids().index_of(id);
        assert(added.issue_ids()[k] == id);
    }
}

/// The queue rows that a list of recipients of one issue asks for.
pub open spec fn tasks_for(issue_id: u128, emails: Seq<Seq<char>>) -> Seq<TaskView> {
    Seq::new(emails.len(), |i: int| TaskView { issue_id, email: emails[i], locked: false })
}

/// Where the issue exists and has no rows yet, and the recipients are valid
/// and distinct, each of them gets a row, in order.
pub proof fn lemma_enqueue_all_valid(s: StoreView, issue_id: u128, emails: Seq<Seq<char>>)
    requires
        s.wf(),
        s.has_issue(issue_id),
        forall|j: int| 0 <= j < s.queue.len() ==> (#[trigger] s.queue[j]).issue_id != issue_id,
        emails.no_duplicates(),
        forall|i: int| 0 <= i < emails.len() ==> is_valid_email(#[trigger] emails[i]),
    ensures
        enqueue_all(s, issue_id, emails).queue == s.queue + tasks_for(issue_id, emails),
    decreases emails.len(),
{
    if emails.len() == 0 {
        assert(s.queue + tasks_for(issue_id, emails) =~= s.queue);
    } else {
        let front = emails.drop_last();
        let last = emails.last();
        let n = emails.len() - 1;
        let before = enqueue_all(s, issue_id, front);
        lemma_enqueue_all_valid(s, issue_id, front);
        lemma_enqueue_all_frame(s, issue_id, front);
        assert(before.issue_ids() =~= s.issue_ids());
        assert forall|j: int| 0 <= j < before.task_keys().len() implies before.task_keys()[j] != (
            issue_id,
            last,
        ) by {
            if j >= s.queue.len() {
                let k = j - s.queue.len();
                assert(before.queue[j] == tasks_for(issue_id, front)[k]);
                assert(emails[k] != emails[n]);
            }
        }
        assert(enqueue(before, issue_id, last).queue =~= s.queue + tasks_for(issue_id, emails));
    }
}

/// While a key's first attempt has no answer yet, another attempt under the
/// key fails with a server error and changes nothing; once the first has
/// been answered, the other gets the same answer and changes nothing. Either
/// way one issue, and one set of queue rows, exists for the key.
pub proof fn law_racing_publish_creates_one_issue(
    s: StoreView,
    user_id: u128,
    winner: NewsletterFormView,
    winner_id: u128,
    loser: NewsletterFormView,
    loser_id: u128,
)
    requires
        s.wf(),
        winner.idempotency_key.len() > 0,
        loser.idempotency_key == winner.idempotency_key,
        !s.has_record(user_id, winner.idempotency_key),
        !s.has_issue(winner_id),
    ensures
        ({
            let began = begin_or_join(s, user_id, winner.idempotency_key).0;
            publish(began, user_id, loser, loser_id) == (
                began,
                Err::<ResponseView, HttpErrorView>(
                    HttpErrorView {
                        status_code: 500,
                        message: IdempotencyError::MissingSavedResponse.message_view(),
                    },
                ),
            )
        }),
        ({
            let done = publish(s, user_id, winner, winner_id);
            &&& done.1 == Ok::<ResponseView, HttpErrorView>(accepted())
            &&& publish(done.0, user_id, loser, loser_id) == done
            &&& done.0.issues.len() == s.issues.len() + 1
        }),
{
    lemma_record_added_then_removed(s, user_id, winner.idempotency_key, None);
    lemma_accepted_is_recorded(s, user_id, winner, winner_id);
    law_publish_is_idempotent(s, user_id, winner, winner_id, loser, loser_id);
}

/// Publishing adds queue rows only for confirmed subscribers: every row
/// that it adds is for the new issue and for the valid address of a
/// confirmed subscription, and the rows that were there stay as they were.
/// A subscriber who has not confirmed gets no row.
pub proof fn law_only_confirmed_subscribers_are_queued(
    s: StoreView,
    user_id: u128,
    form: NewsletterFormView,
    issue_id: u128,
)
    requires
        s.wf(),
    ensures
        ({
            let after = publish(s, user_id, form, issue_id).0;
            &&& s.queue.len() <= after.queue.len() <= s.queue.len() + confirmed_emails(
                s.subscriptions,
            ).len()
            &&& forall|j: int| 0 <= j < s.queue.len() ==> after.queue[j] == s.queue[j]
            &&& forall|j: int|
                s.queue.len() <= j < after.queue.len() ==> {
                    let row = #[trigger] after.queue[j];
                    &&& row.issue_id == issue_id
                    &&& is_valid_email(row.email)
                    &&& exists|k: int|
                        0 <= k < s.subscriptions.len() && (#[trigger] s.subscriptions[k]).confirmed
                            && s.subscriptions[k].email == row.email
                }
        }),
{
    let key = form.idempotency_key;
    let after = publish(s, user_id, form, issue_id).0;
    if after != s {
        let issue = IssueView { id: issue_id, title: form.title, text: form.text, html: form.html };
        lemma_accepted_is_recorded(s, user_id, form, issue_id);
        lemma_record_added_then_removed(s, user_id, key, None);
        let recorded = s.with_record(user_id, key, None);
        lemma_issue_added(recorded, issue);
        let started = recorded.with_issue(issue);
        let emails = confirmed_emails(s.subscriptions);
        lemma_enqueue_all_frame(started, issue_id, emails);
        lemma_confirmed_emails_members(s.subscriptions);
        assert forall|j: int| s.queue.len() <= j < after.queue.len() implies {
            let row = #[trigger] after.queue[j];
            exists|k: int|
                0 <= k < s.subscriptions.len() && (#[trigger] s.subscriptions[k]).confirmed
                    && s.subscriptions[k].email == row.email
        } by {
            assert(emails.contains(after.queue[j].email));
        }
    }
}

/// Where every confirmed subscriber's stored address is valid, publishing a
/// new issue adds exactly one queue row for each of them, in order.
pub proof fn law_one_row_per_confirmed_subscriber(
    s: StoreView,
    user_id: u128,
    form: NewsletterFormView,
    issue_id: u128,
)
    requires
        s.wf(),
        form.idempotency_key.len() > 0,
        !s.has_record(user_id, form.idempotency_key),
        !s.has_issue(issue_id),
        forall|k: int|
            0 <= k < s.subscriptions.len() && (#[trigger] s.subscriptions[k]).confirmed
                ==> is_valid_email(s.subscriptions[k].email),
    ensures
        publish(s, user_id, form, issue_id).0.queue == s.queue + tasks_for(
            issue_id,
            confirmed_emails(s.subscriptions),
        ),
        publish(s, user_id, form, issue_id).0.queue.len() == s.queue.len() + confirmed_emails(
            s.subscriptions,
        ).len(),
{
    let key = form.idempotency_key;
    let issue = IssueView { id: issue_id, title: form.title, text: form.text, html: form.html };
    lemma_accepted_is_recorded(s, user_id, form, issue_id);
    lemma_record_added_then_removed(s, user_id, key, None);
    let recorded = s.with_record(user_id, key, None);
    lemma_issue_added(recorded, issue);
    let started = recorded.with_issue(issue);
    let emails = confirmed_emails(s.subscriptions);
    lemma_confirmed_emails_members(s.subscriptions);
    lemma_confirmed_emails_unique(s);
    assert forall|i: int| 0 <= i < emails.len() implies is_valid_email(#[trigger] emails[i]) by {
        assert(emails.contains(emails[i]));
    }
    assert forall|j: int| 0 <= j < started.queue.len() implies (#[trigger] started.queue[j]).issue_id
        != issue_id by {
        assert(s.issue_ids().contains(s.queue[j].issue_id));
    }
    lemma_enqueue_all_valid(started, issue_id, emails);
}

/// From publication to delivery: on a store with an empty queue, a new
/// issue gets at most one queue row per confirmed subscriber, and exactly
/// one where every stored address is valid; once the worker has run until it
/// finds nothing to claim, no row is left, and it has prepared at most one
/// email per confirmed subscriber.
pub proof fn law_published_issue_is_drained(
    s: StoreView,
    client: EmailClientView,
    user_id: u128,
    form: NewsletterFormView,
    issue_id: u128,
)
    requires
        s.wf(),
        s.queue.len() == 0,
        form.idempotency_key.len() > 0,
        !s.has_record(user_id, form.idempotency_key),
        !s.has_issue(issue_id),
    ensures
        ({
            let published = publish(s, user_id, form, issue_id).0;
            let confirmed = confirmed_emails(s.subscriptions).len();
            let drained = drain(published, client);
            &&& published.queue.len() <= confirmed
            &&& (forall|k: int|
                0 <= k < s.subscriptions.len() && (#[trigger] s.subscriptions[k]).confirmed
                    ==> is_valid_email(s.subscriptions[k].email)) ==> published.queue.len()
                == confirmed
            &&& drained.0.queue.len() == 0
            &&& drained.1.len() <= published.queue.len()
            &&& drained.0.issues == published.issues
            &&& drained.0.idempotency == published.idempotency
        }),
{
    let published = publish(s, user_id, form, issue_id).0;
    law_only_confirmed_subscribers_are_queued(s, user_id, form, issue_id);
    if forall|k: int|
        0 <= k < s.subscriptions.len() && (#[trigger] s.subscriptions[k]).confirmed
            ==> is_valid_email(s.subscriptions[k].email) {
        law_one_row_per_confirmed_subscriber(s, user_id, form, issue_id);
    }
    lemma_accepted_is_recorded(s, user_id, form, issue_id);
    let issue = IssueView { id: issue_id, title: form.title, text: form.text, html: form.html };
    lemma_record_added_then_removed(s, user_id, form.idempotency_key, None);
    let recorded = s.with_record(user_id, form.idempotency_key, None);
    lemma_issue_added(recorded, issue);
    lemma_enqueue_all_frame(recorded.with_issue(issue), issue_id, confirmed_emails(s.subscriptions));
    assert forall|j: int| 0 <= j < published.queue.len() implies !(
    #[trigger] published.queue[j]).locked by {}
    law_drain_leaves_nothing_pending(published, client);
}

} // verus!
