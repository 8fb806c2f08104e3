//! The delivery worker: it claims one queue row at a time, prepares the
//! email that the row asks for, and removes the row.
use crate::domain::subscriber_email::{is_valid_email, SubscriberEmail};
use crate::email_client::{
    DeliveryError, EmailClient, EmailClientView, EmailRequest, EmailRequestView,
};
use crate::store::{
    first_unlocked, has_unlocked, is_first_unlocked, lemma_index_of_unique, lemma_remove_unique,
    lemma_unlocked_has_first, IssueView, NewsletterIssue, Store, StoreView, TaskView,
};
use vstd::pervasive::unreached;
use vstd::prelude::*;

verus! {

/// How one iteration of the worker ended.
#[derive(Clone, Copy, Debug, PartialEq, Eq, Structural)]
pub enum ExecutionOutcome {
    TaskCompleted,
    EmptyQueue,
}

/// What one iteration did: how it ended, and the email to hand to the
/// mailer, if the claimed row asked for one that can be sent.
#[derive(Debug)]
pub struct TaskReport {
    pub outcome: ExecutionOutcome,
    pub request: Option<EmailRequest>,
}

/// The seconds to wait after an empty queue before the next claim.
pub const IDLE_BACKOFF_SECS: u64 = 10;

/// The seconds to wait after a failed iteration before the next claim.
pub const ERROR_BACKOFF_SECS: u64 = 1;

/// Where one iteration of the worker stands.
#[derive(Debug)]
pub enum WorkerState {
    /// Between iterations.
    Idle,
    /// A claim was asked for.
    Claiming,
    /// A row with a valid address was claimed; its issue was asked for.
    Loading { issue_id: u128, recipient: SubscriberEmail },
    /// The email was handed to the mailer.
    Sending { issue_id: u128, recipient: SubscriberEmail },
    /// The deletion of the claimed row was asked for.
    Deleting,
}

/// What the outside reports to the worker.
#[derive(Debug)]
pub enum WorkerEvent {
    /// An iteration is to begin.
    Start,
    /// The claim gave a row, or found none.
    Dequeued(Option<(u128, String)>),
    /// The issue that was asked for.
    IssueLoaded(NewsletterIssue),
    /// How the mailer ended.
    Sent(Result<(), DeliveryError>),
    /// The claimed row is deleted and the deletion committed.
    Deleted,
}

/// What the worker asks the outside to do next.
#[derive(Debug)]
pub enum WorkerAction {
    /// Claim one row that no other worker holds.
    Dequeue,
    /// Read an issue.
    LoadIssue(u128),
    /// Send an email.
    Send(EmailRequest),
    /// Delete the claimed row and commit.
    Delete(u128, String),
    /// The iteration is over.
    Done(ExecutionOutcome),
    /// The event does not answer what was asked: give the iteration up.
    Abort,
}

/// The content of a [`WorkerState`].
pub enum WorkerStateView {
    Idle,
    Claiming,
    Loading(u128, Seq<char>),
    Sending(u128, Seq<char>),
    Deleting,
}

/// The content of a [`WorkerEvent`].
pub enum WorkerEventView {
    Start,
    Dequeued(Option<(u128, Seq<char>)>),
    IssueLoaded(IssueView),
    Sent(Result<(), DeliveryError>),
    Deleted,
}

/// The content of a [`WorkerAction`].
pub enum WorkerActionView {
    Dequeue,
    LoadIssue(u128),
    Send(EmailRequestView),
    Delete(u128, Seq<char>),
    Done(ExecutionOutcome),
    Abort,
}

impl View for WorkerState {
    type V = WorkerStateView;

    open spec fn view(&self) -> WorkerStateView {
        match self {
            WorkerState::Idle => WorkerStateView::Idle,
            WorkerState::Claiming => WorkerStateView::Claiming,
            WorkerState::Loading { issue_id, recipient } => WorkerStateView::Loading(
                *issue_id,
                recipient@,
            ),
            WorkerState::Sending { issue_id, recipient } => WorkerStateView::Sending(
                *issue_id,
                recipient@,
            ),
            WorkerState::Deleting => WorkerStateView::Deleting,
        }
    }
}

impl View for WorkerEvent {
    type V = WorkerEventView;

    open spec fn view(&self) -> WorkerEventView {
        match self {
            WorkerEvent::Start => WorkerEventView::Start,
            WorkerEvent::Dequeued(None) => WorkerEventView::Dequeued(None),
            WorkerEvent::Dequeued(Some(row)) => WorkerEventView::Dequeued(Some((row.0, row.1@))),
            WorkerEvent::IssueLoaded(issue) => WorkerEventView::IssueLoaded(issue@),
            WorkerEvent::Sent(result) => WorkerEventView::Sent(*result),
            WorkerEvent::Deleted => WorkerEventView::Deleted,
        }
    }
}

impl View for WorkerAction {
    type V = WorkerActionView;

    open spec fn view(&self) -> WorkerActionView {
        match self {
            WorkerAction::Dequeue => WorkerActionView::Dequeue,
            WorkerAction::LoadIssue(issue_id) => WorkerActionView::LoadIssue(*issue_id),
            WorkerAction::Send(request) => WorkerActionView::Send(request@),
            WorkerAction::Delete(issue_id, email) => WorkerActionView::Delete(*issue_id, email@),
            WorkerAction::Done(outcome) => WorkerActionView::Done(*outcome),
            WorkerAction::Abort => WorkerActionView::Abort,
        }
    }
}

/// The worker's rule: from where an iteration stands and what was
/// reported, where it stands next and what it asks for.
///
/// A claimed row with an invalid address goes straight to deletion. A row
/// goes to deletion after the mailer has ended, however it ended. An event
/// that does not answer the last request ends the iteration with `Abort`.
pub open spec fn step(state: WorkerStateView, event: WorkerEventView, client: EmailClientView) -> (
    WorkerStateView,
    WorkerActionView,
) {
    match (state, event) {
        (WorkerStateView::Idle, WorkerEventView::Start) => (
            WorkerStateView::Claiming,
            WorkerActionView::Dequeue,
        ),
        (WorkerStateView::Claiming, WorkerEventView::Dequeued(None)) => (
            WorkerStateView::Idle,
            WorkerActionView::Done(ExecutionOutcome::EmptyQueue),
        ),
        (WorkerStateView::Claiming, WorkerEventView::Dequeued(Some(row))) => {
            if is_valid_email(row.1) {
                (WorkerStateView::Loading(row.0, row.1), WorkerActionView::LoadIssue(row.0))
            } else {
                (WorkerStateView::Deleting, WorkerActionView::Delete(row.0, row.1))
            }
        },
        (WorkerStateView::Loading(issue_id, email), WorkerEventView::IssueLoaded(issue)) => (
            WorkerStateView::Sending(issue_id, email),
            WorkerActionView::Send(client.request(email, issue.title, issue.html, issue.text)),
        ),
        (WorkerStateView::Sending(issue_id, email), WorkerEventView::Sent(_)) => (
            WorkerStateView::Deleting,
            WorkerActionView::Delete(issue_id, email),
        ),
        (WorkerStateView::Deleting, WorkerEventView::Deleted) => (
            WorkerStateView::Idle,
            WorkerActionView::Done(ExecutionOutcome::TaskCompleted),
        ),
        _ => (WorkerStateView::Idle, WorkerActionView::Abort),
    }
}

/// Applies the worker's rule once.
pub fn worker_step(state: WorkerState, event: WorkerEvent, email_client: &EmailClient) -> (r: (
    WorkerState,
    WorkerAction,
))
    ensures
        (r.0@, r.1@) == step(state@, event@, email_client@),
{
    match (state, event) {
        (WorkerState::Idle, WorkerEvent::Start) => (WorkerState::Claiming, WorkerAction::Dequeue),
        (WorkerState::Claiming, WorkerEvent::Dequeued(None)) => (
            WorkerState::Idle,
            WorkerAction::Done(ExecutionOutcome::EmptyQueue),
        ),
        (WorkerState::Claiming, WorkerEvent::Dequeued(Some(row))) => {
            match SubscriberEmail::parse(row.1.as_str()) {
                Ok(recipient) => (
                    WorkerState::Loading { issue_id: row.0, recipient },
                    WorkerAction::LoadIssue(row.0),
                ),
                Err(_) => (WorkerState::Deleting, WorkerAction::Delete(row.0, row.1)),
            }
        },
        (WorkerState::Loading { issue_id, recipient }, WorkerEvent::IssueLoaded(issue)) => {
            let request = email_client.build_request(
                &recipient,
                issue.title.as_str(),
                issue.html.as_str(),
                issue.text.as_str(),
            );
            (WorkerState::Sending { issue_id, recipient }, WorkerAction::Send(request))
        },
        (WorkerState::Sending { issue_id, recipient }, WorkerEvent::Sent(_)) => (
            WorkerState::Deleting,
            WorkerAction::Delete(issue_id, recipient.to_string()),
        ),
        (WorkerState::Deleting, WorkerEvent::Deleted) => (
            WorkerState::Idle,
            WorkerAction::Done(ExecutionOutcome::TaskCompleted),
        ),
        _ => (WorkerState::Idle, WorkerAction::Abort),
    }
}

/// The content of an optional request.
pub open spec fn request_view(request: Option<EmailRequest>) -> Option<EmailRequestView> {
    match request {
        Some(r) => Some(r@),
        None => None,
    }
}

/// The content of a list of requests.
pub open spec fn requests_view(requests: Seq<EmailRequest>) -> Seq<EmailRequestView> {
    Seq::new(requests.len(), |i: int| requests[i]@)
}

/// The email that a queue row asks for: the row's issue, addressed to the
/// row's recipient. A recipient whose stored address is not valid gets none.
pub open spec fn request_for(s: StoreView, client: EmailClientView, task: TaskView) -> Option<
    EmailRequestView,
> {
    if is_valid_email(task.email) {
        let issue = s.issue(task.issue_id);
        Some(client.request(task.email, issue.title, issue.html, issue.text))
    } else {
        None
    }
}

/// One iteration of the worker: the first row that no worker holds leaves
/// the queue, whatever its address; with no such row nothing changes.
pub open spec fn execute_task(s: StoreView, client: EmailClientView) -> (
    StoreView,
    ExecutionOutcome,
    Option<EmailRequestView>,
) {
    if has_unlocked(s.queue) {
        let i = first_unlocked(s.queue);
        (
            StoreView { queue: s.queue.remove(i), ..s },
            ExecutionOutcome::TaskCompleted,
            request_for(s, client, s.queue[i]),
        )
    } else {
        (s, ExecutionOutcome::EmptyQueue, None)
    }
}

/// The worker run until it finds the queue empty: the store it leaves, and
/// the emails it prepared, in order.
pub open spec fn drain(s: StoreView, client: EmailClientView) -> (StoreView, Seq<EmailRequestView>)
    decreases s.queue.len(),
{
    if has_unlocked(s.queue) {
        let step = execute_task(s, client);
        let rest = drain(step.0, client);
        (
            rest.0,
            match step.2 {
                Some(request) => seq![request] + rest.1,
                None => rest.1,
            },
        )
    } else {
        (s, Seq::empty())
    }
}

/// Whether the store `now` holds the first free row of `before` for a
/// worker, and that row is the one of this key.
pub open spec fn claimed(before: StoreView, now: StoreView, issue_id: u128, email: Seq<char>) -> bool {
    &&& has_unlocked(before.queue)
    &&& is_first_unlocked(before.queue, first_unlocked(before.queue))
    &&& before.queue[first_unlocked(before.queue)].issue_id == issue_id
    &&& before.queue[first_unlocked(before.queue)].email == email
    &&& now == before.with_lock(first_unlocked(before.queue), true)
}

/// What holds between the steps of an iteration that began on the store
/// `before`: how far the store has come, and what has been prepared.
pub open spec fn in_flight(
    before: StoreView,
    now: StoreView,
    state: WorkerStateView,
    event: WorkerEventView,
    request: Option<EmailRequestView>,
    client: EmailClientView,
) -> bool {
    match (state, event) {
        (WorkerStateView::Idle, WorkerEventView::Start) => now == before && request is None,
        (WorkerStateView::Claiming, WorkerEventView::Dequeued(None)) => {
            &&& !has_unlocked(before.queue)
            &&& now == before
            &&& request is None
        },
        (WorkerStateView::Claiming, WorkerEventView::Dequeued(Some(row))) => {
            &&& claimed(before, now, row.0, row.1)
            &&& request is None
        },
        (WorkerStateView::Loading(issue_id, email), WorkerEventView::IssueLoaded(issue)) => {
            &&& claimed(before, now, issue_id, email)
            &&& is_valid_email(email)
            &&& issue == before.issue(issue_id)
            &&& request is None
        },
        (WorkerStateView::Sending(issue_id, email), WorkerEventView::Sent(_)) => {
            &&& claimed(before, now, issue_id, email)
            &&& is_valid_email(email)
            &&& request == request_for(before, client, before.queue[first_unlocked(before.queue)])
        },
        (WorkerStateView::Deleting, WorkerEventView::Deleted) => {
            &&& has_unlocked(before.queue)
            &&& now == (StoreView {
                queue: before.queue.remove(first_unlocked(before.queue)),
                ..before
            })
            &&& request == request_for(before, client, before.queue[first_unlocked(before.queue)])
        },
        _ => false,
    }
}

/// The steps that an iteration in this state has before it.
pub open spec fn steps_left(state: WorkerStateView) -> nat {
    match state {
        WorkerStateView::Idle => 5,
        WorkerStateView::Claiming => 4,
        WorkerStateView::Loading(_, _) => 3,
        WorkerStateView::Sending(_, _) => 2,
        WorkerStateView::Deleting => 1,
    }
}

/// A row that a worker holds is deleted by its key, and that leaves the
/// queue as if the row had been taken out before it was claimed.
pub proof fn lemma_claimed_row_deleted(before: StoreView, now: StoreView, issue_id: u128, email: Seq<char>)
    requires
        before.wf(),
        claimed(before, now, issue_id, email),
    ensures
        now.has_issue(issue_id),
        now.issue(issue_id) == before.issue(issue_id),
        now.without_task(issue_id, email) == (StoreView {
            queue: before.queue.remove(first_unlocked(before.queue)),
            ..before
        }),
{
    let i = first_unlocked(before.queue);
    assert(before.issue_ids().contains(before.queue[i].issue_id));
    assert(now.task_keys() =~= before.task_keys());
    lemma_index_of_unique(before.task_keys(), i);
    assert(now.queue.remove(i) =~= before.queue.remove(i));
}

/// Runs one iteration of the worker on the store: the worker's rule is
/// applied step by step, and the store does what each step asks for. The
/// email that the rule hands to the mailer is put into the report.
///
/// With no row to claim the outcome is `EmptyQueue` and the store is
/// untouched. Otherwise the first free row is claimed and deleted, and the
/// report carries the email to send unless the row's address is invalid.
pub fn try_execute_task(store: &mut Store, email_client: &EmailClient) -> (report: TaskReport)
    requires
        old(store).wf(),
    ensures
        final(store).wf(),
        (final(store)@, report.outcome, request_view(report.request)) == execute_task(
            old(store)@,
            email_client@,
        ),
{
    let mut state = WorkerState::Idle;
    let mut event = WorkerEvent::Start;
    let mut request: Option<EmailRequest> = None;
    loop
        invariant
            old(store).wf(),
            store.wf(),
            in_flight(
                old(store)@,
                store@,
                state@,
                event@,
                request_view(request),
                email_client@,
            ),
        decreases steps_left(state@),
    {
        let ghost here = store@;
        let ghost stood = state@;
        let ghost heard = event@;
        let (next, action) = worker_step(state, event, email_client);
        state = next;
        match action {
            WorkerAction::Dequeue => {
                event = WorkerEvent::Dequeued(store.lock_next_task());
            },
            WorkerAction::LoadIssue(issue_id) => {
                proof {
                    let email = heard->Dequeued_0.unwrap().1;
                    lemma_claimed_row_deleted(old(store)@, here, issue_id, email);
                }
                event = match store.get_issue(issue_id) {
                    Some(issue) => WorkerEvent::IssueLoaded(issue),
                    None => unreached(),
                };
            },
            WorkerAction::Send(prepared) => {
                request = Some(prepared);
                event = WorkerEvent::Sent(Ok(()));
            },
            WorkerAction::Delete(issue_id, email) => {
                proof {
                    lemma_claimed_row_deleted(old(store)@, here, issue_id, email@);
                }
                store.delete_task(issue_id, email.as_str());
                event = WorkerEvent::Deleted;
            },
            WorkerAction::Done(outcome) => {
                return TaskReport { outcome, request };
            },
            WorkerAction::Abort => {
                return unreached();
            },
        }
    }
}

/// Runs the worker until it finds no row to claim, and returns the emails
/// to send, in the order in which their rows were claimed.
pub fn drain_queue(store: &mut Store, email_client: &EmailClient) -> (requests: Vec<EmailRequest>)
    requires
        old(store).wf(),
    ensures
        final(store).wf(),
        (final(store)@, requests_view(requests@)) == drain(old(store)@, email_client@),
{
    let mut requests: Vec<EmailRequest> = Vec::new();
    let ghost start = store@;
    assert(requests_view(requests@) + drain(start, email_client@).1 =~= drain(
        start,
        email_client@,
    ).1);
    loop
        invariant
            store.wf(),
            start == old(store)@,
            drain(start, email_client@).0 == drain(store@, email_client@).0,
            drain(start, email_client@).1 == requests_view(requests@) + drain(
                store@,
                email_client@,
            ).1,
        decreases store@.queue.len(),
    {
        let ghost here = store@;
        let ghost sent = requests_view(requests@);
        let report = try_execute_task(store, email_client);
        match report.outcome {
            ExecutionOutcome::EmptyQueue => {
                assert(sent + Seq::<EmailRequestView>::empty() =~= sent);
                assert(drain(here, email_client@) == (here, Seq::<EmailRequestView>::empty()));
                assert(drain(start, email_client@) == (store@, requests_view(requests@)));
                return requests;
            },
            ExecutionOutcome::TaskCompleted => {
                if let Some(request) = report.request {
                    requests.push(request);
                    assert(requests_view(requests@) =~= sent.push(request@));
                    assert(sent + (seq![request@] + drain(store@, email_client@).1) =~= sent.push(
                        request@,
                    ) + drain(store@, email_client@).1);
                }
            },
        }
    }
}

/// The seconds the worker waits before its next iteration: none after a
/// completed task, the idle backoff after an empty queue, and the shorter
/// error backoff after a failure.
pub fn backoff_secs<E>(result: &Result<ExecutionOutcome, E>) -> (secs: u64)
    ensures
        secs == match result {
            Ok(ExecutionOutcome::TaskCompleted) => 0,
            Ok(ExecutionOutcome::EmptyQueue) => IDLE_BACKOFF_SECS,
            Err(_) => ERROR_BACKOFF_SECS,
        },
{
    match result {
        Ok(ExecutionOutcome::TaskCompleted) => 0,
        Ok(ExecutionOutcome::EmptyQueue) => IDLE_BACKOFF_SECS,
        Err(_) => ERROR_BACKOFF_SECS,
    }
}

/// On a queue without a row to claim (an empty one, or one whose rows are
/// all held by other workers) an iteration ends as `EmptyQueue`, prepares no
/// email and leaves the store as it was.
pub proof fn law_empty_queue_is_idle(s: StoreView, client: EmailClientView)
    requires
        forall|j: int| 0 <= j < s.queue.len() ==> (#[trigger] s.queue[j]).locked,
    ensures
        execute_task(s, client) == (s, ExecutionOutcome::EmptyQueue, None::<EmailRequestView>),
{
    assert forall|i: int| !is_first_unlocked(s.queue, i) by {
        if 0 <= i < s.queue.len() {
            assert(s.queue[i].locked);
        }
    }
}

/// A claimed row whose stored address is not valid leaves the queue without
/// an email being prepared, and the rows after it are processed as if it had
/// never been there.
pub proof fn law_invalid_recipient_is_skipped(s: StoreView, client: EmailClientView)
    requires
        has_unlocked(s.queue),
        !is_valid_email(s.queue[first_unlocked(s.queue)].email),
    ensures
        execute_task(s, client).0.queue == s.queue.remove(first_unlocked(s.queue)),
        execute_task(s, client).1 == ExecutionOutcome::TaskCompleted,
        execute_task(s, client).2 is None,
        drain(s, client) == drain(execute_task(s, client).0, client),
{
}

/// Running the worker until it finds nothing to claim leaves only rows that
/// other workers hold, and none at all where no row was held; it prepares
/// at most one email for each row that it removed, and touches no other
/// table.
pub proof fn law_drain_leaves_nothing_pending(s: StoreView, client: EmailClientView)
    ensures
        ({
            let done = drain(s, client);
            &&& done.0.subscriptions == s.subscriptions
            &&& done.0.issues == s.issues
            &&& done.0.idempotency == s.idempotency
            &&& done.0.queue.len() <= s.queue.len()
            &&& done.1.len() <= s.queue.len() - done.0.queue.len()
            &&& forall|j: int| 0 <= j < done.0.queue.len() ==> (#[trigger] done.0.queue[j]).locked
            &&& (forall|j: int| 0 <= j < s.queue.len() ==> !(#[trigger] s.queue[j]).locked)
                ==> done.0.queue.len() == 0
        }),
    decreases s.queue.len(),
{
    if has_unlocked(s.queue) {
        let i = first_unlocked(s.queue);
        let step = execute_task(s, client);
        let rest = drain(step.0, client);
        assert(is_first_unlocked(s.queue, i));
        assert(step.0.queue.len() == s.queue.len() - 1);
        law_drain_leaves_nothing_pending(step.0, client);
        assert(drain(s, client).0 == rest.0);
        assert(drain(s, client).1.len() <= rest.1.len() + 1) by {
            if let Some(request) = step.2 {
                assert((seq![request] + rest.1).len() == rest.1.len() + 1);
            }
        }
        if forall|j: int| 0 <= j < s.queue.len() ==> !(#[trigger] s.queue[j]).locked {
            assert forall|j: int| 0 <= j < step.0.queue.len() implies !(
            #[trigger] step.0.queue[j]).locked by {
                let j0 = if j < i { j } else { j + 1 };
                assert(step.0.queue[j] == s.queue[j0]);
            }
        }
    } else {
        assert forall|j: int| 0 <= j < s.queue.len() implies (#[trigger] s.queue[j]).locked by {
            if !s.queue[j].locked {
                lemma_unlocked_has_first(s.queue, j);
            }
        }
        if s.queue.len() > 0 {
            assert(s.queue[0].locked);
        }
    }
}

/// A row that an iteration claimed and processed is gone from the queue,
/// and the schema's constraints still hold.
pub proof fn law_processed_row_is_gone(s: StoreView, client: EmailClientView)
    requires
        s.wf(),
        has_unlocked(s.queue),
    ensures
        execute_task(s, client).0.wf(),
        !execute_task(s, client).0.has_task(
            s.queue[first_unlocked(s.queue)].issue_id,
            s.queue[first_unlocked(s.queue)].email,
        ),
        execute_task(s, client).0.queue.len() == s.queue.len() - 1,
{
    let i = first_unlocked(s.queue);
    let after = execute_task(s, client).0;
    assert(is_first_unlocked(s.queue, i));
    assert(after.task_keys() =~= s.task_keys().remove(i));
    lemma_remove_unique(s.task_keys(), i);
    assert forall|j: int| 0 <= j < after.queue.len() implies after.issue_ids().contains(
        #[trigger] after.queue[j].issue_id,
    ) by {
        let j0 = if j < i { j } else { j + 1 };
        assert(after.queue[j] == s.queue[j0]);
    }
}

/// A worker that gives its claim up, as one that crashed does, leaves the
/// store as it was before the claim: the row can be claimed again.
pub proof fn law_released_row_is_claimable_again(s: StoreView)
    requires
        s.wf(),
        has_unlocked(s.queue),
    ensures
        ({
            let i = first_unlocked(s.queue);
            s.with_lock(i, true).with_release(s.queue[i].issue_id, s.queue[i].email) == s
        }),
{
    let i = first_unlocked(s.queue);
    let held = s.with_lock(i, true);
    assert(is_first_unlocked(s.queue, i));
    assert(held.task_keys() =~= s.task_keys());
    lemma_index_of_unique(s.task_keys(), i);
    assert(held.with_lock(i, false).queue =~= s.queue);
}

/// However the mailer ended, the worker asks next for the deletion of the
/// row that it claimed: a failed delivery is not tried again.
pub proof fn law_row_is_deleted_whatever_the_mailer_did(
    issue_id: u128,
    email: Seq<char>,
    outcome: Result<(), DeliveryError>,
    client: EmailClientView,
)
    ensures
        step(WorkerStateView::Sending(issue_id, email), WorkerEventView::Sent(outcome), client) == (
            WorkerStateView::Deleting,
            WorkerActionView::Delete(issue_id, email),
        ),
{
}

/// A claimed row whose stored address is not valid is never handed to the
/// mailer: the worker asks for its deletion at once, and the iteration then
/// ends as completed.
pub proof fn law_invalid_address_goes_straight_to_deletion(
    issue_id: u128,
    email: Seq<char>,
    client: EmailClientView,
)
    requires
        !is_valid_email(email),
    ensures
        step(
            WorkerStateView::Claiming,
            WorkerEventView::Dequeued(Some((issue_id, email))),
            client,
        ) == (WorkerStateView::Deleting, WorkerActionView::Delete(issue_id, email)),
        step(WorkerStateView::Deleting, WorkerEventView::Deleted, client) == (
            WorkerStateView::Idle,
            WorkerActionView::Done(ExecutionOutcome::TaskCompleted),
        ),
{
}

} // verus!
