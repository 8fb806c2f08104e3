use zero2prod::email_client::EmailClient;
use zero2prod::domain::subscriber_email::SubscriberEmail;
use zero2prod::email_client::DeliveryError;
use zero2prod::issue_delivery_worker::{
    backoff_secs, drain_queue, try_execute_task, worker_step, ExecutionOutcome, WorkerAction,
    WorkerEvent, WorkerState,
};
use zero2prod::idempotency::key::IdempotencyKey;
use zero2prod::idempotency::persistence::{try_processing, NextAction};
use zero2prod::routes::admin::newsletters::{
    accepted_response, publish_newsletter, publish_newsletter_as, publish_next, success_message,
    valid_recipients, NewsletterForm, PublishAction, PublishEvent, PublishState,
};
use zero2prod::store::{NewsletterIssue, Store};

fn form(key: &str) -> NewsletterForm {
    NewsletterForm {
        title: "Newsletter title".to_string(),
        html: "<p>Newsletter body as HTML</p>".to_string(),
        text: "Newsletter body as plain text".to_string(),
        idempotency_key: key.to_string(),
    }
}

fn client() -> EmailClient {
    EmailClient::new(
        "http://127.0.0.1:4000",
        SubscriberEmail::parse("sender@example.com").expect("a valid sender"),
        "token",
        200,
    )
}

fn store_with(confirmed: &[&str], pending: &[&str]) -> Store {
    let mut store = Store::new();
    let mut id: u128 = 1;
    for email in confirmed {
        assert!(store.insert_subscriber(id, email, "le guin"));
        assert_eq!(store.confirm_subscriber(id), 1);
        id += 1;
    }
    for email in pending {
        assert!(store.insert_subscriber(id, email, "le guin"));
        id += 1;
    }
    store
}

#[test]
fn newsletters_are_not_delivered_to_unconfirmed_subscribers() {
    let mut store = store_with(&[], &["ursula_le_guin@gmail.com"]);
    let response = publish_newsletter(&mut store, 1, form("7d1c")).expect("accepted");
    assert_eq!(response.status_code, 303);
    assert_eq!(
        success_message(),
        "The newsletter issue has been accepted - emails will go out shortly"
    );
    assert_eq!(store.issue_count(), 1);
    assert_eq!(store.queue_len(), 0);
    let requests = drain_queue(&mut store, &client());
    assert!(requests.is_empty());
}

#[test]
fn newsletters_are_delivered_to_confirmed_subscribers() {
    let mut store = store_with(&["ursula_le_guin@gmail.com"], &[]);
    let response = publish_newsletter_as(&mut store, 1, form("7d1c"), 99).expect("accepted");
    assert_eq!(response.status_code, 303);
    assert_eq!(response.headers[0].name, "location");
    assert_eq!(response.headers[0].value, b"/admin/newsletters".to_vec());
    assert_eq!(store.queue_len(), 1);
    assert!(store.has_task(99, "ursula_le_guin@gmail.com"));

    let requests = drain_queue(&mut store, &client());
    assert_eq!(requests.len(), 1);
    assert_eq!(requests[0].url, "http://127.0.0.1:4000/v3/mail/send");
    assert_eq!(requests[0].to, "ursula_le_guin@gmail.com");
    assert_eq!(requests[0].from, "sender@example.com");
    assert_eq!(requests[0].subject, "Newsletter title");
    assert_eq!(requests[0].html_content, "<p>Newsletter body as HTML</p>");
    assert_eq!(requests[0].text_content, "Newsletter body as plain text");
    assert_eq!(store.queue_len(), 0);
}

#[test]
fn newsletter_creation_is_idempotent() {
    let mut store = store_with(&["ursula_le_guin@gmail.com"], &[]);
    let first = publish_newsletter(&mut store, 1, form("7d1c")).expect("accepted");
    let mut resent = form("7d1c");
    resent.title = "Another title".to_string();
    resent.html = "<p>Another body</p>".to_string();
    let second = publish_newsletter(&mut store, 1, resent).expect("replayed");
    assert_eq!(first.status_code, second.status_code);
    assert_eq!(first.body, second.body);
    assert_eq!(first.headers.len(), second.headers.len());
    assert_eq!(first.headers[0].name, second.headers[0].name);
    assert_eq!(first.headers[0].value, second.headers[0].value);
    assert_eq!(store.issue_count(), 1);
    assert_eq!(store.queue_len(), 1);
    assert_eq!(store.record_count(), 1);

    let requests = drain_queue(&mut store, &client());
    assert_eq!(requests.len(), 1);
    assert_eq!(requests[0].subject, "Newsletter title");
}

#[test]
fn concurrent_form_submission_is_handled_gracefully() {
    // The second request arrives while the first has begun and not finished.
    let mut store = store_with(&["ursula_le_guin@gmail.com"], &[]);
    let key = IdempotencyKey::parse("7d1c".to_string()).expect("a key");
    let first = try_processing(&mut store, &key, 1).expect("a new key");
    assert!(matches!(first, NextAction::StartProcessing(_)));
    let early = publish_newsletter(&mut store, 1, form("7d1c")).unwrap_err();
    assert_eq!(early.status_code, 500);
    assert_eq!(early.message, "We expected a saved response but didn't find it");
    assert_eq!(store.issue_count(), 0);
    assert_eq!(store.queue_len(), 0);
    assert_eq!(store.record_count(), 1);

    // Served one after the other, both get the same answer and one issue exists.
    let mut store = store_with(&["ursula_le_guin@gmail.com"], &[]);
    let one = publish_newsletter(&mut store, 1, form("7d1c")).expect("accepted");
    let two = publish_newsletter(&mut store, 1, form("7d1c")).expect("replayed");
    assert_eq!(one.status_code, two.status_code);
    assert_eq!(one.headers[0].value, two.headers[0].value);
    assert_eq!(one.body, two.body);
    assert_eq!(store.issue_count(), 1);
    assert_eq!(store.queue_len(), 1);
}

#[test]
fn empty_idempotency_key_is_a_bad_request() {
    let mut store = store_with(&["ursula_le_guin@gmail.com"], &[]);
    let error = publish_newsletter(&mut store, 1, form("")).unwrap_err();
    assert_eq!(error.status_code, 400);
    assert_eq!(error.message, "The idempotency key cannot be empty");
    assert_eq!(store.issue_count(), 0);
    assert_eq!(store.record_count(), 0);
    assert_eq!(store.queue_len(), 0);
}

#[test]
fn a_taken_issue_id_aborts_the_publication() {
    let mut store = store_with(&["ursula_le_guin@gmail.com"], &[]);
    publish_newsletter_as(&mut store, 1, form("first"), 99).expect("accepted");
    let error = publish_newsletter_as(&mut store, 1, form("second"), 99).unwrap_err();
    assert_eq!(error.status_code, 500);
    assert_eq!(error.message, "The newsletter issue could not be stored: its id is already in use");
    assert_eq!(store.issue_count(), 1);
    assert_eq!(store.queue_len(), 1);
    assert_eq!(store.record_count(), 1);
    // Nothing of the failed attempt stays: its key is new again.
    publish_newsletter_as(&mut store, 1, form("second"), 100).expect("accepted");
    assert_eq!(store.issue_count(), 2);
    assert_eq!(store.queue_len(), 2);
}

#[test]
fn each_publication_draws_its_own_issue_id() {
    let mut store = store_with(&["a@example.com", "b@example.com"], &[]);
    for key in ["k1", "k2", "k3", "k4"] {
        publish_newsletter(&mut store, 1, form(key)).expect("accepted");
    }
    assert_eq!(store.issue_count(), 4);
    assert_eq!(store.queue_len(), 8);
}

#[test]
fn one_queue_row_per_confirmed_subscriber() {
    let mut store =
        store_with(&["a@example.com", "b@example.com", "c@example.com"], &["d@example.com"]);
    publish_newsletter_as(&mut store, 1, form("k"), 5).expect("accepted");
    assert_eq!(store.queue_len(), 3);
    assert!(store.has_task(5, "a@example.com"));
    assert!(store.has_task(5, "b@example.com"));
    assert!(store.has_task(5, "c@example.com"));
    assert!(!store.has_task(5, "d@example.com"));

    let requests = drain_queue(&mut store, &client());
    let recipients: Vec<&str> = requests.iter().map(|r| r.to.as_str()).collect();
    assert_eq!(recipients, vec!["a@example.com", "b@example.com", "c@example.com"]);
    assert_eq!(store.queue_len(), 0);
}

#[test]
fn invalid_stored_addresses_are_skipped_at_publication() {
    let mut store = store_with(&["a@example.com", "not-an-address", "c@example.com"], &[]);
    publish_newsletter_as(&mut store, 1, form("k"), 5).expect("accepted");
    assert_eq!(store.queue_len(), 2);
    assert!(!store.has_task(5, "not-an-address"));
}

#[test]
fn worker_on_an_empty_queue_is_idle() {
    let mut store = store_with(&["a@example.com"], &[]);
    let report = try_execute_task(&mut store, &client());
    assert_eq!(report.outcome, ExecutionOutcome::EmptyQueue);
    assert!(report.request.is_none());
    assert_eq!(store.queue_len(), 0);
    assert_eq!(store.subscriber_count(), 1);
    assert_eq!(store.issue_count(), 0);
}

#[test]
fn worker_skips_a_row_with_an_invalid_address() {
    let mut store = Store::new();
    let issue = NewsletterIssue {
        id: 5,
        title: "t".to_string(),
        text: "x".to_string(),
        html: "<p>x</p>".to_string(),
    };
    assert!(store.insert_issue(issue));
    assert!(store.enqueue_task(5, "not-an-address"));
    assert!(store.enqueue_task(5, "b@example.com"));

    let first = try_execute_task(&mut store, &client());
    assert_eq!(first.outcome, ExecutionOutcome::TaskCompleted);
    assert!(first.request.is_none());
    assert_eq!(store.queue_len(), 1);
    assert!(!store.has_task(5, "not-an-address"));

    let second = try_execute_task(&mut store, &client());
    assert_eq!(second.outcome, ExecutionOutcome::TaskCompleted);
    assert_eq!(second.request.expect("an email to send").to, "b@example.com");
    assert_eq!(store.queue_len(), 0);

    let third = try_execute_task(&mut store, &client());
    assert_eq!(third.outcome, ExecutionOutcome::EmptyQueue);
}

#[test]
fn a_row_held_by_another_worker_is_passed_over() {
    let mut store = Store::new();
    let issue = NewsletterIssue {
        id: 5,
        title: "t".to_string(),
        text: "x".to_string(),
        html: "<p>x</p>".to_string(),
    };
    assert!(store.insert_issue(issue));
    assert!(store.enqueue_task(5, "a@example.com"));
    assert!(store.enqueue_task(5, "b@example.com"));
    let held = store.lock_next_task().expect("a free row");
    assert_eq!(held, (5, "a@example.com".to_string()));

    let requests = drain_queue(&mut store, &client());
    assert_eq!(requests.len(), 1);
    assert_eq!(requests[0].to, "b@example.com");
    assert_eq!(store.queue_len(), 1);
    assert!(store.has_task(5, "a@example.com"));
    assert!(store.lock_next_task().is_none());

    // The other worker gives up: its row can be claimed again.
    store.unlock_task(5, "a@example.com");
    let requests = drain_queue(&mut store, &client());
    assert_eq!(requests.len(), 1);
    assert_eq!(requests[0].to, "a@example.com");
    assert_eq!(store.queue_len(), 0);
}

#[test]
fn queue_rows_need_an_issue_and_are_unique() {
    let mut store = Store::new();
    assert!(!store.enqueue_task(5, "a@example.com"));
    let issue = NewsletterIssue {
        id: 5,
        title: "t".to_string(),
        text: "x".to_string(),
        html: "h".to_string(),
    };
    assert!(store.insert_issue(issue));
    let again = NewsletterIssue {
        id: 5,
        title: "other".to_string(),
        text: "x".to_string(),
        html: "h".to_string(),
    };
    assert!(!store.insert_issue(again));
    assert!(store.enqueue_task(5, "a@example.com"));
    assert!(!store.enqueue_task(5, "a@example.com"));
    assert_eq!(store.queue_len(), 1);
    assert_eq!(store.get_issue(5).expect("stored").title, "t");
    assert!(store.get_issue(6).is_none());
    assert_eq!(store.delete_task(5, "b@example.com"), 0);
    assert_eq!(store.delete_task(5, "a@example.com"), 1);
    assert_eq!(store.delete_task(5, "a@example.com"), 0);
}

#[test]
fn worker_backs_off_by_outcome() {
    assert_eq!(backoff_secs::<String>(&Ok(ExecutionOutcome::EmptyQueue)), 10);
    assert_eq!(backoff_secs::<String>(&Ok(ExecutionOutcome::TaskCompleted)), 0);
    assert_eq!(backoff_secs(&Err::<ExecutionOutcome, String>("database is gone".to_string())), 1);
}

#[test]
fn worker_rule_walks_through_an_iteration() {
    let client = client();
    let (state, action) = worker_step(WorkerState::Idle, WorkerEvent::Start, &client);
    assert!(matches!(action, WorkerAction::Dequeue));
    let row = Some((5u128, "b@example.com".to_string()));
    let (state, action) = worker_step(state, WorkerEvent::Dequeued(row), &client);
    assert!(matches!(action, WorkerAction::LoadIssue(5)));
    let issue = NewsletterIssue {
        id: 5,
        title: "t".to_string(),
        text: "x".to_string(),
        html: "<p>x</p>".to_string(),
    };
    let (state, action) = worker_step(state, WorkerEvent::IssueLoaded(issue), &client);
    match action {
        WorkerAction::Send(request) => {
            assert_eq!(request.to, "b@example.com");
            assert_eq!(request.subject, "t");
            assert_eq!(request.html_content, "<p>x</p>");
            assert_eq!(request.text_content, "x");
        }
        _ => panic!("the email is to be sent"),
    }
    // The row goes whether or not the mailer succeeded.
    let unanswered = WorkerEvent::Sent(Err(DeliveryError::Transport));
    let sending = WorkerState::Sending {
        issue_id: 5,
        recipient: SubscriberEmail::parse("b@example.com").expect("a valid address"),
    };
    assert!(matches!(worker_step(sending, unanswered, &client).1, WorkerAction::Delete(5, _)));
    let failed = WorkerEvent::Sent(Err(DeliveryError::Status(500)));
    let (state, action) = worker_step(state, failed, &client);
    match action {
        WorkerAction::Delete(issue_id, email) => {
            assert_eq!((issue_id, email.as_str()), (5, "b@example.com"))
        }
        _ => panic!("the row is to be deleted"),
    }
    let (state, action) = worker_step(state, WorkerEvent::Deleted, &client);
    assert!(matches!(action, WorkerAction::Done(ExecutionOutcome::TaskCompleted)));
    assert!(matches!(state, WorkerState::Idle));
}

#[test]
fn worker_rule_skips_an_invalid_address_and_idles_on_an_empty_queue() {
    let client = client();
    let (state, _) = worker_step(WorkerState::Idle, WorkerEvent::Start, &client);
    let row = Some((5u128, "not-an-address".to_string()));
    let (state, action) = worker_step(state, WorkerEvent::Dequeued(row), &client);
    match action {
        WorkerAction::Delete(issue_id, email) => {
            assert_eq!((issue_id, email.as_str()), (5, "not-an-address"))
        }
        _ => panic!("the row is to be deleted without an email"),
    }
    assert!(matches!(state, WorkerState::Deleting));

    let (state, _) = worker_step(WorkerState::Idle, WorkerEvent::Start, &client);
    let (state, action) = worker_step(state, WorkerEvent::Dequeued(None), &client);
    assert!(matches!(action, WorkerAction::Done(ExecutionOutcome::EmptyQueue)));
    assert!(matches!(state, WorkerState::Idle));

    // An event that answers nothing that was asked ends the iteration.
    let (state, action) = worker_step(WorkerState::Idle, WorkerEvent::Deleted, &client);
    assert!(matches!(action, WorkerAction::Abort));
    assert!(matches!(state, WorkerState::Idle));
}

#[test]
fn recipients_are_the_valid_addresses_in_order() {

    let emails = vec![
        "a@example.com".to_string(),
        "".to_string(),
        "b@example.com".to_string(),
        "nope".to_string(),
    ];
    let recipients = valid_recipients(&emails);
    let kept: Vec<&str> = recipients.iter().map(|r| r.as_ref()).collect();
    assert_eq!(kept, vec!["a@example.com", "b@example.com"]);
    assert!(valid_recipients(&Vec::new()).is_empty());
    let response = accepted_response();
    assert_eq!(response.status_code, 303);
    assert_eq!(response.headers[0].value, b"/admin/newsletters".to_vec());
}

#[test]
fn publish_rule_walks_through_a_new_request() {
    let submitted = PublishEvent::Submitted { user_id: 3, form: form("7d1c"), issue_id: 99 };
    let (state, action) = publish_next(PublishState::Received, submitted);
    match action {
        PublishAction::InsertRecord { user_id, key } => {
            assert_eq!((user_id, key.as_str()), (3, "7d1c"))
        }
        _ => panic!("the key's record is to be added"),
    }
    let (state, action) = publish_next(state, PublishEvent::Inserted(1));
    match action {
        PublishAction::StoreIssue(issue) => {
            assert_eq!(issue.id, 99);
            assert_eq!(issue.title, "Newsletter title");
            assert_eq!(issue.html, "<p>Newsletter body as HTML</p>");
            assert_eq!(issue.text, "Newsletter body as plain text");
        }
        _ => panic!("the issue is to be stored"),
    }
    let (state, action) = publish_next(state, PublishEvent::IssueStored(true));
    assert!(matches!(action, PublishAction::ListRecipients));
    let emails = vec!["a@example.com".to_string(), "broken".to_string()];
    let (state, action) = publish_next(state, PublishEvent::Recipients(emails));
    match action {
        PublishAction::Queue { issue_id, recipients } => {
            assert_eq!(issue_id, 99);
            assert_eq!(recipients.len(), 1);
            assert_eq!(recipients[0].as_ref(), "a@example.com");
        }
        _ => panic!("the queue rows are to be added"),
    }
    let (state, action) = publish_next(state, PublishEvent::Queued);
    match action {
        PublishAction::Save { user_id, key, response } => {
            assert_eq!((user_id, key.as_str()), (3, "7d1c"));
            assert_eq!(response.status_code, 303);
            assert_eq!(response.headers[0].value, b"/admin/newsletters".to_vec());
        }
        _ => panic!("the response is to be saved"),
    }
    let (state, action) = publish_next(state, PublishEvent::Saved);
    match action {
        PublishAction::Done(Ok(response)) => assert_eq!(response.status_code, 303),
        _ => panic!("the request is to be answered"),
    }
    assert!(matches!(state, PublishState::Received));
}

#[test]
fn publish_rule_replays_rolls_back_and_refuses() {
    let submitted = PublishEvent::Submitted { user_id: 3, form: form(""), issue_id: 99 };
    let (_, action) = publish_next(PublishState::Received, submitted);
    match action {
        PublishAction::Done(Err(error)) => assert_eq!(error.status_code, 400),
        _ => panic!("an empty key is refused"),
    }

    let submitted = PublishEvent::Submitted { user_id: 3, form: form("k"), issue_id: 99 };
    let (state, _) = publish_next(PublishState::Received, submitted);
    let (state, action) = publish_next(state, PublishEvent::Inserted(0));
    assert!(matches!(action, PublishAction::ReadSaved { user_id: 3, .. }));
    let (_, action) = publish_next(state, PublishEvent::SavedRow(Some(None)));
    match action {
        PublishAction::Done(Err(error)) => {
            assert_eq!(error.status_code, 500);
            assert_eq!(error.message, "We expected a saved response but didn't find it");
        }
        _ => panic!("an unanswered key is an error"),
    }

    let submitted = PublishEvent::Submitted { user_id: 3, form: form("k"), issue_id: 99 };
    let (state, _) = publish_next(PublishState::Received, submitted);
    let (state, _) = publish_next(state, PublishEvent::Inserted(1));
    let (state, action) = publish_next(state, PublishEvent::IssueStored(false));
    assert!(matches!(action, PublishAction::Rollback { user_id: 3, .. }));
    let (_, action) = publish_next(state, PublishEvent::RolledBack);
    match action {
        PublishAction::Done(Err(error)) => assert_eq!(error.status_code, 500),
        _ => panic!("a failed publication is an error"),
    }

    let (_, action) = publish_next(PublishState::Saving, PublishEvent::Queued);
    assert!(matches!(action, PublishAction::Abort));
}
