use zero2prod::idempotency::key::IdempotencyKey;
use zero2prod::idempotency::persistence::{
    capture_response, expect_saved_response, get_saved_response, read_saved_response,
    restore_response, rollback, save_response, try_processing, IdempotencyError, NextAction,
};
use zero2prod::response::{see_other, HeaderPair, Response};
use zero2prod::store::{Store, StoredResponse};

fn key(s: &str) -> IdempotencyKey {
    IdempotencyKey::parse(s.to_string()).expect("a key that is not empty")
}

fn sample_response() -> Response {
    Response {
        status_code: 303,
        headers: vec![
            HeaderPair { name: "location".to_string(), value: b"/admin/newsletters".to_vec() },
            HeaderPair { name: "set-cookie".to_string(), value: b"a=1".to_vec() },
            HeaderPair { name: "set-cookie".to_string(), value: vec![0xff, 0x00, 0x7f] },
        ],
        body: b"accepted".to_vec(),
    }
}

fn same_response(a: &Response, b: &Response) -> bool {
    a.status_code == b.status_code
        && a.body == b.body
        && a.headers.len() == b.headers.len()
        && a.headers.iter().zip(b.headers.iter()).all(|(x, y)| x.name == y.name && x.value == y.value)
}

#[test]
fn empty_idempotency_key_is_rejected() {
    assert_eq!(
        IdempotencyKey::parse(String::new()).unwrap_err(),
        "The idempotency key cannot be empty"
    );
}

#[test]
fn a_key_is_kept_as_given() {
    assert_eq!(key("3f2a-retry").as_ref(), "3f2a-retry");
    assert_eq!(key(" ").as_ref(), " ");
}

#[test]
fn first_attempt_starts_processing_and_leaves_a_placeholder() {
    let mut store = Store::new();
    let action = try_processing(&mut store, &key("k1"), 7).expect("a new key");
    assert!(matches!(action, NextAction::StartProcessing(_)));
    assert_eq!(store.record_count(), 1);
    assert!(get_saved_response(&store, &key("k1"), 7).expect("readable").is_none());
}

#[test]
fn unknown_key_has_no_saved_response() {
    let store = Store::new();
    assert!(get_saved_response(&store, &key("nothing"), 1).expect("readable").is_none());
}

#[test]
fn saved_response_is_replayed_byte_for_byte() {
    let mut store = Store::new();
    let transaction = match try_processing(&mut store, &key("k1"), 7).expect("a new key") {
        NextAction::StartProcessing(t) => t,
        NextAction::ReturnSavedResponse(_) => panic!("nothing was saved yet"),
    };
    let returned = save_response(&mut store, transaction, &key("k1"), 7, sample_response());
    assert!(same_response(&returned, &sample_response()));
    assert_eq!(store.record_count(), 1);

    match try_processing(&mut store, &key("k1"), 7).expect("a saved response") {
        NextAction::ReturnSavedResponse(r) => assert!(same_response(&r, &sample_response())),
        NextAction::StartProcessing(_) => panic!("the key was answered before"),
    }
    assert_eq!(store.record_count(), 1);
    let read = get_saved_response(&store, &key("k1"), 7).expect("readable").expect("saved");
    assert!(same_response(&read, &sample_response()));
}

#[test]
fn keys_are_scoped_by_user() {
    let mut store = Store::new();
    let transaction = match try_processing(&mut store, &key("k1"), 7).expect("a new key") {
        NextAction::StartProcessing(t) => t,
        NextAction::ReturnSavedResponse(_) => panic!("nothing was saved yet"),
    };
    save_response(&mut store, transaction, &key("k1"), 7, sample_response());
    let other = try_processing(&mut store, &key("k1"), 8).expect("another user's key is new");
    assert!(matches!(other, NextAction::StartProcessing(_)));
    assert_eq!(store.record_count(), 2);
}

#[test]
fn unanswered_key_is_an_explicit_error() {
    let mut store = Store::new();
    let first = try_processing(&mut store, &key("k1"), 7).expect("a new key");
    assert!(matches!(first, NextAction::StartProcessing(_)));
    let second = try_processing(&mut store, &key("k1"), 7);
    assert_eq!(second.unwrap_err(), IdempotencyError::MissingSavedResponse);
    assert_eq!(store.record_count(), 1);
    assert_eq!(
        IdempotencyError::MissingSavedResponse.message(),
        "We expected a saved response but didn't find it"
    );
}

#[test]
fn rollback_lets_a_retry_start_afresh() {
    let mut store = Store::new();
    let transaction = match try_processing(&mut store, &key("k1"), 7).expect("a new key") {
        NextAction::StartProcessing(t) => t,
        NextAction::ReturnSavedResponse(_) => panic!("nothing was saved yet"),
    };
    rollback(&mut store, transaction);
    assert_eq!(store.record_count(), 0);
    let again = try_processing(&mut store, &key("k1"), 7).expect("a new key again");
    assert!(matches!(again, NextAction::StartProcessing(_)));
}

#[test]
fn stored_status_code_must_have_three_digits() {
    for code in [-1i16, 0, 99, 1000, i16::MAX, i16::MIN] {
        let stored = StoredResponse { status_code: code, headers: vec![], body: vec![] };
        assert_eq!(restore_response(stored).unwrap_err(), IdempotencyError::InvalidStatusCode);
    }
    for code in [100i16, 200, 303, 500, 999] {
        let stored = StoredResponse { status_code: code, headers: vec![], body: vec![1, 2] };
        let response = restore_response(stored).expect("a status that HTTP admits");
        assert_eq!(response.status_code, code as u16);
        assert_eq!(response.body, vec![1, 2]);
    }
    assert_eq!(IdempotencyError::InvalidStatusCode.message(), "invalid status code");
}

#[test]
fn a_malformed_stored_response_is_reported() {
    let mut store = Store::new();
    assert_eq!(store.insert_idempotency_record(7, "k1"), 1);
    let stored = StoredResponse { status_code: 42, headers: vec![], body: vec![] };
    assert_eq!(store.update_saved_response(7, "k1", stored), 1);
    assert_eq!(
        try_processing(&mut store, &key("k1"), 7).unwrap_err(),
        IdempotencyError::InvalidStatusCode
    );
    assert_eq!(
        get_saved_response(&store, &key("k1"), 7).unwrap_err(),
        IdempotencyError::InvalidStatusCode
    );
}

#[test]
fn capture_then_restore_gives_the_response_back() {
    let stored = capture_response(&sample_response());
    assert_eq!(stored.status_code, 303);
    assert_eq!(stored.headers.len(), 3);
    let restored = restore_response(stored).expect("a valid status");
    assert!(same_response(&restored, &sample_response()));
}

#[test]
fn see_other_redirects_with_a_location_header() {
    let r = see_other("/login");
    assert_eq!(r.status_code, 303);
    assert_eq!(r.headers.len(), 1);
    assert_eq!(r.headers[0].name, "location");
    assert_eq!(r.headers[0].value, b"/login".to_vec());
    assert!(r.body.is_empty());
    let copy = r.duplicate();
    assert!(same_response(&copy, &r));
    let empty = Response::with_status(204);
    assert_eq!(empty.status_code, 204);
    assert!(empty.headers.is_empty() && empty.body.is_empty());
}

#[test]
fn store_operations_report_rows_affected() {
    let mut store = Store::new();
    assert_eq!(store.insert_idempotency_record(1, "a"), 1);
    assert_eq!(store.insert_idempotency_record(1, "a"), 0);
    assert_eq!(store.insert_idempotency_record(2, "a"), 1);
    assert!(matches!(store.saved_response(1, "a"), Some(None)));
    assert!(store.saved_response(3, "a").is_none());
    let stored = StoredResponse { status_code: 200, headers: vec![], body: vec![9] };
    assert_eq!(store.update_saved_response(3, "a", stored.duplicate()), 0);
    assert_eq!(store.update_saved_response(2, "a", stored), 1);
    match store.saved_response(2, "a") {
        Some(Some(r)) => assert_eq!((r.status_code, r.body), (200, vec![9])),
        _ => panic!("a response was saved"),
    }
    assert_eq!(store.delete_idempotency_record(1, "a"), 1);
    assert_eq!(store.delete_idempotency_record(1, "a"), 0);
    assert_eq!(store.record_count(), 1);
}

#[test]
fn a_row_is_read_as_a_saved_response_or_none() {

    assert!(read_saved_response(None).expect("no row").is_none());
    assert!(read_saved_response(Some(None)).expect("no response yet").is_none());
    let stored = StoredResponse { status_code: 303, headers: vec![], body: vec![7] };
    let response = read_saved_response(Some(Some(stored))).expect("valid").expect("saved");
    assert_eq!((response.status_code, response.body), (303, vec![7]));
    let broken = StoredResponse { status_code: -5, headers: vec![], body: vec![] };
    assert_eq!(
        read_saved_response(Some(Some(broken))).unwrap_err(),
        IdempotencyError::InvalidStatusCode
    );
    assert_eq!(expect_saved_response(None).unwrap_err(), IdempotencyError::MissingSavedResponse);
    let kept = expect_saved_response(Some(sample_response())).expect("saved");
    assert!(same_response(&kept, &sample_response()));
}
