use zero2prod::domain::subscriber_email::SubscriberEmail;
use zero2prod::email_client::{delivery_result, DeliveryError, EmailClient};

fn email() -> SubscriberEmail {
    SubscriberEmail::parse("reader@example.com").expect("a valid address")
}

fn email_client(base_url: &str) -> EmailClient {
    EmailClient::new(
        base_url,
        SubscriberEmail::parse("sender@example.com").expect("a valid address"),
        "secret-token",
        200,
    )
}

#[test]
fn send_email_fires_a_request_to_base_url() {
    let client = email_client("http://127.0.0.1:8080");
    let request = client.build_request(&email(), "subject", "<p>content</p>", "content");
    assert_eq!(request.url, "http://127.0.0.1:8080/v3/mail/send");
    assert_eq!(request.authorization, "Bearer secret-token");
    assert_eq!(request.from, "sender@example.com");
    assert_eq!(request.to, "reader@example.com");
    assert_eq!(request.subject, "subject");
    assert_eq!(request.html_content, "<p>content</p>");
    assert_eq!(request.text_content, "content");
    assert!(delivery_result(200).is_ok());
}

#[test]
fn send_email_fails_if_the_server_returns_500() {
    assert_eq!(delivery_result(500), Err(DeliveryError::Status(500)));
}

#[test]
fn send_email_times_out_if_the_server_takes_too_long() {
    let client = email_client("http://127.0.0.1:8080");
    let request = client.build_request(&email(), "subject", "<p>content</p>", "content");
    assert_eq!(request.timeout_millis, 200);
}

#[test]
fn only_2xx_statuses_are_a_delivery() {
    for status in [200u16, 201, 202, 204, 299] {
        assert!(delivery_result(status).is_ok());
    }
    for status in [0u16, 100, 199, 300, 301, 400, 404, 429, 503, 999, u16::MAX] {
        assert_eq!(delivery_result(status), Err(DeliveryError::Status(status)));
    }
}
