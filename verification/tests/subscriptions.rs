use zero2prod::authentication::middleware::{reject_anonymous_users, UserId};
use zero2prod::authentication::password::{validate_credentials, AuthError, PasswordCheck};
use zero2prod::domain::subscriber_email::SubscriberEmail;
use zero2prod::domain::NewSubscriber;
use zero2prod::email_client::EmailClient;
use zero2prod::routes::admin::password::{
    check_new_password, current_password_notice, password_changed_notice,
};
use zero2prod::routes::login::{login_redirect, login_success, LoginError};
use zero2prod::routes::newsletters::{
    basic_authentication, credentials_from_bytes, publish_newsletter, BodyData, Content,
    CredentialsError, PublishError,
};
use zero2prod::routes::subscriptions::{
    generate_subscription_token, send_confirmation_email, subscribe, subscribe_as, FormData,
    SubscribeError,
};
use zero2prod::routes::subscriptions_confirm::{
    confirm, Parameters, SubscriptionConfirmationError,
};
use zero2prod::startup::ApplicationBaseUrl;
use zero2prod::store::Store;
use zero2prod::utils::{e400, e500};

fn client() -> EmailClient {
    EmailClient::new(
        "http://127.0.0.1:4000",
        SubscriberEmail::parse("sender@example.com").expect("a valid sender"),
        "token",
        200,
    )
}

fn form(name: &str, email: &str) -> FormData {
    FormData { email: email.to_string(), name: name.to_string() }
}

#[test]
fn valid_subscribe_returns_200() {
    let mut store = Store::new();
    let base_url = ApplicationBaseUrl("http://127.0.0.1".to_string());
    let request =
        subscribe(&mut store, &client(), &base_url.0, form("le guin", "ursula_le_guin@gmail.com"))
            .expect("a valid form");
    assert_eq!(request.to, "ursula_le_guin@gmail.com");
    assert_eq!(request.subject, "Welcome!");
    assert_eq!(store.subscriber_count(), 1);
    assert!(store.has_subscriber_email("ursula_le_guin@gmail.com"));
    assert!(store.confirmed_subscriber_emails().is_empty());
}

#[test]
fn subscribe_returns_400_when_fields_are_present_but_invalid() {
    let test_cases = vec![
        (form("", "ursula_le_guin@gmail.com"), "empty name"),
        (form("Ursula", ""), "empty email"),
        (form("Ursula", "definitely-not-an-email"), "invalid email"),
    ];
    for (invalid_form, description) in test_cases {
        let mut store = Store::new();
        let error = subscribe(&mut store, &client(), "http://127.0.0.1", invalid_form).unwrap_err();
        assert_eq!(
            error.status_code(),
            400,
            "The API did not return a 400 when the payload was {}.",
            description
        );
        assert!(matches!(error, SubscribeError::ValidationError(_)));
        assert_eq!(store.subscriber_count(), 0);
    }
}

#[test]
fn link_returned_by_subscribe_returns_a_200_if_called() {
    let mut store = Store::new();
    let request = subscribe_as(
        &mut store,
        &client(),
        "http://127.0.0.1",
        form("le guin", "ursula_le_guin@gmail.com"),
        11,
        "AbCdEfGhIjKlMnOpQrStUvWxY",
    )
    .expect("a valid form");
    let link = "http://127.0.0.1/subscriptions/confirm?subscription_token=AbCdEfGhIjKlMnOpQrStUvWxY";
    assert_eq!(
        request.text_content,
        format!("Welcome to Sanjay's newsletter!\n Confirmation link: {}", link)
    );
    assert_eq!(
        request.html_content,
        format!(
            "Welcome to our newsletter!<br />Click <a href=\"{}\">here</a> to confirm your subscription.",
            link
        )
    );
    let parameters =
        Parameters { subscription_token: "AbCdEfGhIjKlMnOpQrStUvWxY".to_string() };
    assert!(confirm(&mut store, &parameters).is_ok());
}

#[test]
fn clicking_on_the_confirmation_link_confirms_a_subscriber() {
    let mut store = Store::new();
    subscribe_as(
        &mut store,
        &client(),
        "http://127.0.0.1",
        form("le guin", "ursula_le_guin@gmail.com"),
        11,
        "AbCdEfGhIjKlMnOpQrStUvWxY",
    )
    .expect("a valid form");
    assert!(!store.is_confirmed(11));
    let parameters =
        Parameters { subscription_token: "AbCdEfGhIjKlMnOpQrStUvWxY".to_string() };
    confirm(&mut store, &parameters).expect("a known token");
    assert!(store.is_confirmed(11));
    assert_eq!(store.confirmed_subscriber_emails(), vec!["ursula_le_guin@gmail.com".to_string()]);
    assert_eq!(store.get_subscriber_id_from_token("AbCdEfGhIjKlMnOpQrStUvWxY"), Some(11));
}

#[test]
fn an_unknown_token_is_unauthorized() {
    let mut store = Store::new();
    let parameters = Parameters { subscription_token: "nobody".to_string() };
    let error = confirm(&mut store, &parameters).unwrap_err();
    assert!(matches!(error, SubscriptionConfirmationError::UnauthorizedError));
    assert_eq!(error.status_code(), 401);
    assert_eq!(SubscriptionConfirmationError::UnexpectedError("db".to_string()).status_code(), 500);
}

#[test]
fn a_taken_address_or_token_fails_and_changes_nothing() {
    let mut store = Store::new();
    subscribe_as(&mut store, &client(), "http://h", form("a", "a@example.com"), 1, "tokenA")
        .expect("a valid form");
    let same_email =
        subscribe_as(&mut store, &client(), "http://h", form("b", "a@example.com"), 2, "tokenB")
            .unwrap_err();
    assert_eq!(same_email.status_code(), 500);
    assert_eq!(same_email.message(), "Failed to insert new subscriber into the database");
    let same_id =
        subscribe_as(&mut store, &client(), "http://h", form("b", "b@example.com"), 1, "tokenB")
            .unwrap_err();
    assert_eq!(same_id.message(), "Failed to insert new subscriber into the database");
    let same_token =
        subscribe_as(&mut store, &client(), "http://h", form("b", "b@example.com"), 2, "tokenA")
            .unwrap_err();
    assert_eq!(
        same_token.message(),
        "Failed to store generated subscription token into the database"
    );
    assert_eq!(store.subscriber_count(), 1);
    assert!(!store.has_subscriber(2));
    assert!(!store.store_token(9, "tokenC"));
    assert!(!store.store_token(1, "tokenA"));
    assert!(store.store_token(1, "tokenC"));
}

#[test]
fn form_is_validated_address_first() {
    let error = NewSubscriber::try_from(form("", "nope")).unwrap_err();
    assert_eq!(error, "not a valid email");
    let error = NewSubscriber::try_from(form("", "a@example.com")).unwrap_err();
    assert_eq!(error, "subscriber name is either empty or just whitespaces");
    let ok = NewSubscriber::try_from(form("le guin", "a@example.com")).expect("valid");
    assert_eq!(ok.email.as_ref(), "a@example.com");
    assert_eq!(ok.name.as_ref(), "le guin");
}

#[test]
fn subscription_tokens_are_25_alphanumeric_characters() {
    let mut seen = Vec::new();
    for _ in 0..20 {
        let token = generate_subscription_token();
        assert_eq!(token.chars().count(), 25);
        assert!(token.chars().all(|c| c.is_ascii_alphanumeric()));
        assert!(!seen.contains(&token));
        seen.push(token);
    }
}

#[test]
fn confirmation_email_goes_to_the_new_subscriber() {
    let subscriber = NewSubscriber::try_from(form("le guin", "a@example.com")).expect("valid");
    let request = send_confirmation_email(&client(), &subscriber, "https://news.example", "tok");
    assert_eq!(request.url, "http://127.0.0.1:4000/v3/mail/send");
    assert_eq!(request.to, "a@example.com");
    assert_eq!(
        request.text_content,
        "Welcome to Sanjay's newsletter!\n Confirmation link: https://news.example/subscriptions/confirm?subscription_token=tok"
    );
}

#[test]
fn two_subscribers_get_distinct_ids_and_tokens() {
    let mut store = Store::new();
    subscribe(&mut store, &client(), "http://h", form("a", "a@example.com")).expect("valid");
    subscribe(&mut store, &client(), "http://h", form("b", "b@example.com")).expect("valid");
    assert_eq!(store.subscriber_count(), 2);
}

#[test]
fn non_existing_user_is_rejected() {
    let error = validate_credentials(None, PasswordCheck::Matches).unwrap_err();
    assert!(matches!(error, AuthError::InvalidCredentials(_)));
    assert_eq!(error.message(), "Invalid credentials");
    let login = LoginError::from_auth_error(error);
    assert!(matches!(login, LoginError::AuthError(_)));
}

#[test]
fn invalid_password_is_rejected() {
    let error = validate_credentials(Some(7), PasswordCheck::Mismatch).unwrap_err();
    assert!(matches!(error, AuthError::InvalidCredentials(_)));
    let error = validate_credentials(Some(7), PasswordCheck::MalformedHash).unwrap_err();
    assert!(matches!(error, AuthError::UnexpectedError(_)));
    assert_eq!(
        error.message(),
        "Failed to parse password_hash (from users table) in PHC format"
    );
    assert_eq!(validate_credentials(Some(7), PasswordCheck::Matches).expect("accepted"), 7);
}

#[test]
fn an_error_flash_message_is_set_on_failure_but_not_there_on_refresh() {
    let error = LoginError::AuthError("Invalid credentials".to_string());
    let (notice, response) = login_redirect(&error);
    assert_eq!(notice, "Authentication failed");
    assert_eq!(response.status_code, 303);
    assert_eq!(response.headers[0].value, b"/login".to_vec());
    let error = LoginError::UnexpectedError("the database is gone".to_string());
    assert_eq!(login_redirect(&error).0, "Something went wrong");
}

#[test]
fn redirect_to_admin_dashboard_after_login_success() {
    let response = login_success();
    assert_eq!(response.status_code, 303);
    assert_eq!(response.headers[0].name, "location");
    assert_eq!(response.headers[0].value, b"/admin/dashboard".to_vec());
}

#[test]
fn you_must_be_logged_in_to_see_the_newsletter_form() {
    let response = reject_anonymous_users(None).unwrap_err();
    assert_eq!(response.status_code, 303);
    assert_eq!(response.headers[0].value, b"/login".to_vec());
    assert_eq!(reject_anonymous_users(Some(42)).expect("logged in"), UserId(42));
}

#[test]
fn basic_credentials_are_read_from_the_header() {
    // "user:pa:ss" in base64.
    let credentials = basic_authentication(Some("Basic dXNlcjpwYTpzcw==")).expect("credentials");
    assert_eq!(credentials.username, "user");
    assert_eq!(credentials.password, "pa:ss");
    // ":" alone: both parts are empty.
    let credentials = basic_authentication(Some("Basic Og==")).expect("credentials");
    assert_eq!((credentials.username.as_str(), credentials.password.as_str()), ("", ""));
}

#[test]
fn unreadable_credentials_say_why() {
    assert_eq!(basic_authentication(None).unwrap_err(), CredentialsError::MissingHeader);
    assert_eq!(
        basic_authentication(Some("Bearer abc")).unwrap_err(),
        CredentialsError::NotBasic
    );
    assert_eq!(basic_authentication(Some("Basic")).unwrap_err(), CredentialsError::NotBasic);
    assert_eq!(basic_authentication(Some("basic dXNlcjpwYXNz")).unwrap_err(), CredentialsError::NotBasic);
    assert_eq!(
        basic_authentication(Some("Basic not base64!")).unwrap_err(),
        CredentialsError::NotBase64
    );
    // "user" in base64: no colon.
    assert_eq!(
        basic_authentication(Some("Basic dXNlcg==")).unwrap_err(),
        CredentialsError::MissingPassword
    );
    // The bytes ff fe in base64.
    assert_eq!(basic_authentication(Some("Basic //4=")).unwrap_err(), CredentialsError::NotUtf8);
    assert_eq!(credentials_from_bytes(vec![0xff]).unwrap_err(), CredentialsError::NotUtf8);
    assert_eq!(
        CredentialsError::MissingHeader.message(),
        "The 'Authorization' header was missing"
    );
    assert_eq!(
        CredentialsError::MissingPassword.message(),
        "A password must be provided in 'Basic' auth"
    );
    let credentials = credentials_from_bytes("\u{00e9}l\u{00e8}ve:s\u{00e9}same".as_bytes().to_vec())
        .expect("credentials");
    assert_eq!(credentials.username, "\u{00e9}l\u{00e8}ve");
    assert_eq!(credentials.password, "s\u{00e9}same");
}

#[test]
fn publish_errors_are_answered_without_detail() {
    let response = PublishError::AuthError("Unknown username".to_string()).error_response();
    assert_eq!(response.status_code, 401);
    assert_eq!(response.headers.len(), 1);
    assert_eq!(response.headers[0].name, "www-authenticate");
    assert_eq!(response.headers[0].value, b"Basic realm=\"publish\"".to_vec());
    assert!(response.body.is_empty());
    let response = PublishError::UnexpectedError("db".to_string()).error_response();
    assert_eq!(response.status_code, 500);
    assert!(response.headers.is_empty() && response.body.is_empty());
    assert_eq!(PublishError::AuthError("x".to_string()).message(), "Authentication failed");
    assert_eq!(PublishError::UnexpectedError("db".to_string()).message(), "db");
}

#[test]
fn api_publication_prepares_one_email_per_valid_address() {
    let body = BodyData {
        title: "Newsletter title".to_string(),
        content: Content {
            html: "<p>Newsletter body as HTML</p>".to_string(),
            text: "Newsletter body as plain text".to_string(),
        },
    };
    let emails =
        vec!["a@example.com".to_string(), "broken".to_string(), "c@example.com".to_string()];
    let requests = publish_newsletter(&client(), &body, &emails);
    assert_eq!(requests.len(), 2);
    assert_eq!(requests[0].to, "a@example.com");
    assert_eq!(requests[1].to, "c@example.com");
    assert_eq!(requests[1].subject, "Newsletter title");
    assert!(publish_newsletter(&client(), &body, &Vec::new()).is_empty());
}

#[test]
fn handler_errors_carry_their_status() {
    let e = e400("bad key".to_string());
    assert_eq!((e.status_code, e.message.as_str()), (400, "bad key"));
    let e = e500("boom".to_string());
    assert_eq!((e.status_code, e.message.as_str()), (500, "boom"));
}

#[test]
fn new_password_fields_must_match() {
    let notice = check_new_password("first-new-password", "another-new-password").unwrap_err();
    assert_eq!(
        notice,
        "<p><i>You entered two different new passwords - the field values must match</i></p>"
    );
    assert!(check_new_password("same-new-password", "same-new-password").is_ok());
    assert!(check_new_password("", "").is_ok());
}

#[test]
fn current_password_must_be_valid() {
    let wrong = validate_credentials(Some(7), PasswordCheck::Mismatch).unwrap_err();
    assert_eq!(
        current_password_notice(&wrong),
        Some("The current password is incorrect".to_string())
    );
    let broken = AuthError::UnexpectedError("the database is gone".to_string());
    assert_eq!(current_password_notice(&broken), None);
}

#[test]
fn changing_password_works() {
    assert!(check_new_password("a-new-password", "a-new-password").is_ok());
    assert_eq!(validate_credentials(Some(7), PasswordCheck::Matches).expect("accepted"), 7);
    assert_eq!(password_changed_notice(), "Your password has been changed");
}
