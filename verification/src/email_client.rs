//! The outbound mailer: what is sent to the email API for one message, and
//! how its answer is read.
use crate::domain::subscriber_email::{is_valid_email, SubscriberEmail};
use vstd::prelude::*;
use vstd::string::*;

verus! {

/// The settings of the mailer.
#[derive(Debug)]
pub struct EmailClient {
    sender: SubscriberEmail,
    base_url: String,
    authorization_token: String,
    timeout_millis: u64,
}

/// The content of an [`EmailClient`].
pub struct EmailClientView {
    pub sender: Seq<char>,
    pub base_url: Seq<char>,
    pub authorization_token: Seq<char>,
    pub timeout_millis: u64,
}

/// One call of the email API: where it goes, how it is authorized, and the
/// message it carries.
#[derive(Debug)]
pub struct EmailRequest {
    pub url: String,
    pub authorization: String,
    pub from: String,
    pub to: String,
    pub subject: String,
    pub text_content: String,
    pub html_content: String,
    pub timeout_millis: u64,
}

/// The content of an [`EmailRequest`].
pub struct EmailRequestView {
    pub url: Seq<char>,
    pub authorization: Seq<char>,
    pub from: Seq<char>,
    pub to: Seq<char>,
    pub subject: Seq<char>,
    pub text_content: Seq<char>,
    pub html_content: Seq<char>,
    pub timeout_millis: u64,
}

impl View for EmailRequest {
    type V = EmailRequestView;

    open spec fn view(&self) -> EmailRequestView {
        EmailRequestView {
            url: self.url@,
            authorization: self.authorization@,
            from: self.from@,
            to: self.to@,
            subject: self.subject@,
            text_content: self.text_content@,
            html_content: self.html_content@,
            timeout_millis: self.timeout_millis,
        }
    }
}

impl View for EmailClient {
    type V = EmailClientView;

    closed spec fn view(&self) -> EmailClientView {
        EmailClientView {
            sender: self.sender@,
            base_url: self.base_url@,
            authorization_token: self.authorization_token@,
            timeout_millis: self.timeout_millis,
        }
    }
}

impl EmailClientView {
    /// The call that sends one message to `recipient`: posted to the
    /// send path under the base URL, with the token as a bearer token.
    pub open spec fn request(
        self,
        recipient: Seq<char>,
        subject: Seq<char>,
        html_content: Seq<char>,
        text_content: Seq<char>,
    ) -> EmailRequestView {
        EmailRequestView {
            url: self.base_url + "/v3/mail/send"@,
            authorization: "Bearer "@ + self.authorization_token,
            from: self.sender,
            to: recipient,
            subject,
            text_content,
            html_content,
            timeout_millis: self.timeout_millis,
        }
    }
}

/// Why a message was not delivered.
#[derive(Clone, Copy, Debug, PartialEq, Eq, Structural)]
pub enum DeliveryError {
    /// The email API answered with a status outside 200..=299.
    Status(u16),
    /// The email API did not answer: the connection failed or timed out.
    Transport,
}

impl EmailClient {
    /// A mailer that posts to `base_url` on behalf of `sender`.
    pub fn new(
        base_url: &str,
        sender: SubscriberEmail,
        authorization_token: &str,
        timeout_millis: u64,
    ) -> (client: EmailClient)
        ensures
            client@ == (EmailClientView {
                sender: sender@,
                base_url: base_url@,
                authorization_token: authorization_token@,
                timeout_millis,
            }),
    {
        EmailClient {
            sender,
            base_url: base_url.to_string(),
            authorization_token: authorization_token.to_string(),
            timeout_millis,
        }
    }

    /// The call that delivers one message to `recipient`.
    pub fn build_request(
        &self,
        recipient: &SubscriberEmail,
        subject: &str,
        html_content: &str,
        text_content: &str,
    ) -> (request: EmailRequest)
        ensures
            request@ == self@.request(recipient@, subject@, html_content@, text_content@),
            is_valid_email(request@.to),
            is_valid_email(request@.from),
    {
        let url = self.base_url.clone().concat("/v3/mail/send");
        let authorization = "Bearer ".to_string().concat(self.authorization_token.as_str());
        EmailRequest {
            url,
            authorization,
            from: self.sender.to_string(),
            to: recipient.to_string(),
            subject: subject.to_string(),
            text_content: text_content.to_string(),
            html_content: html_content.to_string(),
            timeout_millis: self.timeout_millis,
        }
    }
}

/// Reads the status with which the email API answered: anything but a 2xx
/// status is a failure.
pub fn delivery_result(status: u16) -> (r: Result<(), DeliveryError>)
    ensures
        r is Ok <==> 200 <= status < 300,
        r is Err ==> r == Err::<(), DeliveryError>(DeliveryError::Status(status)),
{
    if 200 <= status && status < 300 {
        Ok(())
    } else {
        Err(DeliveryError::Status(status))
    }
}

} // verus!
