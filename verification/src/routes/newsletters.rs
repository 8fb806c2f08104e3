//! Publishing over the API, with HTTP basic authentication: reading the
//! credentials, answering a failure, and preparing one email per confirmed
//! subscriber.
use crate::authentication::password::Credentials;
use crate::routes::admin::newsletters::{recipients_view, valid_only, valid_recipients};
use crate::email_client::{EmailClient, EmailClientView, EmailRequest, EmailRequestView};
use crate::issue_delivery_worker::requests_view;
use crate::response::{HeaderPair, Response, ResponseView};
use crate::store::strings_view;
use base64::Engine;
use vstd::prelude::*;
use vstd::string::*;
use vstd::utf8::{decode_utf8, valid_utf8};

verus! {

/// The body of a publish request.
#[derive(Debug)]
pub struct BodyData {
    pub title: String,
    pub content: Content,
}

/// The two forms of an issue's text.
#[derive(Debug)]
pub struct Content {
    pub html: String,
    pub text: String,
}

/// Why a publish request failed.
#[derive(Debug)]
pub enum PublishError {
    /// The credentials were missing or not accepted.
    AuthError(String),
    /// Anything else.
    UnexpectedError(String),
}

/// The answer to a request without valid credentials: 401, with the
/// challenge that asks for them.
pub open spec fn unauthorized_view() -> ResponseView {
    ResponseView {
        status_code: 401,
        headers: seq![("www-authenticate"@, "Basic realm=\"publish\"".spec_bytes())],
        body: Seq::empty(),
    }
}

impl PublishError {
    /// The response that answers the error: a challenge for an
    /// authentication failure, and an empty 500 for anything else. Neither
    /// says why.
    pub fn error_response(&self) -> (r: Response)
        ensures
            r@ == match self {
                PublishError::AuthError(_) => unauthorized_view(),
                PublishError::UnexpectedError(_) => ResponseView {
                    status_code: 500,
                    headers: Seq::empty(),
                    body: Seq::empty(),
                },
            },
    {
        match self {
            PublishError::AuthError(_) => {
                let mut headers: Vec<HeaderPair> = Vec::new();
                headers.push(
                    HeaderPair {
                        name: "www-authenticate".to_string(),
                        value: "Basic realm=\"publish\"".as_bytes_vec(),
                    },
                );
                let r = Response { status_code: 401, headers, body: Vec::new() };
                assert(r@.headers =~= unauthorized_view().headers);
                r
            },
            PublishError::UnexpectedError(_) => Response::with_status(500),
        }
    }

    /// What the error says of itself.
    pub fn message(&self) -> (s: String)
        ensures
            s@ == match self {
                PublishError::AuthError(_) => "Authentication failed"@,
                PublishError::UnexpectedError(cause) => cause@,
            },
    {
        match self {
            PublishError::AuthError(_) => "Authentication failed".to_string(),
            PublishError::UnexpectedError(cause) => cause.clone(),
        }
    }
}

/// The bytes that the standard base64 alphabet, with padding, decodes a
/// text to, as `base64::engine::general_purpose::STANDARD.decode` computes
/// them; nothing for a text that it refuses.
pub uninterp spec fn base64_decoded(text: Seq<char>) -> Option<Seq<u8>>;

/// Why the credentials of a request could not be read.
#[derive(Clone, Copy, Debug, PartialEq, Eq, Structural)]
pub enum CredentialsError {
    MissingHeader,
    NotBasic,
    NotBase64,
    NotUtf8,
    MissingPassword,
}

impl CredentialsError {
    /// The message reported for this error.
    pub open spec fn message_view(self) -> Seq<char> {
        match self {
            CredentialsError::MissingHeader => "The 'Authorization' header was missing"@,
            CredentialsError::NotBasic => "The Authorization scheme was not 'Basic'"@,
            CredentialsError::NotBase64 => "Failed to base64-decode 'Basic' credentials"@,
            CredentialsError::NotUtf8 => "The decoded credential string is not valid utf-8"@,
            CredentialsError::MissingPassword => "A password must be provided in 'Basic' auth"@,
        }
    }

    /// The message reported for this error.
    pub fn message(&self) -> (s: String)
        ensures
            s@ == self.message_view(),
    {
        match self {
            CredentialsError::MissingHeader => "The 'Authorization' header was missing".to_string(),
            CredentialsError::NotBasic => "The Authorization scheme was not 'Basic'".to_string(),
            CredentialsError::NotBase64 => {
                "Failed to base64-decode 'Basic' credentials".to_string()
            },
            CredentialsError::NotUtf8 => {
                "The decoded credential string is not valid utf-8".to_string()
            },
            CredentialsError::MissingPassword => {
                "A password must be provided in 'Basic' auth".to_string()
            },
        }
    }
}

/// Whether `i` is the place of the first colon of a text.
pub open spec fn is_first_colon(s: Seq<char>, i: int) -> bool {
    &&& 0 <= i < s.len()
    &&& s[i] == ':'
    &&& forall|j: int| 0 <= j < i ==> #[trigger] s[j] != ':'
}

/// The username and the password that a text of the form
/// `username:password` holds: what stands before and after its first colon.
pub open spec fn split_credentials(s: Seq<char>) -> Option<(Seq<char>, Seq<char>)> {
    if exists|i: int| is_first_colon(s, i) {
        let i = choose|i: int| is_first_colon(s, i);
        Some((s.subrange(0, i), s.subrange(i + 1, s.len() as int)))
    } else {
        None
    }
}

/// The credentials that decoded bytes hold, or why they hold none.
pub open spec fn credentials_of_bytes(bytes: Seq<u8>) -> Result<
    (Seq<char>, Seq<char>),
    CredentialsError,
> {
    if !valid_utf8(bytes) {
        Err(CredentialsError::NotUtf8)
    } else {
        match split_credentials(decode_utf8(bytes)) {
            Some(pair) => Ok(pair),
            None => Err(CredentialsError::MissingPassword),
        }
    }
}

/// The text after the scheme of a `Basic` authorization header, if that is
/// the header's scheme.
pub open spec fn basic_payload(header: Seq<char>) -> Option<Seq<char>> {
    if header.len() >= 6 && header.subrange(0, 6) == seq!['B', 'a', 's', 'i', 'c', ' '] {
        Some(header.subrange(6, header.len() as int))
    } else {
        None
    }
}

/// The credentials that an authorization header holds, or why it holds
/// none.
pub open spec fn credentials_of_header(header: Option<Seq<char>>) -> Result<
    (Seq<char>, Seq<char>),
    CredentialsError,
> {
    match header {
        None => Err(CredentialsError::MissingHeader),
        Some(value) => match basic_payload(value) {
            None => Err(CredentialsError::NotBasic),
            Some(payload) => match base64_decoded(payload) {
                None => Err(CredentialsError::NotBase64),
                Some(bytes) => credentials_of_bytes(bytes),
            },
        },
    }
}

/// The content of the outcome of reading credentials.
pub open spec fn credentials_view(r: Result<Credentials, CredentialsError>) -> Result<
    (Seq<char>, Seq<char>),
    CredentialsError,
> {
    match r {
        Ok(credentials) => Ok((credentials.username@, credentials.password@)),
        Err(e) => Err(e),
    }
}

/// Decodes a text with `base64::engine::general_purpose::STANDARD.decode`:
/// the bytes, or nothing where the engine refuses the text, are the named
/// function of the text.
#[verifier::external_body]
fn decode_base64(text: &str) -> (r: Option<Vec<u8>>)
    ensures
        match r {
            Some(bytes) => base64_decoded(text@) == Some(bytes@),
            None => base64_decoded(text@) is None,
        },
{
    match base64::engine::general_purpose::STANDARD.decode(text) {
        Ok(bytes) => Some(bytes),
        Err(_) => None,
    }
}

/// Reads bytes as text with `String::from_utf8`: the text that the bytes
/// encode, or nothing where they are not valid UTF-8.
#[verifier::external_body]
fn text_of_bytes(bytes: Vec<u8>) -> (r: Option<String>)
    ensures
        match r {
            Some(text) => valid_utf8(bytes@) && text@ == decode_utf8(bytes@),
            None => !valid_utf8(bytes@),
        },
{
    match String::from_utf8(bytes) {
        Ok(text) => Some(text),
        Err(_) => None,
    }
}

/// Reads the credentials out of decoded bytes: they must be UTF-8 and hold
/// a colon; the username stands before the first colon, the password after
/// it.
pub fn credentials_from_bytes(bytes: Vec<u8>) -> (r: Result<Credentials, CredentialsError>)
    ensures
        credentials_view(r) == credentials_of_bytes(bytes@),
{
    let text = match text_of_bytes(bytes) {
        Some(text) => text,
        None => {
            return Err(CredentialsError::NotUtf8);
        },
    };
    let s = text.as_str();
    let n: usize = s.unicode_len();
    let mut i: usize = 0;
    while i < n && s.get_char(i) != ':'
        invariant
            n == s@.len(),
            i <= n,
            forall|j: int| 0 <= j < i ==> #[trigger] s@[j] != ':',
        decreases n - i,
    {
        i += 1;
    }
    if i >= n {
        assert forall|k: int| !is_first_colon(s@, k) by {
            if 0 <= k < s@.len() {
                assert(s@[k] != ':');
            }
        }
        return Err(CredentialsError::MissingPassword);
    }
    proof {
        assert(is_first_colon(s@, i as int));
        let k = choose|k: int| is_first_colon(s@, k);
        if k < i {
            assert(s@[k] != ':');
        } else if i < k {
            assert(s@[i as int] != ':');
        }
    }
    let username = s.substring_char(0, i).to_string();
    let password = s.substring_char(i + 1, n).to_string();
    Ok(Credentials { username, password })
}

/// Reads the credentials of a request from its `Authorization` header, if
/// it has one: the header must say `Basic`, and what follows must be the
/// base64 form of `username:password`.
pub fn basic_authentication(authorization: Option<&str>) -> (r: Result<
    Credentials,
    CredentialsError,
>)
    ensures
        credentials_view(r) == credentials_of_header(
            match authorization {
                Some(value) => Some(value@),
                None => None,
            },
        ),
{
    let header_value = match authorization {
        Some(value) => value,
        None => {
            return Err(CredentialsError::MissingHeader);
        },
    };
    let n: usize = header_value.unicode_len();
    if n < 6 || header_value.get_char(0) != 'B' || header_value.get_char(1) != 'a'
        || header_value.get_char(2) != 's' || header_value.get_char(3) != 'i'
        || header_value.get_char(4) != 'c' || header_value.get_char(5) != ' ' {
        proof {
            if n >= 6 {
                let head = header_value@.subrange(0, 6);
                assert(head[0] == header_value@[0] && head[1] == header_value@[1] && head[2]
                    == header_value@[2] && head[3] == header_value@[3] && head[4]
                    == header_value@[4] && head[5] == header_value@[5]);
            }
        }
        return Err(CredentialsError::NotBasic);
    }
    assert(header_value@.subrange(0, 6) =~= seq!['B', 'a', 's', 'i', 'c', ' ']);
    let payload = header_value.substring_char(6, n);
    match decode_base64(payload) {
        None => Err(CredentialsError::NotBase64),
        Some(bytes) => credentials_from_bytes(bytes),
    }
}

/// The emails that send one issue to each of `recipients`, in order.
pub open spec fn newsletter_requests_of(
    client: EmailClientView,
    title: Seq<char>,
    html: Seq<char>,
    text: Seq<char>,
    recipients: Seq<Seq<char>>,
) -> Seq<EmailRequestView> {
    Seq::new(recipients.len(), |i: int| client.request(recipients[i], title, html, text))
}

/// Prepares the emails that send an issue to the confirmed subscribers
/// whose stored addresses are `emails`: one for each address that is valid,
/// in order. A stored address that is not valid is passed over; it does not
/// keep the others from getting theirs.
pub fn publish_newsletter(email_client: &EmailClient, body: &BodyData, emails: &Vec<String>) -> (requests:
    Vec<EmailRequest>)
    ensures
        requests_view(requests@) == newsletter_requests_of(
            email_client@,
            body.title@,
            body.content.html@,
            body.content.text@,
            valid_only(strings_view(emails@)),
        ),
{
    let recipients = valid_recipients(emails);
    let mut requests: Vec<EmailRequest> = Vec::new();
    let mut i: usize = 0;
    while i < recipients.len()
        invariant
            i <= recipients.len(),
            requests@.len() == i,
            forall|j: int|
                0 <= j < i ==> (#[trigger] requests@[j])@ == email_client@.request(
                    recipients@[j]@,
                    body.title@,
                    body.content.html@,
                    body.content.text@,
                ),
        decreases recipients.len() - i,
    {
        let request = email_client.build_request(
            &recipients[i],
            body.title.as_str(),
            body.content.html.as_str(),
            body.content.text.as_str(),
        );
        requests.push(request);
        i += 1;
    }
    assert(requests_view(requests@) =~= newsletter_requests_of(
        email_client@,
        body.title@,
        body.content.html@,
        body.content.text@,
        recipients_view(recipients@),
    ));
    requests
}

} // verus!
