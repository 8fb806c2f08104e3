//! HTTP responses as plain values: a status code, a list of headers that may
//! repeat a name, and a body.
use vstd::prelude::*;
use vstd::string::*;

verus! {

/// One header line: its name and the bytes of its value.
#[derive(Debug)]
pub struct HeaderPair {
    pub name: String,
    pub value: Vec<u8>,
}

/// A response as the HTTP layer sends it.
#[derive(Debug)]
pub struct Response {
    pub status_code: u16,
    pub headers: Vec<HeaderPair>,
    pub body: Vec<u8>,
}

/// The mathematical content of a list of headers.
pub type HeadersView = Seq<(Seq<char>, Seq<u8>)>;

/// The mathematical content of a [`Response`].
pub struct ResponseView {
    pub status_code: u16,
    pub headers: HeadersView,
    pub body: Seq<u8>,
}

impl View for HeaderPair {
    type V = (Seq<char>, Seq<u8>);

    open spec fn view(&self) -> (Seq<char>, Seq<u8>) {
        (self.name@, self.value@)
    }
}

/// The content of a list of headers, in order.
pub open spec fn headers_view(headers: Seq<HeaderPair>) -> HeadersView {
    Seq::new(headers.len(), |i: int| headers[i]@)
}

impl View for Response {
    type V = ResponseView;

    open spec fn view(&self) -> ResponseView {
        ResponseView {
            status_code: self.status_code,
            headers: headers_view(self.headers@),
            body: self.body@,
        }
    }
}

/// Status codes that HTTP admits: three decimal digits.
pub open spec fn is_status_code(code: int) -> bool {
    100 <= code < 1000
}

/// The response that redirects to `location` with status 303.
pub open spec fn see_other_view(location: &str) -> ResponseView {
    ResponseView {
        status_code: 303,
        headers: seq![("location"@, location.spec_bytes())],
        body: Seq::empty(),
    }
}

/// Copies a byte string.
pub fn clone_bytes(bytes: &Vec<u8>) -> (copy: Vec<u8>)
    ensures
        copy@ == bytes@,
{
    let mut copy: Vec<u8> = Vec::new();
    let mut i: usize = 0;
    while i < bytes.len()
        invariant
            i <= bytes.len(),
            copy@ == bytes@.take(i as int),
        decreases bytes.len() - i,
    {
        copy.push(bytes[i]);
        assert(bytes@.take(i + 1) =~= bytes@.take(i as int).push(bytes@[i as int]));
        i += 1;
    }
    assert(bytes@.take(bytes.len() as int) =~= bytes@);
    copy
}

/// Copies a list of headers, keeping order and repetitions.
pub fn clone_headers(headers: &Vec<HeaderPair>) -> (copy: Vec<HeaderPair>)
    ensures
        headers_view(copy@) == headers_view(headers@),
{
    let mut copy: Vec<HeaderPair> = Vec::new();
    let mut i: usize = 0;
    while i < headers.len()
        invariant
            i <= headers.len(),
            copy@.len() == i,
            forall|j: int| 0 <= j < i ==> (#[trigger] copy@[j])@ == headers@[j]@,
        decreases headers.len() - i,
    {
        let pair = HeaderPair {
            name: headers[i].name.clone(),
            value: clone_bytes(&headers[i].value),
        };
        copy.push(pair);
        i += 1;
    }
    assert(headers_view(copy@) =~= headers_view(headers@));
    copy
}

impl Response {
    /// A copy with the same status, headers and body.
    pub fn duplicate(&self) -> (copy: Response)
        ensures
            copy@ == self@,
    {
        Response {
            status_code: self.status_code,
            headers: clone_headers(&self.headers),
            body: clone_bytes(&self.body),
        }
    }

    /// An empty response with the given status.
    pub fn with_status(status_code: u16) -> (r: Response)
        ensures
            r@ == (ResponseView { status_code, headers: Seq::empty(), body: Seq::empty() }),
    {
        let r = Response { status_code, headers: Vec::new(), body: Vec::new() };
        assert(r@.headers =~= Seq::empty());
        r
    }
}

/// A redirect: status 303 and one `location` header that holds the target.
pub fn see_other(location: &str) -> (r: Response)
    ensures
        r@ == see_other_view(location),
{
    let mut headers: Vec<HeaderPair> = Vec::new();
    headers.push(HeaderPair { name: "location".to_string(), value: location.as_bytes_vec() });
    let r = Response { status_code: 303, headers, body: Vec::new() };
    assert(r@.headers =~= seq![("location"@, location.spec_bytes())]);
    r
}

} // verus!
