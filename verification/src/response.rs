//! The outcome of routing a request, and the bytes of the response that states it.

use vstd::prelude::*;
use vstd::string::*;
use vstd::utf8::*;
use crate::request::HttpResponseCode;

verus! {

/// The body of a response.
#[derive(Debug, Clone, PartialEq, Eq)]
pub enum ResponseBody {
    /// No body, and no headers either.
    Empty,
    /// A body of text, sent as `text/plain`.
    Text(String),
    /// A body of raw bytes, sent as `application/octet-stream`.
    Binary(Vec<u8>),
}

/// What the router decided: a status and a body.
#[derive(Debug, Clone, PartialEq, Eq)]
pub struct RouteOutcome {
    pub status: HttpResponseCode,
    pub body: ResponseBody,
}

/// A body as plain bytes.
#[verifier::ext_equal]
pub enum BodyView {
    Empty,
    Text(Seq<u8>),
    Binary(Seq<u8>),
}

/// An outcome as plain values.
#[verifier::ext_equal]
pub struct OutcomeView {
    pub status: HttpResponseCode,
    pub body: BodyView,
}

impl View for ResponseBody {
    type V = BodyView;

    open spec fn view(&self) -> BodyView {
        match self {
            ResponseBody::Empty => BodyView::Empty,
            ResponseBody::Text(text) => BodyView::Text(encode_utf8(text@)),
            ResponseBody::Binary(bytes) => BodyView::Binary(bytes@),
        }
    }
}

impl View for RouteOutcome {
    type V = OutcomeView;

    open spec fn view(&self) -> OutcomeView {
        OutcomeView { status: self.status, body: self.body@ }
    }
}

impl OutcomeView {
    /// Only a successful outcome carries a body.
    pub open spec fn well_formed(self) -> bool {
        self.status != HttpResponseCode::HttpOk ==> self.body is Empty
    }
}

/// The decimal digit of a number below ten.
pub open spec fn digit(d: nat) -> char {
    if d == 0 {
        '0'
    } else if d == 1 {
        '1'
    } else if d == 2 {
        '2'
    } else if d == 3 {
        '3'
    } else if d == 4 {
        '4'
    } else if d == 5 {
        '5'
    } else if d == 6 {
        '6'
    } else if d == 7 {
        '7'
    } else if d == 8 {
        '8'
    } else {
        '9'
    }
}

/// A number in decimal, without leading zeros.
pub open spec fn decimal(n: nat) -> Seq<char>
    decreases n,
{
    if n < 10 {
        seq![digit(n)]
    } else {
        decimal(n / 10).push(digit(n % 10))
    }
}

/// The status line of a response.
pub open spec fn status_line(status: HttpResponseCode) -> Seq<char> {
    match status {
        HttpResponseCode::HttpOk => "HTTP/1.1 200 OK\r\n"@,
        HttpResponseCode::HttpBadRequest => "HTTP/1.1 400 Bad Request\r\n"@,
        HttpResponseCode::HttpNotFound => "HTTP/1.1 404 Not Found\r\n"@,
    }
}

/// The header line that gives the number of bytes in the body.
pub open spec fn content_length_line(n: nat) -> Seq<char> {
    "Content-Length: "@ + decimal(n) + "\r\n"@
}

/// A response without headers and body: the status line and a blank line.
pub open spec fn bare_response(status: HttpResponseCode) -> Seq<char> {
    status_line(status) + "\r\n"@
}

/// All that stands in front of a text body of `n` bytes.
pub open spec fn text_head(status: HttpResponseCode, n: nat) -> Seq<char> {
    status_line(status) + "Content-Type: text/plain\r\n"@ + content_length_line(n) + "\r\n"@
}

/// All that stands in front of a binary body of `n` bytes.
pub open spec fn octet_head(status: HttpResponseCode, n: nat) -> Seq<char> {
    status_line(status) + "Content-Type: application/octet-stream\r\n"@ + content_length_line(n)
        + "\r\n"@
}

/// The successful response that carries the given text.
pub open spec fn text_response(body: Seq<char>) -> Seq<char> {
    text_head(HttpResponseCode::HttpOk, encode_utf8(body).len()) + body
}

/// The successful response that carries the given bytes.
pub open spec fn octet_response(body: Seq<u8>) -> Seq<u8> {
    encode_utf8(octet_head(HttpResponseCode::HttpOk, body.len())) + body
}

/// The bytes of the response that states an outcome: the status line, then,
/// unless the body is empty, the content type and the content length, then a
/// blank line and the body as it is.
pub open spec fn response_bytes(outcome: OutcomeView) -> Seq<u8> {
    match outcome.body {
        BodyView::Empty => encode_utf8(bare_response(outcome.status)),
        BodyView::Text(text) => encode_utf8(text_head(outcome.status, text.len())) + text,
        BodyView::Binary(bytes) => encode_utf8(octet_head(outcome.status, bytes.len())) + bytes,
    }
}

fn digit_text(d: usize) -> (r: &'static str)
    requires
        d < 10,
    ensures
        r@ == seq![digit(d as nat)],
{
    proof {
        reveal_strlit("0");
        reveal_strlit("1");
        reveal_strlit("2");
        reveal_strlit("3");
        reveal_strlit("4");
        reveal_strlit("5");
        reveal_strlit("6");
        reveal_strlit("7");
        reveal_strlit("8");
        reveal_strlit("9");
    }
    let r = if d == 0 {
        "0"
    } else if d == 1 {
        "1"
    } else if d == 2 {
        "2"
    } else if d == 3 {
        "3"
    } else if d == 4 {
        "4"
    } else if d == 5 {
        "5"
    } else if d == 6 {
        "6"
    } else if d == 7 {
        "7"
    } else if d == 8 {
        "8"
    } else {
        "9"
    };
    assert(r@ =~= seq![digit(d as nat)]);
    r
}

/// Appends `n` in decimal to `out`.
pub fn push_decimal(out: &mut String, n: usize)
    ensures
        final(out)@ == old(out)@ + decimal(n as nat),
    decreases n,
{
    if n >= 10 {
        push_decimal(out, n / 10);
    }
    out.append(digit_text(n % 10));
    assert(out@ =~= old(out)@ + decimal(n as nat));
}

/// The status line of a response, as text.
pub fn status_text(status: HttpResponseCode) -> (r: &'static str)
    ensures
        r@ == status_line(status),
{
    match status {
        HttpResponseCode::HttpOk => "HTTP/1.1 200 OK\r\n",
        HttpResponseCode::HttpBadRequest => "HTTP/1.1 400 Bad Request\r\n",
        HttpResponseCode::HttpNotFound => "HTTP/1.1 404 Not Found\r\n",
    }
}

fn text_head_of(status: HttpResponseCode, n: usize) -> (r: String)
    ensures
        r@ == text_head(status, n as nat),
{
    let mut head = String::from_str(status_text(status));
    head.append("Content-Type: text/plain\r\n");
    head.append("Content-Length: ");
    push_decimal(&mut head, n);
    head.append("\r\n");
    head.append("\r\n");
    assert(head@ =~= text_head(status, n as nat));
    head
}

fn octet_head_of(status: HttpResponseCode, n: usize) -> (r: String)
    ensures
        r@ == octet_head(status, n as nat),
{
    let mut head = String::from_str(status_text(status));
    head.append("Content-Type: application/octet-stream\r\n");
    head.append("Content-Length: ");
    push_decimal(&mut head, n);
    head.append("\r\n");
    head.append("\r\n");
    assert(head@ =~= octet_head(status, n as nat));
    head
}

/// The successful response that carries `response_body` as text: the status
/// line, `Content-Type: text/plain`, the length of the body in bytes, a blank
/// line and the body.
pub fn construct_multiline_response(response_body: &str) -> (r: String)
    ensures
        r@ == text_response(response_body@),
{
    let n_bytes: usize = response_body.as_bytes().len();
    let mut response = text_head_of(HttpResponseCode::HttpOk, n_bytes);
    response.append(response_body);
    response
}

/// The successful response that carries `response_body` as raw bytes: the
/// status line, `Content-Type: application/octet-stream`, the number of bytes,
/// a blank line and the bytes.
pub fn construct_octet_response(response_body: &[u8]) -> (r: Vec<u8>)
    ensures
        r@ == octet_response(response_body@),
{
    let head = octet_head_of(HttpResponseCode::HttpOk, response_body.len());
    let mut response = head.as_str().as_bytes_vec();
    response.extend_from_slice(response_body);
    response
}

/// The bytes of the response that states `outcome`.
pub fn construct_response(outcome: &RouteOutcome) -> (r: Vec<u8>)
    ensures
        r@ == response_bytes(outcome@),
{
    match &outcome.body {
        ResponseBody::Empty => {
            let mut head = String::from_str(status_text(outcome.status));
            head.append("\r\n");
            head.as_str().as_bytes_vec()
        },
        ResponseBody::Text(text) => {
            let body = text.as_str();
            let head = text_head_of(outcome.status, body.as_bytes().len());
            let mut response = head.as_str().as_bytes_vec();
            response.extend_from_slice(body.as_bytes());
            response
        },
        ResponseBody::Binary(bytes) => {
            let head = octet_head_of(outcome.status, bytes.len());
            let mut response = head.as_str().as_bytes_vec();
            response.extend_from_slice(bytes.as_slice());
            response
        },
    }
}

} // verus!
