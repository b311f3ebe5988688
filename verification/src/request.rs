//! Parsing of one HTTP/1.1 request: the request line, its target, the header
//! lines and the `User-Agent` header, and the route that the target selects.

use vstd::prelude::*;
use vstd::string::*;
use vstd::utf8::*;
use crate::search::{
    after_first, before_first, count_occurrences, equal_bytes, equals_lowered, has_prefix,
    lemma_first_occurrence, lowered, occurs, second_piece, split_terminator, starts_with,
    starts_with_lowered,
};
use crate::text::{count_matches, line_bytes, second_piece_of, split_once, split_pieces};

verus! {

/// The status of a response.
#[derive(Debug, Clone, Copy, PartialEq, Eq, Structural)]
pub enum HttpResponseCode {
    HttpOk,
    HttpBadRequest,
    HttpNotFound,
}

impl HttpResponseCode {
    /// The status code as a number.
    pub open spec fn spec_code(self) -> u16 {
        match self {
            HttpResponseCode::HttpOk => 200,
            HttpResponseCode::HttpBadRequest => 400,
            HttpResponseCode::HttpNotFound => 404,
        }
    }

    /// The status code as a number: 200, 400 or 404.
    #[verifier::when_used_as_spec(spec_code)]
    pub fn code(self) -> (r: u16)
        ensures
            r == self.spec_code(),
    {
        match self {
            HttpResponseCode::HttpOk => 200,
            HttpResponseCode::HttpBadRequest => 400,
            HttpResponseCode::HttpNotFound => 404,
        }
    }
}

/// What a request asks for.
#[derive(Debug, Clone, Copy, PartialEq, Eq, Structural)]
pub enum Route {
    /// The target `/`.
    Root,
    /// The target `/user-agent`, with a `User-Agent` header at hand.
    UserAgent,
    /// A target that begins with `/files/`.
    Files,
    /// A target that holds `/echo/`.
    Echo,
    /// Any other target.
    Unmatched,
    /// No request line, or no target in it.
    Malformed,
}

/// A parsed request together with the status it has earned so far.
#[derive(Debug)]
pub struct RequestResponse<'a, 'b> {
    pub response_code: HttpResponseCode,
    pub route: Route,
    /// `/` and `/user-agent` for those routes, the whole target for a file
    /// route, what follows `/echo/` for an echo route, empty otherwise.
    pub request_path: &'a str,
    /// The lines after the request line, where the request has a header block.
    pub request_headers: Vec<&'b str>,
    /// The raw value of the `User-Agent` header on the user-agent route, empty otherwise.
    pub user_agent: String,
}

/// A parsed request as plain bytes.
#[verifier::ext_equal]
pub struct RequestView {
    pub response_code: HttpResponseCode,
    pub route: Route,
    pub request_path: Seq<u8>,
    pub request_headers: Seq<Seq<u8>>,
    pub user_agent: Seq<u8>,
}

impl<'a, 'b> View for RequestResponse<'a, 'b> {
    type V = RequestView;

    open spec fn view(&self) -> RequestView {
        RequestView {
            response_code: self.response_code,
            route: self.route,
            request_path: self.request_path.spec_bytes(),
            request_headers: line_bytes(self.request_headers@),
            user_agent: encode_utf8(self.user_agent@),
        }
    }
}

/// The line terminator, carriage return and line feed.
pub open spec fn crlf() -> Seq<u8> {
    "\r\n".spec_bytes()
}

/// The separator of the tokens of a request line.
pub open spec fn space() -> Seq<u8> {
    " ".spec_bytes()
}

/// The separator of a header's name and value.
pub open spec fn colon() -> Seq<u8> {
    ":".spec_bytes()
}

/// The target of the root route.
pub open spec fn root_path() -> Seq<u8> {
    "/".spec_bytes()
}

/// The target of the user-agent route, in lower case.
pub open spec fn user_agent_path() -> Seq<u8> {
    "/user-agent".spec_bytes()
}

/// The beginning of a `User-Agent` header line, in lower case.
pub open spec fn user_agent_name() -> Seq<u8> {
    "user-agent:".spec_bytes()
}

/// The beginning of the target of a file route.
pub open spec fn files_prefix() -> Seq<u8> {
    "/files/".spec_bytes()
}

/// The marker of an echo route.
pub open spec fn echo_marker() -> Seq<u8> {
    "/echo/".spec_bytes()
}

/// The request line: the text in front of the first line terminator. A text
/// without a line terminator has none.
pub open spec fn request_line(body: Seq<u8>) -> Option<Seq<u8>> {
    if occurs(body, crlf()) {
        Some(before_first(body, crlf()))
    } else {
        None
    }
}

/// The request target: the second of the space-separated tokens of the
/// request line. A line with fewer than two tokens has none.
pub open spec fn request_target(line: Seq<u8>) -> Option<Seq<u8>> {
    second_piece(line, space())
}

/// The header lines: every line after the request line, in order. They are
/// taken to be present only where the text holds more than two line terminators.
pub open spec fn header_lines(body: Seq<u8>) -> Option<Seq<Seq<u8>>> {
    if count_occurrences(body, crlf()) > 2 {
        Some(split_terminator(body, crlf()).skip(1))
    } else {
        None
    }
}

/// The line is a `User-Agent` header: it begins with that name and a colon,
/// in any mix of upper and lower case.
pub open spec fn is_user_agent_header(line: Seq<u8>) -> bool {
    starts_with(lowered(line), user_agent_name())
}

/// The value of a header line: all the text after its first colon, further
/// colons included. It is empty where the line ends with that colon; a line
/// without a colon has no value.
pub open spec fn header_value(line: Seq<u8>) -> Option<Seq<u8>> {
    if occurs(line, colon()) {
        Some(after_first(line, colon()))
    } else {
        None
    }
}

/// The value of the first `User-Agent` header among the lines, if there is
/// such a line.
pub open spec fn user_agent_header(lines: Seq<Seq<u8>>) -> Option<Seq<u8>>
    decreases lines.len(),
{
    if lines.len() == 0 {
        None
    } else if is_user_agent_header(lines[0]) {
        header_value(lines[0])
    } else {
        user_agent_header(lines.drop_first())
    }
}

/// What follows the first `/echo/` in the target, wherever it stands.
pub open spec fn echo_path(target: Seq<u8>) -> Option<Seq<u8>> {
    if occurs(target, echo_marker()) {
        Some(after_first(target, echo_marker()))
    } else {
        None
    }
}

/// The target is `/user-agent`, in any mix of upper and lower case.
pub open spec fn is_user_agent_path(target: Seq<u8>) -> bool {
    lowered(target) == user_agent_path()
}

/// The route that a target selects, given the `User-Agent` value found in the
/// header block, if there is a header block and such a value. The rules are
/// tried in this order: root, user-agent, files, echo.
pub open spec fn route_of(target: Seq<u8>, agent: Option<Seq<u8>>) -> Route {
    if target == root_path() {
        Route::Root
    } else if is_user_agent_path(target) && agent is Some {
        Route::UserAgent
    } else if starts_with(target, files_prefix()) {
        Route::Files
    } else if occurs(target, echo_marker()) {
        Route::Echo
    } else {
        Route::Unmatched
    }
}

/// The parsed form of a request with the given target and header block.
pub open spec fn routed(target: Seq<u8>, headers: Option<Seq<Seq<u8>>>) -> RequestView {
    let lines = match headers {
        Some(lines) => lines,
        None => Seq::empty(),
    };
    let agent = match headers {
        Some(lines) => user_agent_header(lines),
        None => None,
    };
    let route = route_of(target, agent);
    RequestView {
        response_code: if route == Route::Unmatched {
            HttpResponseCode::HttpNotFound
        } else {
            HttpResponseCode::HttpOk
        },
        route,
        request_path: match route {
            Route::Root => root_path(),
            Route::UserAgent => user_agent_path(),
            Route::Files => target,
            Route::Echo => after_first(target, echo_marker()),
            _ => Seq::empty(),
        },
        request_headers: lines,
        user_agent: if route == Route::UserAgent {
            agent->0
        } else {
            Seq::empty()
        },
    }
}

/// The parsed form of a request that has no request line or no target.
pub open spec fn malformed() -> RequestView {
    RequestView {
        response_code: HttpResponseCode::HttpBadRequest,
        route: Route::Malformed,
        request_path: Seq::empty(),
        request_headers: Seq::empty(),
        user_agent: Seq::empty(),
    }
}

/// The parsed form of the raw text of a request.
pub open spec fn parse_request(body: Seq<u8>) -> RequestView {
    match request_line(body) {
        None => malformed(),
        Some(line) => match request_target(line) {
            None => malformed(),
            Some(target) => routed(target, header_lines(body)),
        },
    }
}

proof fn lemma_separators()
    ensures
        crlf().len() == 2,
        space().len() == 1,
        "".spec_bytes().len() == 0,
{
    reveal_strlit("\r\n");
    reveal_strlit(" ");
    reveal_strlit("");
    is_ascii_chars_encode_utf8("\r\n"@);
    is_ascii_chars_encode_utf8(" "@);
    is_ascii_chars_encode_utf8(""@);
}

/// The request line of the raw text, or the error `bad request` where the text
/// holds no line terminator.
pub fn get_request_line(request_body: &str) -> (r: Result<&str, &str>)
    ensures
        r is Ok <==> request_line(request_body.spec_bytes()) is Some,
        r matches Ok(line) ==> Some(line.spec_bytes()) == request_line(request_body.spec_bytes()),
        r matches Err(e) ==> e@ == "bad request"@,
{
    match split_once(request_body, "\r\n") {
        Some((line, _)) => Ok(line),
        None => Err("bad request"),
    }
}

/// The target named in a request line, or the error `bad request` where the
/// line has fewer than two tokens.
pub fn get_request_target(request_line: &str) -> (r: Result<&str, &str>)
    ensures
        r is Ok <==> request_target(request_line.spec_bytes()) is Some,
        r matches Ok(target) ==> Some(target.spec_bytes()) == request_target(
            request_line.spec_bytes(),
        ),
        r matches Err(e) ==> e@ == "bad request"@,
{
    proof {
        lemma_separators();
    }
    match second_piece_of(request_line, " ") {
        Some(target) => Ok(target),
        None => Err("bad request"),
    }
}

/// The header lines of the raw text, or the error `no headers!` where the text
/// holds no more than two line terminators.
pub fn find_headers(request_body: &str) -> (r: Result<Vec<&str>, &str>)
    ensures
        r is Ok <==> header_lines(request_body.spec_bytes()) is Some,
        r matches Ok(lines) ==> Some(line_bytes(lines@)) == header_lines(
            request_body.spec_bytes(),
        ),
        r matches Err(e) ==> e@ == "no headers!"@,
{
    proof {
        lemma_separators();
    }
    if count_matches(request_body, "\r\n") > 2 {
        let mut lines = split_pieces(request_body, "\r\n");
        let ghost all = lines@;
        proof {
            lemma_first_occurrence(request_body.spec_bytes(), crlf());
            assert(split_terminator(request_body.spec_bytes(), crlf()).len() >= 1);
            assert(line_bytes(all).len() >= 1);
        }
        lines.remove(0);
        assert(line_bytes(lines@) =~= line_bytes(all).skip(1));
        Ok(lines)
    } else {
        Err("no headers!")
    }
}

proof fn lemma_user_agent_header_at(lines: Seq<Seq<u8>>, i: int)
    requires
        0 <= i <= lines.len(),
        forall|j: int| 0 <= j < i ==> !is_user_agent_header(#[trigger] lines[j]),
    ensures
        user_agent_header(lines) == if i < lines.len() && is_user_agent_header(lines[i]) {
            header_value(lines[i])
        } else {
            user_agent_header(lines.skip(i))
        },
    decreases i,
{
    if i == 0 {
        assert(lines.skip(0) =~= lines);
    } else {
        let rest = lines.drop_first();
        assert forall|j: int| 0 <= j < i - 1 implies !is_user_agent_header(#[trigger] rest[j]) by {
            assert(rest[j] == lines[j + 1]);
        }
        lemma_user_agent_header_at(rest, i - 1);
        assert(rest.skip(i - 1) =~= lines.skip(i));
        assert(!is_user_agent_header(lines[0]));
        if i < lines.len() {
            assert(rest[i - 1] == lines[i]);
        }
    }
}

/// The value of the first `User-Agent` header among the lines: all the text
/// after the first colon of that line. `None` where no line is such a header.
pub fn find_user_agent_header<'a>(headers: &'a [&str]) -> (r: Option<&'a str>)
    ensures
        r is Some <==> user_agent_header(line_bytes(headers@)) is Some,
        r matches Some(value) ==> Some(value.spec_bytes()) == user_agent_header(
            line_bytes(headers@),
        ),
{
    proof {
        lemma_separators();
    }
    let ghost lines = line_bytes(headers@);
    let mut i: usize = 0;
    while i < headers.len()
        invariant
            i <= headers@.len(),
            lines == line_bytes(headers@),
            forall|j: int| 0 <= j < i ==> !is_user_agent_header(#[trigger] lines[j]),
        decreases headers@.len() - i,
    {
        let line: &str = headers[i];
        if starts_with_lowered(line.as_bytes(), "user-agent:".as_bytes()) {
            proof {
                lemma_user_agent_header_at(lines, i as int);
            }
            return match split_once(line, ":") {
                Some((_, value)) => Some(value),
                None => None,
            };
        }
        i += 1;
    }
    proof {
        lemma_user_agent_header_at(lines, i as int);
        assert(lines.skip(i as int) =~= Seq::<Seq<u8>>::empty());
    }
    None
}

/// What follows the first `/echo/` in the target, if the target holds it.
pub fn find_echo_path(target_path: &str) -> (r: Option<&str>)
    ensures
        r is Some <==> echo_path(target_path.spec_bytes()) is Some,
        r matches Some(rest) ==> Some(rest.spec_bytes()) == echo_path(target_path.spec_bytes()),
{
    match split_once(target_path, "/echo/") {
        Some((_, remainder)) => Some(remainder),
        None => None,
    }
}

fn malformed_request() -> (r: RequestResponse<'static, 'static>)
    ensures
        r@ == malformed(),
{
    proof {
        lemma_separators();
    }
    let r = RequestResponse {
        response_code: HttpResponseCode::HttpBadRequest,
        route: Route::Malformed,
        request_path: "",
        request_headers: Vec::new(),
        user_agent: String::new(),
    };
    assert(r@ =~= malformed());
    r
}

/// Parses the raw text of a request and selects its route.
///
/// A text without a line terminator, or whose request line has fewer than two
/// tokens, is a bad request. Otherwise the target selects the route; a target
/// that no rule matches is not found.
pub fn extract_request_path(request_body: &str) -> (r: RequestResponse<'_, '_>)
    ensures
        r@ == parse_request(request_body.spec_bytes()),
{
    proof {
        lemma_separators();
    }
    let ghost parsed = parse_request(request_body.spec_bytes());
    let line = match get_request_line(request_body) {
        Ok(line) => line,
        Err(_) => {
            let bad = malformed_request();
            return bad;
        },
    };
    let target = match get_request_target(line) {
        Ok(target) => target,
        Err(_) => {
            let bad = malformed_request();
            return bad;
        },
    };
    let (lines, present) = match find_headers(request_body) {
        Ok(lines) => (lines, true),
        Err(_) => (Vec::new(), false),
    };
    assert(line_bytes(lines@) =~= parsed.request_headers);
    let target_bytes = target.as_bytes();
    if equal_bytes(target_bytes, "/".as_bytes()) {
        let r = RequestResponse {
            response_code: HttpResponseCode::HttpOk,
            route: Route::Root,
            request_path: "/",
            request_headers: lines,
            user_agent: String::new(),
        };
        assert(r@ =~= parsed);
        return r;
    }
    if present && equals_lowered(target_bytes, "/user-agent".as_bytes()) {
        let found = match find_user_agent_header(lines.as_slice()) {
            Some(agent) => Some(String::from_str(agent)),
            None => None,
        };
        if let Some(user_agent) = found {
            let r = RequestResponse {
                response_code: HttpResponseCode::HttpOk,
                route: Route::UserAgent,
                request_path: "/user-agent",
                request_headers: lines,
                user_agent,
            };
            assert(r@ =~= parsed);
            return r;
        }
    }
    if has_prefix(target_bytes, "/files/".as_bytes()) {
        let r = RequestResponse {
            response_code: HttpResponseCode::HttpOk,
            route: Route::Files,
            request_path: target,
            request_headers: lines,
            user_agent: String::new(),
        };
        assert(r@ =~= parsed);
        return r;
    }
    let r = match find_echo_path(target) {
        Some(path) => RequestResponse {
            response_code: HttpResponseCode::HttpOk,
            route: Route::Echo,
            request_path: path,
            request_headers: lines,
            user_agent: String::new(),
        },
        None => RequestResponse {
            response_code: HttpResponseCode::HttpNotFound,
            route: Route::Unmatched,
            request_path: "",
            request_headers: lines,
            user_agent: String::new(),
        },
    };
    assert(r@ =~= parsed);
    r
}

} // verus!
