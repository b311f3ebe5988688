//! From a parsed request to what the server does next: answer at once, or
//! look a file up and answer with what was found.

use vstd::prelude::*;
use vstd::string::*;
use vstd::utf8::*;
use crate::request::{
    extract_request_path, files_prefix, parse_request, HttpResponseCode, RequestResponse,
    RequestView, Route,
};
use crate::response::{BodyView, OutcomeView, ResponseBody, RouteOutcome};
use crate::search::{has_prefix, lemma_first_occurrence_is, starts_with};
use crate::text::{lemma_encode_concat, split_once};
use crate::whitespace::{trim, trimmed};

verus! {

/// The next step in answering a request.
#[derive(Debug, Clone, PartialEq, Eq)]
pub enum RouteAction {
    /// Answer with this outcome.
    Respond(RouteOutcome),
    /// Look up the file at this path, then answer with `file_outcome`.
    ReadFile(String),
}

/// What looking a file up came to.
#[derive(Debug, Clone, PartialEq, Eq)]
pub enum FileLookup {
    /// There is no file at the path.
    Missing,
    /// There is one, and reading it failed.
    Unreadable,
    /// All the bytes of the file.
    Content(Vec<u8>),
}

/// A next step as plain values.
#[verifier::ext_equal]
pub enum ActionView {
    Respond(OutcomeView),
    ReadFile(Seq<u8>),
}

impl View for RouteAction {
    type V = ActionView;

    open spec fn view(&self) -> ActionView {
        match self {
            RouteAction::Respond(outcome) => ActionView::Respond(outcome@),
            RouteAction::ReadFile(path) => ActionView::ReadFile(encode_utf8(path@)),
        }
    }
}

/// The outcome with the given status and no body.
pub open spec fn bare_outcome(status: HttpResponseCode) -> OutcomeView {
    OutcomeView { status, body: BodyView::Empty }
}

/// The successful outcome with the given text as its body.
pub open spec fn text_outcome(body: Seq<u8>) -> OutcomeView {
    OutcomeView { status: HttpResponseCode::HttpOk, body: BodyView::Text(body) }
}

/// What follows `/files/` at the beginning of a path, where something does.
pub open spec fn files_remainder(path: Seq<u8>) -> Option<Seq<u8>> {
    if starts_with(path, files_prefix()) && path.len() > files_prefix().len() {
        Some(path.skip(files_prefix().len() as int))
    } else {
        None
    }
}

/// The next step for a parsed request, with `directory` as the base of the
/// files served.
///
/// The root route answers with an empty success; the user-agent route with the
/// trimmed header value; the echo route with the echoed text. The file route
/// asks for the file named by the directory followed, as it is, by what
/// follows `/files/`, and is not found where nothing follows. An unmatched
/// request is not found, a malformed one is a bad request.
pub open spec fn action_of(request: RequestView, directory: Seq<u8>) -> ActionView {
    match request.route {
        Route::Root => ActionView::Respond(bare_outcome(HttpResponseCode::HttpOk)),
        Route::UserAgent => ActionView::Respond(text_outcome(trimmed(request.user_agent))),
        Route::Files => match files_remainder(request.request_path) {
            Some(rest) => ActionView::ReadFile(directory + rest),
            None => ActionView::Respond(bare_outcome(HttpResponseCode::HttpNotFound)),
        },
        Route::Echo => ActionView::Respond(text_outcome(request.request_path)),
        Route::Unmatched => ActionView::Respond(bare_outcome(HttpResponseCode::HttpNotFound)),
        Route::Malformed => ActionView::Respond(bare_outcome(HttpResponseCode::HttpBadRequest)),
    }
}

/// The outcome of a file route once the file has been looked up: its bytes
/// where it was read, not found where it is missing, a bad request where
/// reading it failed.
pub open spec fn file_outcome_of(lookup: FileLookup) -> OutcomeView {
    match lookup {
        FileLookup::Missing => bare_outcome(HttpResponseCode::HttpNotFound),
        FileLookup::Unreadable => bare_outcome(HttpResponseCode::HttpBadRequest),
        FileLookup::Content(bytes) => OutcomeView {
            status: HttpResponseCode::HttpOk,
            body: BodyView::Binary(bytes@),
        },
    }
}

fn respond_bare(status: HttpResponseCode) -> (r: RouteAction)
    ensures
        r@ == ActionView::Respond(bare_outcome(status)),
{
    RouteAction::Respond(RouteOutcome { status, body: ResponseBody::Empty })
}

fn respond_text(body: &str) -> (r: RouteAction)
    ensures
        r@ == ActionView::Respond(text_outcome(body.spec_bytes())),
{
    RouteAction::Respond(
        RouteOutcome {
            status: HttpResponseCode::HttpOk,
            body: ResponseBody::Text(String::from_str(body)),
        },
    )
}

/// The next step for a parsed request, with `directory` as the base of the
/// files served.
pub fn decide(request: &RequestResponse, directory: &str) -> (r: RouteAction)
    ensures
        r@ == action_of(request@, directory.spec_bytes()),
        r@ matches ActionView::Respond(outcome) ==> outcome.well_formed(),
{
    match request.route {
        Route::Root => respond_bare(HttpResponseCode::HttpOk),
        Route::UserAgent => respond_text(trim(request.user_agent.as_str())),
        Route::Files => {
            let path: &str = request.request_path;
            if !has_prefix(path.as_bytes(), "/files/".as_bytes()) {
                return respond_bare(HttpResponseCode::HttpNotFound);
            }
            proof {
                lemma_first_occurrence_is(path.spec_bytes(), files_prefix(), 0);
            }
            match split_once(path, "/files/") {
                None => respond_bare(HttpResponseCode::HttpNotFound),
                Some((_, rest)) => {
                    if rest.as_bytes().len() == 0 {
                        respond_bare(HttpResponseCode::HttpNotFound)
                    } else {
                        let mut file = String::from_str(directory);
                        file.append(rest);
                        proof {
                            lemma_encode_concat(directory@, rest@);
                        }
                        RouteAction::ReadFile(file)
                    }
                },
            }
        },
        Route::Echo => respond_text(request.request_path),
        Route::Unmatched => respond_bare(HttpResponseCode::HttpNotFound),
        Route::Malformed => respond_bare(HttpResponseCode::HttpBadRequest),
    }
}

/// The outcome of a file route once the file has been looked up.
pub fn file_outcome(lookup: FileLookup) -> (r: RouteOutcome)
    ensures
        r@ == file_outcome_of(lookup),
        r@.well_formed(),
{
    match lookup {
        FileLookup::Missing => RouteOutcome {
            status: HttpResponseCode::HttpNotFound,
            body: ResponseBody::Empty,
        },
        FileLookup::Unreadable => RouteOutcome {
            status: HttpResponseCode::HttpBadRequest,
            body: ResponseBody::Empty,
        },
        FileLookup::Content(bytes) => RouteOutcome {
            status: HttpResponseCode::HttpOk,
            body: ResponseBody::Binary(bytes),
        },
    }
}

/// Parses the text of a request and decides the next step.
pub fn handle_body(request_body: &str, directory: &str) -> (r: RouteAction)
    ensures
        r@ == action_of(parse_request(request_body.spec_bytes()), directory.spec_bytes()),
        r@ matches ActionView::Respond(outcome) ==> outcome.well_formed(),
{
    let request = extract_request_path(request_body);
    decide(&request, directory)
}

/// `core::str::from_utf8`: the bytes as text, exactly when they are
/// well-formed UTF-8; the text then holds those very bytes.
#[verifier::external_body]
fn decode_text(bytes: &[u8]) -> (r: Option<&str>)
    ensures
        r is Some <==> valid_utf8(bytes@),
        r matches Some(text) ==> text.spec_bytes() == bytes@,
{
    core::str::from_utf8(bytes).ok()
}

/// Decides the next step for the bytes received on a connection. There is
/// none, and nothing is to be sent, where no bytes were received or where
/// they are not well-formed UTF-8.
pub fn handle_client(received: &[u8], directory: &str) -> (r: Option<RouteAction>)
    ensures
        r is Some <==> received@.len() > 0 && valid_utf8(received@),
        r matches Some(action) ==> {
            &&& action@ == action_of(parse_request(received@), directory.spec_bytes())
            &&& action@ matches ActionView::Respond(outcome) ==> outcome.well_formed()
        },
{
    if received.len() == 0 {
        return None;
    }
    match decode_text(received) {
        None => None,
        Some(request_body) => Some(handle_body(request_body, directory)),
    }
}

} // verus!
