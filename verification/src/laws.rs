//! What holds of parsing, routing and responding taken together.

use vstd::prelude::*;
use vstd::string::*;
use vstd::utf8::*;
use crate::request::{
    colon, crlf, echo_marker, files_prefix, header_value, malformed, parse_request,
    request_line, request_target, root_path, user_agent_path, HttpResponseCode, Route,
};
use crate::response::{response_bytes, text_head, text_response};
use crate::router::{action_of, bare_outcome, file_outcome_of, text_outcome, ActionView, FileLookup};
use crate::search::{lemma_first_occurrence_is, lowered, occurs, occurs_at};
use crate::text::lemma_encode_concat;

verus! {

/// The bytes of the targets and markers that the routes are told apart by.
pub proof fn lemma_route_literals()
    ensures
        root_path() == seq![0x2fu8],
        echo_marker() == seq![0x2fu8, 0x65, 0x63, 0x68, 0x6f, 0x2f],
        files_prefix() == seq![0x2fu8, 0x66, 0x69, 0x6c, 0x65, 0x73, 0x2f],
        user_agent_path().len() == 11,
        user_agent_path()[1] == 0x75,
{
    reveal_strlit("/");
    reveal_strlit("/echo/");
    reveal_strlit("/files/");
    reveal_strlit("/user-agent");
    is_ascii_chars_encode_utf8("/"@);
    is_ascii_chars_encode_utf8("/echo/"@);
    is_ascii_chars_encode_utf8("/files/"@);
    is_ascii_chars_encode_utf8("/user-agent"@);
    assert(root_path() =~= seq![0x2fu8]);
    assert(echo_marker() =~= seq![0x2fu8, 0x65, 0x63, 0x68, 0x6f, 0x2f]);
    assert(files_prefix() =~= seq![0x2fu8, 0x66, 0x69, 0x6c, 0x65, 0x73, 0x2f]);
}

/// A request whose text holds no line terminator is a bad request, and is
/// answered as one, with no body.
pub proof fn lemma_no_line_terminator_is_bad_request(body: Seq<u8>, directory: Seq<u8>)
    requires
        !occurs(body, crlf()),
    ensures
        parse_request(body) == malformed(),
        parse_request(body).response_code == HttpResponseCode::HttpBadRequest,
        action_of(parse_request(body), directory) == ActionView::Respond(
            bare_outcome(HttpResponseCode::HttpBadRequest),
        ),
{
}

/// The value of a header is all the text after the first colon of its line:
/// behind a name without a colon, and the colon, whatever follows is the
/// value, further colons and all.
pub proof fn lemma_header_value_follows_first_colon(name: Seq<u8>, value: Seq<u8>)
    requires
        !occurs(name, colon()),
    ensures
        header_value(name + colon() + value) == Some(value),
{
    reveal_strlit(":");
    is_ascii_chars_encode_utf8(":"@);
    let line = name + colon() + value;
    let at = name.len() as int;
    assert(colon().len() == 1);
    assert(line.subrange(at, at + 1) =~= colon());
    assert forall|j: int| 0 <= j < at implies !occurs_at(line, colon(), j) by {
        assert(!occurs_at(name, colon(), j));
        assert(line.subrange(j, j + 1) =~= name.subrange(j, j + 1));
    }
    lemma_first_occurrence_is(line, colon(), at);
    assert(line.subrange(at + 1, line.len() as int) =~= value);
}

/// A request for the target `/echo/` followed by any text is answered with
/// exactly that text, and the response gives the number of its bytes as the
/// content length.
pub proof fn lemma_echo_returns_its_text(body: Seq<u8>, echoed: Seq<u8>, directory: Seq<u8>)
    requires
        request_line(body) matches Some(line) && request_target(line) == Some(
            echo_marker() + echoed,
        ),
    ensures
        parse_request(body).route == Route::Echo,
        parse_request(body).request_path == echoed,
        action_of(parse_request(body), directory) == ActionView::Respond(text_outcome(echoed)),
        response_bytes(text_outcome(echoed)) == encode_utf8(
            text_head(HttpResponseCode::HttpOk, echoed.len()),
        ) + echoed,
{
    lemma_route_literals();
    let target = echo_marker() + echoed;
    assert(target.subrange(0, 6) =~= echo_marker());
    lemma_first_occurrence_is(target, echo_marker(), 0);
    assert(target.subrange(6, target.len() as int) =~= echoed);
    assert(target[1] == 0x65);
    assert(lowered(target).len() == target.len());
    if lowered(target) == user_agent_path() {
        assert(lowered(target)[1] == 0x65);
    }
    if occurs_at(target, files_prefix(), 0) {
        assert(target.subrange(0, 7)[1] == files_prefix()[1]);
    }
}

/// A request for the target `/` is answered with the status line for success
/// and a blank line, and nothing else.
pub proof fn lemma_root_is_answered_bare(body: Seq<u8>, directory: Seq<u8>)
    requires
        request_line(body) matches Some(line) && request_target(line) == Some(root_path()),
    ensures
        parse_request(body).route == Route::Root,
        action_of(parse_request(body), directory) == ActionView::Respond(
            bare_outcome(HttpResponseCode::HttpOk),
        ),
        response_bytes(bare_outcome(HttpResponseCode::HttpOk)) == "HTTP/1.1 200 OK\r\n\r\n".spec_bytes(),
{
    reveal_strlit("HTTP/1.1 200 OK\r\n");
    reveal_strlit("\r\n");
    reveal_strlit("HTTP/1.1 200 OK\r\n\r\n");
    assert("HTTP/1.1 200 OK\r\n"@ + "\r\n"@ =~= "HTTP/1.1 200 OK\r\n\r\n"@);
}

/// A request for the target `/files/` followed by a name asks for the file
/// named by the directory followed by that name; where no such file exists,
/// the answer is the status line for not found and a blank line.
pub proof fn lemma_missing_file_is_not_found(body: Seq<u8>, name: Seq<u8>, directory: Seq<u8>)
    requires
        name.len() > 0,
        request_line(body) matches Some(line) && request_target(line) == Some(
            files_prefix() + name,
        ),
    ensures
        parse_request(body).route == Route::Files,
        action_of(parse_request(body), directory) == ActionView::ReadFile(directory + name),
        file_outcome_of(FileLookup::Missing).status == HttpResponseCode::HttpNotFound,
        response_bytes(file_outcome_of(FileLookup::Missing))
            == "HTTP/1.1 404 Not Found\r\n\r\n".spec_bytes(),
{
    lemma_route_literals();
    let target = files_prefix() + name;
    assert(target.subrange(0, 7) =~= files_prefix());
    assert(target.skip(7) =~= name);
    assert(target[1] == 0x66);
    assert(lowered(target).len() == target.len());
    if lowered(target) == user_agent_path() {
        assert(lowered(target)[1] == 0x66);
    }
    reveal_strlit("HTTP/1.1 404 Not Found\r\n");
    reveal_strlit("\r\n");
    reveal_strlit("HTTP/1.1 404 Not Found\r\n\r\n");
    assert("HTTP/1.1 404 Not Found\r\n"@ + "\r\n"@ =~= "HTTP/1.1 404 Not Found\r\n\r\n"@);
}

/// The response built for a text alone, read as bytes, is the response to the
/// successful outcome that carries that text.
pub proof fn lemma_text_response_answers_text_outcome(body: Seq<char>)
    ensures
        encode_utf8(text_response(body)) == response_bytes(text_outcome(encode_utf8(body))),
{
    lemma_encode_concat(text_head(HttpResponseCode::HttpOk, encode_utf8(body).len()), body);
}

/// The same request bytes, with the same directory, always lead to the same
/// next step: two results that each meet the contract of `handle_body` are equal.
pub proof fn lemma_same_request_same_action(
    body: Seq<u8>,
    directory: Seq<u8>,
    first: ActionView,
    second: ActionView,
)
    requires
        first == action_of(parse_request(body), directory),
        second == action_of(parse_request(body), directory),
    ensures
        first == second,
{
}

} // verus!
