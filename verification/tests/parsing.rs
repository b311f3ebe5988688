use http_server::request::{
    extract_request_path, find_echo_path, find_headers, find_user_agent_header,
    get_request_line, get_request_target, HttpResponseCode, Route,
};

const HTTP_OK_BODY: &str =
    "GET / HTTP/1.1\r\nHost: localhost:4221\r\nUser-Agent: curl/7.64.1\r\nAccept: */*\r\n\r\n";
const HTTP_OK_NOT_FOUND: &str = "GET /index.html HTTP/1.1\r\nHost: localhost:4221\r\nUser-Agent: curl/7.64.1\r\nAccept: */*\r\n\r\n";
const HTTP_OK_TARGET_LINE: &str = "GET / HTTP/1.1";
const HTTP_OK_TARGET_PATH: &str = "/";
const ECHO_REQUEST: &str = "GET /echo/abc HTTP/1.1\r\nHost: localhost:4221\r\nUser-Agent: curl/7.64.1\r\nAccept: */*\r\n\r\n";
const USER_AGENT_REQUEST: &str = "GET /user-agent HTTP/1.1\r\nHost: localhost:4221\r\nUser-Agent: curl/7.64.1\r\nAccept: */*\r\n\r\n";

#[test]
fn test_extract_correct_target_line() {
    assert_eq!(get_request_line(HTTP_OK_BODY).unwrap(), HTTP_OK_TARGET_LINE);
}

#[test]
fn test_extract_correct_target_path() {
    assert_eq!(
        get_request_target(HTTP_OK_TARGET_LINE).unwrap(),
        HTTP_OK_TARGET_PATH
    );
}

#[test]
fn test_extract_request_body_http_not_found() {
    assert_eq!(
        extract_request_path(HTTP_OK_NOT_FOUND).response_code,
        HttpResponseCode::HttpNotFound
    )
}

#[test]
fn test_extract_request_body_http_ok() {
    assert_eq!(
        extract_request_path(HTTP_OK_BODY).response_code,
        HttpResponseCode::HttpOk
    )
}

#[test]
fn test_extract_request_body_http_echo() {
    assert_eq!(extract_request_path(ECHO_REQUEST).request_path, "abc")
}

#[test]
fn request_line_needs_a_line_terminator() {
    assert_eq!(get_request_line("GET / HTTP/1.1"), Err("bad request"));
    assert_eq!(get_request_line(""), Err("bad request"));
    assert_eq!(get_request_line("GET / HTTP/1.1\nHost: x\n"), Err("bad request"));
    assert_eq!(get_request_line("\r\nGET / HTTP/1.1"), Ok(""));
    assert_eq!(get_request_line("GET /a\r\nHost: x\r\n"), Ok("GET /a"));
}

#[test]
fn text_without_line_terminator_is_a_bad_request() {
    for text in ["", "GET / HTTP/1.1", "GET /echo/abc HTTP/1.1\rHost: x\n", "x"] {
        let request = extract_request_path(text);
        assert_eq!(request.response_code, HttpResponseCode::HttpBadRequest);
        assert_eq!(request.route, Route::Malformed);
        assert_eq!(request.request_path, "");
        assert_eq!(request.user_agent, "");
        assert!(request.request_headers.is_empty());
    }
}

#[test]
fn target_is_the_second_token() {
    assert_eq!(get_request_target("GET /index.html HTTP/1.1"), Ok("/index.html"));
    assert_eq!(get_request_target("GET /index.html"), Ok("/index.html"));
    assert_eq!(get_request_target("GET  /index.html"), Ok(""));
    assert_eq!(get_request_target(" /index.html"), Ok("/index.html"));
    assert_eq!(get_request_target("GET /caf\u{e9} HTTP/1.1"), Ok("/caf\u{e9}"));
}

#[test]
fn target_needs_two_tokens() {
    assert_eq!(get_request_target(""), Err("bad request"));
    assert_eq!(get_request_target("GET"), Err("bad request"));
    assert_eq!(get_request_target("GET "), Err("bad request"));
    assert_eq!(get_request_target(" "), Err("bad request"));
    assert_eq!(
        extract_request_path("GET\r\nHost: x\r\n\r\n").response_code,
        HttpResponseCode::HttpBadRequest
    );
}

#[test]
fn target_is_read_from_the_request_line_only() {
    let request = extract_request_path("GET\r\nHost: /echo/x y\r\n\r\n");
    assert_eq!(request.response_code, HttpResponseCode::HttpBadRequest);
}

#[test]
fn headers_need_more_than_two_line_terminators() {
    assert_eq!(find_headers("GET / HTTP/1.1"), Err("no headers!"));
    assert_eq!(find_headers("GET / HTTP/1.1\r\n\r\n"), Err("no headers!"));
    assert_eq!(find_headers("GET / HTTP/1.1\r\nHost: x\r\n"), Err("no headers!"));
    assert_eq!(
        find_headers("GET / HTTP/1.1\r\nHost: x\r\n\r\n"),
        Ok(vec!["Host: x", ""])
    );
}

#[test]
fn headers_keep_their_order_and_repeats() {
    assert_eq!(
        find_headers(HTTP_OK_BODY),
        Ok(vec!["Host: localhost:4221", "User-Agent: curl/7.64.1", "Accept: */*", ""])
    );
    assert_eq!(
        find_headers("GET / HTTP/1.1\r\nA: 1\r\nA: 1\r\n\r\nbody"),
        Ok(vec!["A: 1", "A: 1", "", "body"])
    );
    assert_eq!(find_headers("\r\n\r\n\r\n"), Ok(vec!["", ""]));
}

#[test]
fn parsed_request_holds_the_header_lines() {
    let request = extract_request_path(ECHO_REQUEST);
    assert_eq!(
        request.request_headers,
        vec!["Host: localhost:4221", "User-Agent: curl/7.64.1", "Accept: */*", ""]
    );
    let short = extract_request_path("GET /echo/abc HTTP/1.1\r\n\r\n");
    assert!(short.request_headers.is_empty());
    assert_eq!(short.request_path, "abc");
}

#[test]
fn user_agent_header_is_found_in_any_case() {
    assert_eq!(find_user_agent_header(&["Host: x", "User-Agent: curl/7.64.1"]), Some(" curl/7.64.1"));
    assert_eq!(find_user_agent_header(&["USER-AGENT:abc"]), Some("abc"));
    assert_eq!(find_user_agent_header(&["user-agent: a", "User-Agent: b"]), Some(" a"));
    assert_eq!(find_user_agent_header(&["Host: x", "Accept: */*"]), None);
    assert_eq!(find_user_agent_header(&[]), None);
    assert_eq!(find_user_agent_header(&["User-Agent"]), None);
    assert_eq!(find_user_agent_header(&["X-User-Agent: a"]), None);
}

#[test]
fn user_agent_value_is_all_text_after_the_first_colon() {
    assert_eq!(find_user_agent_header(&["User-Agent: a:b"]), Some(" a:b"));
    assert_eq!(find_user_agent_header(&["User-Agent: a:b"]).map(|v| v.trim()), Some("a:b"));
    assert_eq!(find_user_agent_header(&["User-Agent: a:b:c"]), Some(" a:b:c"));
    assert_eq!(find_user_agent_header(&["User-Agent::b"]), Some(":b"));
    assert_eq!(
        find_user_agent_header(&["User-Agent: Mozilla/5.0 (X11; rv:109.0) Gecko/20100101"]),
        Some(" Mozilla/5.0 (X11; rv:109.0) Gecko/20100101")
    );
}

#[test]
fn user_agent_header_that_ends_with_its_colon_has_an_empty_value() {
    assert_eq!(find_user_agent_header(&["User-Agent:"]), Some(""));
    assert_eq!(find_user_agent_header(&["User-Agent:", "User-Agent: later"]), Some(""));
    assert_eq!(find_user_agent_header(&["Host: x", "user-agent:"]), Some(""));
}

#[test]
fn echo_path_follows_the_first_marker() {
    assert_eq!(find_echo_path("/echo/abc"), Some("abc"));
    assert_eq!(find_echo_path("/echo/"), Some(""));
    assert_eq!(find_echo_path("/x/echo/y"), Some("y"));
    assert_eq!(find_echo_path("/echo/a/echo/b"), Some("a/echo/b"));
    assert_eq!(find_echo_path("/echo/gr\u{fc}\u{df}e"), Some("gr\u{fc}\u{df}e"));
    assert_eq!(find_echo_path("/echo"), None);
    assert_eq!(find_echo_path("/ECHO/abc"), None);
    assert_eq!(find_echo_path(""), None);
}

#[test]
fn routes_are_tried_in_order() {
    assert_eq!(extract_request_path(HTTP_OK_BODY).route, Route::Root);
    assert_eq!(extract_request_path(HTTP_OK_BODY).request_path, "/");
    assert_eq!(extract_request_path(USER_AGENT_REQUEST).route, Route::UserAgent);
    assert_eq!(
        extract_request_path("GET /files/echo/x HTTP/1.1\r\n\r\n").route,
        Route::Files
    );
    assert_eq!(
        extract_request_path("GET /files/echo/x HTTP/1.1\r\n\r\n").request_path,
        "/files/echo/x"
    );
    assert_eq!(extract_request_path("GET /a/files/b HTTP/1.1\r\n\r\n").route, Route::Unmatched);
    assert_eq!(extract_request_path("GET /a/echo/b HTTP/1.1\r\n\r\n").route, Route::Echo);
    assert_eq!(extract_request_path(HTTP_OK_NOT_FOUND).route, Route::Unmatched);
    assert_eq!(extract_request_path(HTTP_OK_NOT_FOUND).request_path, "");
}

#[test]
fn user_agent_route_reflects_the_header() {
    let request = extract_request_path(USER_AGENT_REQUEST);
    assert_eq!(request.response_code, HttpResponseCode::HttpOk);
    assert_eq!(request.request_path, "/user-agent");
    assert_eq!(request.user_agent, " curl/7.64.1");
    let upper = extract_request_path("GET /User-AGENT HTTP/1.1\r\nuser-agent: x\r\n\r\n");
    assert_eq!(upper.route, Route::UserAgent);
    assert_eq!(upper.request_path, "/user-agent");
    assert_eq!(upper.user_agent, " x");
}

#[test]
fn user_agent_route_needs_headers_and_the_header() {
    let no_block = extract_request_path("GET /user-agent HTTP/1.1\r\nUser-Agent: x\r\n");
    assert_eq!(no_block.response_code, HttpResponseCode::HttpNotFound);
    assert_eq!(no_block.route, Route::Unmatched);
    let no_header = extract_request_path("GET /user-agent HTTP/1.1\r\nHost: x\r\n\r\n");
    assert_eq!(no_header.response_code, HttpResponseCode::HttpNotFound);
    assert_eq!(no_header.user_agent, "");
}

#[test]
fn user_agent_route_takes_an_empty_value() {
    let request = extract_request_path("GET /user-agent HTTP/1.1\r\nUser-Agent:\r\n\r\n");
    assert_eq!(request.response_code, HttpResponseCode::HttpOk);
    assert_eq!(request.route, Route::UserAgent);
    assert_eq!(request.request_path, "/user-agent");
    assert_eq!(request.user_agent, "");
}

#[test]
fn user_agent_route_keeps_colons_in_the_value() {
    let request =
        extract_request_path("GET /user-agent HTTP/1.1\r\nUser-Agent: a:b\r\n\r\n");
    assert_eq!(request.route, Route::UserAgent);
    assert_eq!(request.user_agent, " a:b");
}

#[test]
fn status_codes_are_numbers() {
    assert_eq!(HttpResponseCode::HttpOk.code(), 200);
    assert_eq!(HttpResponseCode::HttpBadRequest.code(), 400);
    assert_eq!(HttpResponseCode::HttpNotFound.code(), 404);
}
