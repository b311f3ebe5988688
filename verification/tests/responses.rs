use http_server::request::HttpResponseCode;
use http_server::response::{
    construct_multiline_response, construct_octet_response, construct_response, push_decimal,
    status_text, ResponseBody, RouteOutcome,
};

const EXPECTED_RESPONSE: &str =
    "HTTP/1.1 200 OK\r\nContent-Type: text/plain\r\nContent-Length: 3\r\n\r\nabc";

#[test]
fn test_construct_multiline_response_echo_abc() {
    assert_eq!(construct_multiline_response("abc"), EXPECTED_RESPONSE);
}

#[test]
fn text_response_counts_bytes_not_characters() {
    assert_eq!(
        construct_multiline_response("gr\u{fc}\u{df}e"),
        "HTTP/1.1 200 OK\r\nContent-Type: text/plain\r\nContent-Length: 7\r\n\r\ngr\u{fc}\u{df}e"
    );
    assert_eq!(
        construct_multiline_response(""),
        "HTTP/1.1 200 OK\r\nContent-Type: text/plain\r\nContent-Length: 0\r\n\r\n"
    );
    assert_eq!(
        construct_multiline_response("0123456789"),
        "HTTP/1.1 200 OK\r\nContent-Type: text/plain\r\nContent-Length: 10\r\n\r\n0123456789"
    );
}

#[test]
fn text_body_gets_no_line_terminator_of_its_own() {
    assert_eq!(
        construct_multiline_response("a\r\n"),
        "HTTP/1.1 200 OK\r\nContent-Type: text/plain\r\nContent-Length: 3\r\n\r\na\r\n"
    );
}

#[test]
fn octet_response_carries_the_bytes_as_they_are() {
    assert_eq!(
        construct_octet_response(&[0, 159, 146, 150, 255]),
        [
            b"HTTP/1.1 200 OK\r\nContent-Type: application/octet-stream\r\nContent-Length: 5\r\n\r\n"
                .as_slice(),
            &[0, 159, 146, 150, 255],
        ]
        .concat()
    );
    assert_eq!(
        construct_octet_response(&[]),
        b"HTTP/1.1 200 OK\r\nContent-Type: application/octet-stream\r\nContent-Length: 0\r\n\r\n"
    );
}

#[test]
fn octet_response_of_many_bytes() {
    let body = vec![7u8; 1234];
    let response = construct_octet_response(&body);
    let head =
        b"HTTP/1.1 200 OK\r\nContent-Type: application/octet-stream\r\nContent-Length: 1234\r\n\r\n";
    assert_eq!(&response[..head.len()], head);
    assert_eq!(&response[head.len()..], &body[..]);
}

#[test]
fn response_for_echoed_text() {
    let outcome = RouteOutcome {
        status: HttpResponseCode::HttpOk,
        body: ResponseBody::Text("abc".to_string()),
    };
    assert_eq!(construct_response(&outcome), EXPECTED_RESPONSE.as_bytes());
}

#[test]
fn responses_without_body_are_a_status_line_and_a_blank_line() {
    let respond = |status| construct_response(&RouteOutcome { status, body: ResponseBody::Empty });
    assert_eq!(respond(HttpResponseCode::HttpOk), b"HTTP/1.1 200 OK\r\n\r\n");
    assert_eq!(respond(HttpResponseCode::HttpNotFound), b"HTTP/1.1 404 Not Found\r\n\r\n");
    assert_eq!(respond(HttpResponseCode::HttpBadRequest), b"HTTP/1.1 400 Bad Request\r\n\r\n");
}

#[test]
fn response_for_binary_body() {
    let outcome = RouteOutcome {
        status: HttpResponseCode::HttpOk,
        body: ResponseBody::Binary(vec![1, 2, 3, 4]),
    };
    assert_eq!(construct_response(&outcome), construct_octet_response(&[1, 2, 3, 4]));
    assert_eq!(
        construct_response(&outcome),
        b"HTTP/1.1 200 OK\r\nContent-Type: application/octet-stream\r\nContent-Length: 4\r\n\r\n\x01\x02\x03\x04"
    );
}

#[test]
fn response_for_empty_text_still_has_headers() {
    let outcome = RouteOutcome {
        status: HttpResponseCode::HttpOk,
        body: ResponseBody::Text(String::new()),
    };
    assert_eq!(
        construct_response(&outcome),
        b"HTTP/1.1 200 OK\r\nContent-Type: text/plain\r\nContent-Length: 0\r\n\r\n"
    );
}

#[test]
fn status_lines() {
    assert_eq!(status_text(HttpResponseCode::HttpOk), "HTTP/1.1 200 OK\r\n");
    assert_eq!(status_text(HttpResponseCode::HttpBadRequest), "HTTP/1.1 400 Bad Request\r\n");
    assert_eq!(status_text(HttpResponseCode::HttpNotFound), "HTTP/1.1 404 Not Found\r\n");
}

#[test]
fn decimal_numbers() {
    for (n, text) in [
        (0usize, "0"),
        (7, "7"),
        (9, "9"),
        (10, "10"),
        (99, "99"),
        (100, "100"),
        (150, "150"),
        (1234567890, "1234567890"),
    ] {
        let mut out = String::from("n=");
        push_decimal(&mut out, n);
        assert_eq!(out, format!("n={}", text));
    }
    let mut out = String::new();
    push_decimal(&mut out, usize::MAX);
    assert_eq!(out, format!("{}", usize::MAX));
}
