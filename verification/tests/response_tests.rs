use http_server::http::response::Response;
use http_server::http::status_code::StatusCode;
use http_server::http::text::{cut_str, decimal_string, same_text, starts_with};

fn sent(response: &Response) -> Vec<u8> {
    let mut stream = Vec::new();
    response.send(&mut stream);
    stream
}

#[test]
fn ok_with_body_is_encoded_exactly() {
    let response = Response::new(StatusCode::OK, Some("hi".to_string()));
    assert_eq!(sent(&response), b"HTTP/1.1 200 OK\r\n\r\nhi".to_vec());
}

#[test]
fn absent_body_is_encoded_as_nothing() {
    let response = Response::new(StatusCode::BadRequest, None);
    assert_eq!(sent(&response), b"HTTP/1.1 400 Bad Request\r\n\r\n".to_vec());
    let response = Response::new(StatusCode::NotFound, None);
    assert_eq!(sent(&response), b"HTTP/1.1 404 Not Found\r\n\r\n".to_vec());
    let response = Response::new(StatusCode::OK, Some(String::new()));
    assert_eq!(sent(&response), b"HTTP/1.1 200 OK\r\n\r\n".to_vec());
}

#[test]
fn body_is_written_in_utf8_without_headers() {
    let response = Response::new(StatusCode::NotFound, Some("caf\u{e9} \u{1f600}\r\n".to_string()));
    assert_eq!(
        sent(&response),
        "HTTP/1.1 404 Not Found\r\n\r\ncaf\u{e9} \u{1f600}\r\n".as_bytes().to_vec()
    );
}

#[test]
fn send_appends_to_what_the_stream_holds() {
    let mut stream = b"earlier".to_vec();
    Response::new(StatusCode::OK, Some("a".to_string())).send(&mut stream);
    Response::new(StatusCode::NotFound, None).send(&mut stream);
    assert_eq!(
        stream,
        b"earlierHTTP/1.1 200 OK\r\n\r\naHTTP/1.1 404 Not Found\r\n\r\n".to_vec()
    );
}

#[test]
fn response_keeps_its_status_and_body() {
    let response = Response::new(StatusCode::OK, Some("page".to_string()));
    assert_eq!(response.status_code(), StatusCode::OK);
    assert_eq!(response.body(), Some("page"));
    let response = Response::new(StatusCode::BadRequest, None);
    assert_eq!(response.status_code(), StatusCode::BadRequest);
    assert_eq!(response.body(), None);
}

#[test]
fn codes_and_reason_phrases() {
    assert_eq!(StatusCode::OK.code(), 200);
    assert_eq!(StatusCode::BadRequest.code(), 400);
    assert_eq!(StatusCode::NotFound.code(), 404);
    assert_eq!(StatusCode::OK.reason_phrase(), "OK");
    assert_eq!(StatusCode::BadRequest.reason_phrase(), "Bad Request");
    assert_eq!(StatusCode::NotFound.reason_phrase(), "Not Found");
}

#[test]
fn numbers_in_decimal_notation() {
    assert_eq!(decimal_string(0), "0");
    assert_eq!(decimal_string(7), "7");
    assert_eq!(decimal_string(10), "10");
    assert_eq!(decimal_string(200), "200");
    assert_eq!(decimal_string(404), "404");
    assert_eq!(decimal_string(1009), "1009");
    assert_eq!(decimal_string(65535), "65535");
    for n in [1u16, 9, 11, 99, 100, 101, 999, 1000, 12345, 40000, 65534] {
        assert_eq!(decimal_string(n), format!("{}", n));
    }
}

#[test]
fn text_is_cut_at_the_first_of_two_characters() {
    assert_eq!(cut_str("a=b=c", '=', '='), Some(("a", "b=c")));
    assert_eq!(cut_str("=b", '=', '='), Some(("", "b")));
    assert_eq!(cut_str("a=", '=', '='), Some(("a", "")));
    assert_eq!(cut_str("a b\rc", '\r', ' '), Some(("a", "b\rc")));
    assert_eq!(cut_str("a\rb c", ' ', '\r'), Some(("a", "b c")));
    assert_eq!(cut_str("\u{e9}\u{1f600}&\u{4e2d}", '&', '&'), Some(("\u{e9}\u{1f600}", "\u{4e2d}")));
    assert_eq!(cut_str("abc", '=', '&'), None);
    assert_eq!(cut_str("", '=', '='), None);
}

#[test]
fn texts_are_compared_by_their_characters() {
    assert!(same_text("HTTP/1.1", "HTTP/1.1"));
    assert!(same_text("", ""));
    assert!(same_text("caf\u{e9}", "caf\u{e9}"));
    assert!(!same_text("HTTP/1.1", "HTTP/1.0"));
    assert!(!same_text("HTTP/1.1", "HTTP/1.1 "));
    assert!(!same_text("http/1.1", "HTTP/1.1"));
    assert!(!same_text("cafe", "caf\u{e9}"));
    assert!(!same_text("", "a"));
}

#[test]
fn prefixes_of_a_text() {
    assert!(starts_with("/srv/www/index.html", "/srv/www"));
    assert!(starts_with("/srv/www", "/srv/www"));
    assert!(starts_with("anything", ""));
    assert!(starts_with("\u{e9}t\u{e9}", "\u{e9}t"));
    assert!(!starts_with("/srv/ww", "/srv/www"));
    assert!(!starts_with("/etc/passwd", "/srv/www"));
    assert!(!starts_with("", "a"));
    assert!(!starts_with("\u{e9}t\u{e9}", "e"));
}
