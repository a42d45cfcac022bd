use http_server::http::method::{Method, MethodError};
use http_server::http::query_string::Value;
use http_server::http::request::{get_next_word, ParseError, Request};

#[test]
fn try_from_valid() {
    let buffer: &[u8] = b"GET /search?name=abs&sort=1 HTTP/1.1\r\n";

    match Request::try_from(buffer) {
        Ok(request) => {
            assert_eq!(request.path(), "/search");
            assert_eq!(*request.method(), Method::GET);
        }
        Err(_) => {
            assert!(false);
        }
    }
}

#[test]
fn try_from_protocol_error() {
    let buffer: &[u8] = b"GET /search?name=abs&sort=1 HTTASDP/1.1\r\n";

    match Request::try_from(buffer) {
        Ok(_) => {
            assert!(false);
        }
        Err(e) => {
            assert_eq!(e, ParseError::InvalidProtocol);
        }
    }
}

#[test]
fn try_from_invalid_method_error() {
    let buffer: &[u8] = b"GE00asT /search?name=abs&sort=1 HTTP/1.1\r\n";

    match Request::try_from(buffer) {
        Ok(_) => {
            assert!(false);
        }
        Err(e) => {
            assert_eq!(e, ParseError::InvalidMethod);
        }
    }
}

#[test]
fn try_from_invalid_request_error() {
    let buffer: &[u8] = b"GET HTTP/1.1\r\n";

    match Request::try_from(buffer) {
        Ok(_) => {
            assert!(false);
        }
        Err(e) => {
            assert_eq!(e, ParseError::InvalidRequest);
        }
    }
}

fn error_of(buffer: &[u8]) -> Option<ParseError> {
    match Request::try_from(buffer) {
        Ok(_) => None,
        Err(e) => Some(e),
    }
}

#[test]
fn query_of_a_valid_request_is_decoded() {
    let buffer: &[u8] = b"GET /search?name=abs&sort=1 HTTP/1.1\r\n";
    let request = match Request::try_from(buffer) {
        Ok(request) => request,
        Err(_) => panic!("a valid request line was refused"),
    };
    let query = request.query_string().expect("the target has a query");
    assert_eq!(query.get("name"), Some(&Value::Single("abs")));
    assert_eq!(query.get("sort"), Some(&Value::Single("1")));
    assert_eq!(query.get("search"), None);
}

#[test]
fn target_without_question_mark_has_no_query() {
    let buffer: &[u8] = b"POST /submit HTTP/1.1\r\nHost: example\r\n\r\nbody";
    let request = match Request::try_from(buffer) {
        Ok(request) => request,
        Err(_) => panic!("a valid request line was refused"),
    };
    assert_eq!(request.path(), "/submit");
    assert_eq!(*request.method(), Method::POST);
    assert!(request.query_string().is_none());
}

#[test]
fn path_ends_at_the_first_question_mark() {
    let buffer: &[u8] = b"GET /a?b?c=d HTTP/1.1\r\n";
    let request = match Request::try_from(buffer) {
        Ok(request) => request,
        Err(_) => panic!("a valid request line was refused"),
    };
    assert_eq!(request.path(), "/a");
    assert!(!request.path().contains('?'));
    let query = request.query_string().expect("the target has a query");
    assert_eq!(query.get("b?c"), Some(&Value::Single("d")));
}

#[test]
fn question_mark_at_the_end_gives_an_empty_query() {
    let buffer: &[u8] = b"GET /? HTTP/1.1\r\n";
    let request = match Request::try_from(buffer) {
        Ok(request) => request,
        Err(_) => panic!("a valid request line was refused"),
    };
    assert_eq!(request.path(), "/");
    let query = request.query_string().expect("the target has a query");
    assert_eq!(query.get(""), Some(&Value::Single("")));
}

#[test]
fn zero_padded_buffer_is_decoded() {
    let mut buffer = [0u8; 1024];
    let line = b"DELETE /items?id=10 HTTP/1.1\r\nHost: localhost\r\n\r\n";
    buffer[..line.len()].copy_from_slice(line);
    let request = match Request::try_from(&buffer[..]) {
        Ok(request) => request,
        Err(_) => panic!("a valid request line was refused"),
    };
    assert_eq!(request.path(), "/items");
    assert_eq!(*request.method(), Method::DELETE);
    let query = request.query_string().expect("the target has a query");
    assert_eq!(query.get("id"), Some(&Value::Single("10")));
}

#[test]
fn every_method_is_recognised() {
    let names = [
        ("GET", Method::GET),
        ("DELETE", Method::DELETE),
        ("POST", Method::POST),
        ("PUT", Method::PUT),
        ("HEAD", Method::HEAD),
        ("CONNECT", Method::CONNECT),
        ("OPTIONS", Method::OPTIONS),
        ("TRACE", Method::TRACE),
        ("PATCH", Method::PATCH),
    ];
    for (name, method) in names {
        assert_eq!(Method::parse(name), Ok(method));
        assert_eq!(name.parse::<Method>(), Ok(method));
        let line = format!("{} / HTTP/1.1\r\n", name);
        match Request::try_from(line.as_bytes()) {
            Ok(request) => assert_eq!(*request.method(), method),
            Err(_) => panic!("a valid request line was refused"),
        };
    }
}

#[test]
fn method_names_are_case_sensitive() {
    assert_eq!(Method::parse("get"), Err(MethodError));
    assert_eq!(Method::parse("Get"), Err(MethodError));
    assert_eq!(Method::parse("GETS"), Err(MethodError));
    assert_eq!(Method::parse(""), Err(MethodError));
    assert_eq!(error_of(b"get / HTTP/1.1\r\n"), Some(ParseError::InvalidMethod));
    assert_eq!(error_of(b" / HTTP/1.1\r\n"), Some(ParseError::InvalidMethod));
}

#[test]
fn bytes_that_are_not_utf8_are_an_invalid_encoding() {
    assert_eq!(error_of(b"GET /\xff HTTP/1.1\r\n"), Some(ParseError::InvalidEncoding));
    assert_eq!(error_of(b"\xc3\x28"), Some(ParseError::InvalidEncoding));
    assert_eq!(error_of(b"GET / HTTP/1.1\r\n\xed\xa0\x80"), Some(ParseError::InvalidEncoding));
    assert_eq!(error_of(b"GET / HTTP/1.1\r\n\xc0\xaf"), Some(ParseError::InvalidEncoding));
}

#[test]
fn missing_words_are_an_invalid_request() {
    assert_eq!(error_of(b""), Some(ParseError::InvalidRequest));
    assert_eq!(error_of(b"GET"), Some(ParseError::InvalidRequest));
    assert_eq!(error_of(b"GET "), Some(ParseError::InvalidRequest));
    assert_eq!(error_of(b"GET /"), Some(ParseError::InvalidRequest));
    assert_eq!(error_of(b"GET / "), Some(ParseError::InvalidRequest));
    assert_eq!(error_of(b"GET / HTTP/1.1"), Some(ParseError::InvalidRequest));
    assert_eq!(error_of(b"\n\n\n"), Some(ParseError::InvalidRequest));
}

#[test]
fn protocol_is_checked_before_the_method() {
    assert_eq!(error_of(b"FETCH / HTTP/1.0\r\n"), Some(ParseError::InvalidProtocol));
    assert_eq!(error_of(b"GET / HTTP/2\r\n"), Some(ParseError::InvalidProtocol));
    assert_eq!(error_of(b"GET / http/1.1\r\n"), Some(ParseError::InvalidProtocol));
    assert_eq!(error_of(b"GET /  HTTP/1.1\r\n"), Some(ParseError::InvalidProtocol));
    assert_eq!(error_of(b"FETCH / HTTP/1.1\r\n"), Some(ParseError::InvalidMethod));
}

#[test]
fn words_may_end_with_a_space_or_a_carriage_return() {
    let request = match Request::try_from(&b"GET\r/index.html\rHTTP/1.1 "[..]) {
        Ok(request) => request,
        Err(_) => panic!("a valid request line was refused"),
    };
    assert_eq!(request.path(), "/index.html");
    assert_eq!(*request.method(), Method::GET);
}

#[test]
fn characters_of_several_bytes_are_kept_whole() {
    let line = "GET /caf\u{e9}/\u{1f600}?q=\u{4e2d}\u{6587} HTTP/1.1\r\n";
    let request = match Request::try_from(line.as_bytes()) {
        Ok(request) => request,
        Err(_) => panic!("a valid request line was refused"),
    };
    assert_eq!(request.path(), "/caf\u{e9}/\u{1f600}");
    let query = request.query_string().expect("the target has a query");
    assert_eq!(query.get("q"), Some(&Value::Single("\u{4e2d}\u{6587}")));
}

#[test]
fn next_word_ends_at_the_first_space_or_carriage_return() {
    assert_eq!(get_next_word("GET / HTTP/1.1\r\n"), Some(("GET", "/ HTTP/1.1\r\n")));
    assert_eq!(get_next_word("HTTP/1.1\r\nHost"), Some(("HTTP/1.1", "\nHost")));
    assert_eq!(get_next_word(" x"), Some(("", "x")));
    assert_eq!(get_next_word("x "), Some(("x", "")));
    assert_eq!(get_next_word("caf\u{e9} \u{1f600}\r"), Some(("caf\u{e9}", "\u{1f600}\r")));
    assert_eq!(get_next_word("no-delimiter\n"), None);
    assert_eq!(get_next_word(""), None);
}

#[test]
fn messages_of_the_errors() {
    assert_eq!(ParseError::InvalidRequest.message(), "Invalid Request");
    assert_eq!(ParseError::InvalidEncoding.message(), "Invalid Encoding");
    assert_eq!(ParseError::InvalidProtocol.message(), "Invalid Protocol");
    assert_eq!(ParseError::InvalidMethod.message(), "Invalid Method");
}

#[test]
fn errors_convert_into_parse_errors() {
    assert_eq!(ParseError::from(MethodError), ParseError::InvalidMethod);
    let invalid: &[u8] = b"\xff";
    let e = std::str::from_utf8(invalid).unwrap_err();
    assert_eq!(ParseError::from(e), ParseError::InvalidEncoding);
}
