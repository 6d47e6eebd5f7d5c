use waifu_http::Method;
use waifu_http::ParseError;
use waifu_http::Request;

#[test]
fn parses_request_line_and_headers() {
    let raw = "GET /abc HTTP/1.1\r\nHost: example\r\nX-Token: y\r\n\r\n";
    let req = Request::parse_raw(raw).unwrap();
    assert_eq!(req.method, Method::Get);
    assert_eq!(req.pathname.as_str(), "/abc");
    assert_eq!(req.headers.len(), 2);
    assert_eq!(req.headers.get("Host").unwrap().as_str(), "example");
    assert_eq!(req.headers.get("X-Token").unwrap().as_str(), "y");
    let expected_size =
        "GET /abc HTTP/1.1\r\n".len() + "Host: example\r\n".len() + "X-Token: y\r\n".len();
    assert_eq!(req.size, expected_size);
}

#[test]
fn line_without_delimiter_is_skipped_but_counted() {
    let raw = "GET / HTTP/1.1\r\nHost: x\r\nnodelimiter\r\n\r\n";
    let req = Request::parse_raw(raw).unwrap();
    assert_eq!(req.headers.len(), 1);
    assert!(req.headers.get("nodelimiter").is_none());
    let expected_size =
        "GET / HTTP/1.1\r\n".len() + "Host: x\r\n".len() + "nodelimiter\r\n".len();
    assert_eq!(req.size, expected_size);
}

#[test]
fn blank_line_ends_the_header_block() {
    let raw = "GET / HTTP/1.1\r\nA: 1\r\n\r\nB: 2\r\n";
    let req = Request::parse_raw(raw).unwrap();
    assert_eq!(req.headers.len(), 1);
    assert!(req.headers.get("B").is_none());
    assert_eq!(req.size, "GET / HTTP/1.1\r\n".len() + "A: 1\r\n".len());
}

#[test]
fn duplicate_header_takes_the_last_value() {
    let raw = "GET / HTTP/1.1\r\nA: first\r\nA: second\r\n\r\n";
    let req = Request::parse_raw(raw).unwrap();
    assert_eq!(req.headers.len(), 1);
    assert_eq!(req.headers.get("A").unwrap().as_str(), "second");
}

#[test]
fn header_parts_are_trimmed() {
    let raw = "GET / HTTP/1.1\r\n  Spaced  :  padded value  \r\n\r\n";
    let req = Request::parse_raw(raw).unwrap();
    assert_eq!(req.headers.get("Spaced").unwrap().as_str(), "padded value");
}

#[test]
fn empty_input_is_an_empty_request() {
    assert_eq!(Request::parse_raw("").unwrap_err(), ParseError::EmptyRequest);
}

#[test]
fn one_token_request_line_is_malformed() {
    assert_eq!(Request::parse_raw("GET\r\n\r\n").unwrap_err(), ParseError::MalformedRequestLine);
}

#[test]
fn bare_newline_request_line_is_malformed() {
    assert_eq!(Request::parse_raw("\r\n").unwrap_err(), ParseError::MalformedRequestLine);
}

#[test]
fn unknown_method_token_falls_back_to_get() {
    let req = Request::parse_raw("BREW /pot HTTP/1.1\r\n\r\n").unwrap();
    assert_eq!(req.method, Method::Get);
    assert_eq!(req.pathname.as_str(), "/pot");
}

#[test]
fn post_request_line_parses_as_post() {
    let req = Request::parse_raw("POST /submit HTTP/1.1\r\nHost: x\r\n\r\n").unwrap();
    assert_eq!(req.method, Method::Post);
    assert_eq!(req.pathname.as_str(), "/submit");
}

#[test]
fn head_without_any_headers_parses() {
    let req = Request::parse_raw("DELETE /thing HTTP/1.1\r\n\r\n").unwrap();
    assert_eq!(req.method, Method::Delete);
    assert_eq!(req.headers.len(), 0);
    assert_eq!(req.size, "DELETE /thing HTTP/1.1\r\n".len());
}

#[test]
fn method_try_from_decodes_the_closed_enumeration() {
    assert_eq!(Method::try_from("GET"), Ok(Method::Get));
    assert_eq!(Method::try_from("POST"), Ok(Method::Post));
    assert_eq!(Method::try_from("PATCH"), Ok(Method::Patch));
    assert_eq!(Method::try_from("DELETE"), Ok(Method::Delete));
    assert_eq!(Method::try_from("BREW"), Err(ParseError::UnknownMethod));
    assert_eq!(Method::try_from("get"), Err(ParseError::UnknownMethod));
}
