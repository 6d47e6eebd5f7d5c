use waifu_http::HttpCode;
use waifu_http::MimeType;
use waifu_http::RenderOutcome;
use waifu_http::Response;

const DATE: &str = "Mon, 02 Jan 2006 15:04:05 GMT";

#[test]
fn round_trip_status_line_body_and_length() {
    let mut r = Response::new();
    r.content = "hello".to_string();
    let wire = r.parse_raw_with_date(DATE);
    let status_line = wire.split("\r\n").next().unwrap();
    assert_eq!(status_line, "HTTP/1.1 200 OK");
    let body = wire.split("\r\n\r\n").nth(1).unwrap();
    assert_eq!(body, "hello");
    assert!(wire.contains("Content-Length: 5\r\n"));
}

#[test]
fn forced_headers_are_present() {
    let r = Response::new();
    let wire = r.parse_raw_with_date(DATE);
    assert!(wire.contains("Connection: keep-alive\r\n"));
    assert!(wire.contains("Content-Length: 0\r\n"));
    assert!(wire.contains("Date: Mon, 02 Jan 2006 15:04:05 GMT\r\n"));
    assert!(wire.contains("Content-Type: text/plain\r\n"));
}

#[test]
fn preset_content_type_suppresses_the_default() {
    let mut r = Response::new();
    r.headers.insert("Content-Type".to_string(), "application/json".to_string());
    let wire = r.parse_raw_with_date(DATE);
    assert!(wire.contains("Content-Type: application/json\r\n"));
    assert!(!wire.contains("text/plain"));
}

#[test]
fn send_stores_the_content_and_serializes() {
    let mut r = Response::new();
    let wire = r.send("ok");
    assert_eq!(r.content.as_str(), "ok");
    assert!(wire.starts_with("HTTP/1.1 200 OK\r\n"));
    assert!(wire.contains("Content-Length: 2\r\n"));
    assert!(wire.ends_with("\r\n\r\nok"));
}

#[test]
fn repeated_send_overwrites_the_content() {
    let mut r = Response::new();
    let _ = r.send("first");
    let wire = r.send("second body");
    assert_eq!(r.content.as_str(), "second body");
    assert!(wire.contains("Content-Length: 11\r\n"));
    assert!(wire.ends_with("\r\n\r\nsecond body"));
}

#[test]
fn status_setter_changes_the_status_line() {
    let mut r = Response::new();
    r.status(HttpCode::BadRequest);
    let wire = r.parse_raw_with_date(DATE);
    assert!(wire.starts_with("HTTP/1.1 400 Bad Request\r\n"));
}

#[test]
fn get_raw_maps_each_code_to_its_phrase_and_number() {
    assert_eq!(HttpCode::OK.get_raw(), ("OK", 200));
    assert_eq!(HttpCode::BadRequest.get_raw(), ("Bad Request", 400));
    assert_eq!(HttpCode::NotFound.get_raw(), ("Not Found", 404));
    assert_eq!(HttpCode::ServerError.get_raw(), ("Server Error", 500));
}

#[test]
fn mime_type_strings() {
    assert_eq!(MimeType::TextPlain.to_string().as_str(), "text/plain");
    assert_eq!(MimeType::TextHtml.to_string().as_str(), "text/html");
    assert_eq!(MimeType::ApplicationJson.to_string().as_str(), "application/json");
    assert_eq!(MimeType::ImageJpeg.to_string().as_str(), "image/jpeg");
    assert_eq!(MimeType::ImagePng.to_string().as_str(), "image/png");
}

#[test]
fn as_bytes_matches_the_serialized_text_shape() {
    let mut r = Response::new();
    r.content = "abc".to_string();
    let bytes = r.as_bytes();
    let text = String::from_utf8(bytes).unwrap();
    assert!(text.starts_with("HTTP/1.1 200 OK\r\n"));
    assert!(text.ends_with("\r\n\r\nabc"));
}

#[test]
fn render_missing_file_names_it_with_not_found() {
    let mut r = Response::new();
    let wire = r.render("missing.html", RenderOutcome::Missing);
    assert_eq!(r.status.get_raw().1, 404);
    assert!(wire.starts_with("HTTP/1.1 404 Not Found\r\n"));
    assert!(wire.ends_with("\r\n\r\nmissing.html NOT FOUND"));
}

#[test]
fn render_content_marks_it_as_html() {
    let mut r = Response::new();
    let wire = r.render("index.html", RenderOutcome::Content("<p>hi</p>".to_string()));
    assert_eq!(r.status.get_raw().1, 200);
    assert!(wire.contains("Content-Type: text/html\r\n"));
    assert!(wire.contains("Content-Length: 9\r\n"));
    assert!(wire.ends_with("\r\n\r\n<p>hi</p>"));
}

#[test]
fn render_open_failure_is_a_server_error() {
    let mut r = Response::new();
    let wire = r.render("index.html", RenderOutcome::OpenFailed);
    assert_eq!(r.status.get_raw().1, 500);
    assert!(wire.starts_with("HTTP/1.1 500 Server Error\r\n"));
    assert!(wire.ends_with("\r\n\r\nInternal server exception"));
}
