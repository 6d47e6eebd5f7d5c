//! End-to-end runs of the connection pipeline minus the socket: parse the
//! head, look the handler up, let it build and serialize the response.

use waifu_http::HttpCode;
use waifu_http::Method;
use waifu_http::ParseError;
use waifu_http::Request;
use waifu_http::Response;
use waifu_http::Router;

#[test]
fn get_root_is_routed_and_answered_with_ok() {
    let mut router: Router<u32> = Router::new();
    router.register("/", Method::Get, 42).unwrap();

    let req = Request::parse_raw("GET / HTTP/1.1\r\nHost: x\r\n\r\n").unwrap();
    assert_eq!(req.headers.get("Host").unwrap().as_str(), "x");

    let handler = router.lookup(req.pathname.as_str(), req.method);
    assert_eq!(handler, Some(&42));

    let mut res = Response::new();
    let wire = res.send("ok");
    assert!(wire.starts_with("HTTP/1.1 200 OK\r\n"));
    assert!(wire.contains("Content-Length: 2\r\n"));
    assert!(wire.ends_with("\r\n\r\nok"));
}

#[test]
fn empty_stream_is_rejected_without_a_panic() {
    let outcome = Request::parse_raw("");
    assert_eq!(outcome.unwrap_err(), ParseError::EmptyRequest);

    let mut res = Response::new();
    res.status(HttpCode::BadRequest);
    let wire = res.send("Invalid request");
    assert!(wire.starts_with("HTTP/1.1 400 Bad Request\r\n"));
    assert!(wire.ends_with("\r\n\r\nInvalid request"));
}

#[test]
fn unmatched_route_produces_no_handler() {
    let mut router: Router<u32> = Router::new();
    router.register("/", Method::Get, 1).unwrap();
    let req = Request::parse_raw("GET /nowhere HTTP/1.1\r\n\r\n").unwrap();
    assert_eq!(router.lookup(req.pathname.as_str(), req.method), None);
}
