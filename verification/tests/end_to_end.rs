use route_core::handlers::{Filter, Responder};
use route_core::http::{Method, ParseError, Request, Response};
use route_core::server::Server;

#[test]
fn request_line_is_read() {
    let req = Request::parse("GET /hello HTTP/1.1\r\nHost: x\r\n\r\n").unwrap();
    assert_eq!(req.method, Method::Get);
    assert_eq!(req.path, "/hello");
}

#[test]
fn request_line_without_version_is_read() {
    let req = Request::parse("DELETE /users/7").unwrap();
    assert_eq!(req.method, Method::Delete);
    assert_eq!(req.path, "/users/7");
}

#[test]
fn bad_request_lines_are_rejected() {
    assert!(matches!(Request::parse(""), Err(ParseError::Malformed)));
    assert!(matches!(Request::parse("GET"), Err(ParseError::Malformed)));
    assert!(matches!(Request::parse("GET "), Err(ParseError::Malformed)));
    assert!(matches!(Request::parse(" GET /x"), Err(ParseError::Malformed)));
    assert!(matches!(Request::parse("FETCH /x"), Err(ParseError::Malformed)));
    assert!(matches!(Request::parse("get /x"), Err(ParseError::Malformed)));
    assert!(matches!(Request::parse("GET\r\n/x"), Err(ParseError::Malformed)));
}

#[test]
fn every_verb_token_is_recognized() {
    let cases = [
        ("GET /p", Method::Get),
        ("POST /p", Method::Post),
        ("PUT /p", Method::Put),
        ("DELETE /p", Method::Delete),
        ("HEAD /p", Method::Head),
        ("OPTIONS /p", Method::Options),
        ("PATCH /p", Method::Patch),
    ];
    for (line, want) in cases {
        let req = Request::parse(line).unwrap();
        assert_eq!(req.method, want);
    }
}

#[test]
fn registered_route_answers_and_others_fall_through() {
    let mut s: Server<Responder, Filter> = Server::new();
    s.use_route("/hello", Method::Get, Responder::Fixed { status: 200, body: String::from("hi") })
        .unwrap();
    let req = Request::parse("GET /hello HTTP/1.1\r\n").unwrap();
    let resp = s.handle_request(req);
    assert_eq!(resp.status, 200);
    assert_eq!(resp.body, "hi");
    let other = Request::parse("GET /other HTTP/1.1\r\n").unwrap();
    let resp2 = s.handle_request(other);
    assert_eq!(resp2.status, 404);
    assert_eq!(resp2.body, "");
}

#[test]
fn admin_subtree_is_rejected_before_any_route() {
    let mut s: Server<Responder, Filter> = Server::new();
    s.use_middleware(
        "/admin/*",
        Filter::Reject { status: 403, body: String::from("forbidden") },
    )
        .unwrap();
    s.use_route(
        "/admin/settings",
        Method::Get,
        Responder::Fixed { status: 200, body: String::from("secret") },
    )
        .unwrap();
    let req = Request::parse("GET /admin/settings HTTP/1.1\r\n").unwrap();
    let resp = s.handle_request(req);
    assert_eq!(resp.status, 403);
    assert_eq!(resp.body, "forbidden");
    let bare = s.handle_request(Request { method: Method::Get, path: String::from("/admin") });
    assert_eq!(bare.status, 403);
}

#[test]
fn not_found_constructor_matches_default() {
    let r = Response::not_found();
    assert_eq!(r.status, 404);
    assert_eq!(r.body, "");
}
