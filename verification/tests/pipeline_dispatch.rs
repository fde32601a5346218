use route_core::handlers::{Filter, Responder};
use route_core::http::{Method, Request};
use route_core::path::Error as PathError;
use route_core::pipeline::Pipeline;
use route_core::server::{Error, Server};

fn get(path: &str) -> Request {
    Request { method: Method::Get, path: String::from(path) }
}

fn fixed(status: u16, body: &str) -> Responder {
    Responder::Fixed { status, body: String::from(body) }
}

#[test]
fn overlapping_routes_keep_registration_order() {
    let mut s: Server<Responder, Filter> = Server::new();
    s.use_route("/users/:id", Method::Get, fixed(200, "first")).unwrap();
    s.use_route("/users/alice", Method::Get, fixed(200, "second")).unwrap();
    let resp = s.handle_request(get("/users/alice"));
    assert_eq!(resp.body, "first");
}

#[test]
fn most_specific_route_does_not_win_over_earlier() {
    let mut s: Server<Responder, Filter> = Server::new();
    s.use_route("/files/*", Method::Get, fixed(200, "broad")).unwrap();
    s.use_route("/files/readme", Method::Get, fixed(200, "narrow")).unwrap();
    let resp = s.handle_request(get("/files/readme"));
    assert_eq!(resp.body, "broad");
}

#[test]
fn rewritten_request_is_seen_downstream() {
    let mut s: Server<Responder, Filter> = Server::new();
    s.use_middleware("/old", Filter::SetPath { path: String::from("/new") }).unwrap();
    s.use_route("/old", Method::Get, fixed(200, "old route")).unwrap();
    s.use_route("/new", Method::Get, Responder::EchoPath).unwrap();
    let resp = s.handle_request(get("/old"));
    assert_eq!(resp.status, 200);
    assert_eq!(resp.body, "/new");
}

#[test]
fn short_circuit_stops_the_pipeline() {
    let mut s: Server<Responder, Filter> = Server::new();
    s.use_middleware("/x", Filter::Reject { status: 403, body: String::from("no") }).unwrap();
    s.use_route("/x", Method::Get, fixed(200, "yes")).unwrap();
    let resp = s.handle_request(get("/x"));
    assert_eq!(resp.status, 403);
    assert_eq!(resp.body, "no");
}

#[test]
fn route_match_is_terminal() {
    let mut s: Server<Responder, Filter> = Server::new();
    s.use_route("/t", Method::Get, fixed(200, "kept")).unwrap();
    s.use_middleware("/t", Filter::Reject { status: 403, body: String::from("late") }).unwrap();
    s.use_route("/t", Method::Get, fixed(200, "later")).unwrap();
    let resp = s.handle_request(get("/t"));
    assert_eq!(resp.status, 200);
    assert_eq!(resp.body, "kept");
}

#[test]
fn no_match_yields_not_found_default() {
    let mut s: Server<Responder, Filter> = Server::new();
    s.use_route("/hello", Method::Get, fixed(200, "hi")).unwrap();
    let resp = s.handle_request(get("/none"));
    assert_eq!(resp.status, 404);
    assert_eq!(resp.body, "");
}

#[test]
fn empty_pipeline_yields_not_found_default() {
    let s: Server<Responder, Filter> = Server::new();
    let resp = s.handle_request(get("/"));
    assert_eq!(resp.status, 404);
    assert_eq!(resp.body, "");
}

#[test]
fn method_mismatch_skips_route() {
    let mut s: Server<Responder, Filter> = Server::new();
    s.use_route("/m", Method::Get, fixed(200, "got")).unwrap();
    let resp = s.handle_request(Request { method: Method::Post, path: String::from("/m") });
    assert_eq!(resp.status, 404);
}

#[test]
fn non_matching_middleware_is_skipped() {
    let mut s: Server<Responder, Filter> = Server::new();
    s.use_middleware("/admin/*", Filter::Reject { status: 403, body: String::from("no") })
        .unwrap();
    s.use_route("/open", Method::Get, fixed(200, "ok")).unwrap();
    let resp = s.handle_request(get("/open"));
    assert_eq!(resp.status, 200);
    assert_eq!(resp.body, "ok");
}

#[test]
fn invalid_pattern_leaves_registry_untouched() {
    let mut s: Server<Responder, Filter> = Server::new();
    let r = s.use_route("no-slash", Method::Get, fixed(200, "x"));
    assert!(matches!(r, Err(Error::Path(PathError::InvalidPath))));
    assert_eq!(s.pipeline.len(), 0);
    let r2 = s.use_middleware("/a//b", Filter::Pass);
    assert!(matches!(r2, Err(Error::Path(PathError::InvalidPath))));
    assert_eq!(s.pipeline.len(), 0);
    let resp = s.handle_request(get("/anything"));
    assert_eq!(resp.status, 404);
}

#[test]
fn static_flag_is_threaded_through() {
    let mut s: Server<Responder, Filter> = Server::new();
    s.use_static_middleware("/assets/*", Filter::Pass).unwrap();
    s.use_middleware("/api/*", Filter::Pass).unwrap();
    assert_eq!(s.pipeline.len(), 2);
    match &s.pipeline[0] {
        Pipeline::Middleware(m) => {
            assert!(m.is_static());
            assert_eq!(m.path(), "/assets/*");
        },
        Pipeline::Route(_) => panic!("expected middleware"),
    }
    match &s.pipeline[1] {
        Pipeline::Middleware(m) => {
            assert!(!m.is_static());
            assert_eq!(m.path(), "/api/*");
        },
        Pipeline::Route(_) => panic!("expected middleware"),
    }
}

#[test]
fn pass_middleware_leaves_request_unchanged() {
    let mut s: Server<Responder, Filter> = Server::new();
    s.use_middleware("/echo", Filter::Pass).unwrap();
    s.use_route("/echo", Method::Get, Responder::EchoPath).unwrap();
    let resp = s.handle_request(get("/echo"));
    assert_eq!(resp.status, 200);
    assert_eq!(resp.body, "/echo");
}

#[test]
fn cloned_registry_dispatches_independently() {
    let mut s: Server<Responder, Filter> = Server::new();
    s.use_route("/hello", Method::Get, fixed(200, "hi")).unwrap();
    let copy = s.clone();
    s.use_route("/late", Method::Get, fixed(200, "late")).unwrap();
    let resp = copy.handle_request(get("/late"));
    assert_eq!(resp.status, 404);
    let resp2 = copy.handle_request(get("/hello"));
    assert_eq!(resp2.body, "hi");
}
