use arc_reactor::bodyparser::BodyParser;
use arc_reactor::method::Method;
use arc_reactor::middleware::HeaderStamp;
use arc_reactor::request::Request;
use arc_reactor::response::Response;
use arc_reactor::service::run_handler;
use arc_reactor::reactor::{
    advance, ArcReactor, ConnAction, ConnectionPhase, ConnEvent, RoundRobin,
};
use arc_reactor::router::Router;
use arc_reactor::service::TextService;
use arc_reactor::staticfiles::{StaticDecision, StaticFileServer};
use arc_reactor::timer::SetTimeout;
use arc_reactor::util::{
    contains_sub, normalize_child_path, normalize_prefix, split_path, split_uri, str_eq,
    stripTrailingSlash, u64_to_dec,
};

#[test]
fn strip_trailing_slash_cases() {
    assert_eq!(stripTrailingSlash("/hello/"), "/hello");
    assert_eq!(stripTrailingSlash("/hello"), "/hello");
    assert_eq!(stripTrailingSlash("/"), "");
    assert_eq!(stripTrailingSlash(""), "");
    assert_eq!(stripTrailingSlash("/a//"), "/a/");
}

#[test]
fn split_path_cases() {
    let segs = split_path("/hello/seun");
    assert_eq!(segs, vec!["".to_string(), "hello".to_string(), "seun".to_string()]);
    assert_eq!(split_path(""), vec!["".to_string()]);
    assert_eq!(split_path("a"), vec!["a".to_string()]);
    assert_eq!(split_path("//"), vec!["".to_string(), "".to_string(), "".to_string()]);
}

#[test]
fn split_uri_cases() {
    assert_eq!(
        split_uri("/hello?lol=p"),
        ("/hello".to_string(), "lol=p".to_string())
    );
    assert_eq!(split_uri("/hello"), ("/hello".to_string(), String::new()));
    assert_eq!(split_uri("/a?b?c"), ("/a".to_string(), "b?c".to_string()));
}

#[test]
fn prefix_normalization_cases() {
    assert_eq!(normalize_prefix("admin"), "/admin".to_string());
    assert_eq!(normalize_prefix("/admin"), "/admin".to_string());
    assert_eq!(normalize_prefix("admin/"), "/admin".to_string());
    assert_eq!(normalize_prefix("/"), String::new());
    assert_eq!(normalize_child_path("/roles/"), "/roles".to_string());
    assert_eq!(normalize_child_path("roles"), "/roles".to_string());
    assert_eq!(normalize_child_path("/"), String::new());
}

#[test]
fn decimal_rendering_cases() {
    assert_eq!(u64_to_dec(0), "0".to_string());
    assert_eq!(u64_to_dec(7), "7".to_string());
    assert_eq!(u64_to_dec(1234), "1234".to_string());
    assert_eq!(u64_to_dec(u64::MAX), "18446744073709551615".to_string());
}

#[test]
fn substring_search_cases() {
    assert!(contains_sub("application/json; charset=utf-8", "json"));
    assert!(!contains_sub("text/plain", "json"));
    assert!(contains_sub("anything", ""));
    assert!(str_eq("same", "same"));
    assert!(!str_eq("same", "sam"));
}

#[test]
fn connection_state_machine_follows_the_protocol() {
    // Without TLS the protocol is bound at once.
    assert_eq!(
        advance(ConnectionPhase::Accepted, ConnEvent::Start, false),
        (ConnectionPhase::Bound, ConnAction::BindProtocol)
    );
    // With TLS the handshake comes first, and only then the protocol.
    assert_eq!(
        advance(ConnectionPhase::Accepted, ConnEvent::Start, true),
        (ConnectionPhase::TlsHandshaking, ConnAction::Handshake)
    );
    assert_eq!(
        advance(ConnectionPhase::TlsHandshaking, ConnEvent::TlsOk, true),
        (ConnectionPhase::Bound, ConnAction::BindProtocol)
    );
    // A failed handshake drops the connection before any HTTP work.
    assert_eq!(
        advance(ConnectionPhase::TlsHandshaking, ConnEvent::TlsFailed, true),
        (ConnectionPhase::Closed, ConnAction::Drop)
    );
    // A persistent connection keeps serving request after request.
    assert_eq!(
        advance(ConnectionPhase::Bound, ConnEvent::Start, false),
        (ConnectionPhase::Serving, ConnAction::AwaitRequest)
    );
    assert_eq!(
        advance(ConnectionPhase::Serving, ConnEvent::RequestDone, false),
        (ConnectionPhase::Serving, ConnAction::AwaitRequest)
    );
    assert_eq!(
        advance(ConnectionPhase::Serving, ConnEvent::PeerClosed, false),
        (ConnectionPhase::Closed, ConnAction::Drop)
    );
    // Closed is final.
    assert_eq!(
        advance(ConnectionPhase::Closed, ConnEvent::Start, true),
        (ConnectionPhase::Closed, ConnAction::Idle)
    );
    // An event foreign to the phase closes the connection.
    assert_eq!(
        advance(ConnectionPhase::Accepted, ConnEvent::RequestDone, false),
        (ConnectionPhase::Closed, ConnAction::Drop)
    );
}

#[test]
fn round_robin_wraps_over_the_workers() {
    let mut rr = RoundRobin::new(3);
    assert_eq!(rr.pick(), 0);
    assert_eq!(rr.pick(), 1);
    assert_eq!(rr.pick(), 2);
    assert_eq!(rr.pick(), 0);
}

#[test]
fn timer_fires_once_the_deadline_passed() {
    let mut timer = SetTimeout::new(5, "wake up");
    assert!(!timer.poll_at(0));
    assert!(!timer.poll_at(4));
    assert!(timer.poll_at(5));
    assert!(timer.poll_at(90));
    assert_eq!(timer.count, 4);
    assert_eq!(timer.handler, "wake up");
}

#[test]
fn reactor_builder_accumulates_configuration() {
    let reactor: ArcReactor<Router<TextService, BodyParser, HeaderStamp>, BodyParser, HeaderStamp> =
        ArcReactor::new()
            .port(3000)
            .threads(2)
            .tls(true)
            .routes(Router::new().get("/", TextService::new(200, "index")));
    assert_eq!(reactor.port, 3000);
    assert_eq!(reactor.threads, 2);
    assert!(reactor.tls_configured);
    assert!(reactor.handler.is_some());

    let fresh: ArcReactor<Router<TextService, BodyParser, HeaderStamp>, BodyParser, HeaderStamp> =
        ArcReactor::new();
    assert_eq!(fresh.port, 8080);
    assert!(fresh.threads >= 1);
    assert!(!fresh.tls_configured);
    // The fresh reactor carries the JSON body gate as its default
    // before middleware.
    assert!(fresh.before.is_some());
    assert!(fresh.after.is_none());
}

#[test]
fn reactor_default_middleware_refuses_empty_json_bodies() {
    let reactor: ArcReactor<Router<TextService, BodyParser, HeaderStamp>, BodyParser, HeaderStamp> =
        ArcReactor::new().routes(Router::new().post("/submit", TextService::new(200, "stored")));
    let root = reactor.compose().expect("a service is mounted");

    let empty_json = Request::new(
        Method::Post,
        "/submit".to_string(),
        String::new(),
        vec![("content-type".to_string(), "application/json".to_string())],
        Vec::new(),
    );
    match run_handler(&root, empty_json, Response::new()) {
        Ok(_) => panic!("the default middleware must refuse an empty json body"),
        Err(r) => assert_eq!(r.status(), 400),
    }

    let with_body = Request::new(
        Method::Post,
        "/submit".to_string(),
        String::new(),
        vec![("content-type".to_string(), "application/json".to_string())],
        b"{\"a\":1}".to_vec(),
    );
    let ok = run_handler(&root, with_body, Response::new()).expect("a json body is let through");
    assert_eq!(&ok.body_ref()[..], b"stored");
}

#[test]
fn static_files_serve_only_under_the_root() {
    let server = StaticFileServer::new("static", "public");

    match server.resolve("/static/app.js", Method::Get) {
        StaticDecision::Serve(path) => assert_eq!(path, "public/app.js".to_string()),
        _ => panic!("a file under the root is served"),
    }
    match server.resolve("/static", Method::Get) {
        StaticDecision::Serve(path) => assert_eq!(path, "public/".to_string()),
        _ => panic!("the root itself is served"),
    }
    match server.resolve("/static/app.js", Method::Head) {
        StaticDecision::ServeHead(path) => assert_eq!(path, "public/app.js".to_string()),
        _ => panic!("a HEAD request is answered with metadata"),
    }
    // Only GET and HEAD are served.
    assert!(matches!(
        server.resolve("/static/app.js", Method::Post),
        StaticDecision::Pass
    ));
    // Sharing a substring with the root is not being under it.
    assert!(matches!(
        server.resolve("/staticfiles/app.js", Method::Get),
        StaticDecision::Pass
    ));
    assert!(matches!(server.resolve("", Method::Get), StaticDecision::Pass));
}

#[test]
fn static_files_reject_parent_directory_steps() {
    let server = StaticFileServer::new("static", "public");

    // A plain traversal is refused.
    assert!(matches!(
        server.resolve("/static/../secret.txt", Method::Get),
        StaticDecision::Pass
    ));
    // So is one hidden behind percent-encoding: the path is decoded
    // before the check, and `%2e%2e%2f` decodes to `../`.
    assert!(matches!(
        server.resolve("/static/%2e%2e%2fsecret.txt", Method::Get),
        StaticDecision::Pass
    ));
    // Percent-encoding that decodes harmlessly is still served.
    match server.resolve("/static/a%20b.txt", Method::Get) {
        StaticDecision::Serve(path) => assert_eq!(path, "public/a b.txt".to_string()),
        _ => panic!("an encoded space is harmless"),
    }
}
