use std::sync::Arc;
use arc_reactor::bodyparser::BodyParser;
use arc_reactor::fakereactor::FakeReactor;
use arc_reactor::routegroup::RouteGroup;
use arc_reactor::router::Router;
use arc_reactor::method::Method;
use arc_reactor::middleware::{Guard, HeaderStamp, MiddleWare};
use arc_reactor::request::Request;
use arc_reactor::response::Response;
use arc_reactor::service::{run_handler, ArcHandler, HandlerKind, TextService};

fn request(method: Method, path: &str) -> Request {
    Request::new(method, path.to_string(), String::new(), Vec::new(), Vec::new())
}

fn request_with(method: Method, path: &str, headers: Vec<(String, String)>, body: Vec<u8>) -> Request {
    Request::new(method, path.to_string(), String::new(), headers, body)
}

fn allow() -> Guard {
    Guard { allow: true, deny_status: 500, deny_body: String::new() }
}

fn deny(status: u16, body: &str) -> Guard {
    Guard { allow: false, deny_status: status, deny_body: body.to_string() }
}

#[test]
fn before_chain_short_circuits_and_skips_the_handler() {
    // Before-chain [m1 -> Ok, m2 -> Err(R)]: the handler never runs and
    // the final response is exactly R.
    let handler: ArcHandler<TextService, Vec<Guard>, HeaderStamp> = ArcHandler {
        before: Some(Arc::new(vec![allow(), deny(401, "denied")])),
        handler: HandlerKind::Leaf(TextService::new(200, "should never appear")),
        after: None,
    };

    let out = run_handler(&handler, request(Method::Get, "/guarded"), Response::new());
    match out {
        Ok(_) => panic!("the chain must short-circuit"),
        Err(r) => {
            assert_eq!(r.status(), 401);
            assert_eq!(&r.body_ref()[..], b"denied");
        }
    }
}

#[test]
fn passing_chain_reaches_the_handler() {
    let handler: ArcHandler<TextService, Vec<Guard>, HeaderStamp> = ArcHandler {
        before: Some(Arc::new(vec![allow(), allow()])),
        handler: HandlerKind::Leaf(TextService::new(200, "made it")),
        after: None,
    };

    let out = run_handler(&handler, request(Method::Get, "/open"), Response::new());
    let resp = out.expect("nothing short-circuits");
    assert_eq!(resp.status(), 200);
    assert_eq!(&resp.body_ref()[..], b"made it");
}

#[test]
fn empty_chain_passes_the_request_through() {
    let chain: Vec<Guard> = Vec::new();
    let out = chain.call(request(Method::Get, "/anything"));
    let req = out.expect("the empty chain continues");
    assert_eq!(req.path(), "/anything");
}

#[test]
fn chain_stops_at_the_first_denial() {
    let chain: Vec<Guard> = vec![allow(), deny(403, "first"), deny(401, "second")];
    let out = chain.call(request(Method::Get, "/x"));
    match out {
        Ok(_) => panic!("the chain must short-circuit"),
        Err(r) => {
            assert_eq!(r.status(), 403);
            assert_eq!(&r.body_ref()[..], b"first");
        }
    }
}

#[test]
fn deny_status_outside_the_wire_range_becomes_500() {
    let chain: Vec<Guard> = vec![deny(99, "odd")];
    let out = chain.call(request(Method::Get, "/x"));
    match out {
        Ok(_) => panic!("the chain must short-circuit"),
        Err(r) => assert_eq!(r.status(), 500),
    }
}

#[test]
fn after_middleware_stamps_the_response() {
    let handler: ArcHandler<TextService, Guard, HeaderStamp> = ArcHandler {
        before: None,
        handler: HandlerKind::Leaf(TextService::new(200, "body")),
        after: Some(Arc::new(HeaderStamp {
            name: "server".to_string(),
            value: "arc-reactor".to_string(),
        })),
    };

    let out = run_handler(&handler, request(Method::Get, "/stamped"), Response::new());
    let resp = out.expect("nothing short-circuits");
    assert_eq!(resp.header("server"), Some(&"arc-reactor".to_string()));
    assert_eq!(&resp.body_ref()[..], b"body");
}

#[test]
fn after_middleware_runs_on_the_short_circuit_path_too() {
    let handler: ArcHandler<TextService, Guard, HeaderStamp> = ArcHandler {
        before: Some(Arc::new(deny(401, "no"))),
        handler: HandlerKind::Leaf(TextService::new(200, "unreached")),
        after: Some(Arc::new(HeaderStamp {
            name: "server".to_string(),
            value: "arc-reactor".to_string(),
        })),
    };

    let out = run_handler(&handler, request(Method::Get, "/x"), Response::new());
    // The stamp middleware continues, so the outcome is its Ok.
    let resp = out.expect("the after stage continues");
    assert_eq!(resp.status(), 401);
    assert_eq!(resp.header("server"), Some(&"arc-reactor".to_string()));
}

#[test]
fn nested_composites_run_outside_in() {
    let inner: ArcHandler<TextService, Vec<Guard>, HeaderStamp> = ArcHandler {
        before: Some(Arc::new(vec![deny(403, "inner gate")])),
        handler: HandlerKind::Leaf(TextService::new(200, "leaf")),
        after: None,
    };
    let outer: ArcHandler<TextService, Vec<Guard>, HeaderStamp> = ArcHandler {
        before: Some(Arc::new(vec![deny(401, "outer gate")])),
        handler: HandlerKind::Composite(Box::new(inner)),
        after: None,
    };

    let out = run_handler(&outer, request(Method::Get, "/x"), Response::new());
    match out {
        Ok(_) => panic!("the outer gate must short-circuit"),
        Err(r) => {
            assert_eq!(r.status(), 401);
            assert_eq!(&r.body_ref()[..], b"outer gate");
        }
    }
}

#[test]
fn body_parser_passes_requests_without_json() {
    let req = request_with(Method::Post, "/submit", Vec::new(), Vec::new());
    let out = BodyParser.call(req);
    assert!(out.is_ok());
}

#[test]
fn body_parser_rejects_empty_json_bodies() {
    let headers = vec![("content-type".to_string(), "application/json".to_string())];
    let req = request_with(Method::Post, "/submit", headers, Vec::new());
    let out = BodyParser.call(req);
    match out {
        Ok(_) => panic!("an empty json body must be refused"),
        Err(r) => {
            assert_eq!(r.status(), 400);
            assert_eq!(&r.body_ref()[..], b"{\"error\":\"Empty request body\"}");
        }
    }
}

#[test]
fn body_parser_passes_json_with_a_body() {
    let headers = vec![("content-type".to_string(), "application/json".to_string())];
    let req = request_with(Method::Post, "/submit", headers, b"{\"a\":1}".to_vec());
    let out = BodyParser.call(req);
    let req = out.expect("a json body passes");
    assert_eq!(&req.body_ref()[..], b"{\"a\":1}");
}

#[test]
fn route_level_middleware_guards_one_route() {
    let routes: Router<TextService, Guard, HeaderStamp> = Router::new()
        .get2("/secret", deny(401, "keep out"), TextService::new(200, "the secret"))
        .get("/open", TextService::new(200, "come in"));
    let fakereactor = FakeReactor { routes };

    let refused = fakereactor.get("/secret", None);
    match refused {
        Ok(_) => panic!("the route middleware must short-circuit"),
        Err(r) => {
            assert_eq!(r.status(), 401);
            assert_eq!(&r.body_ref()[..], b"keep out");
        }
    }

    let open = fakereactor.get("/open", None).expect("ok");
    assert_eq!(&open.body_ref()[..], b"come in");
}

#[test]
fn group_route_level_middleware_applies_under_the_prefix() {
    let group: RouteGroup<TextService, Guard, HeaderStamp> = RouteGroup::new("admin").get3(
        "/roles",
        allow(),
        TextService::new(200, "roles"),
        HeaderStamp { name: "server".to_string(), value: "arc-reactor".to_string() },
    );
    let routes: Router<TextService, Guard, HeaderStamp> = Router::new().group(group);
    let fakereactor = FakeReactor { routes };

    let got = fakereactor.get("/admin/roles", None).expect("ok");
    assert_eq!(&got.body_ref()[..], b"roles");
    assert_eq!(got.header("server"), Some(&"arc-reactor".to_string()));
}
