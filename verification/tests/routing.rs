use arc_reactor::method::Method;
use arc_reactor::middleware::{Guard, HeaderStamp};
use arc_reactor::request::Request;
use arc_reactor::response::Response;
use arc_reactor::routegroup::RouteGroup;
use arc_reactor::router::Router;
use arc_reactor::service::{run_handler, TextService};

type TestRouter = Router<TextService, Guard, HeaderStamp>;
type TestGroup = RouteGroup<TextService, Guard, HeaderStamp>;

fn async_service() -> TextService {
    TextService::new(200, "Hello World")
}

fn request(method: Method, path: &str) -> Request {
    Request::new(method, path.to_string(), String::new(), Vec::new(), Vec::new())
}

fn handler_body(
    router: &TestRouter,
    path: &str,
    method: Method,
) -> Option<Vec<u8>> {
    let m = router.matchRoute(path, &method)?;
    let req = request(method, path);
    let out = run_handler(m.handler, req, Response::new());
    let resp = match out {
        Ok(r) => r,
        Err(r) => r,
    };
    Some(resp.body())
}

#[test]
fn it_matches_the_correct_routes() {
    let router: TestRouter = Router::new().get("/hello", async_service());

    let shouldExist = router.matchRoute("/hello", &Method::Get);
    let shouldNotExist = router.matchRoute("/world", &Method::Get);

    assert!(shouldExist.is_some());
    assert!(shouldNotExist.is_none());
}

#[test]
fn mod_it_matches_the_correct_routes() {
    let router: TestRouter = Router::new().get("/hello", async_service());

    let shouldExist = router.matchRoute("/hello", &Method::Get);
    let shouldNotExist = router.matchRoute("/world", &Method::Get);

    assert!(shouldExist.is_some());
    assert!(shouldNotExist.is_none());
}

#[test]
fn it_matches_nested_routes() {
    let routegroup: TestGroup = RouteGroup::new("admin").get("/roles", async_service());
    let router: TestRouter = Router::new().group(routegroup);

    let shouldExist = router.matchRoute("/admin/roles", &Method::Get);
    let shouldNotExist1 = router.matchRoute("/admin", &Method::Get);
    let shouldNotExist2 = router.matchRoute("/admin/role", &Method::Get);
    let shouldNotExist3 = router.matchRoute("/admin/roless", &Method::Get);
    let shouldNotExist4 = router.matchRoute("/hello/world", &Method::Get);

    assert!(shouldExist.is_some());
    assert!(shouldNotExist1.is_none());
    assert!(shouldNotExist2.is_none());
    assert!(shouldNotExist3.is_none());
    assert!(shouldNotExist4.is_none());
}

#[test]
fn mod_it_matches_nested_routes() {
    let routegroup: TestGroup = RouteGroup::new("admin")
        .get("/roles", async_service())
        .get("/", async_service());
    let router: TestRouter = Router::new().group(routegroup);

    let shouldExist = router.matchRoute("/admin/roles", &Method::Get);
    let shouldExist1 = router.matchRoute("/admin", &Method::Get);
    let shouldExist2 = router.matchRoute("/admin/roles/", &Method::Get);
    let shouldExist3 = router.matchRoute("/admin/", &Method::Get);

    assert!(shouldExist.is_some());
    assert!(shouldExist1.is_some());
    assert!(shouldExist2.is_some());
    assert!(shouldExist3.is_some());
}

#[test]
fn it_matches_routes_with_params() {
    let router: TestRouter = Router::new().get("/hello/:name", async_service());

    let shouldExist = router.matchRoute("/hello/seun", &Method::Get);
    let shouldNotExist = router.matchRoute("/world/seun/lanlege", &Method::Get);

    assert!(shouldExist.is_some());
    let routeMatch = shouldExist.unwrap();
    assert_eq!(routeMatch.params.find("name"), Some(&"seun".to_string()));
    assert_ne!(routeMatch.params.find("name"), Some(&"seunlanlege".to_string()));
    assert!(shouldNotExist.is_none());
}

#[test]
fn mod_it_matches_routes_with_params() {
    let router: TestRouter = Router::new().get("/hello/:name", async_service());

    let shouldExist = router.matchRoute("/hello/seun", &Method::Get);
    let shouldNotExist = router.matchRoute("/world/seun/lanlege", &Method::Get);

    assert!(shouldExist.is_some());
    let routeMatch = shouldExist.unwrap();
    assert_eq!(routeMatch.params.find("name"), Some(&"seun".to_string()));
    assert_ne!(routeMatch.params.find("name"), Some(&"seunlanlege".to_string()));
    assert!(shouldNotExist.is_none());
}

#[test]
fn it_matches_deeply_nested_routes() {
    let subrouter: TestGroup = RouteGroup::new("users").get("/profile", async_service());

    let routegroup: TestGroup = RouteGroup::new("admin")
        .get("/roles", async_service())
        .group(subrouter);

    let router: TestRouter = Router::new().group(routegroup);

    let shouldExist = router.matchRoute("/admin/roles", &Method::Get);
    let shouldExist1 = router.matchRoute("/admin/users/profile", &Method::Get);

    assert!(shouldExist.is_some());
    assert!(shouldExist1.is_some());
}

#[test]
fn mod_it_matches_deeply_nested_routes() {
    let subrouter: TestGroup = RouteGroup::new("users").get("/profile", async_service());

    let routegroup: TestGroup = RouteGroup::new("admin")
        .get("/roles", async_service())
        .group(subrouter);

    let router: TestRouter = Router::new().group(routegroup);

    let shouldExist = router.matchRoute("/admin/roles/", &Method::Get);
    let shouldExist1 = router.matchRoute("/admin/users/profile/", &Method::Get);

    assert!(shouldExist.is_some());
    assert!(shouldExist1.is_some());
}

#[test]
fn it_matches_wildcards() {
    let subrouter: TestGroup = RouteGroup::new("users").get("/profile", async_service());

    let routegroup: TestGroup = RouteGroup::new("admin")
        .get("/roles", async_service())
        .group(subrouter);

    let router: TestRouter = Router::new().group(routegroup);

    let shouldExist = router.matchRoute("/admin/roles/", &Method::Get);
    let shouldExist1 = router.matchRoute("/admin/users/profile/", &Method::Get);
    let _shouldExist2 = router.matchRoute("/admin/sdkjbksjdjds", &Method::Get);

    assert!(shouldExist.is_some());
    assert!(shouldExist1.is_some());
}

#[test]
fn ShouldMatchRoute() {
    let handler = TextService::new(200, "Hello World Handler");

    let route: TestRouter = Router::new().get("/users", handler);

    match handler_body(&route, "/users", Method::Get) {
        Some(body) => assert_eq!(&body[..], b"Hello World Handler"),
        None => panic!("Whoops!!!"),
    };
}

#[test]
fn ShouldMatchRouteWithParams() {
    let handler = TextService::new(200, "Hello World Handler");

    let route: TestRouter = Router::new().get("/users/:id", handler);

    match route.matchRoute("/users/267543", &Method::Get) {
        Some(routeMatch) => {
            assert_eq!(routeMatch.params.find("id"), Some(&"267543".to_string()));
        }
        None => panic!("Whoops!!!"),
    };
    match handler_body(&route, "/users/267543", Method::Get) {
        Some(body) => assert_eq!(&body[..], b"Hello World Handler"),
        None => panic!("Whoops!!!"),
    };
}

#[test]
fn ShouldMatchRouteFromMultiple() {
    let handler = TextService::new(200, "UserHandler");

    let foo_route_group: TestGroup = RouteGroup::new("foo")
        .get("/bar", TextService::new(200, "Foo Handler"));
    let route: TestRouter = Router::new()
        .get("/world", TextService::new(200, "Hello Handler"))
        .post("/hello", TextService::new(200, "World Handler"))
        .get("/users/:id", handler)
        .group(foo_route_group);

    match route.matchRoute("/users/267543", &Method::Get) {
        Some(routeMatch) => {
            assert_eq!(routeMatch.params.find("id"), Some(&"267543".to_string()));
        }
        None => panic!("Whoops!!!"),
    };
    match handler_body(&route, "/users/267543", Method::Get) {
        Some(body) => assert_eq!(&body[..], b"UserHandler"),
        None => panic!("Whoops!!!"),
    };
}

#[test]
fn ShouldMatchRouteGroup() {
    let handler = TextService::new(200, "Hello World Handler");

    let route_group: TestGroup = RouteGroup::new("users")
        .get("/:id", handler)
        .get("/profile", TextService::new(200, "profile"));
    let route: TestRouter = Router::new().group(route_group);

    match handler_body(&route, "/users/455454", Method::Get) {
        Some(body) => assert_eq!(&body[..], b"Hello World Handler"),
        None => panic!("Whoops!!!"),
    };
}
