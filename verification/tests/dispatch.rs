use arc_reactor::fakereactor::FakeReactor;
use arc_reactor::middleware::{Guard, HeaderStamp};
use arc_reactor::routegroup::RouteGroup;
use arc_reactor::router::Router;
use arc_reactor::service::TextService;

type TestRouter = Router<TextService, Guard, HeaderStamp>;
type TestGroup = RouteGroup<TextService, Guard, HeaderStamp>;
type TestReactor = FakeReactor<TextService, Guard, HeaderStamp>;

fn async_service() -> TextService {
    TextService::new(200, "Hello World")
}

#[test]
fn it_matches_the_correct_route_and_returns_the_correct_body() {
    let routes: TestRouter = Router::new().get("/hello", async_service());

    let fakereactor = TestReactor { routes };

    // Assert it returns Ok.
    let result = fakereactor
        .get("/hello?lol=p", None)
        .expect("Should return ok");
    let body = result.body();
    assert_eq!(&body[..], b"Hello World");
}

#[test]
fn fakereactor_it_matches_the_correct_route_and_returns_the_correct_body() {
    let routes: TestRouter = Router::new().get("/hello", async_service());

    let fakereactor = TestReactor { routes };

    let result = fakereactor
        .get("/hello?lol=p", None)
        .expect("Should return ok");
    let body = result.body();
    assert_eq!(&body[..], b"Hello World");
}

#[test]
fn dispatch_is_slash_insensitive() {
    let routes: TestRouter = Router::new().get("/hello", async_service());
    let fakereactor = TestReactor { routes };

    let plain = fakereactor.get("/hello", None).expect("Should return ok");
    assert_eq!(plain.status(), 200);
    assert_eq!(&plain.body_ref()[..], b"Hello World");

    let slashed = fakereactor.get("/hello/", None).expect("Should return ok");
    assert_eq!(slashed.status(), 200);
    assert_eq!(&slashed.body_ref()[..], b"Hello World");

    let missing = fakereactor.get("/world", None).expect("a synthesized 404 is ok");
    assert_eq!(missing.status(), 404);
}

#[test]
fn unmatched_path_without_fallbacks_is_404() {
    let routes: TestRouter = Router::new().get("/hello", async_service());
    let fakereactor = TestReactor { routes };

    let missing = fakereactor.get("/nothing/here", None).expect("a synthesized 404 is ok");
    assert_eq!(missing.status(), 404);
    assert!(missing.body_ref().is_empty());
    assert!(missing.headers().is_empty());
}

#[test]
fn not_found_handler_takes_over() {
    let routes: TestRouter = Router::new()
        .get("/hello", async_service())
        .notFound(TextService::new(404, "nothing to see"));
    let fakereactor = TestReactor { routes };

    let missing = fakereactor.get("/world", None).expect("the not-found handler returns ok");
    assert_eq!(missing.status(), 404);
    assert_eq!(&missing.body_ref()[..], b"nothing to see");
}

#[test]
fn wildcard_matches_under_prefix_only() {
    let routes: TestRouter = Router::new()
        .get("/hello", async_service())
        .wildcard("static", TextService::new(200, "file contents"));
    let fakereactor = TestReactor { routes };

    let under = fakereactor.get("/static/anything", None).expect("wildcard should serve");
    assert_eq!(under.status(), 200);
    assert_eq!(&under.body_ref()[..], b"file contents");

    let deep = fakereactor.get("/static/a/b/c.txt", None).expect("wildcard should serve");
    assert_eq!(deep.status(), 200);

    // A path merely sharing a substring with the prefix is not under it.
    let shared = fakereactor.get("/staticfiles", None).expect("a synthesized 404 is ok");
    assert_eq!(shared.status(), 404);

    let elsewhere = fakereactor.get("/a/static/b", None).expect("a synthesized 404 is ok");
    assert_eq!(elsewhere.status(), 404);
}

#[test]
fn strict_match_wins_over_wildcard() {
    let routes: TestRouter = Router::new()
        .get("/static/index.html", TextService::new(200, "strict"))
        .wildcard("static", TextService::new(200, "fallback"));
    let fakereactor = TestReactor { routes };

    let strict = fakereactor.get("/static/index.html", None).expect("ok");
    assert_eq!(&strict.body_ref()[..], b"strict");

    let fallback = fakereactor.get("/static/other.css", None).expect("ok");
    assert_eq!(&fallback.body_ref()[..], b"fallback");
}

#[test]
fn group_routes_dispatch_under_their_prefix() {
    let group: TestGroup = RouteGroup::new("admin").get("/roles", async_service());
    let routes: TestRouter = Router::new().group(group);
    let fakereactor = TestReactor { routes };

    let matched = fakereactor.get("/admin/roles", None).expect("Should return ok");
    assert_eq!(matched.status(), 200);
    assert_eq!(&matched.body_ref()[..], b"Hello World");

    // No route was registered for the group root itself.
    let root = fakereactor.get("/admin", None).expect("a synthesized 404 is ok");
    assert_eq!(root.status(), 404);
}

#[test]
fn nested_groups_compose_prefixes_like_flat_registration() {
    let users: TestGroup = RouteGroup::new("users").get("/profile", async_service());
    let admin: TestGroup = RouteGroup::new("admin").group(users);
    let nested: TestRouter = Router::new().group(admin);

    let flat: TestRouter = Router::new().get("/admin/users/profile", async_service());

    let from_nested = TestReactor { routes: nested }
        .get("/admin/users/profile", None)
        .expect("Should return ok");
    let from_flat = TestReactor { routes: flat }
        .get("/admin/users/profile", None)
        .expect("Should return ok");

    assert_eq!(from_nested.status(), from_flat.status());
    assert_eq!(from_nested.body_ref(), from_flat.body_ref());
}

#[test]
fn literal_segments_win_over_captures() {
    let routes: TestRouter = Router::new()
        .get("/users/:id", TextService::new(200, "by id"))
        .get("/users/profile", TextService::new(200, "the profile"));
    let fakereactor = TestReactor { routes };

    let literal = fakereactor.get("/users/profile", None).expect("ok");
    assert_eq!(&literal.body_ref()[..], b"the profile");

    let capture = fakereactor.get("/users/42", None).expect("ok");
    assert_eq!(&capture.body_ref()[..], b"by id");
}

#[test]
fn later_registration_of_same_route_wins() {
    let routes: TestRouter = Router::new()
        .get("/a", TextService::new(200, "first"))
        .get("/a", TextService::new(200, "second"));
    let fakereactor = TestReactor { routes };

    let got = fakereactor.get("/a", None).expect("ok");
    assert_eq!(&got.body_ref()[..], b"second");
}

#[test]
fn methods_route_independently() {
    let routes: TestRouter = Router::new()
        .get("/thing", TextService::new(200, "got"))
        .post("/thing", TextService::new(201, "created"))
        .put("/thing", TextService::new(200, "put"))
        .patch("/thing", TextService::new(200, "patched"))
        .delete("/thing", TextService::new(200, "deleted"));
    let fakereactor = TestReactor { routes };

    assert_eq!(&fakereactor.get("/thing", None).expect("ok").body_ref()[..], b"got");
    assert_eq!(
        fakereactor.post("/thing", None, None).expect("ok").status(),
        201
    );
    assert_eq!(&fakereactor.put("/thing", None, None).expect("ok").body_ref()[..], b"put");
    assert_eq!(
        &fakereactor.patch("/thing", None, None).expect("ok").body_ref()[..],
        b"patched"
    );
    assert_eq!(
        &fakereactor.delete("/thing", None, None).expect("ok").body_ref()[..],
        b"deleted"
    );

    // A method nothing was registered for falls through to the 404 path.
    let wrong = fakereactor.post("/nowhere", None, None).expect("a synthesized 404 is ok");
    assert_eq!(wrong.status(), 404);
}
