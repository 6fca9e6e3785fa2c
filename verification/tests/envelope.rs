use arc_reactor::method::Method;
use arc_reactor::request::Request;
use arc_reactor::response::{res, Response};
use arc_reactor::staticfiles::file_response;

fn request_with_body(body: Vec<u8>) -> Request {
    Request::new(Method::Post, "/".to_string(), String::new(), Vec::new(), body)
}

#[test]
fn taking_the_body_is_one_shot() {
    let mut req = request_with_body(b"payload".to_vec());
    let body = req.body();
    assert_eq!(&body[..], b"payload");
    // A second take finds nothing: the body is gone.
    let again = req.body();
    assert!(again.is_empty());
}

#[test]
fn request_accessors_reflect_construction() {
    let headers = vec![("accept".to_string(), "text/plain".to_string())];
    let mut req = Request::new(
        Method::Get,
        "/who".to_string(),
        "a=1".to_string(),
        headers,
        Vec::new(),
    );
    assert_eq!(req.method(), Method::Get);
    assert_eq!(req.path(), "/who");
    assert_eq!(req.query_str(), "a=1");
    assert_eq!(req.header("accept"), Some(&"text/plain".to_string()));
    assert_eq!(req.header("host"), None);
    assert!(req.params().is_none());
    assert!(req.remote_ip().is_none());
    req.set_remote("127.0.0.1:9999".to_string());
    assert_eq!(req.remote_ip(), Some(&"127.0.0.1:9999".to_string()));
}

#[test]
fn text_sets_the_body_and_its_length_header() {
    let resp = Response::new().with_text("Hello World");
    assert_eq!(resp.status(), 200);
    assert_eq!(&resp.body_ref()[..], b"Hello World");
    assert_eq!(resp.header("content-length"), Some(&"11".to_string()));
}

#[test]
fn setting_a_header_replaces_the_previous_value() {
    let mut resp = Response::new();
    resp.set_header("x-mode", "one".to_string());
    resp.set_header("x-mode", "two".to_string());
    assert_eq!(resp.header("x-mode"), Some(&"two".to_string()));
    assert_eq!(resp.headers().len(), 1);
}

#[test]
fn status_builders_set_their_codes() {
    assert_eq!(res().unauthorized().status(), 401);
    assert_eq!(res().badRequest().status(), 400);
    assert_eq!(res().forbidden().status(), 403);
    assert_eq!(res().methodNotAllowed().status(), 405);
    assert_eq!(res().notAcceptable().status(), 406);
    assert_eq!(res().requestTimeout().status(), 408);
    assert_eq!(res().internalServerError().status(), 500);
    assert_eq!(res().badGateway().status(), 502);
    assert_eq!(res().serviceUnavailable().status(), 503);
}

#[test]
fn redirect_sets_status_and_location() {
    let resp = Response::new().redirect("https://example.test/next");
    assert_eq!(resp.status(), 301);
    assert_eq!(
        resp.header("location"),
        Some(&"https://example.test/next".to_string())
    );
}

#[test]
fn file_meta_headers_carry_length_and_guessed_type() {
    let resp = file_response(Response::new(), 2048, "public/index.html");
    assert_eq!(resp.header("content-length"), Some(&"2048".to_string()));
    // The type is guessed from the extension, not echoed from the path.
    assert_eq!(resp.header("content-type"), Some(&"text/html".to_string()));
}

#[test]
fn file_errors_map_to_404_and_500() {
    assert_eq!(Response::new().with_file_error(true).status(), 404);
    assert_eq!(Response::new().with_file_error(false).status(), 500);
}
