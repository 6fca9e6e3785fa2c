//! Fake reactor: drives a router without a network, for testing an
//! application's endpoints.
use vstd::prelude::*;
use crate::method::Method;
use crate::middleware::{mw_out_view, MiddleWare};
use crate::request::{ReqView, Request};
use crate::response::{empty_response, Response};
use crate::router::{dispatch_ensures, Router};
use crate::service::ArcService;
use crate::strmap::pair_views;
use crate::util::{path_of_uri, query_of_uri, split_uri};

verus! {

/// Fake reactor allows for testing your application's endpoints.
///
/// Do note that IP addresses won't be present on the request struct
/// when testing, for obvious reasons.
pub struct FakeReactor<S, M, A> {
    pub routes: Router<S, M, A>,
}

/// The request a fake reactor builds from a uri: the method, the path
/// and query split out of the uri, the given headers and body, and
/// nothing else.
pub open spec fn fake_request(
    method: Method,
    route: Seq<char>,
    body: Seq<u8>,
    headers: Seq<(Seq<char>, Seq<char>)>,
) -> ReqView {
    ReqView {
        method,
        path: path_of_uri(route),
        query: query_of_uri(route),
        headers,
        body,
        body_taken: false,
        remote: None,
        params: None,
    }
}

impl<S: ArcService, M: MiddleWare<Request>, A: MiddleWare<Response>> FakeReactor<S, M, A> {
    /// Send a GET request to the `FakeReactor`.
    pub fn get(&self, route: &str, headers: Option<Vec<(String, String)>>) -> (r: Result<
        Response,
        Response,
    >)
        ensures
            dispatch_ensures(
                self.routes,
                fake_request(
                    Method::Get,
                    route@,
                    Seq::empty(),
                    match headers {
                        Some(h) => pair_views(h@),
                        None => Seq::empty(),
                    },
                ),
                empty_response(),
                mw_out_view(r),
            ),
    {
        self.build(Method::Get, route, None, headers)
    }

    /// Post a request to the fake reactor.
    pub fn post(&self, route: &str, body: Option<Vec<u8>>, headers: Option<Vec<(String, String)>>)
        -> (r: Result<Response, Response>)
        ensures
            dispatch_ensures(
                self.routes,
                fake_request(
                    Method::Post,
                    route@,
                    match body {
                        Some(b) => b@,
                        None => Seq::empty(),
                    },
                    match headers {
                        Some(h) => pair_views(h@),
                        None => Seq::empty(),
                    },
                ),
                empty_response(),
                mw_out_view(r),
            ),
    {
        self.build(Method::Post, route, body, headers)
    }

    /// Send a PUT request to the `FakeReactor`.
    pub fn put(&self, route: &str, body: Option<Vec<u8>>, headers: Option<Vec<(String, String)>>)
        -> (r: Result<Response, Response>)
        ensures
            dispatch_ensures(
                self.routes,
                fake_request(
                    Method::Put,
                    route@,
                    match body {
                        Some(b) => b@,
                        None => Seq::empty(),
                    },
                    match headers {
                        Some(h) => pair_views(h@),
                        None => Seq::empty(),
                    },
                ),
                empty_response(),
                mw_out_view(r),
            ),
    {
        self.build(Method::Put, route, body, headers)
    }

    /// Send a PATCH request to the `FakeReactor`.
    pub fn patch(&self, route: &str, body: Option<Vec<u8>>, headers: Option<Vec<(String, String)>>)
        -> (r: Result<Response, Response>)
        ensures
            dispatch_ensures(
                self.routes,
                fake_request(
                    Method::Patch,
                    route@,
                    match body {
                        Some(b) => b@,
                        None => Seq::empty(),
                    },
                    match headers {
                        Some(h) => pair_views(h@),
                        None => Seq::empty(),
                    },
                ),
                empty_response(),
                mw_out_view(r),
            ),
    {
        self.build(Method::Patch, route, body, headers)
    }

    /// Send a DELETE request to the `FakeReactor`.
    pub fn delete(&self, route: &str, body: Option<Vec<u8>>, headers: Option<Vec<(String, String)>>)
        -> (r: Result<Response, Response>)
        ensures
            dispatch_ensures(
                self.routes,
                fake_request(
                    Method::Delete,
                    route@,
                    match body {
                        Some(b) => b@,
                        None => Seq::empty(),
                    },
                    match headers {
                        Some(h) => pair_views(h@),
                        None => Seq::empty(),
                    },
                ),
                empty_response(),
                mw_out_view(r),
            ),
    {
        self.build(Method::Delete, route, body, headers)
    }

    fn build(
        &self,
        method: Method,
        route: &str,
        body: Option<Vec<u8>>,
        headers: Option<Vec<(String, String)>>,
    ) -> (r: Result<Response, Response>)
        ensures
            dispatch_ensures(
                self.routes,
                fake_request(
                    method,
                    route@,
                    match body {
                        Some(b) => b@,
                        None => Seq::empty(),
                    },
                    match headers {
                        Some(h) => pair_views(h@),
                        None => Seq::empty(),
                    },
                ),
                empty_response(),
                mw_out_view(r),
            ),
    {
        let (path, query) = split_uri(route);
        let body_vec: Vec<u8> = match body {
            Some(b) => b,
            None => Vec::new(),
        };
        let header_vec: Vec<(String, String)> = match headers {
            Some(h) => h,
            None => Vec::new(),
        };
        let ghost bv = body_vec@;
        let ghost hv = pair_views(header_vec@);
        let req = Request::new(method, path, query, header_vec, body_vec);
        proof {
            assert(bv =~= match body {
                Some(b) => b@,
                None => Seq::<u8>::empty(),
            });
            assert(hv =~= match headers {
                Some(h) => pair_views(h@),
                None => Seq::<(Seq<char>, Seq<char>)>::empty(),
            });
            assert(req@ == fake_request(method, route@, bv, hv));
        }
        self.routes.call(req, Response::new())
    }
}

} // verus!
