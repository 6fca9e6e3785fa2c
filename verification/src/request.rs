//! The request envelope passed to middlewares and route handlers.
use vstd::prelude::*;
use crate::method::Method;
use crate::recognizer::Params;
use crate::strmap::{find_in, find_spec, pair_views};

verus! {

/// The mathematical value of a request.
#[verifier::ext_equal]
pub ghost struct ReqView {
    pub method: Method,
    pub path: Seq<char>,
    pub query: Seq<char>,
    pub headers: Seq<(Seq<char>, Seq<char>)>,
    pub body: Seq<u8>,
    pub body_taken: bool,
    pub remote: Option<Seq<char>>,
    pub params: Option<Seq<(Seq<char>, Seq<char>)>>,
}

/// The Request struct; this is passed to middlewares and route handlers.
///
/// The body is a one-shot resource: once taken it cannot be taken again,
/// and the envelope remembers that it was.  The captured route parameters
/// are attached by the router when a pattern with captures matches.
#[derive(Debug)]
pub struct Request {
    pub method: Method,
    pub path: String,
    pub query: String,
    pub headers: Vec<(String, String)>,
    pub body: Vec<u8>,
    pub body_taken: bool,
    pub remote: Option<String>,
    pub params: Option<Params>,
}

impl View for Request {
    type V = ReqView;

    open spec fn view(&self) -> ReqView {
        ReqView {
            method: self.method,
            path: self.path@,
            query: self.query@,
            headers: pair_views(self.headers@),
            body: self.body@,
            body_taken: self.body_taken,
            remote: match self.remote {
                Some(ref r) => Some(r@),
                None => None,
            },
            params: match self.params {
                Some(ref p) => Some(p@),
                None => None,
            },
        }
    }
}

impl ReqView {
    /// The view with the captured parameters replaced: what the router
    /// hands the matched handler.
    pub open spec fn with_params(self, ps: Seq<(Seq<char>, Seq<char>)>) -> ReqView {
        ReqView { params: Some(ps), ..self }
    }
}

impl Request {
    /// Builds a request envelope; the reactor does this from a decoded
    /// HTTP frame, tests do it directly.
    pub fn new(
        method: Method,
        path: String,
        query: String,
        headers: Vec<(String, String)>,
        body: Vec<u8>,
    ) -> (r: Request)
        ensures
            r@.method == method,
            r@.path == path@,
            r@.query == query@,
            r@.headers == pair_views(headers@),
            r@.body == body@,
            !r@.body_taken,
            r@.remote is None,
            r@.params is None,
    {
        Request {
            method,
            path,
            query,
            headers,
            body,
            body_taken: false,
            remote: None,
            params: None,
        }
    }

    /// Returns the request's method.
    pub fn method(&self) -> (m: Method)
        ensures
            m == self@.method,
    {
        self.method
    }

    /// Returns the path of the request's uri.
    pub fn path(&self) -> (p: &str)
        ensures
            p@ == self@.path,
    {
        self.path.as_str()
    }

    /// Returns the raw query string of the request's uri; empty when the
    /// uri has none.
    pub fn query_str(&self) -> (q: &str)
        ensures
            q@ == self@.query,
    {
        self.query.as_str()
    }

    /// Returns a reference to the request's headers.
    pub fn headers(&self) -> (h: &Vec<(String, String)>)
        ensures
            pair_views(h@) == self@.headers,
    {
        &self.headers
    }

    /// The value of the first header with the given (lower-case) name.
    pub fn header<'a>(&'a self, name: &str) -> (r: Option<&'a String>)
        ensures
            match r {
                Some(v) => find_spec(self@.headers, name@) == Some(v@),
                None => find_spec(self@.headers, name@) is None,
            },
    {
        find_in(&self.headers, name)
    }

    /// The address of the connected peer, as the reactor recorded it.
    /// It is absent in testing environments such as `FakeReactor`.
    pub fn remote_ip(&self) -> (r: Option<&String>)
        ensures
            match r {
                Some(v) => self@.remote == Some(v@),
                None => self@.remote is None,
            },
    {
        self.remote.as_ref()
    }

    /// Records the address of the connected peer.
    pub fn set_remote(&mut self, remote: String)
        ensures
            final(self)@ == (ReqView { remote: Some(remote@), ..old(self)@ }),
    {
        self.remote = Some(remote);
    }

    /// The url parameters captured for the request, e.g. `/profile/:id`;
    /// present once the router has matched a pattern.
    pub fn params(&self) -> (r: Option<&Params>)
        ensures
            match r {
                Some(p) => self@.params == Some(p@),
                None => self@.params is None,
            },
    {
        self.params.as_ref()
    }

    /// Attaches captured parameters; the router calls this on a match.
    pub fn set_params(&mut self, params: Params)
        ensures
            final(self)@ == old(self)@.with_params(params@),
    {
        self.params = Some(params);
    }

    /// Takes the request body, leaving the envelope's body empty and
    /// marked as taken: the body is a one-shot resource, and this
    /// transition is never undone by the framework itself.
    pub fn body(&mut self) -> (b: Vec<u8>)
        ensures
            b@ == old(self)@.body,
            final(self)@ == (ReqView {
                body: Seq::<u8>::empty(),
                body_taken: true,
                ..old(self)@
            }),
    {
        let mut taken: Vec<u8> = Vec::new();
        core::mem::swap(&mut taken, &mut self.body);
        self.body_taken = true;
        proof {
            assert(taken@ =~= old(self)@.body);
        }
        taken
    }

    /// A reference to the request body.
    pub fn body_ref(&self) -> (b: &Vec<u8>)
        ensures
            b@ == self@.body,
    {
        &self.body
    }

    /// Replaces the request body.
    pub fn set_body(&mut self, body: Vec<u8>)
        ensures
            final(self)@ == (ReqView { body: body@, ..old(self)@ }),
    {
        self.body = body;
    }
}

} // verus!
