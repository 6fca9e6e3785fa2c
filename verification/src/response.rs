//! The response envelope: a builder-style value until it is handed back
//! to the protocol layer for serialization.
use vstd::prelude::*;
use vstd::string::StringSliceAdditionalSpecFns;
use crate::strmap::{find_in, find_spec, pair_views, upsert_in, upsert_spec};
use crate::util::{dec_str, u64_to_dec};

verus! {

/// The mathematical value of a response.
#[verifier::ext_equal]
pub ghost struct RespView {
    pub status: u16,
    pub headers: Seq<(Seq<char>, Seq<char>)>,
    pub body: Seq<u8>,
}

/// An HTTP response under construction.
///
/// The status is always one of the codes the wire format can carry,
/// between 100 and 999.
#[derive(Debug)]
pub struct Response {
    pub status: u16,
    pub headers: Vec<(String, String)>,
    pub body: Vec<u8>,
}

impl View for Response {
    type V = RespView;

    open spec fn view(&self) -> RespView {
        RespView { status: self.status, headers: pair_views(self.headers@), body: self.body@ }
    }
}

impl RespView {
    /// Every status code the envelope may carry lies in the range the
    /// wire format can express.
    pub open spec fn wf(self) -> bool {
        100 <= self.status <= 999
    }

    /// The view with one header replaced.
    pub open spec fn with_header(self, n: Seq<char>, v: Seq<char>) -> RespView {
        RespView { headers: upsert_spec(self.headers, n, v), ..self }
    }
}

/// The view of a fresh `200` response with no headers and an empty body.
pub open spec fn empty_response() -> RespView {
    RespView { status: 200, headers: Seq::empty(), body: Seq::empty() }
}

/// The view of the response the router synthesizes when nothing matches
/// and no not-found handler is configured.
pub open spec fn not_found_response() -> RespView {
    RespView { status: 404, headers: Seq::empty(), body: Seq::empty() }
}

/// A status code forced into the range the wire format can carry; codes
/// outside it fall back to 500.
pub open spec fn clamp_status(s: u16) -> u16 {
    if 100 <= s <= 999 {
        s
    } else {
        500
    }
}

/// Forces a status code into the range the wire format can carry.
pub fn clamped(s: u16) -> (r: u16)
    ensures
        r == clamp_status(s),
        100 <= r <= 999,
{
    if 100 <= s && s <= 999 {
        s
    } else {
        500
    }
}

impl Response {
    /// A fresh response: status 200, no headers, empty body.
    pub fn new() -> (r: Response)
        ensures
            r@ == empty_response(),
            r@.wf(),
    {
        let r = Response { status: 200, headers: Vec::new(), body: Vec::new() };
        proof {
            assert(r@.headers =~= empty_response().headers);
            assert(r@.body =~= empty_response().body);
        }
        r
    }

    /// Get the status of this response.
    pub fn status(&self) -> (s: u16)
        ensures
            s == self@.status,
    {
        self.status
    }

    /// Set the status of this response.  Only codes the wire format can
    /// carry are accepted; the protocol layer rejects anything else.
    pub fn set_status(&mut self, status: u16)
        requires
            100 <= status <= 999,
        ensures
            final(self)@ == (RespView { status, ..old(self)@ }),
            final(self)@.wf(),
    {
        self.status = status;
    }

    /// Set the status and move the response: the builder-style form.
    pub fn with_status(self, status: u16) -> (r: Response)
        requires
            100 <= status <= 999,
        ensures
            r@ == (RespView { status, ..self@ }),
            r@.wf(),
    {
        let mut r = self;
        r.set_status(status);
        r
    }

    /// Returns a reference to the response's headers.
    pub fn headers(&self) -> (h: &Vec<(String, String)>)
        ensures
            pair_views(h@) == self@.headers,
    {
        &self.headers
    }

    /// The value of the first header with the given (lower-case) name.
    pub fn header<'a>(&'a self, name: &str) -> (r: Option<&'a String>)
        ensures
            match r {
                Some(v) => find_spec(self@.headers, name@) == Some(v@),
                None => find_spec(self@.headers, name@) is None,
            },
    {
        find_in(&self.headers, name)
    }

    /// Replaces the header with the given (lower-case) name.
    pub fn set_header(&mut self, name: &str, value: String)
        ensures
            final(self)@ == old(self)@.with_header(name@, value@),
    {
        upsert_in(&mut self.headers, name, value);
    }

    /// Set a plain-text body and a matching `content-length` header.
    pub fn text(&mut self, body: &str)
        ensures
            final(self)@ == (RespView {
                body: body.spec_bytes(),
                ..old(self)@.with_header("content-length"@, dec_str(body.spec_bytes().len()))
            }),
    {
        let bytes = body.as_bytes_vec();
        let length = u64_to_dec(bytes.len() as u64);
        self.set_header("content-length", length);
        self.body = bytes;
    }

    /// Set a plain-text body; the builder-style form of `text`.
    pub fn with_text(self, body: &str) -> (r: Response)
        ensures
            r@ == (RespView {
                body: body.spec_bytes(),
                ..self@.with_header("content-length"@, dec_str(body.spec_bytes().len()))
            }),
    {
        let mut r = self;
        r.text(body);
        r
    }

    /// Set the body and move the response.
    pub fn with_body(self, body: Vec<u8>) -> (r: Response)
        ensures
            r@ == (RespView { body: body@, ..self@ }),
    {
        let mut r = self;
        r.body = body;
        r
    }

    /// Replace the body.
    pub fn set_body(&mut self, body: Vec<u8>)
        ensures
            final(self)@ == (RespView { body: body@, ..old(self)@ }),
    {
        self.body = body;
    }

    /// Read the body.
    pub fn body_ref(&self) -> (b: &Vec<u8>)
        ensures
            b@ == self@.body,
    {
        &self.body
    }

    /// Take the body of this response.
    pub fn body(self) -> (b: Vec<u8>)
        ensures
            b@ == self@.body,
    {
        self.body
    }

    /// Set an HTTP redirect: status 301 and a `location` header.
    pub fn redirect(self, url: &str) -> (r: Response)
        ensures
            r@ == (RespView { status: 301, ..self@.with_header("location"@, url@) }),
            r@.wf(),
    {
        let mut r = self;
        r.set_header("location", url.to_owned());
        r.set_status(301);
        r
    }

    /// Set the status code 401 on the response.
    pub fn unauthorized(self) -> (r: Response)
        ensures
            r@ == (RespView { status: 401, ..self@ }),
    {
        self.with_status(401)
    }

    /// Set the status code 400 on the response.
    pub fn badRequest(self) -> (r: Response)
        ensures
            r@ == (RespView { status: 400, ..self@ }),
    {
        self.with_status(400)
    }

    /// Set the status code 403 on the response.
    pub fn forbidden(self) -> (r: Response)
        ensures
            r@ == (RespView { status: 403, ..self@ }),
    {
        self.with_status(403)
    }

    /// Set the status code 405 on the response.
    pub fn methodNotAllowed(self) -> (r: Response)
        ensures
            r@ == (RespView { status: 405, ..self@ }),
    {
        self.with_status(405)
    }

    /// Set the status code 406 on the response.
    pub fn notAcceptable(self) -> (r: Response)
        ensures
            r@ == (RespView { status: 406, ..self@ }),
    {
        self.with_status(406)
    }

    /// Set the status code 408 on the response.
    pub fn requestTimeout(self) -> (r: Response)
        ensures
            r@ == (RespView { status: 408, ..self@ }),
    {
        self.with_status(408)
    }

    /// Set the status code 500 on the response.
    pub fn internalServerError(self) -> (r: Response)
        ensures
            r@ == (RespView { status: 500, ..self@ }),
    {
        self.with_status(500)
    }

    /// Set the status code 502 on the response.
    pub fn badGateway(self) -> (r: Response)
        ensures
            r@ == (RespView { status: 502, ..self@ }),
    {
        self.with_status(502)
    }

    /// Set the status code 503 on the response.
    pub fn serviceUnavailable(self) -> (r: Response)
        ensures
            r@ == (RespView { status: 503, ..self@ }),
    {
        self.with_status(503)
    }
}

impl Response {
    /// Sets the headers a file-backed response carries before its body
    /// starts flowing: the file's byte length and its media type.
    pub fn with_file_meta(self, length: u64, mime: &str) -> (r: Response)
        ensures
            r@ == self@.with_header("content-length"@, dec_str(length as nat)).with_header(
                "content-type"@,
                mime@,
            ),
    {
        let mut r = self;
        r.set_header("content-length", u64_to_dec(length));
        r.set_header("content-type", mime.to_owned());
        r
    }

    /// Maps a file-system failure to the response the framework sends:
    /// 404 when the file is missing, 500 for anything else.
    pub fn with_file_error(self, not_found: bool) -> (r: Response)
        ensures
            r@ == (RespView { status: if not_found { 404u16 } else { 500u16 }, ..self@ }),
            r@.wf(),
    {
        if not_found {
            self.with_status(404)
        } else {
            self.with_status(500)
        }
    }
}

impl Default for Response {
    /// The default response equals `Response::new()`.
    fn default() -> (r: Response)
        ensures
            r@ == empty_response(),
    {
        Response::new()
    }
}

/// A fresh response value.
pub fn res() -> (r: Response)
    ensures
        r@ == empty_response(),
{
    Response::new()
}

} // verus!
