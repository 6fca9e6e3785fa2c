//! The static file server's decision core.
//!
//! Serving a file is I/O and happens outside this crate; what is decided
//! here, and verified, is whether a request is for a static file at all:
//! the percent-decoded path must lie under the configured root segment —
//! not merely share characters with it — must not climb out of the
//! public directory, and only GET and HEAD requests are served.
use vstd::prelude::*;
use crate::method::Method;
use crate::response::Response;
use crate::util::{contains_seq, contains_sub, dec_str, starts_with_seq, starts_with_sub};

verus! {

/// What `percent_decode` returns for the given text.  Decoding depends
/// on the characters alone.
pub uninterp spec fn percent_decoded(s: Seq<char>) -> Seq<char>;

/// Relies on percent_encoding::percent_decode and its decode_utf8_lossy:
/// the decoding is a function of the input text alone, and text without
/// a `'%'` decodes to itself.
#[verifier::external_body]
fn percent_decode_str(s: &str) -> (r: String)
    ensures
        r@ == percent_decoded(s@),
        !contains_seq(s@, "%"@) ==> r@ == s@,
{
    percent_encoding::percent_decode(s.as_bytes()).decode_utf8_lossy().into_owned()
}

/// What `guess_mime_type` returns for the given path.  The guess is
/// derived from the path's extension alone.
pub uninterp spec fn mime_of(path: Seq<char>) -> Seq<char>;

/// Relies on mime_guess::guess_mime_type: the media type is looked up
/// from the path's extension alone.
#[verifier::external_body]
fn guess_mime(path: &str) -> (r: String)
    ensures
        r@ == mime_of(path@),
{
    mime_guess::guess_mime_type(path).to_string()
}

/// The headers of a response backed by the named file: its byte length
/// and the media type guessed from its path.
pub fn file_response(res: Response, length: u64, path: &str) -> (r: Response)
    ensures
        r@ == res@.with_header("content-length"@, dec_str(length as nat)).with_header(
            "content-type"@,
            mime_of(path@),
        ),
{
    let mime = guess_mime(path);
    res.with_file_meta(length, mime.as_str())
}

/// How a request relates to the static file tree: passed on to the
/// router, answered with the named file, or answered with the named
/// file's metadata only.
pub enum StaticDecision {
    Pass,
    Serve(String),
    ServeHead(String),
}

/// The mathematical value of a static-file decision.
pub ghost enum StaticPlan {
    Pass,
    Serve(Seq<char>),
    ServeHead(Seq<char>),
}

impl View for StaticDecision {
    type V = StaticPlan;

    open spec fn view(&self) -> StaticPlan {
        match self {
            StaticDecision::Pass => StaticPlan::Pass,
            StaticDecision::Serve(p) => StaticPlan::Serve(p@),
            StaticDecision::ServeHead(p) => StaticPlan::ServeHead(p@),
        }
    }
}

/// The decoded path lies under the root segment: the root is a prefix,
/// and it ends exactly at a segment boundary.
pub open spec fn under_root(decoded: Seq<char>, root: Seq<char>) -> bool {
    starts_with_seq(decoded, root) && (decoded.len() == root.len() || decoded[
        root.len() as int
    ] == '/')
}

/// The decision for one request: pass unless the leading-slash-stripped,
/// percent-decoded path contains no parent-directory step, lies under
/// the root, and asks with GET or HEAD; then serve the file named by the
/// public directory and the path's remainder.
pub open spec fn static_plan(
    root: Seq<char>,
    public: Seq<char>,
    path: Seq<char>,
    m: Method,
) -> StaticPlan {
    if path.len() == 0 {
        StaticPlan::Pass
    } else {
        let decoded = percent_decoded(path.drop_first());
        if contains_seq(decoded, "../"@) {
            StaticPlan::Pass
        } else if !under_root(decoded, root) {
            StaticPlan::Pass
        } else {
            let rest = if decoded.len() > root.len() {
                decoded.skip(root.len() + 1int)
            } else {
                Seq::<char>::empty()
            };
            let target = public + seq!['/'] + rest;
            match m {
                Method::Get => StaticPlan::Serve(target),
                Method::Head => StaticPlan::ServeHead(target),
                _ => StaticPlan::Pass,
            }
        }
    }
}

/// A static file server's configuration.
///
/// The file I/O it leads to lives outside the crate; `resolve` is the
/// decision the middleware makes for each request.
pub struct StaticFileServer {
    /// The root url segment for all the files, e.g. `static` or
    /// `assets`: request paths under it are served.
    pub root: String,
    /// Path of the folder the static files are served from.
    pub public: String,
}

impl StaticFileServer {
    /// Creates a static file server with the given root and public
    /// folder.
    pub fn new(root: &str, public: &str) -> (r: StaticFileServer)
        ensures
            r.root@ == root@,
            r.public@ == public@,
    {
        StaticFileServer { root: root.to_owned(), public: public.to_owned() }
    }

    /// Decides what to do with one request.
    pub fn resolve(&self, path: &str, method: Method) -> (r: StaticDecision)
        ensures
            r@ == static_plan(self.root@, self.public@, path@, method),
    {
        let len: usize = path.unicode_len();
        if len == 0 {
            return StaticDecision::Pass;
        }
        let tail = path.substring_char(1, len);
        proof {
            assert(tail@ =~= path@.drop_first());
        }
        let decoded = percent_decode_str(tail);
        if contains_sub(decoded.as_str(), "../") {
            return StaticDecision::Pass;
        }
        let dlen: usize = decoded.as_str().unicode_len();
        let rlen: usize = self.root.as_str().unicode_len();
        let under = if !starts_with_sub(decoded.as_str(), self.root.as_str()) {
            false
        } else if dlen == rlen {
            true
        } else {
            decoded.as_str().get_char(rlen) == '/'
        };
        if !under {
            return StaticDecision::Pass;
        }
        let rest: String = if dlen > rlen {
            decoded.as_str().substring_char(rlen + 1, dlen).to_owned()
        } else {
            proof {
                assert(decoded@.len() == self.root@.len());
            }
            String::new()
        };
        let mut target = self.public.clone();
        target.append("/");
        target.append(rest.as_str());
        proof {
            reveal_strlit("/");
            assert("/"@ =~= seq!['/']);
            assert(target@ =~= self.public@ + seq!['/'] + (if decoded@.len() > self.root@.len() {
                decoded@.skip(self.root@.len() + 1int)
            } else {
                Seq::<char>::empty()
            }));
        }
        match method {
            Method::Get => StaticDecision::Serve(target),
            Method::Head => StaticDecision::ServeHead(target),
            _ => StaticDecision::Pass,
        }
    }
}

} // verus!
