//! The JSON body gate: refuses requests that announce a JSON body but
//! carry none.
use vstd::prelude::*;
use vstd::utf8::encode_utf8;
use crate::middleware::MiddleWare;
use crate::request::{ReqView, Request};
use crate::response::{Response, RespView};
use crate::strmap::find_spec;
use crate::util::contains_seq;

verus! {

/// A request whose `content-type` header names JSON.
pub open spec fn announces_json(req: ReqView) -> bool {
    match find_spec(req.headers, "content-type"@) {
        Some(v) => contains_seq(v, "json"@),
        None => false,
    }
}

/// Json body parser.
///
/// A request without a JSON content type passes through untouched, and
/// so does one that announces JSON and carries a body.  A request that
/// announces JSON with an empty body is answered early with a 400
/// response, before any handler sees it.
pub struct BodyParser;

impl MiddleWare<Request> for BodyParser {
    open spec fn call_ensures(&self, t: ReqView, out: Result<ReqView, RespView>) -> bool {
        if announces_json(t) && t.body.len() == 0 {
            out matches Err(r) && r.status == 400 && r.body == encode_utf8(
                "{\"error\":\"Empty request body\"}"@,
            )
        } else {
            out == Ok::<ReqView, RespView>(t)
        }
    }

    fn call(&self, t: Request) -> (out: Result<Request, Response>) {
        let is_json = match t.header("content-type") {
            Some(v) => crate::util::contains_sub(v.as_str(), "json"),
            None => false,
        };
        if is_json && t.body_ref().len() == 0 {
            let resp = Response::new().with_status(400).with_text(
                "{\"error\":\"Empty request body\"}",
            );
            Err(resp)
        } else {
            Ok(t)
        }
    }
}

} // verus!
