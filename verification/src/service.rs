//! The service capability and the composite handler that wraps a service
//! with before and after middleware.
use std::sync::Arc;
use vstd::prelude::*;
use vstd::utf8::encode_utf8;
use crate::middleware::{mw_out_view, MiddleWare};
use crate::request::{Request, ReqView};
use crate::response::{clamp_status, clamped, Response, RespView};
use crate::util::dec_str;

verus! {

/// The service capability: route handlers and composite handlers alike
/// take a request and a response and yield either a response (`Ok`) or a
/// deliberate early response (`Err`).
pub trait ArcService: Sized {
    /// What this service's `call` may return for a given request.
    spec fn call_ensures(
        &self,
        req: ReqView,
        res: RespView,
        out: Result<RespView, RespView>,
    ) -> bool;

    /// Runs the service.
    fn call(&self, req: Request, res: Response) -> (out: Result<Response, Response>)
        ensures
            self.call_ensures(req@, res@, mw_out_view(out)),
    ;
}

/// A service that answers every request with a fixed status and a fixed
/// plain-text body.
pub struct TextService {
    pub status: u16,
    pub body: String,
}

impl TextService {
    /// A service answering with the given status and text.
    pub fn new(status: u16, body: &str) -> (r: TextService)
        ensures
            r.status == status,
            r.body@ == body@,
    {
        TextService { status, body: body.to_owned() }
    }
}

impl ArcService for TextService {
    open spec fn call_ensures(
        &self,
        req: ReqView,
        res: RespView,
        out: Result<RespView, RespView>,
    ) -> bool {
        out == Ok::<RespView, RespView>(
            RespView {
                status: clamp_status(self.status),
                body: encode_utf8(self.body@),
                ..res.with_header("content-length"@, dec_str(encode_utf8(self.body@).len()))
            },
        )
    }

    fn call(&self, req: Request, res: Response) -> (out: Result<Response, Response>) {
        let status = clamped(self.status);
        Ok(res.with_status(status).with_text(self.body.as_str()))
    }
}

/// The leaf or nested service a composite handler wraps.
pub enum HandlerKind<S, M, A> {
    Leaf(S),
    Composite(Box<ArcHandler<S, M, A>>),
}

/// A composite handler: an optional request middleware, a handler, and
/// an optional response middleware.  Route groups and routers wrap the
/// handlers registered on them in one of these for every layer of
/// inherited middleware.
pub struct ArcHandler<S, M, A> {
    pub before: Option<Arc<M>>,
    pub handler: HandlerKind<S, M, A>,
    pub after: Option<Arc<A>>,
}

impl<S: ArcService, M: MiddleWare<Request>, A: MiddleWare<Response>> ArcHandler<S, M, A> {
    /// A composite around a bare handler, with no middleware yet.
    pub fn new(h: S) -> (r: ArcHandler<S, M, A>)
        ensures
            r.before is None,
            r.handler == HandlerKind::<S, M, A>::Leaf(h),
            r.after is None,
    {
        ArcHandler { before: None, handler: HandlerKind::Leaf(h), after: None }
    }

    /// Sets the before middleware.
    pub fn before(&mut self, before: M)
        ensures
            final(self).before matches Some(b) && b == before,
            final(self).handler == old(self).handler,
            final(self).after == old(self).after,
    {
        self.before = Some(Arc::new(before));
    }

    /// Sets the after middleware.
    pub fn after(&mut self, after: A)
        ensures
            final(self).after matches Some(a) && a == after,
            final(self).handler == old(self).handler,
            final(self).before == old(self).before,
    {
        self.after = Some(Arc::new(after));
    }
}

/// The response a continue-or-short-circuit outcome carries, whichever
/// side it is on.
pub open spec fn resp_value(ho: Result<RespView, RespView>) -> RespView {
    match ho {
        Ok(v) => v,
        Err(v) => v,
    }
}

/// The before stage of a composite handler: the middleware's own
/// relation, or a pass-through when none is configured.
pub open spec fn before_ensures<S: ArcService, M: MiddleWare<Request>, A: MiddleWare<Response>>(
    h: ArcHandler<S, M, A>,
    req: ReqView,
    mid: Result<ReqView, RespView>,
) -> bool {
    match h.before {
        Some(m) => m.call_ensures(req, mid),
        None => mid == Ok::<ReqView, RespView>(req),
    }
}

/// The after stage of a composite handler: with middleware configured it
/// runs over the response from either path; without, the outcome passes
/// through untouched, keeping its success or short-circuit side.
pub open spec fn after_ensures<S: ArcService, M: MiddleWare<Request>, A: MiddleWare<Response>>(
    h: ArcHandler<S, M, A>,
    ho: Result<RespView, RespView>,
    out: Result<RespView, RespView>,
) -> bool {
    match h.after {
        Some(a) => a.call_ensures(resp_value(ho), out),
        None => out == ho,
    }
}

/// What a composite handler's `call` may return: the before stage either
/// short-circuits — skipping the wrapped handler entirely — or hands a
/// request to the handler; the after stage then runs over the response,
/// whichever path produced it.
pub open spec fn handler_ensures<S: ArcService, M: MiddleWare<Request>, A: MiddleWare<Response>>(
    h: ArcHandler<S, M, A>,
    req: ReqView,
    res: RespView,
    out: Result<RespView, RespView>,
) -> bool
    decreases h,
{
    exists|mid: Result<ReqView, RespView>|
        #[trigger] before_ensures(h, req, mid) && match mid {
            Err(r) => after_ensures(h, Err::<RespView, RespView>(r), out),
            Ok(req2) => exists|ho: Result<RespView, RespView>|
                (match h.handler {
                    HandlerKind::Leaf(s) => s.call_ensures(req2, res, ho),
                    HandlerKind::Composite(b) => handler_ensures(*b, req2, res, ho),
                }) && #[trigger] after_ensures(h, ho, out),
        }
}

/// Runs the after stage of a composite handler.
fn apply_after<S: ArcService, M: MiddleWare<Request>, A: MiddleWare<Response>>(
    h: &ArcHandler<S, M, A>,
    ho: Result<Response, Response>,
) -> (out: Result<Response, Response>)
    ensures
        after_ensures(*h, mw_out_view(ho), mw_out_view(out)),
{
    let ghost hov = mw_out_view(ho);
    match &h.after {
        Some(a) => {
            let v = match ho {
                Ok(v) => v,
                Err(v) => v,
            };
            proof {
                assert(v@ == resp_value(hov));
            }
            (&**a).call(v)
        }
        None => ho,
    }
}

/// Runs a composite handler: before stage, wrapped handler, after stage,
/// with the short-circuit rule between them.
pub fn run_handler<S: ArcService, M: MiddleWare<Request>, A: MiddleWare<Response>>(
    h: &ArcHandler<S, M, A>,
    req: Request,
    res: Response,
) -> (out: Result<Response, Response>)
    ensures
        handler_ensures(*h, req@, res@, mw_out_view(out)),
    decreases *h,
{
    let ghost req0 = req@;
    let ghost res0 = res@;
    let mid: Result<Request, Response> = match &h.before {
        Some(m) => (&**m).call(req),
        None => Ok(req),
    };
    let ghost midv = mw_out_view(mid);
    proof {
        assert(before_ensures(*h, req0, midv));
    }
    match mid {
        Err(r) => {
            let ghost rv = r@;
            let out = apply_after(h, Err(r));
            proof {
                assert(after_ensures(*h, Err::<RespView, RespView>(rv), mw_out_view(out)));
                assert(handler_ensures(*h, req0, res0, mw_out_view(out)));
            }
            out
        }
        Ok(req2) => {
            let ghost req2v = req2@;
            let ho: Result<Response, Response> = match &h.handler {
                HandlerKind::Leaf(s) => {
                    let o = s.call(req2, res);
                    proof {
                        assert(match h.handler {
                            HandlerKind::Leaf(s2) => s2.call_ensures(req2v, res0, mw_out_view(o)),
                            HandlerKind::Composite(b) => handler_ensures(
                                *b,
                                req2v,
                                res0,
                                mw_out_view(o),
                            ),
                        });
                    }
                    o
                }
                HandlerKind::Composite(b) => {
                    let o = run_handler(&**b, req2, res);
                    proof {
                        assert(match h.handler {
                            HandlerKind::Leaf(s2) => s2.call_ensures(req2v, res0, mw_out_view(o)),
                            HandlerKind::Composite(b2) => handler_ensures(
                                *b2,
                                req2v,
                                res0,
                                mw_out_view(o),
                            ),
                        });
                    }
                    o
                }
            };
            let ghost hov = mw_out_view(ho);
            let out = apply_after(h, ho);
            proof {
                assert(after_ensures(*h, hov, mw_out_view(out)));
                assert(handler_ensures(*h, req0, res0, mw_out_view(out)));
            }
            out
        }
    }
}

impl<S: ArcService, M: MiddleWare<Request>, A: MiddleWare<Response>> ArcService for ArcHandler<
    S,
    M,
    A,
> {
    /// A composite handler is itself a service, so composites nest.
    open spec fn call_ensures(
        &self,
        req: ReqView,
        res: RespView,
        out: Result<RespView, RespView>,
    ) -> bool {
        handler_ensures(*self, req, res, out)
    }

    fn call(&self, req: Request, res: Response) -> (out: Result<Response, Response>) {
        run_handler(self, req, res)
    }
}

/// Relies on Arc::clone: the clone refers to the same value as the
/// original, so sharing a middleware never changes it.
#[verifier::external_body]
pub(crate) fn share<T>(a: &Arc<T>) -> (r: Arc<T>)
    ensures
        r == *a,
{
    Arc::clone(a)
}

/// Shares an optional middleware.
pub(crate) fn share_opt<T>(a: &Option<Arc<T>>) -> (r: Option<Arc<T>>)
    ensures
        r == *a,
{
    match a {
        Some(x) => Some(share(x)),
        None => None,
    }
}

/// `w` is `inner` wrapped with the given before and after middleware:
/// the composite a route group or router builds around a handler it
/// inherits middleware onto.
pub open spec fn wrapped_by<S, M, A>(
    w: ArcHandler<S, M, A>,
    before: Option<Arc<M>>,
    inner: ArcHandler<S, M, A>,
    after: Option<Arc<A>>,
) -> bool {
    &&& w.before == before
    &&& w.after == after
    &&& w.handler matches HandlerKind::Composite(b) && *b == inner
}

/// `inner` is the bare handler wrapped in its own per-route middleware:
/// the composite a route-with-middleware registration builds before any
/// group or router middleware is layered around it.
pub open spec fn inner_wraps<S, M, A>(
    inner: ArcHandler<S, M, A>,
    before_mw: Option<M>,
    handler: S,
    after_mw: Option<A>,
) -> bool {
    &&& match before_mw {
        Some(m) => inner.before matches Some(b) && b == m,
        None => inner.before is None,
    }
    &&& inner.handler == HandlerKind::<S, M, A>::Leaf(handler)
    &&& match after_mw {
        Some(a) => inner.after matches Some(x) && x == a,
        None => inner.after is None,
    }
}

/// LAW — middleware short-circuit skips the handler.  When the before
/// middleware of a composite answers every request with the response
/// `deny`, and no after middleware is configured, the composite's
/// outcome is exactly `Err(deny)`: it does not depend on the wrapped
/// handler in any way, because the handler is never consulted.
pub proof fn lemma_short_circuit_skips_handler<
    S: ArcService,
    M: MiddleWare<Request>,
    A: MiddleWare<Response>,
>(
    h: ArcHandler<S, M, A>,
    req: ReqView,
    res: RespView,
    out: Result<RespView, RespView>,
    deny: RespView,
)
    requires
        h.before matches Some(m) && forall|x: ReqView, o: Result<ReqView, RespView>|
            #[trigger] m.call_ensures(x, o) ==> o == Err::<ReqView, RespView>(deny),
        h.after is None,
        handler_ensures(h, req, res, out),
    ensures
        out == Err::<RespView, RespView>(deny),
{
    let mid = choose|mid: Result<ReqView, RespView>|
        #[trigger] before_ensures(h, req, mid) && match mid {
            Err(r) => after_ensures(h, Err::<RespView, RespView>(r), out),
            Ok(req2) => exists|ho: Result<RespView, RespView>|
                (match h.handler {
                    HandlerKind::Leaf(s) => s.call_ensures(req2, res, ho),
                    HandlerKind::Composite(b) => handler_ensures(*b, req2, res, ho),
                }) && #[trigger] after_ensures(h, ho, out),
        };
    assert(mid == Err::<ReqView, RespView>(deny));
}

/// LAW — the middleware-chain short-circuit, end to end.  For a
/// composite whose before stage is the two-element chain
/// `[m1, m2]` with `m1` always continuing and `m2` always answering with
/// the response `deny`, and with no after stage, the composite's outcome
/// is exactly `Err(deny)`, whatever handler it wraps.
pub proof fn lemma_before_chain_short_circuit<
    S: ArcService,
    M: MiddleWare<Request>,
    A: MiddleWare<Response>,
>(
    h: ArcHandler<S, Vec<M>, A>,
    req: ReqView,
    res: RespView,
    out: Result<RespView, RespView>,
    deny: RespView,
)
    requires
        h.before matches Some(chain) && (*chain)@.len() == 2 && (forall|
            x: ReqView,
            o: Result<ReqView, RespView>,
        |
            #[trigger] (*chain)@[0].call_ensures(x, o) ==> o is Ok) && (forall|
            x: ReqView,
            o: Result<ReqView, RespView>,
        |
            #[trigger] (*chain)@[1].call_ensures(x, o) ==> o == Err::<ReqView, RespView>(deny)),
        h.after is None,
        handler_ensures(h, req, res, out),
    ensures
        out == Err::<RespView, RespView>(deny),
{
    let chain = h.before->0;
    assert forall|x: ReqView, o: Result<ReqView, RespView>|
        #[trigger] chain.call_ensures(x, o) implies o == Err::<ReqView, RespView>(deny) by {
        crate::middleware::lemma_chain_short_circuit((*chain)@, x, deny, o);
    }
    lemma_short_circuit_skips_handler(h, req, res, out, deny);
}

} // verus!
