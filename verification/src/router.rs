//! The router: per-method route tables, a wildcard fallback, global
//! middleware, and the dispatch entry point.
use std::sync::Arc;
use vstd::prelude::*;
use crate::method::Method;
use crate::middleware::{mw_out_view, MiddleWare};
use crate::recognizer::{add_result, best_match, captures, patterns_of, Match, Recognizer};
use crate::request::{Request, ReqView};
use crate::response::{not_found_response, Response, RespView};
use crate::routegroup::{group_view, RouteGroup};
use crate::service::{
    handler_ensures, inner_wraps, run_handler, share_opt, wrapped_by, ArcHandler, ArcService,
    HandlerKind,
};
use crate::util::{
    split_path, split_segs, str_eq, stripTrailingSlash, strip_trailing_slash, views_of,
};

verus! {

/// The index of the route table for a method.
pub open spec fn table_for<T>(tables: Seq<(Method, Recognizer<T>)>, m: Method) -> Option<int>
    decreases tables.len(),
{
    if tables.len() == 0 {
        None
    } else if tables.first().0 == m {
        Some(0int)
    } else {
        match table_for(tables.drop_first(), m) {
            Some(k) => Some(k + 1),
            None => None,
        }
    }
}

/// What `table_for` finds is the first table of the method.
pub proof fn lemma_table_for_valid<T>(tables: Seq<(Method, Recognizer<T>)>, m: Method)
    ensures
        match table_for(tables, m) {
            Some(k) => 0 <= k < tables.len() && tables[k].0 == m,
            None => forall|j: int| 0 <= j < tables.len() ==> (#[trigger] tables[j]).0 != m,
        },
    decreases tables.len(),
{
    if tables.len() > 0 {
        lemma_table_for_valid(tables.drop_first(), m);
        if tables.first().0 != m {
            match table_for(tables.drop_first(), m) {
                Some(k) => {
                    assert(tables.drop_first()[k] == tables[k + 1]);
                }
                None => {
                    assert forall|j: int| 0 <= j < tables.len() implies (#[trigger] tables[j]).0
                        != m by {
                        if j == 0 {
                            assert(tables[0] == tables.first());
                        } else {
                            assert(tables.drop_first()[j - 1] == tables[j]);
                        }
                    }
                }
            }
        }
    }
}

/// What binding one route in a table list leaves behind: the method's
/// table gets the binding, every other table is untouched; a method
/// without a table gets a fresh one holding only the new binding.
pub open spec fn router_add_result<T>(
    old_t: Seq<(Method, Recognizer<T>)>,
    new_t: Seq<(Method, Recognizer<T>)>,
    m: Method,
    pat: Seq<Seq<char>>,
    h: T,
) -> bool {
    match table_for(old_t, m) {
        Some(k) => new_t.len() == old_t.len() && new_t[k].0 == m && add_result(
            old_t[k].1.routes@,
            new_t[k].1.routes@,
            pat,
            h,
        ) && (forall|j: int| 0 <= j < old_t.len() && j != k ==> new_t[j] == old_t[j]),
        None => new_t.len() == old_t.len() + 1 && new_t.drop_last() == old_t && new_t.last().0 == m
            && new_t.last().1.routes@.len() == 1 && views_of(new_t.last().1.routes@[0].pattern@)
            == pat && new_t.last().1.routes@[0].handler == h,
    }
}

/// What merging a group's bindings into the tables leaves behind, child
/// by child from the front: each child handler is wrapped in the
/// router's middlewares and bound under the child's path.
pub open spec fn router_merge_result<S, M, A>(
    old_t: Seq<(Method, Recognizer<ArcHandler<S, M, A>>)>,
    children: Seq<(Method, Seq<char>, ArcHandler<S, M, A>)>,
    before: Option<Arc<M>>,
    after: Option<Arc<A>>,
    new_t: Seq<(Method, Recognizer<ArcHandler<S, M, A>>)>,
) -> bool
    decreases children.len(),
{
    if children.len() == 0 {
        new_t == old_t
    } else {
        let c = children.last();
        exists|mid: Seq<(Method, Recognizer<ArcHandler<S, M, A>>)>, w: ArcHandler<S, M, A>|
            router_merge_result(old_t, children.drop_last(), before, after, mid) && wrapped_by(
                w,
                before,
                c.2,
                after,
            ) && #[trigger] router_add_result(
                mid,
                new_t,
                c.0,
                split_segs(strip_trailing_slash(c.1)),
                w,
            )
    }
}

/// One step of a merge, for building `router_merge_result` facts.
proof fn lemma_router_merge_step<S, M, A>(
    old_t: Seq<(Method, Recognizer<ArcHandler<S, M, A>>)>,
    children: Seq<(Method, Seq<char>, ArcHandler<S, M, A>)>,
    before: Option<Arc<M>>,
    after: Option<Arc<A>>,
    mid: Seq<(Method, Recognizer<ArcHandler<S, M, A>>)>,
    w: ArcHandler<S, M, A>,
    new_t: Seq<(Method, Recognizer<ArcHandler<S, M, A>>)>,
)
    requires
        children.len() > 0,
        router_merge_result(old_t, children.drop_last(), before, after, mid),
        wrapped_by(w, before, children.last().2, after),
        router_add_result(
            mid,
            new_t,
            children.last().0,
            split_segs(strip_trailing_slash(children.last().1)),
            w,
        ),
    ensures
        router_merge_result(old_t, children, before, after, new_t),
{
}

/// A wildcard binding: a catch-all handler for every path under a
/// literal segment prefix.
pub struct WildRoute<S, M, A> {
    pub prefix: Vec<String>,
    pub handler: ArcHandler<S, M, A>,
}

/// The views of a wildcard list.
pub open spec fn wild_views<S, M, A>(ws: Seq<WildRoute<S, M, A>>) -> Seq<
    (Seq<Seq<char>>, ArcHandler<S, M, A>),
> {
    ws.map_values(|w: WildRoute<S, M, A>| (views_of(w.prefix@), w.handler))
}

/// A wildcard prefix against a path: every segment of the prefix equals
/// the corresponding segment of the path.  A path merely sharing a
/// substring with the prefix does not match.
pub open spec fn wild_prefix_matches(pre: Seq<Seq<char>>, segs: Seq<Seq<char>>) -> bool {
    pre.len() <= segs.len() && segs.take(pre.len() as int) == pre
}

/// The winning wildcard for a path: the matching binding with the
/// longest prefix, and among equally long ones the earliest.
pub open spec fn wild_best<S, M, A>(
    ws: Seq<(Seq<Seq<char>>, ArcHandler<S, M, A>)>,
    segs: Seq<Seq<char>>,
) -> Option<int>
    decreases ws.len(),
{
    if ws.len() == 0 {
        None
    } else {
        let prev = wild_best(ws.drop_last(), segs);
        let i = ws.len() - 1;
        if wild_prefix_matches(ws[i].0, segs) {
            match prev {
                None => Some(i),
                Some(j) => if ws[i].0.len() > ws[j].0.len() {
                    Some(i)
                } else {
                    Some(j)
                },
            }
        } else {
            prev
        }
    }
}

/// LAW — a wildcard never matches outside its prefix: what `wild_best`
/// selects is a binding whose whole prefix stands, segment for segment,
/// at the start of the path, and it selects one whenever any binding
/// matches.
pub proof fn lemma_wild_best_valid<S, M, A>(
    ws: Seq<(Seq<Seq<char>>, ArcHandler<S, M, A>)>,
    segs: Seq<Seq<char>>,
)
    ensures
        match wild_best(ws, segs) {
            Some(i) => 0 <= i < ws.len() && wild_prefix_matches(ws[i].0, segs),
            None => forall|j: int|
                0 <= j < ws.len() ==> !(#[trigger] wild_prefix_matches(ws[j].0, segs)),
        },
    decreases ws.len(),
{
    if ws.len() > 0 {
        lemma_wild_best_valid(ws.drop_last(), segs);
        assert(forall|j: int| 0 <= j < ws.len() - 1 ==> ws.drop_last()[j] == ws[j]);
    }
}

/// The strict routing decision: the request path is normalized, the
/// method's table is consulted, and the winning pattern's handler and
/// captures come back.
pub open spec fn router_match<S, M, A>(rt: Router<S, M, A>, m: Method, path: Seq<char>) -> Option<
    (ArcHandler<S, M, A>, Seq<(Seq<char>, Seq<char>)>),
> {
    let segs = split_segs(strip_trailing_slash(path));
    match table_for(rt.routes@, m) {
        None => None,
        Some(k) => {
            let rec = rt.routes@[k].1;
            let pats = patterns_of(rec.routes@);
            match best_match(pats, segs) {
                None => None,
                Some(i) => Some((rec.routes@[i].handler, captures(pats[i], segs))),
            }
        },
    }
}

/// LAW — slash-insensitivity of routing.  For a path without a trailing
/// slash, appending one changes neither the strict routing decision nor
/// the wildcard decision: both see the same normalized path.
pub proof fn lemma_route_slash_insensitive<S, M, A>(rt: Router<S, M, A>, m: Method, p: Seq<char>)
    requires
        p.len() == 0 || p.last() != '/',
    ensures
        router_match(rt, m, p.push('/')) == router_match(rt, m, p),
        wild_best(wild_views(rt.wildcards@), split_segs(strip_trailing_slash(p.push('/'))))
            == wild_best(wild_views(rt.wildcards@), split_segs(strip_trailing_slash(p))),
{
    crate::util::lemma_strip_slash_insensitive(p);
}

/// What the dispatch entry point may return, following its algorithm:
/// a strict match runs that handler on the request with the captured
/// parameters attached; otherwise a wildcard match runs that handler;
/// otherwise the configured not-found handler runs; otherwise the
/// response is a synthesized 404.
pub open spec fn dispatch_ensures<S: ArcService, M: MiddleWare<Request>, A: MiddleWare<Response>>(
    rt: Router<S, M, A>,
    req: ReqView,
    res: RespView,
    out: Result<RespView, RespView>,
) -> bool {
    match router_match(rt, req.method, req.path) {
        Some(pair) => handler_ensures(pair.0, req.with_params(pair.1), res, out),
        None => match wild_best(
            wild_views(rt.wildcards@),
            split_segs(strip_trailing_slash(req.path)),
        ) {
            Some(j) => handler_ensures(wild_views(rt.wildcards@)[j].1, req, res, out),
            None => match rt.notFound {
                Some(s) => s.call_ensures(req, res, out),
                None => out == Ok::<RespView, RespView>(not_found_response()),
            },
        },
    }
}

/// The main router of your application, supplied to the reactor.
///
/// Built once at startup, it becomes shared, read-only state for the
/// lifetime of the server: dispatching mutates nothing.
pub struct Router<S, M, A> {
    pub routes: Vec<(Method, Recognizer<ArcHandler<S, M, A>>)>,
    pub wildcards: Vec<WildRoute<S, M, A>>,
    pub before: Option<Arc<M>>,
    pub after: Option<Arc<A>>,
    pub notFound: Option<S>,
}

/// Binds one route in a table list.
fn table_add<T>(tables: &mut Vec<(Method, Recognizer<T>)>, method: Method, path: &str, handler: T)
    ensures
        router_add_result(
            old(tables)@,
            final(tables)@,
            method,
            split_segs(strip_trailing_slash(path@)),
            handler,
        ),
{
    let ghost orig = tables@;
    proof {
        assert(orig.skip(0) =~= orig);
    }
    let mut found: Option<usize> = None;
    let mut i: usize = 0;
    while i < tables.len()
        invariant
            i <= tables@.len(),
            tables == old(tables),
            orig == tables@,
            match found {
                Some(k) => k < i && table_for(orig, method) == Some(k as int),
                None => table_for(orig, method) == match table_for(orig.skip(i as int), method) {
                    Some(k) => Some(k + i),
                    None => None::<int>,
                },
            },
        decreases tables@.len() - i,
    {
        if found.is_none() {
            proof {
                assert(orig.skip(i as int).first() == orig[i as int]);
                assert(orig.skip(i as int).drop_first() =~= orig.skip(i + 1));
            }
            if tables[i].0 == method {
                found = Some(i);
            }
        }
        i = i + 1;
    }
    match found {
        Some(k) => {
            proof {
                lemma_table_for_valid(orig, method);
            }
            let pair = tables.remove(k);
            let (m0, rec) = pair;
            let mut rec = rec;
            rec.add(path, handler);
            tables.insert(k, (m0, rec));
            proof {
                let s = orig.remove(k as int);
                assert(tables@ == s.insert(k as int, (m0, rec)));
                assert(s.subrange(0, k as int).push((m0, rec)).len() == k + 1);
                assert(tables@[k as int] == (m0, rec));
                assert(tables@.len() == orig.len());
                assert forall|j: int| 0 <= j < orig.len() && j != k implies tables@[j]
                    == orig[j] by {
                    if j < k {
                        assert(tables@[j] == s.subrange(0, k as int).push((m0, rec))[j]);
                        assert(s[j] == orig[j]);
                    } else {
                        assert(tables@[j] == s.subrange(k as int, s.len() as int)[j - k - 1]);
                        assert(s[j - 1] == orig[j]);
                    }
                }
            }
        }
        None => {
            proof {
                assert(orig.skip(orig.len() as int) =~= Seq::<(Method, Recognizer<T>)>::empty());
            }
            let mut rec = Recognizer::new();
            rec.add(path, handler);
            tables.push((method, rec));
            proof {
                assert(tables@.drop_last() =~= orig);
                assert(rec.routes@.len() == 1);
            }
        }
    }
}

impl<S: ArcService, M: MiddleWare<Request>, A: MiddleWare<Response>> Router<S, M, A> {
    /// Construct a new Router.
    pub fn new() -> (r: Router<S, M, A>)
        ensures
            r.routes@ == Seq::<(Method, Recognizer<ArcHandler<S, M, A>>)>::empty(),
            r.wildcards@ == Seq::<WildRoute<S, M, A>>::empty(),
            r.before is None,
            r.after is None,
            r.notFound is None,
    {
        let r = Router {
            routes: Vec::new(),
            wildcards: Vec::new(),
            before: None,
            after: None,
            notFound: None,
        };
        proof {
            assert(r.routes@ =~= Seq::<(Method, Recognizer<ArcHandler<S, M, A>>)>::empty());
            assert(r.wildcards@ =~= Seq::<WildRoute<S, M, A>>::empty());
        }
        r
    }

    /// Mount a request middleware on this router.  It wraps only the
    /// routes added after this call.
    pub fn before(self, before: M) -> (r: Self)
        ensures
            r.before matches Some(b) && b == before,
            r.after == self.after,
            r.routes == self.routes,
            r.wildcards == self.wildcards,
            r.notFound == self.notFound,
    {
        Router { before: Some(Arc::new(before)), ..self }
    }

    /// Mount a response middleware on this router.  It wraps only the
    /// routes added after this call.
    pub fn after(self, after: A) -> (r: Self)
        ensures
            r.after matches Some(a) && a == after,
            r.before == self.before,
            r.routes == self.routes,
            r.wildcards == self.wildcards,
            r.notFound == self.notFound,
    {
        Router { after: Some(Arc::new(after)), ..self }
    }

    /// Add a not-found handler, run when nothing matches a request.
    pub fn notFound(self, handler: S) -> (r: Self)
        ensures
            r.notFound == Some(handler),
            r.before == self.before,
            r.after == self.after,
            r.routes == self.routes,
            r.wildcards == self.wildcards,
    {
        Router { notFound: Some(handler), ..self }
    }

    /// Add a route and a service for a GET request.
    pub fn get(self, route: &str, handler: S) -> (r: Self)
        ensures
            self.route_result(Method::Get, route@, handler, r),
    {
        self.route(Method::Get, route, handler)
    }

    /// Add a route and a service for a POST request.
    pub fn post(self, route: &str, handler: S) -> (r: Self)
        ensures
            self.route_result(Method::Post, route@, handler, r),
    {
        self.route(Method::Post, route, handler)
    }

    /// Add a route and a service for a PUT request.
    pub fn put(self, route: &str, handler: S) -> (r: Self)
        ensures
            self.route_result(Method::Put, route@, handler, r),
    {
        self.route(Method::Put, route, handler)
    }

    /// Add a route and a service for a PATCH request.
    pub fn patch(self, route: &str, handler: S) -> (r: Self)
        ensures
            self.route_result(Method::Patch, route@, handler, r),
    {
        self.route(Method::Patch, route, handler)
    }

    /// Add a route and a service for a DELETE request.
    pub fn delete(self, route: &str, handler: S) -> (r: Self)
        ensures
            self.route_result(Method::Delete, route@, handler, r),
    {
        self.route(Method::Delete, route, handler)
    }

    /// What adding one route to this router leaves behind: the handler,
    /// wrapped in the router's current middlewares, is bound in the
    /// method's table, and nothing else changes.
    pub open spec fn route_result(
        self,
        method: Method,
        path: Seq<char>,
        handler: S,
        r: Router<S, M, A>,
    ) -> bool {
        &&& router_add_result(
            self.routes@,
            r.routes@,
            method,
            split_segs(strip_trailing_slash(path)),
            (ArcHandler {
                before: self.before,
                handler: HandlerKind::Leaf(handler),
                after: self.after,
            }),
        )
        &&& r.wildcards == self.wildcards
        &&& r.before == self.before
        &&& r.after == self.after
        &&& r.notFound == self.notFound
    }

    fn route(self, method: Method, path: &str, handler: S) -> (r: Self)
        ensures
            self.route_result(method, path@, handler, r),
    {
        let Router { mut routes, wildcards, before, after, notFound } = self;
        let wrapped = ArcHandler {
            before: share_opt(&before),
            handler: HandlerKind::Leaf(handler),
            after: share_opt(&after),
        };
        table_add(&mut routes, method, path, wrapped);
        Router { routes, wildcards, before, after, notFound }
    }

    /// What adding one route with its own middleware leaves behind: the
    /// bare handler is wrapped first in the route's own middleware and
    /// then in the router's, and bound in the method's table.
    pub open spec fn route_layered_result(
        self,
        method: Method,
        path: Seq<char>,
        before_mw: Option<M>,
        handler: S,
        after_mw: Option<A>,
        r: Router<S, M, A>,
    ) -> bool {
        &&& exists|w: ArcHandler<S, M, A>, inner: ArcHandler<S, M, A>|
            #![trigger inner_wraps(inner, before_mw, handler, after_mw), router_add_result(
                self.routes@,
                r.routes@,
                method,
                split_segs(strip_trailing_slash(path)),
                w,
            )]
            inner_wraps(inner, before_mw, handler, after_mw) && wrapped_by(
                w,
                self.before,
                inner,
                self.after,
            ) && router_add_result(
                self.routes@,
                r.routes@,
                method,
                split_segs(strip_trailing_slash(path)),
                w,
            )
        &&& r.wildcards == self.wildcards
        &&& r.before == self.before
        &&& r.after == self.after
        &&& r.notFound == self.notFound
    }

    fn route_layered(
        self,
        method: Method,
        path: &str,
        before_mw: Option<M>,
        handler: S,
        after_mw: Option<A>,
    ) -> (r: Self)
        ensures
            self.route_layered_result(method, path@, before_mw, handler, after_mw, r),
    {
        let ghost bm0 = before_mw;
        let ghost h0 = handler;
        let ghost am0 = after_mw;
        let Router { mut routes, wildcards, before, after, notFound } = self;
        let inner = ArcHandler {
            before: match before_mw {
                Some(m) => Some(Arc::new(m)),
                None => None,
            },
            handler: HandlerKind::Leaf(handler),
            after: match after_mw {
                Some(a) => Some(Arc::new(a)),
                None => None,
            },
        };
        let ghost inner0 = inner;
        let wrapped = ArcHandler {
            before: share_opt(&before),
            handler: HandlerKind::Composite(Box::new(inner)),
            after: share_opt(&after),
        };
        let ghost w0 = wrapped;
        table_add(&mut routes, method, path, wrapped);
        let r = Router { routes, wildcards, before, after, notFound };
        proof {
            lemma_layered_intro(self, r, method, path@, bm0, h0, am0, w0, inner0);
        }
        r
    }

    /// Add a GET route whose handler carries its own request middleware.
    pub fn get2(self, route: &str, before: M, handler: S) -> (r: Self)
        ensures
            self.route_layered_result(Method::Get, route@, Some(before), handler, None, r),
    {
        self.route_layered(Method::Get, route, Some(before), handler, None)
    }

    /// Add a GET route whose handler carries its own request and
    /// response middleware.
    pub fn get3(self, route: &str, before: M, handler: S, after: A) -> (r: Self)
        ensures
            self.route_layered_result(Method::Get, route@, Some(before), handler, Some(after), r),
    {
        self.route_layered(Method::Get, route, Some(before), handler, Some(after))
    }

    /// Add a GET route whose handler carries its own response middleware.
    pub fn get4(self, route: &str, handler: S, after: A) -> (r: Self)
        ensures
            self.route_layered_result(Method::Get, route@, None, handler, Some(after), r),
    {
        self.route_layered(Method::Get, route, None, handler, Some(after))
    }

    /// Add a POST route whose handler carries its own request
    /// middleware.
    pub fn post2(self, route: &str, before: M, handler: S) -> (r: Self)
        ensures
            self.route_layered_result(Method::Post, route@, Some(before), handler, None, r),
    {
        self.route_layered(Method::Post, route, Some(before), handler, None)
    }

    /// Add a POST route whose handler carries its own request and
    /// response middleware.
    pub fn post3(self, route: &str, before: M, handler: S, after: A) -> (r: Self)
        ensures
            self.route_layered_result(Method::Post, route@, Some(before), handler, Some(after), r),
    {
        self.route_layered(Method::Post, route, Some(before), handler, Some(after))
    }

    /// Add a POST route whose handler carries its own response
    /// middleware.
    pub fn post4(self, route: &str, handler: S, after: A) -> (r: Self)
        ensures
            self.route_layered_result(Method::Post, route@, None, handler, Some(after), r),
    {
        self.route_layered(Method::Post, route, None, handler, Some(after))
    }

    /// Add a PUT route whose handler carries its own request middleware.
    pub fn put2(self, route: &str, before: M, handler: S) -> (r: Self)
        ensures
            self.route_layered_result(Method::Put, route@, Some(before), handler, None, r),
    {
        self.route_layered(Method::Put, route, Some(before), handler, None)
    }

    /// Add a PUT route whose handler carries its own request and
    /// response middleware.
    pub fn put3(self, route: &str, before: M, handler: S, after: A) -> (r: Self)
        ensures
            self.route_layered_result(Method::Put, route@, Some(before), handler, Some(after), r),
    {
        self.route_layered(Method::Put, route, Some(before), handler, Some(after))
    }

    /// Add a PUT route whose handler carries its own response
    /// middleware.
    pub fn put4(self, route: &str, handler: S, after: A) -> (r: Self)
        ensures
            self.route_layered_result(Method::Put, route@, None, handler, Some(after), r),
    {
        self.route_layered(Method::Put, route, None, handler, Some(after))
    }

    /// Add a PATCH route whose handler carries its own request
    /// middleware.
    pub fn patch2(self, route: &str, before: M, handler: S) -> (r: Self)
        ensures
            self.route_layered_result(Method::Patch, route@, Some(before), handler, None, r),
    {
        self.route_layered(Method::Patch, route, Some(before), handler, None)
    }

    /// Add a PATCH route whose handler carries its own request and
    /// response middleware.
    pub fn patch3(self, route: &str, before: M, handler: S, after: A) -> (r: Self)
        ensures
            self.route_layered_result(
                Method::Patch,
                route@,
                Some(before),
                handler,
                Some(after),
                r,
            ),
    {
        self.route_layered(Method::Patch, route, Some(before), handler, Some(after))
    }

    /// Add a PATCH route whose handler carries its own response
    /// middleware.
    pub fn patch4(self, route: &str, handler: S, after: A) -> (r: Self)
        ensures
            self.route_layered_result(Method::Patch, route@, None, handler, Some(after), r),
    {
        self.route_layered(Method::Patch, route, None, handler, Some(after))
    }

    /// Add a DELETE route whose handler carries its own request
    /// middleware.
    pub fn delete2(self, route: &str, before: M, handler: S) -> (r: Self)
        ensures
            self.route_layered_result(Method::Delete, route@, Some(before), handler, None, r),
    {
        self.route_layered(Method::Delete, route, Some(before), handler, None)
    }

    /// Add a DELETE route whose handler carries its own request and
    /// response middleware.
    pub fn delete3(self, route: &str, before: M, handler: S, after: A) -> (r: Self)
        ensures
            self.route_layered_result(
                Method::Delete,
                route@,
                Some(before),
                handler,
                Some(after),
                r,
            ),
    {
        self.route_layered(Method::Delete, route, Some(before), handler, Some(after))
    }

    /// Add a DELETE route whose handler carries its own response
    /// middleware.
    pub fn delete4(self, route: &str, handler: S, after: A) -> (r: Self)
        ensures
            self.route_layered_result(Method::Delete, route@, None, handler, Some(after), r),
    {
        self.route_layered(Method::Delete, route, None, handler, Some(after))
    }

    /// Add a wildcard route: the handler answers every request whose
    /// path lies under the given prefix, whenever no strict route
    /// matches.  The handler is wrapped in the router's current
    /// middlewares like any other route.
    pub fn wildcard(self, prefix: &str, handler: S) -> (r: Self)
        ensures
            r.wildcards@.len() == self.wildcards@.len() + 1,
            r.wildcards@.drop_last() == self.wildcards@,
            views_of(r.wildcards@.last().prefix@) == split_segs(
                crate::util::prefix_of(prefix@),
            ),
            wrapped_by(
                r.wildcards@.last().handler,
                self.before,
                (ArcHandler {
                    before: None,
                    handler: HandlerKind::Leaf(handler),
                    after: None,
                }),
                self.after,
            ),
            r.routes == self.routes,
            r.before == self.before,
            r.after == self.after,
            r.notFound == self.notFound,
    {
        let Router { routes, mut wildcards, before, after, notFound } = self;
        let normalized = crate::util::normalize_prefix(prefix);
        let segs = split_path(normalized.as_str());
        let leaf = ArcHandler {
            before: None,
            handler: HandlerKind::Leaf(handler),
            after: None,
        };
        let wrapped = ArcHandler {
            before: share_opt(&before),
            handler: HandlerKind::Composite(Box::new(leaf)),
            after: share_opt(&after),
        };
        wildcards.push(WildRoute { prefix: segs, handler: wrapped });
        proof {
            assert(wildcards@.drop_last() =~= self.wildcards@);
        }
        Router { routes, wildcards, before, after, notFound }
    }

    /// Mount a routegroup on this router.  The router's middlewares
    /// wrap every handler of the group, and each binding goes into the
    /// table of its method under the path the group composed.
    pub fn group(self, group: RouteGroup<S, M, A>) -> (r: Self)
        ensures
            router_merge_result(
                self.routes@,
                group_view(group.routes@),
                self.before,
                self.after,
                r.routes@,
            ),
            r.wildcards == self.wildcards,
            r.before == self.before,
            r.after == self.after,
            r.notFound == self.notFound,
    {
        let Router { mut routes, wildcards, before, after, notFound } = self;
        let ghost orig = routes@;
        let ghost childv = group_view(group.routes@);
        let mut child_routes = group.routes;
        let total_children: usize = child_routes.len();
        let mut j: usize = 0;
        proof {
            assert(group_view(child_routes@) =~= childv.skip(0));
        }
        while child_routes.len() > 0
            invariant
                childv.len() == total_children,
                j + child_routes@.len() == childv.len(),
                group_view(child_routes@) =~= childv.skip(j as int),
                router_merge_result(orig, childv.take(j as int), before, after, routes@),
            decreases child_routes@.len(),
        {
            let ghost tables_before = routes@;
            let ghost crv = child_routes@;
            proof {
                assert(childv.skip(j as int).first() == childv[j as int]);
            }
            let cr = child_routes.remove(0);
            proof {
                crate::routegroup::lemma_group_view_remove(crv, 0);
                assert(childv.skip(j as int).remove(0) =~= childv.skip(j + 1));
                assert(group_view(child_routes@) =~= childv.skip(j + 1));
                assert((cr.method, cr.path@, cr.handler) == childv[j as int]);
            }
            let wrapped = ArcHandler {
                before: share_opt(&before),
                handler: HandlerKind::Composite(Box::new(cr.handler)),
                after: share_opt(&after),
            };
            let ghost w = wrapped;
            table_add(&mut routes, cr.method, cr.path.as_str(), wrapped);
            proof {
                assert(childv.take(j + 1).drop_last() =~= childv.take(j as int));
                assert(childv.take(j + 1).last() == childv[j as int]);
                assert(wrapped_by(w, before, childv[j as int].2, after));
                lemma_router_merge_step(
                    orig,
                    childv.take(j + 1),
                    before,
                    after,
                    tables_before,
                    w,
                    routes@,
                );
            }
            j = j + 1;
        }
        proof {
            assert(childv.take(childv.len() as int) =~= childv);
        }
        Router { routes, wildcards, before, after, notFound }
    }

    /// Looks a request path up in the strict tables for a method.  The
    /// trailing slash of the path is stripped first; the wildcard
    /// bindings and the not-found handler are not consulted here.
    pub fn matchRoute<'a>(&'a self, route: &str, method: &Method) -> (r: Option<
        Match<'a, ArcHandler<S, M, A>>,
    >)
        ensures
            match router_match(*self, *method, route@) {
                Some(pair) => r matches Some(mt) && *mt.handler == pair.0 && mt.params@ == pair.1,
                None => r is None,
            },
    {
        let stripped = stripTrailingSlash(route);
        let ghost orig = self.routes@;
        proof {
            assert(orig.skip(0) =~= orig);
        }
        let mut found: Option<usize> = None;
        let mut i: usize = 0;
        while i < self.routes.len()
            invariant
                i <= self.routes@.len(),
                orig == self.routes@,
                match found {
                    Some(k) => k < i && table_for(orig, *method) == Some(k as int),
                    None => table_for(orig, *method) == match table_for(
                        orig.skip(i as int),
                        *method,
                    ) {
                        Some(k) => Some(k + i),
                        None => None::<int>,
                    },
                },
            decreases self.routes@.len() - i,
        {
            if found.is_none() {
                proof {
                    assert(orig.skip(i as int).first() == orig[i as int]);
                    assert(orig.skip(i as int).drop_first() =~= orig.skip(i + 1));
                }
                if self.routes[i].0 == *method {
                    found = Some(i);
                }
            }
            i = i + 1;
        }
        match found {
            Some(k) => self.routes[k].1.recognize(stripped),
            None => {
                proof {
                    assert(orig.skip(orig.len() as int) =~= Seq::<
                        (Method, Recognizer<ArcHandler<S, M, A>>),
                    >::empty());
                }
                None
            }
        }
    }

    /// Finds the winning wildcard binding for the path's segments.
    fn wild_find(&self, segs: &Vec<String>) -> (r: Option<usize>)
        ensures
            match wild_best(wild_views(self.wildcards@), views_of(segs@)) {
                Some(i) => r == Some(i as usize),
                None => r is None,
            },
    {
        let ghost ws = wild_views(self.wildcards@);
        let ghost sv = views_of(segs@);
        let mut best: Option<usize> = None;
        let mut i: usize = 0;
        while i < self.wildcards.len()
            invariant
                i <= self.wildcards@.len(),
                ws == wild_views(self.wildcards@),
                sv == views_of(segs@),
                match best {
                    Some(b) => b < i && wild_best(ws.take(i as int), sv) == Some(b as int),
                    None => wild_best(ws.take(i as int), sv) is None,
                },
            decreases self.wildcards@.len() - i,
        {
            proof {
                assert(ws.take(i + 1).drop_last() =~= ws.take(i as int));
                assert(ws.take(i + 1).last() == ws[i as int]);
                assert(forall|k: int| 0 <= k <= i ==> ws.take(i + 1)[k] == ws[k]);
            }
            if wild_matches(&self.wildcards[i].prefix, segs) {
                match best {
                    None => {
                        best = Some(i);
                    }
                    Some(b) => {
                        if self.wildcards[i].prefix.len() > self.wildcards[b].prefix.len() {
                            best = Some(i);
                        }
                    }
                }
            }
            i = i + 1;
        }
        proof {
            assert(ws.take(ws.len() as int) =~= ws);
        }
        best
    }
}

/// Introduces a `route_layered_result` fact from its parts.
proof fn lemma_layered_intro<S: ArcService, M: MiddleWare<Request>, A: MiddleWare<Response>>(
    old_rt: Router<S, M, A>,
    new_rt: Router<S, M, A>,
    method: Method,
    path: Seq<char>,
    before_mw: Option<M>,
    handler: S,
    after_mw: Option<A>,
    w: ArcHandler<S, M, A>,
    inner: ArcHandler<S, M, A>,
)
    requires
        inner_wraps(inner, before_mw, handler, after_mw),
        wrapped_by(w, old_rt.before, inner, old_rt.after),
        router_add_result(
            old_rt.routes@,
            new_rt.routes@,
            method,
            split_segs(strip_trailing_slash(path)),
            w,
        ),
        new_rt.wildcards == old_rt.wildcards,
        new_rt.before == old_rt.before,
        new_rt.after == old_rt.after,
        new_rt.notFound == old_rt.notFound,
    ensures
        old_rt.route_layered_result(method, path, before_mw, handler, after_mw, new_rt),
{
}

/// A wildcard prefix held against the segments of a path.
fn wild_matches(prefix: &Vec<String>, segs: &Vec<String>) -> (r: bool)
    ensures
        r == wild_prefix_matches(views_of(prefix@), views_of(segs@)),
{
    if prefix.len() > segs.len() {
        return false;
    }
    let mut i: usize = 0;
    while i < prefix.len()
        invariant
            i <= prefix@.len(),
            prefix@.len() <= segs@.len(),
            forall|k: int| 0 <= k < i ==> views_of(segs@)[k] == views_of(prefix@)[k],
        decreases prefix@.len() - i,
    {
        if !str_eq(prefix[i].as_str(), segs[i].as_str()) {
            proof {
                assert(views_of(segs@).take(prefix@.len() as int)[i as int] != views_of(
                    prefix@,
                )[i as int]);
            }
            return false;
        }
        i = i + 1;
    }
    proof {
        assert(views_of(segs@).take(prefix@.len() as int) =~= views_of(prefix@));
    }
    true
}

impl<S: ArcService, M: MiddleWare<Request>, A: MiddleWare<Response>> ArcService for Router<
    S,
    M,
    A,
> {
    /// Dispatching follows the documented algorithm exactly; the router
    /// itself mutates nothing.
    open spec fn call_ensures(
        &self,
        req: ReqView,
        res: RespView,
        out: Result<RespView, RespView>,
    ) -> bool {
        dispatch_ensures(*self, req, res, out)
    }

    fn call(&self, req: Request, res: Response) -> (out: Result<Response, Response>) {
        let ghost req0 = req@;
        let ghost res0 = res@;
        let method = req.method();
        let mt = self.matchRoute(req.path(), &method);
        match mt {
            Some(mt) => {
                let ghost pair = router_match(*self, req0.method, req0.path)->Some_0;
                let mut req = req;
                req.set_params(mt.params);
                let out = run_handler(mt.handler, req, res);
                proof {
                    assert(handler_ensures(pair.0, req0.with_params(pair.1), res0, mw_out_view(out)));
                    assert(dispatch_ensures(*self, req0, res0, mw_out_view(out)));
                }
                out
            }
            None => {
                let stripped = stripTrailingSlash(req.path()).to_owned();
                let segs = split_path(stripped.as_str());
                let ghost wsv = wild_views(self.wildcards@);
                let ghost sv = views_of(segs@);
                let wild_count: usize = self.wildcards.len();
                proof {
                    lemma_wild_best_valid(wsv, sv);
                    assert(wsv.len() == wild_count as int);
                    assert(sv == split_segs(strip_trailing_slash(req0.path)));
                }
                match self.wild_find(&segs) {
                    Some(j) => {
                        proof {
                            assert(j < self.wildcards@.len());
                        }
                        let out = run_handler(&self.wildcards[j].handler, req, res);
                        proof {
                            assert(wsv[j as int].1 == self.wildcards@[j as int].handler);
                            assert(router_match(*self, req0.method, req0.path) is None);
                            assert(wild_best(wsv, sv) == Some(j as int));
                            assert(handler_ensures(wsv[j as int].1, req0, res0, mw_out_view(out)));
                            assert(dispatch_ensures(*self, req0, res0, mw_out_view(out)));
                        }
                        out
                    }
                    None => {
                        match &self.notFound {
                            Some(s) => {
                                let out = s.call(req, res);
                                proof {
                                    assert(dispatch_ensures(*self, req0, res0, mw_out_view(out)));
                                }
                                out
                            }
                            None => {
                                let r404 = Response::new().with_status(404);
                                proof {
                                    assert(r404@ =~= not_found_response());
                                    assert(dispatch_ensures(
                                        *self,
                                        req0,
                                        res0,
                                        mw_out_view(Ok::<Response, Response>(r404)),
                                    ));
                                }
                                Ok(r404)
                            }
                        }
                    }
                }
            }
        }
    }
}

} // verus!
