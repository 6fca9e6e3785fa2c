//! The route group: a prefixed, mergeable bundle of routes with
//! inheritable middleware.
use std::sync::Arc;
use vstd::prelude::*;
use crate::method::Method;
use crate::middleware::MiddleWare;
use crate::request::Request;
use crate::response::Response;
use crate::service::{inner_wraps, share_opt, wrapped_by, ArcHandler, ArcService, HandlerKind};
use crate::util::{child_path_of, normalize_child_path, normalize_prefix, prefix_of, str_eq};

verus! {

/// One binding accumulated on a route group: a method, the full
/// normalized path (the group's prefix already applied), and the
/// handler, wrapped in whatever middleware the group had when the route
/// was registered.
pub struct GroupRoute<S, M, A> {
    pub method: Method,
    pub path: String,
    pub handler: ArcHandler<S, M, A>,
}

/// The bindings of a route list, as `(method, path, handler)` triples.
pub open spec fn group_view<S, M, A>(rs: Seq<GroupRoute<S, M, A>>) -> Seq<
    (Method, Seq<char>, ArcHandler<S, M, A>),
> {
    rs.map_values(|r: GroupRoute<S, M, A>| (r.method, r.path@, r.handler))
}

/// A binding list with every binding under the given `(method, path)`
/// key removed.
pub open spec fn drop_key<S, M, A>(
    rs: Seq<(Method, Seq<char>, ArcHandler<S, M, A>)>,
    method: Method,
    path: Seq<char>,
) -> Seq<(Method, Seq<char>, ArcHandler<S, M, A>)> {
    rs.filter(|e: (Method, Seq<char>, ArcHandler<S, M, A>)| !(e.0 == method && e.1 == path))
}

/// What registering one route leaves behind: the binding with the same
/// normalized `(method, path)` pair removed, and the new binding — the
/// handler wrapped in the group's current middlewares — appended.
pub open spec fn route_result<S, M, A>(
    g: RouteGroup<S, M, A>,
    method: Method,
    path: Seq<char>,
    handler: S,
    r: RouteGroup<S, M, A>,
) -> bool {
    let fullv = prefix_of(g.parent@) + child_path_of(path);
    &&& r.parent == g.parent
    &&& r.before == g.before
    &&& r.after == g.after
    &&& group_view(r.routes@) == drop_key(group_view(g.routes@), method, fullv).push(
        (
            method,
            fullv,
            (ArcHandler {
                before: g.before,
                handler: HandlerKind::Leaf(handler),
                after: g.after,
            }),
        ),
    )
}

/// What registering one route with its own middleware leaves behind:
/// like `route_result`, except that the appended handler is the bare
/// handler wrapped first in the route's own middleware and then in the
/// group's.
pub open spec fn layered_route_result<S, M, A>(
    g: RouteGroup<S, M, A>,
    method: Method,
    path: Seq<char>,
    before_mw: Option<M>,
    handler: S,
    after_mw: Option<A>,
    r: RouteGroup<S, M, A>,
) -> bool {
    let fullv = prefix_of(g.parent@) + child_path_of(path);
    &&& r.parent == g.parent
    &&& r.before == g.before
    &&& r.after == g.after
    &&& group_view(r.routes@).len() == drop_key(group_view(g.routes@), method, fullv).len() + 1
    &&& group_view(r.routes@).drop_last() == drop_key(group_view(g.routes@), method, fullv)
    &&& group_view(r.routes@).last().0 == method
    &&& group_view(r.routes@).last().1 == fullv
    &&& exists|inner: ArcHandler<S, M, A>|
        #[trigger] inner_wraps(inner, before_mw, handler, after_mw) && wrapped_by(
            group_view(r.routes@).last().2,
            g.before,
            inner,
            g.after,
        )
}

/// What merging a child binding list into an accumulated binding list
/// leaves behind, child by child from the front: each child binding is
/// prefixed, wrapped in the parent's middlewares, and upserted under its
/// prefixed key.
pub open spec fn merge_result<S, M, A>(
    acc: Seq<(Method, Seq<char>, ArcHandler<S, M, A>)>,
    children: Seq<(Method, Seq<char>, ArcHandler<S, M, A>)>,
    prefix: Seq<char>,
    before: Option<Arc<M>>,
    after: Option<Arc<A>>,
    out: Seq<(Method, Seq<char>, ArcHandler<S, M, A>)>,
) -> bool
    decreases children.len(),
{
    if children.len() == 0 {
        out == acc
    } else {
        let c = children.last();
        let fullv = prefix + c.1;
        exists|mid: Seq<(Method, Seq<char>, ArcHandler<S, M, A>)>|
            merge_result(acc, children.drop_last(), prefix, before, after, mid) && out.len()
                == #[trigger] drop_key(mid, c.0, fullv).len() + 1 && out.drop_last() == drop_key(
                mid,
                c.0,
                fullv,
            ) && out.last().0 == c.0 && out.last().1 == fullv && wrapped_by(
                out.last().2,
                before,
                c.2,
                after,
            )
    }
}

/// One step of a merge, for building `merge_result` facts.
proof fn lemma_merge_step<S, M, A>(
    acc: Seq<(Method, Seq<char>, ArcHandler<S, M, A>)>,
    children: Seq<(Method, Seq<char>, ArcHandler<S, M, A>)>,
    prefix: Seq<char>,
    before: Option<Arc<M>>,
    after: Option<Arc<A>>,
    mid: Seq<(Method, Seq<char>, ArcHandler<S, M, A>)>,
    out: Seq<(Method, Seq<char>, ArcHandler<S, M, A>)>,
)
    requires
        children.len() > 0,
        merge_result(acc, children.drop_last(), prefix, before, after, mid),
        out.len() == drop_key(mid, children.last().0, prefix + children.last().1).len() + 1,
        out.drop_last() == drop_key(mid, children.last().0, prefix + children.last().1),
        out.last().0 == children.last().0,
        out.last().1 == prefix + children.last().1,
        wrapped_by(out.last().2, before, children.last().2, after),
    ensures
        merge_result(acc, children, prefix, before, after, out),
{
}

/// LAW — route-group prefix composition is associative.  Nesting a
/// group under two parents composes their normalized prefixes by
/// concatenation, and concatenation does not care how the nesting was
/// bracketed: the final path of a route is the same whether the groups
/// were nested one inside the other or their prefixes flattened first.
pub proof fn lemma_prefix_composition_associative(a: Seq<char>, b: Seq<char>, p: Seq<char>)
    ensures
        prefix_of(a) + (prefix_of(b) + p) == (prefix_of(a) + prefix_of(b)) + p,
{
    assert(prefix_of(a) + (prefix_of(b) + p) =~= (prefix_of(a) + prefix_of(b)) + p);
}

/// The RouteGroup allows for conveniently nesting route handlers and
/// applying group middlewares for protected routes.
///
/// Routes are keyed by their normalized `(method, path)` pair: a second
/// registration of the same pair replaces the first.  Middleware set on
/// the group before a route is registered wraps that route's handler;
/// middleware set later does not reach it.
pub struct RouteGroup<S, M, A> {
    pub parent: String,
    pub before: Option<Arc<M>>,
    pub after: Option<Arc<A>>,
    pub routes: Vec<GroupRoute<S, M, A>>,
}

impl<S: ArcService, M: MiddleWare<Request>, A: MiddleWare<Response>> RouteGroup<S, M, A> {
    /// Create a new routegroup with the specified parent prefix.
    pub fn new(parent: &str) -> (r: RouteGroup<S, M, A>)
        ensures
            r.parent@ == parent@,
            r.before is None,
            r.after is None,
            r.routes@ == Seq::<GroupRoute<S, M, A>>::empty(),
    {
        let r = RouteGroup {
            parent: parent.to_owned(),
            before: None,
            after: None,
            routes: Vec::new(),
        };
        proof {
            assert(r.routes@ =~= Seq::<GroupRoute<S, M, A>>::empty());
        }
        r
    }

    /// Mount a request middleware on this routegroup.  It wraps only the
    /// routes registered after this call.
    pub fn before(self, before: M) -> (r: Self)
        ensures
            r.before matches Some(b) && b == before,
            r.after == self.after,
            r.parent == self.parent,
            r.routes == self.routes,
    {
        RouteGroup { before: Some(Arc::new(before)), ..self }
    }

    /// Mount a response middleware on this routegroup.  It wraps only
    /// the routes registered after this call.
    pub fn after(self, after: A) -> (r: Self)
        ensures
            r.after matches Some(a) && a == after,
            r.before == self.before,
            r.parent == self.parent,
            r.routes == self.routes,
    {
        RouteGroup { after: Some(Arc::new(after)), ..self }
    }

    /// Add a route and a service for a GET request.
    pub fn get(self, route: &str, handler: S) -> (r: Self)
        requires
            self.parent@.len() > 0,
        ensures
            route_result(self, Method::Get, route@, handler, r),
    {
        self.route(Method::Get, route, handler)
    }

    /// Add a route and a service for a POST request.
    pub fn post(self, route: &str, handler: S) -> (r: Self)
        requires
            self.parent@.len() > 0,
        ensures
            route_result(self, Method::Post, route@, handler, r),
    {
        self.route(Method::Post, route, handler)
    }

    /// Add a route and a service for a PUT request.
    pub fn put(self, route: &str, handler: S) -> (r: Self)
        requires
            self.parent@.len() > 0,
        ensures
            route_result(self, Method::Put, route@, handler, r),
    {
        self.route(Method::Put, route, handler)
    }

    /// Add a route and a service for a PATCH request.
    pub fn patch(self, route: &str, handler: S) -> (r: Self)
        requires
            self.parent@.len() > 0,
        ensures
            route_result(self, Method::Patch, route@, handler, r),
    {
        self.route(Method::Patch, route, handler)
    }

    /// Add a route and a service for a DELETE request.
    pub fn delete(self, route: &str, handler: S) -> (r: Self)
        requires
            self.parent@.len() > 0,
        ensures
            route_result(self, Method::Delete, route@, handler, r),
    {
        self.route(Method::Delete, route, handler)
    }

    fn route(self, method: Method, path: &str, handler: S) -> (r: Self)
        requires
            self.parent@.len() > 0,
        ensures
            route_result(self, method, path@, handler, r),
    {
        let RouteGroup { parent, before, after, routes } = self;
        let prefix = normalize_prefix(parent.as_str());
        let child = normalize_child_path(path);
        let full = prefix.concat(child.as_str());
        let ghost fullv = prefix_of(parent@) + child_path_of(path@);
        proof {
            assert(full@ == fullv);
        }
        let wrapped = ArcHandler {
            before: share_opt(&before),
            handler: HandlerKind::Leaf(handler),
            after: share_opt(&after),
        };
        let mut kept = drop_binding(routes, method, full.as_str());
        kept.push(GroupRoute { method, path: full, handler: wrapped });
        let r = RouteGroup { parent, before, after, routes: kept };
        proof {
            assert(group_view(r.routes@) =~= drop_key(group_view(self.routes@), method, fullv).push(
                (
                    method,
                    fullv,
                    (ArcHandler {
                        before: self.before,
                        handler: HandlerKind::Leaf(handler),
                        after: self.after,
                    }),
                ),
            ));
        }
        r
    }

    fn route_layered(
        self,
        method: Method,
        path: &str,
        before_mw: Option<M>,
        handler: S,
        after_mw: Option<A>,
    ) -> (r: Self)
        requires
            self.parent@.len() > 0,
        ensures
            layered_route_result(self, method, path@, before_mw, handler, after_mw, r),
    {
        let ghost bm0 = before_mw;
        let ghost h0 = handler;
        let ghost am0 = after_mw;
        let RouteGroup { parent, before, after, routes } = self;
        let prefix = normalize_prefix(parent.as_str());
        let child = normalize_child_path(path);
        let full = prefix.concat(child.as_str());
        let ghost fullv = prefix_of(parent@) + child_path_of(path@);
        proof {
            assert(full@ == fullv);
        }
        let inner = ArcHandler {
            before: match before_mw {
                Some(m) => Some(Arc::new(m)),
                None => None,
            },
            handler: HandlerKind::Leaf(handler),
            after: match after_mw {
                Some(a) => Some(Arc::new(a)),
                None => None,
            },
        };
        let ghost inner0 = inner;
        let wrapped = ArcHandler {
            before: share_opt(&before),
            handler: HandlerKind::Composite(Box::new(inner)),
            after: share_opt(&after),
        };
        let ghost w0 = wrapped;
        let mut kept = drop_binding(routes, method, full.as_str());
        kept.push(GroupRoute { method, path: full, handler: wrapped });
        let r = RouteGroup { parent, before, after, routes: kept };
        proof {
            assert(group_view(r.routes@).drop_last() =~= drop_key(
                group_view(self.routes@),
                method,
                fullv,
            ));
            assert(group_view(r.routes@).last().2 == w0);
            assert(inner_wraps(inner0, bm0, h0, am0));
            assert(wrapped_by(w0, self.before, inner0, self.after));
        }
        r
    }

    /// Add a GET route whose handler carries its own request middleware.
    pub fn get2(self, route: &str, before: M, handler: S) -> (r: Self)
        requires
            self.parent@.len() > 0,
        ensures
            layered_route_result(self, Method::Get, route@, Some(before), handler, None, r),
    {
        self.route_layered(Method::Get, route, Some(before), handler, None)
    }

    /// Add a GET route whose handler carries its own request and
    /// response middleware.
    pub fn get3(self, route: &str, before: M, handler: S, after: A) -> (r: Self)
        requires
            self.parent@.len() > 0,
        ensures
            layered_route_result(self, Method::Get, route@, Some(before), handler, Some(after), r),
    {
        self.route_layered(Method::Get, route, Some(before), handler, Some(after))
    }

    /// Add a GET route whose handler carries its own response middleware.
    pub fn get4(self, route: &str, handler: S, after: A) -> (r: Self)
        requires
            self.parent@.len() > 0,
        ensures
            layered_route_result(self, Method::Get, route@, None, handler, Some(after), r),
    {
        self.route_layered(Method::Get, route, None, handler, Some(after))
    }

    /// Add a POST route whose handler carries its own request middleware.
    pub fn post2(self, route: &str, before: M, handler: S) -> (r: Self)
        requires
            self.parent@.len() > 0,
        ensures
            layered_route_result(self, Method::Post, route@, Some(before), handler, None, r),
    {
        self.route_layered(Method::Post, route, Some(before), handler, None)
    }

    /// Add a POST route whose handler carries its own request and
    /// response middleware.
    pub fn post3(self, route: &str, before: M, handler: S, after: A) -> (r: Self)
        requires
            self.parent@.len() > 0,
        ensures
            layered_route_result(self, Method::Post, route@, Some(before), handler, Some(after), r),
    {
        self.route_layered(Method::Post, route, Some(before), handler, Some(after))
    }

    /// Add a POST route whose handler carries its own response
    /// middleware.
    pub fn post4(self, route: &str, handler: S, after: A) -> (r: Self)
        requires
            self.parent@.len() > 0,
        ensures
            layered_route_result(self, Method::Post, route@, None, handler, Some(after), r),
    {
        self.route_layered(Method::Post, route, None, handler, Some(after))
    }

    /// Add a PUT route whose handler carries its own request middleware.
    pub fn put2(self, route: &str, before: M, handler: S) -> (r: Self)
        requires
            self.parent@.len() > 0,
        ensures
            layered_route_result(self, Method::Put, route@, Some(before), handler, None, r),
    {
        self.route_layered(Method::Put, route, Some(before), handler, None)
    }

    /// Add a PUT route whose handler carries its own request and
    /// response middleware.
    pub fn put3(self, route: &str, before: M, handler: S, after: A) -> (r: Self)
        requires
            self.parent@.len() > 0,
        ensures
            layered_route_result(self, Method::Put, route@, Some(before), handler, Some(after), r),
    {
        self.route_layered(Method::Put, route, Some(before), handler, Some(after))
    }

    /// Add a PUT route whose handler carries its own response middleware.
    pub fn put4(self, route: &str, handler: S, after: A) -> (r: Self)
        requires
            self.parent@.len() > 0,
        ensures
            layered_route_result(self, Method::Put, route@, None, handler, Some(after), r),
    {
        self.route_layered(Method::Put, route, None, handler, Some(after))
    }

    /// Add a PATCH route whose handler carries its own request
    /// middleware.
    pub fn patch2(self, route: &str, before: M, handler: S) -> (r: Self)
        requires
            self.parent@.len() > 0,
        ensures
            layered_route_result(self, Method::Patch, route@, Some(before), handler, None, r),
    {
        self.route_layered(Method::Patch, route, Some(before), handler, None)
    }

    /// Add a PATCH route whose handler carries its own request and
    /// response middleware.
    pub fn patch3(self, route: &str, before: M, handler: S, after: A) -> (r: Self)
        requires
            self.parent@.len() > 0,
        ensures
            layered_route_result(
                self,
                Method::Patch,
                route@,
                Some(before),
                handler,
                Some(after),
                r,
            ),
    {
        self.route_layered(Method::Patch, route, Some(before), handler, Some(after))
    }

    /// Add a PATCH route whose handler carries its own response
    /// middleware.
    pub fn patch4(self, route: &str, handler: S, after: A) -> (r: Self)
        requires
            self.parent@.len() > 0,
        ensures
            layered_route_result(self, Method::Patch, route@, None, handler, Some(after), r),
    {
        self.route_layered(Method::Patch, route, None, handler, Some(after))
    }

    /// Add a DELETE route whose handler carries its own request
    /// middleware.
    pub fn delete2(self, route: &str, before: M, handler: S) -> (r: Self)
        requires
            self.parent@.len() > 0,
        ensures
            layered_route_result(self, Method::Delete, route@, Some(before), handler, None, r),
    {
        self.route_layered(Method::Delete, route, Some(before), handler, None)
    }

    /// Add a DELETE route whose handler carries its own request and
    /// response middleware.
    pub fn delete3(self, route: &str, before: M, handler: S, after: A) -> (r: Self)
        requires
            self.parent@.len() > 0,
        ensures
            layered_route_result(
                self,
                Method::Delete,
                route@,
                Some(before),
                handler,
                Some(after),
                r,
            ),
    {
        self.route_layered(Method::Delete, route, Some(before), handler, Some(after))
    }

    /// Add a DELETE route whose handler carries its own response
    /// middleware.
    pub fn delete4(self, route: &str, handler: S, after: A) -> (r: Self)
        requires
            self.parent@.len() > 0,
        ensures
            layered_route_result(self, Method::Delete, route@, None, handler, Some(after), r),
    {
        self.route_layered(Method::Delete, route, None, handler, Some(after))
    }

    /// Mount a routegroup on this routegroup.  The parent's prefix is
    /// prepended to every route of the child, the parent's middlewares
    /// wrap every child handler, and a child route whose prefixed
    /// `(method, path)` pair collides with an existing binding replaces
    /// it.
    pub fn group(self, group: RouteGroup<S, M, A>) -> (r: Self)
        ensures
            merge_result(
                group_view(self.routes@),
                group_view(group.routes@),
                prefix_of(self.parent@),
                self.before,
                self.after,
                group_view(r.routes@),
            ),
            r.parent == self.parent,
            r.before == self.before,
            r.after == self.after,
    {
        let RouteGroup { parent, before, after, routes } = self;
        let prefix = normalize_prefix(parent.as_str());
        let ghost pv = prefix_of(parent@);
        let ghost childv = group_view(group.routes@);
        let mut child_routes = group.routes;
        let total_children: usize = child_routes.len();
        let mut kept = routes;
        let ghost orig = group_view(kept@);
        let mut j: usize = 0;
        proof {
            assert(childv.take(0).len() == 0);
            assert(group_view(child_routes@) =~= childv.skip(0));
        }
        while child_routes.len() > 0
            invariant
                childv.len() == total_children,
                j + child_routes@.len() == childv.len(),
                group_view(child_routes@) =~= childv.skip(j as int),
                prefix@ == pv,
                merge_result(orig, childv.take(j as int), pv, before, after, group_view(kept@)),
            decreases child_routes@.len(),
        {
            let ghost kept_before = group_view(kept@);
            proof {
                assert(childv.skip(j as int).first() == childv[j as int]);
            }
            let ghost crv = child_routes@;
            let cr = child_routes.remove(0);
            proof {
                lemma_group_view_remove(crv, 0);
                assert(childv.skip(j as int).remove(0) =~= childv.skip(j + 1));
                assert(group_view(child_routes@) =~= childv.skip(j + 1));
                assert((cr.method, cr.path@, cr.handler) == childv[j as int]);
            }
            let full = prefix.clone().concat(cr.path.as_str());
            let ghost fullv = pv + childv[j as int].1;
            proof {
                assert(full@ == fullv);
            }
            let wrapped = ArcHandler {
                before: share_opt(&before),
                handler: HandlerKind::Composite(Box::new(cr.handler)),
                after: share_opt(&after),
            };
            let mut kept2 = drop_binding(kept, cr.method, full.as_str());
            kept2.push(GroupRoute { method: cr.method, path: full, handler: wrapped });
            kept = kept2;
            proof {
                assert(childv.take(j + 1).drop_last() =~= childv.take(j as int));
                assert(childv.take(j + 1).last() == childv[j as int]);
                assert(group_view(kept@).drop_last() =~= drop_key(
                    kept_before,
                    childv[j as int].0,
                    fullv,
                ));
                assert(group_view(kept@).last().2 == wrapped);
                assert(wrapped_by(group_view(kept@).last().2, before, childv[j as int].2, after));
                assert(merge_result(
                    orig,
                    childv.take(j + 1).drop_last(),
                    pv,
                    before,
                    after,
                    kept_before,
                ));
                assert(group_view(kept@).drop_last() == drop_key(
                    kept_before,
                    childv.take(j + 1).last().0,
                    pv + childv.take(j + 1).last().1,
                ));
                assert(group_view(kept@).last().0 == childv.take(j + 1).last().0);
                assert(group_view(kept@).last().1 == pv + childv.take(j + 1).last().1);
                lemma_merge_step(
                    orig,
                    childv.take(j + 1),
                    pv,
                    before,
                    after,
                    kept_before,
                    group_view(kept@),
                );
            }
            j = j + 1;
        }
        proof {
            assert(childv.take(childv.len() as int) =~= childv);
        }
        RouteGroup { parent, before, after, routes: kept }
    }
}

/// `group_view` commutes with removing an element.
pub proof fn lemma_group_view_remove<S, M, A>(rs: Seq<GroupRoute<S, M, A>>, k: int)
    requires
        0 <= k < rs.len(),
    ensures
        group_view(rs.remove(k)) =~= group_view(rs).remove(k),
{
    assert forall|j: int| 0 <= j < rs.len() - 1 implies group_view(rs.remove(k))[j] == group_view(
        rs,
    ).remove(k)[j] by {
        if j < k {
            assert(rs.remove(k)[j] == rs[j]);
        } else {
            assert(rs.remove(k)[j] == rs[j + 1]);
        }
    }
}

/// Removes the binding with the given `(method, path)` key, if present.
fn drop_binding<S, M, A>(routes: Vec<GroupRoute<S, M, A>>, method: Method, path: &str) -> (r: Vec<
    GroupRoute<S, M, A>,
>)
    ensures
        group_view(r@) == drop_key(group_view(routes@), method, path@),
{
    let ghost orig = group_view(routes@);
    let mut rest = routes;
    let total: usize = rest.len();
    let mut kept: Vec<GroupRoute<S, M, A>> = Vec::new();
    let mut i: usize = 0;
    proof {
        reveal(Seq::filter);
        assert(drop_key(orig.take(0), method, path@) =~= Seq::<
            (Method, Seq<char>, ArcHandler<S, M, A>),
        >::empty());
        assert(group_view(kept@) =~= Seq::<(Method, Seq<char>, ArcHandler<S, M, A>)>::empty());
        assert(group_view(rest@) =~= orig.skip(0));
    }
    while rest.len() > 0
        invariant
            orig.len() == total,
            i + rest@.len() == orig.len(),
            group_view(rest@) =~= orig.skip(i as int),
            group_view(kept@) == drop_key(orig.take(i as int), method, path@),
        decreases rest@.len(),
    {
        let ghost prefix = orig.take(i as int);
        proof {
            reveal(Seq::filter);
            assert(orig.skip(i as int).first() == orig[i as int]);
            assert(orig.take(i + 1).drop_last() =~= prefix);
            assert(orig.take(i + 1).last() == orig[i as int]);
        }
        let ghost rv = rest@;
        let e = rest.remove(0);
        proof {
            assert((e.method, e.path@, e.handler) == orig[i as int]);
            lemma_group_view_remove(rv, 0);
            assert(orig.skip(i as int).remove(0) =~= orig.skip(i + 1));
            assert(group_view(rest@) =~= orig.skip(i + 1));
        }
        let same = if e.method == method {
            str_eq(e.path.as_str(), path)
        } else {
            false
        };
        if !same {
            kept.push(e);
            proof {
                reveal(Seq::filter);
                assert(group_view(kept@) =~= drop_key(prefix, method, path@).push(orig[i as int]));
                assert(group_view(kept@) =~= drop_key(orig.take(i + 1), method, path@));
            }
        } else {
            proof {
                reveal(Seq::filter);
                assert(group_view(kept@) =~= drop_key(orig.take(i + 1), method, path@));
            }
        }
        i = i + 1;
    }
    proof {
        assert(orig.take(orig.len() as int) =~= orig);
    }
    kept
}

} // verus!
