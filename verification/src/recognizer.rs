//! The route recognizer: a table of path patterns matched segment by
//! segment against request paths.
//!
//! A pattern consists of `'/'`-separated segments; a segment beginning
//! with `':'` is a named capture that matches any one segment of the
//! request path, every other segment matches only itself, case
//! sensitively.  A pattern matches a path only when the segment counts
//! agree.  When several patterns match, the one whose earliest
//! distinguishing segment is literal rather than a capture wins; among
//! otherwise equally specific patterns the one added first wins.
use vstd::prelude::*;
use crate::strmap::{find_in, find_spec, pair_views};
use crate::util::{split_path, split_segs, stripTrailingSlash, str_eq, strip_trailing_slash, views_of};

verus! {

/// A segment that captures whatever path segment stands in its place.
pub open spec fn is_capture_seg(seg: Seq<char>) -> bool {
    seg.len() > 0 && seg[0] == ':'
}

/// One pattern segment held against one path segment.
pub open spec fn seg_matches(pat: Seq<char>, seg: Seq<char>) -> bool {
    if is_capture_seg(pat) {
        true
    } else {
        pat == seg
    }
}

/// A whole pattern held against a whole path: same number of segments,
/// each matching.
pub open spec fn pattern_matches(pat: Seq<Seq<char>>, path: Seq<Seq<char>>) -> bool {
    pat.len() == path.len() && forall|i: int|
        0 <= i < pat.len() ==> #[trigger] seg_matches(pat[i], path[i])
}

/// The parameters a matching pattern captures from a path: for every
/// capture segment, its name without the `':'` paired with the path
/// segment in that position.
pub open spec fn captures(pat: Seq<Seq<char>>, path: Seq<Seq<char>>) -> Seq<(Seq<char>, Seq<char>)>
    decreases pat.len(),
{
    if pat.len() == 0 || path.len() == 0 {
        Seq::empty()
    } else {
        let rest = captures(pat.drop_last(), path.drop_last());
        if is_capture_seg(pat.last()) {
            rest.push((pat.last().drop_first(), path.last()))
        } else {
            rest
        }
    }
}

/// `a` is at least as literal as `b`: at the first position where one of
/// the two has a capture and the other does not, it is `b` that has the
/// capture.
pub open spec fn at_least_as_literal(a: Seq<Seq<char>>, b: Seq<Seq<char>>) -> bool
    decreases a.len(),
{
    if a.len() == 0 || b.len() == 0 {
        true
    } else if is_capture_seg(a.first()) == is_capture_seg(b.first()) {
        at_least_as_literal(a.drop_first(), b.drop_first())
    } else {
        !is_capture_seg(a.first())
    }
}

/// `a` is strictly more literal than `b`.
pub open spec fn more_literal(a: Seq<Seq<char>>, b: Seq<Seq<char>>) -> bool {
    at_least_as_literal(a, b) && !at_least_as_literal(b, a)
}

/// The index of the winning pattern for `path` among `pats`: of all the
/// patterns that match, the strictly most literal one, and among equally
/// specific ones the earliest.
pub open spec fn best_match(pats: Seq<Seq<Seq<char>>>, path: Seq<Seq<char>>) -> Option<int>
    decreases pats.len(),
{
    if pats.len() == 0 {
        None
    } else {
        let prev = best_match(pats.drop_last(), path);
        let i = pats.len() - 1;
        if pattern_matches(pats[i], path) {
            match prev {
                None => Some(i),
                Some(j) => if more_literal(pats[i], pats[j]) {
                    Some(i)
                } else {
                    Some(j)
                },
            }
        } else {
            prev
        }
    }
}

/// What `best_match` selects is a matching pattern, and it selects one
/// whenever any pattern matches.
pub proof fn lemma_best_match_valid(pats: Seq<Seq<Seq<char>>>, path: Seq<Seq<char>>)
    ensures
        match best_match(pats, path) {
            Some(i) => 0 <= i < pats.len() && pattern_matches(pats[i], path),
            None => forall|j: int|
                0 <= j < pats.len() ==> !(#[trigger] pattern_matches(pats[j], path)),
        },
    decreases pats.len(),
{
    if pats.len() > 0 {
        lemma_best_match_valid(pats.drop_last(), path);
        assert(forall|j: int|
            0 <= j < pats.len() - 1 ==> pats.drop_last()[j] == pats[j]);
    }
}

/// No pattern that matches is strictly more literal than the winner.
pub proof fn lemma_best_match_most_literal(pats: Seq<Seq<Seq<char>>>, path: Seq<Seq<char>>, j: int)
    requires
        0 <= j < pats.len(),
        pattern_matches(pats[j], path),
        best_match(pats, path) matches Some(i) && i != j,
    ensures
        !more_literal(pats[j], pats[best_match(pats, path)->Some_0]),
    decreases pats.len(),
{
    lemma_best_match_valid(pats.drop_last(), path);
    let i = best_match(pats, path)->Some_0;
    assert(forall|k: int| 0 <= k < pats.len() - 1 ==> pats.drop_last()[k] == pats[k]);
    if j < pats.len() - 1 {
        if i < pats.len() - 1 {
            lemma_best_match_most_literal(pats.drop_last(), path, j);
        } else {
            let prev = best_match(pats.drop_last(), path);
            match prev {
                None => {}
                Some(p) => {
                    if p == j {
                        assert(more_literal(pats[i], pats[j]));
                        lemma_literal_order_antisymmetric(pats[i], pats[j]);
                    } else {
                        lemma_best_match_most_literal(pats.drop_last(), path, j);
                        lemma_literal_order_total(pats[i], pats[p], pats[j]);
                    }
                }
            }
        }
    }
}

/// `at_least_as_literal` orders patterns loosely: two patterns can each
/// be at least as literal as the other, but not each strictly more.
proof fn lemma_literal_order_antisymmetric(a: Seq<Seq<char>>, b: Seq<Seq<char>>)
    ensures
        !(more_literal(a, b) && more_literal(b, a)),
{
}

/// Transitivity that the winner proof needs: among patterns of one
/// length, if `i` beats `p` and `j` does not beat `p`, then `j` does not
/// beat `i`.
proof fn lemma_literal_order_total(i: Seq<Seq<char>>, p: Seq<Seq<char>>, j: Seq<Seq<char>>)
    requires
        i.len() == p.len(),
        p.len() == j.len(),
        more_literal(i, p),
        !more_literal(j, p),
    ensures
        !more_literal(j, i),
{
    lemma_al_total(p, j);
    if at_least_as_literal(p, j) {
        lemma_al_transitive(i, p, j);
    }
}

/// Any two patterns are comparable under `at_least_as_literal`.
proof fn lemma_al_total(a: Seq<Seq<char>>, b: Seq<Seq<char>>)
    ensures
        at_least_as_literal(a, b) || at_least_as_literal(b, a),
    decreases a.len(),
{
    if a.len() > 0 && b.len() > 0 && is_capture_seg(a.first()) == is_capture_seg(b.first()) {
        lemma_al_total(a.drop_first(), b.drop_first());
    }
}

/// `at_least_as_literal` is transitive over patterns of one length.
proof fn lemma_al_transitive(a: Seq<Seq<char>>, b: Seq<Seq<char>>, c: Seq<Seq<char>>)
    requires
        a.len() == b.len(),
        b.len() == c.len(),
        at_least_as_literal(a, b),
        at_least_as_literal(b, c),
    ensures
        at_least_as_literal(a, c),
    decreases a.len(),
{
    if a.len() > 0 {
        if is_capture_seg(a.first()) == is_capture_seg(b.first())
            && is_capture_seg(b.first()) == is_capture_seg(c.first()) {
            lemma_al_transitive(a.drop_first(), b.drop_first(), c.drop_first());
        }
    }
}

/// The parameters captured from a path by a successful match.
#[derive(Debug)]
pub struct Params {
    pub entries: Vec<(String, String)>,
}

impl View for Params {
    type V = Seq<(Seq<char>, Seq<char>)>;

    open spec fn view(&self) -> Seq<(Seq<char>, Seq<char>)> {
        pair_views(self.entries@)
    }
}

impl Params {
    /// An empty parameter set.
    pub fn new() -> (r: Params)
        ensures
            r@ == Seq::<(Seq<char>, Seq<char>)>::empty(),
    {
        let r = Params { entries: Vec::new() };
        proof {
            assert(r@ =~= Seq::<(Seq<char>, Seq<char>)>::empty());
        }
        r
    }

    /// The value captured under `name`, if any.
    pub fn find<'a>(&'a self, name: &str) -> (r: Option<&'a String>)
        ensures
            match r {
                Some(v) => find_spec(self@, name@) == Some(v@),
                None => find_spec(self@, name@) is None,
            },
    {
        find_in(&self.entries, name)
    }
}

/// A pattern bound to a handler in a recognizer.
pub struct Route<T> {
    pub pattern: Vec<String>,
    pub handler: T,
}

/// A successful recognition: the winning route's handler and the
/// parameters its pattern captured.
pub struct Match<'a, T> {
    pub handler: &'a T,
    pub params: Params,
}

/// The patterns of a route list, as sequences of segment views.
pub open spec fn patterns_of<T>(rs: Seq<Route<T>>) -> Seq<Seq<Seq<char>>> {
    rs.map_values(|r: Route<T>| views_of(r.pattern@))
}

/// A table of path patterns, each bound to a handler.
pub struct Recognizer<T> {
    pub routes: Vec<Route<T>>,
}

/// The index of the first route whose pattern is `pat`.
pub open spec fn find_pattern<T>(rs: Seq<Route<T>>, pat: Seq<Seq<char>>) -> Option<int>
    decreases rs.len(),
{
    if rs.len() == 0 {
        None
    } else if views_of(rs.first().pattern@) == pat {
        Some(0int)
    } else {
        match find_pattern(rs.drop_first(), pat) {
            Some(k) => Some(k + 1),
            None => None,
        }
    }
}

/// What binding a pattern leaves behind: a route with an equal pattern
/// is replaced in place, otherwise the new route is appended.
pub open spec fn add_result<T>(
    old_routes: Seq<Route<T>>,
    new_routes: Seq<Route<T>>,
    pat: Seq<Seq<char>>,
    handler: T,
) -> bool {
    match find_pattern(old_routes, pat) {
        Some(k) => 0 <= k < old_routes.len() && new_routes.len() == old_routes.len()
            && views_of(new_routes[k].pattern@) == pat && new_routes[k].handler == handler && (
        forall|j: int| 0 <= j < old_routes.len() && j != k ==> new_routes[j] == old_routes[j]),
        None => new_routes.len() == old_routes.len() + 1 && new_routes.drop_last() == old_routes
            && views_of(new_routes.last().pattern@) == pat && new_routes.last().handler == handler,
    }
}

/// Segment-wise equality of two patterns.
fn patterns_eq(a: &Vec<String>, b: &Vec<String>) -> (r: bool)
    ensures
        r == (views_of(a@) == views_of(b@)),
{
    if a.len() != b.len() {
        proof {
            assert(views_of(a@).len() != views_of(b@).len());
        }
        return false;
    }
    let mut i: usize = 0;
    while i < a.len()
        invariant
            i <= a@.len(),
            a@.len() == b@.len(),
            forall|k: int| 0 <= k < i ==> views_of(a@)[k] == views_of(b@)[k],
        decreases a@.len() - i,
    {
        if !str_eq(a[i].as_str(), b[i].as_str()) {
            proof {
                assert(views_of(a@)[i as int] != views_of(b@)[i as int]);
            }
            return false;
        }
        i = i + 1;
    }
    proof {
        assert(views_of(a@) =~= views_of(b@));
    }
    true
}

/// The pattern segment is a named capture.
fn is_capture(seg: &String) -> (r: bool)
    ensures
        r == is_capture_seg(seg@),
{
    let len: usize = seg.as_str().unicode_len();
    len > 0 && seg.as_str().get_char(0) == ':'
}

/// One pattern held against the segments of a path.
fn matches_pattern(pat: &Vec<String>, segs: &Vec<String>) -> (r: bool)
    ensures
        r == pattern_matches(views_of(pat@), views_of(segs@)),
{
    if pat.len() != segs.len() {
        return false;
    }
    let mut i: usize = 0;
    while i < pat.len()
        invariant
            i <= pat@.len(),
            pat@.len() == segs@.len(),
            forall|k: int|
                0 <= k < i ==> #[trigger] seg_matches(views_of(pat@)[k], views_of(segs@)[k]),
        decreases pat@.len() - i,
    {
        if !is_capture(&pat[i]) {
            if !str_eq(pat[i].as_str(), segs[i].as_str()) {
                proof {
                    assert(!seg_matches(views_of(pat@)[i as int], views_of(segs@)[i as int]));
                }
                return false;
            }
        }
        i = i + 1;
    }
    true
}

/// `a` at least as literal as `b`, segment kinds compared left to right.
fn at_least_as_literal_from(a: &Vec<String>, b: &Vec<String>, from: usize) -> (r: bool)
    requires
        from <= a@.len(),
        from <= b@.len(),
    ensures
        r == at_least_as_literal(views_of(a@).skip(from as int), views_of(b@).skip(from as int)),
    decreases a@.len() - from,
{
    let ghost av = views_of(a@).skip(from as int);
    let ghost bv = views_of(b@).skip(from as int);
    if from == a.len() || from == b.len() {
        proof {
            assert(av.len() == 0 || bv.len() == 0);
        }
        return true;
    }
    proof {
        assert(av.first() == views_of(a@)[from as int]);
        assert(bv.first() == views_of(b@)[from as int]);
        assert(av.drop_first() =~= views_of(a@).skip(from + 1));
        assert(bv.drop_first() =~= views_of(b@).skip(from + 1));
    }
    let ac = is_capture(&a[from]);
    let bc = is_capture(&b[from]);
    if ac == bc {
        at_least_as_literal_from(a, b, from + 1)
    } else {
        !ac
    }
}

/// `a` strictly more literal than `b`.
fn is_more_literal(a: &Vec<String>, b: &Vec<String>) -> (r: bool)
    ensures
        r == more_literal(views_of(a@), views_of(b@)),
{
    let ab = at_least_as_literal_from(a, b, 0);
    let ba = at_least_as_literal_from(b, a, 0);
    proof {
        assert(views_of(a@).skip(0) =~= views_of(a@));
        assert(views_of(b@).skip(0) =~= views_of(b@));
    }
    ab && !ba
}

/// The parameters a matching pattern captures from a path.
fn collect_captures(pat: &Vec<String>, segs: &Vec<String>) -> (r: Params)
    requires
        pat@.len() <= segs@.len(),
    ensures
        r@ == captures(views_of(pat@), views_of(segs@).take(pat@.len() as int)),
{
    let mut entries: Vec<(String, String)> = Vec::new();
    proof {
        assert(pair_views(entries@) =~= Seq::<(Seq<char>, Seq<char>)>::empty());
        assert(views_of(pat@).take(0) =~= Seq::<Seq<char>>::empty());
        assert(views_of(segs@).take(0) =~= Seq::<Seq<char>>::empty());
    }
    let mut i: usize = 0;
    while i < pat.len()
        invariant
            i <= pat@.len(),
            pat@.len() <= segs@.len(),
            pair_views(entries@) == captures(
                views_of(pat@).take(i as int),
                views_of(segs@).take(i as int),
            ),
        decreases pat@.len() - i,
    {
        let ghost pv = views_of(pat@).take(i + 1);
        let ghost sv = views_of(segs@).take(i + 1);
        proof {
            assert(pv.drop_last() =~= views_of(pat@).take(i as int));
            assert(sv.drop_last() =~= views_of(segs@).take(i as int));
            assert(pv.last() == pat@[i as int]@);
            assert(sv.last() == segs@[i as int]@);
        }
        if is_capture(&pat[i]) {
            let len: usize = pat[i].as_str().unicode_len();
            let name = pat[i].as_str().substring_char(1, len);
            let value = segs[i].clone();
            entries.push((name.to_owned(), value));
            proof {
                assert(pat@[i as int]@.drop_first() =~= pat@[i as int]@.subrange(
                    1,
                    pat@[i as int]@.len() as int,
                ));
                assert(pair_views(entries@) =~= captures(pv.drop_last(), sv.drop_last()).push(
                    (pv.last().drop_first(), sv.last()),
                ));
            }
        }
        i = i + 1;
    }
    proof {
        assert(views_of(pat@).take(pat@.len() as int) =~= views_of(pat@));
    }
    Params { entries }
}

impl<T> Recognizer<T> {
    /// An empty table.
    pub fn new() -> (r: Recognizer<T>)
        ensures
            r.routes@ == Seq::<Route<T>>::empty(),
    {
        let r = Recognizer { routes: Vec::new() };
        proof {
            assert(r.routes@ =~= Seq::<Route<T>>::empty());
        }
        r
    }

    /// Binds a pattern to a handler.  The pattern is normalized by
    /// stripping one trailing slash; a pattern equal to one already in
    /// the table replaces that binding in place, so the table never
    /// holds the same pattern twice, and the last registration wins.
    pub fn add(&mut self, path: &str, handler: T)
        ensures
            add_result(
                old(self).routes@,
                final(self).routes@,
                split_segs(strip_trailing_slash(path@)),
                handler,
            ),
    {
        let stripped = stripTrailingSlash(path);
        let pattern = split_path(stripped);
        let ghost pat = split_segs(strip_trailing_slash(path@));
        proof {
            assert(self.routes@.skip(0) =~= self.routes@);
        }
        let mut found: Option<usize> = None;
        let mut i: usize = 0;
        while i < self.routes.len()
            invariant
                i <= self.routes@.len(),
                self == old(self),
                pat == split_segs(strip_trailing_slash(path@)),
                views_of(pattern@) == pat,
                match found {
                    Some(k) => k < i && find_pattern(self.routes@, pat) == Some(k as int),
                    None => find_pattern(self.routes@, pat) == match find_pattern(
                        self.routes@.skip(i as int),
                        pat,
                    ) {
                        Some(k) => Some(k + i),
                        None => None::<int>,
                    },
                },
            decreases self.routes@.len() - i,
        {
            if found.is_none() {
                proof {
                    assert(self.routes@.skip(i as int).first() == self.routes@[i as int]);
                    assert(self.routes@.skip(i as int).drop_first() =~= self.routes@.skip(i + 1));
                }
                if patterns_eq(&self.routes[i].pattern, &pattern) {
                    found = Some(i);
                }
            }
            i = i + 1;
        }
        match found {
            Some(k) => {
                let route = Route { pattern, handler };
                self.routes.set(k, route);
            }
            None => {
                proof {
                    assert(self.routes@.skip(self.routes@.len() as int)
                        =~= Seq::<Route<T>>::empty());
                }
                let route = Route { pattern, handler };
                self.routes.push(route);
                proof {
                    assert(self.routes@.drop_last() =~= old(self).routes@);
                }
            }
        }
    }

    /// Recognizes a path against the table.  The winning route is the
    /// one `best_match` selects among the routes whose patterns match
    /// the path's segments.
    pub fn recognize<'a>(&'a self, path: &str) -> (r: Option<Match<'a, T>>)
        ensures
            ({
                let pats = patterns_of(self.routes@);
                let segs = split_segs(path@);
                match best_match(pats, segs) {
                    Some(i) => r matches Some(m) && *m.handler == self.routes@[i].handler
                        && m.params@ == captures(pats[i], segs),
                    None => r is None,
                }
            }),
    {
        let segs = split_path(path);
        let ghost pats = patterns_of(self.routes@);
        let ghost segsv = split_segs(path@);
        let mut best: Option<usize> = None;
        let mut i: usize = 0;
        while i < self.routes.len()
            invariant
                i <= self.routes@.len(),
                pats == patterns_of(self.routes@),
                segsv == split_segs(path@),
                views_of(segs@) == segsv,
                match best {
                    Some(b) => b < i && best_match(pats.take(i as int), segsv) == Some(b as int),
                    None => best_match(pats.take(i as int), segsv) is None,
                },
            decreases self.routes@.len() - i,
        {
            proof {
                assert(pats.take(i + 1).drop_last() =~= pats.take(i as int));
                assert(pats.take(i + 1).last() == pats[i as int]);
                assert(forall|k: int| 0 <= k <= i ==> pats.take(i + 1)[k] == pats[k]);
            }
            if matches_pattern(&self.routes[i].pattern, &segs) {
                match best {
                    None => {
                        best = Some(i);
                    }
                    Some(b) => {
                        if is_more_literal(&self.routes[i].pattern, &self.routes[b].pattern) {
                            best = Some(i);
                        }
                    }
                }
            }
            i = i + 1;
        }
        proof {
            assert(pats.take(pats.len() as int) =~= pats);
        }
        match best {
            Some(b) => {
                proof {
                    lemma_best_match_valid(pats, segsv);
                    assert(pattern_matches(pats[b as int], segsv));
                }
                let params = collect_captures(&self.routes[b].pattern, &segs);
                proof {
                    assert(views_of(segs@).take(self.routes@[b as int].pattern@.len() as int)
                        =~= segsv);
                }
                Some(Match { handler: &self.routes[b].handler, params })
            }
            None => None,
        }
    }
}

} // verus!
