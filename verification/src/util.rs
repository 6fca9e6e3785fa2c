//! Path normalization and small string helpers shared by the routing engine.
use vstd::prelude::*;

verus! {

/// The path with one trailing `'/'` removed, if it has one.
pub open spec fn strip_trailing_slash(s: Seq<char>) -> Seq<char> {
    if s.len() > 0 && s.last() == '/' {
        s.drop_last()
    } else {
        s
    }
}

/// Removes any '/' that may exist as the last character in a string.
pub fn stripTrailingSlash(string: &str) -> (r: &str)
    ensures
        r@ == strip_trailing_slash(string@),
{
    let len: usize = string.unicode_len();
    if len == 0 {
        return string;
    }
    if string.get_char(len - 1) == '/' {
        string.substring_char(0, len - 1)
    } else {
        string
    }
}

/// Requests that agree on their path once a trailing slash is stripped are
/// dispatched alike: for a path without a trailing slash, appending one
/// changes nothing about the normalized path the route tables see.
pub proof fn lemma_strip_slash_insensitive(p: Seq<char>)
    requires
        p.len() == 0 || p.last() != '/',
    ensures
        strip_trailing_slash(p) == p,
        strip_trailing_slash(p.push('/')) == p,
{
    assert(p.push('/').last() == '/');
    assert(p.push('/').drop_last() =~= p);
}

/// Relies on String::push: appends the character to the end of the string.
#[verifier::external_body]
pub(crate) fn push_char(s: &mut String, c: char)
    ensures
        final(s)@ == old(s)@.push(c),
{
    s.push(c);
}

/// The views of a sequence of strings.
pub open spec fn views_of(v: Seq<String>) -> Seq<Seq<char>> {
    v.map_values(|s: String| s@)
}

/// A path split at every `'/'`.  The empty path has one empty segment;
/// each separator ends the current segment and starts a new one, so
/// `"/a/b"` has the segments `""`, `"a"`, `"b"`.
pub open spec fn split_segs(s: Seq<char>) -> Seq<Seq<char>>
    decreases s.len(),
{
    if s.len() == 0 {
        seq![Seq::<char>::empty()]
    } else if s.last() == '/' {
        split_segs(s.drop_last()).push(Seq::<char>::empty())
    } else {
        let r = split_segs(s.drop_last());
        r.update(r.len() - 1, r.last().push(s.last()))
    }
}

/// Splits a path into its `'/'`-separated segments.
pub fn split_path(path: &str) -> (segs: Vec<String>)
    ensures
        views_of(segs@) == split_segs(path@),
{
    let len: usize = path.unicode_len();
    let mut segs: Vec<String> = Vec::new();
    segs.push(String::new());
    proof {
        assert(views_of(segs@) =~= split_segs(path@.take(0)));
    }
    let mut i: usize = 0;
    while i < len
        invariant
            i <= len,
            len == path@.len(),
            segs@.len() >= 1,
            views_of(segs@) == split_segs(path@.take(i as int)),
        decreases len - i,
    {
        let ghost prefix = path@.take(i as int);
        let ghost next_prefix = path@.take(i + 1);
        proof {
            assert(next_prefix.drop_last() =~= prefix);
            assert(next_prefix.last() == path@[i as int]);
        }
        let c = path.get_char(i);
        if c == '/' {
            segs.push(String::new());
            proof {
                assert(views_of(segs@) =~= split_segs(prefix).push(Seq::<char>::empty()));
            }
        } else {
            let last = segs.pop().unwrap();
            let mut last = last;
            push_char(&mut last, c);
            segs.push(last);
            proof {
                let r = split_segs(prefix);
                assert(views_of(segs@) =~= r.update(r.len() - 1, r.last().push(path@[i as int])));
            }
        }
        i = i + 1;
    }
    proof {
        assert(path@.take(len as int) =~= path@);
    }
    segs
}

/// A route-group prefix in normal form: the prefix stripped of a trailing
/// slash, with exactly one leading slash, and the root prefix `"/"` reduced
/// to the empty sequence.
pub open spec fn prefix_of(p: Seq<char>) -> Seq<char> {
    let q = strip_trailing_slash(p);
    if q.len() == 0 {
        q
    } else if q[0] == '/' {
        q
    } else {
        seq!['/'].add(q)
    }
}

/// Normalizes a route-group prefix.
pub fn normalize_prefix(parent: &str) -> (r: String)
    ensures
        r@ == prefix_of(parent@),
{
    let stripped = stripTrailingSlash(parent);
    let len: usize = stripped.unicode_len();
    if len == 0 {
        String::new()
    } else if stripped.get_char(0) == '/' {
        stripped.to_owned()
    } else {
        let mut r = String::from_str("/");
        r.append(stripped);
        proof {
            reveal_strlit("/");
            assert(r@ =~= seq!['/'].add(stripped@));
        }
        r
    }
}

/// A child route path in normal form: stripped of a trailing slash and,
/// when longer than one character, given a leading slash.
pub open spec fn child_path_of(p: Seq<char>) -> Seq<char> {
    let q = strip_trailing_slash(p);
    if q.len() > 1 && q[0] != '/' {
        seq!['/'].add(q)
    } else {
        q
    }
}

/// Normalizes the path of a route registered on a route group.
pub fn normalize_child_path(path: &str) -> (r: String)
    ensures
        r@ == child_path_of(path@),
{
    let stripped = stripTrailingSlash(path);
    let len: usize = stripped.unicode_len();
    if len > 1 && stripped.get_char(0) != '/' {
        let mut r = String::from_str("/");
        r.append(stripped);
        proof {
            reveal_strlit("/");
            assert(r@ =~= seq!['/'].add(stripped@));
        }
        r
    } else {
        stripped.to_owned()
    }
}

/// `n` occurs in `h` starting at position `i`.
pub open spec fn contains_at(h: Seq<char>, n: Seq<char>, i: int) -> bool {
    0 <= i && i + n.len() <= h.len() && h.subrange(i, i + n.len()) == n
}

/// `n` occurs somewhere in `h`.
pub open spec fn contains_seq(h: Seq<char>, n: Seq<char>) -> bool {
    exists|i: int| contains_at(h, n, i)
}

/// Compares `needle` with the characters of `hay` starting at `at`.
fn matches_at(hay: &str, hay_len: usize, at: usize, needle: &str, needle_len: usize) -> (r: bool)
    requires
        hay_len == hay@.len(),
        needle_len == needle@.len(),
        at + needle_len <= hay_len,
    ensures
        r == contains_at(hay@, needle@, at as int),
{
    let mut j: usize = 0;
    while j < needle_len
        invariant
            j <= needle_len,
            hay_len == hay@.len(),
            needle_len == needle@.len(),
            at + needle_len <= hay_len,
            forall|k: int| 0 <= k < j ==> hay@[at + k] == needle@[k],
        decreases needle_len - j,
    {
        if hay.get_char(at + j) != needle.get_char(j) {
            proof {
                assert(hay@.subrange(at as int, at + needle@.len())[j as int] != needle@[j as int]);
            }
            return false;
        }
        j = j + 1;
    }
    proof {
        assert(hay@.subrange(at as int, at + needle@.len()) =~= needle@);
    }
    true
}

/// Naive substring search.
pub fn contains_sub(hay: &str, needle: &str) -> (r: bool)
    ensures
        r == contains_seq(hay@, needle@),
{
    let hay_len: usize = hay.unicode_len();
    let needle_len: usize = needle.unicode_len();
    if needle_len > hay_len {
        return false;
    }
    if needle_len == 0 {
        proof {
            assert(hay@.subrange(0, 0) =~= needle@);
            assert(contains_at(hay@, needle@, 0));
        }
        return true;
    }
    let mut i: usize = 0;
    let bound: usize = hay_len - needle_len + 1;
    while i < bound
        invariant
            1 <= needle_len <= hay_len,
            hay_len == hay@.len(),
            needle_len == needle@.len(),
            bound == hay_len - needle_len + 1,
            i <= bound,
            forall|k: int| 0 <= k < i ==> !contains_at(hay@, needle@, k),
        decreases bound - i,
    {
        if matches_at(hay, hay_len, i, needle, needle_len) {
            return true;
        }
        i = i + 1;
    }
    false
}

/// Character-wise string equality.
pub fn str_eq(a: &str, b: &str) -> (r: bool)
    ensures
        r == (a@ == b@),
{
    let a_len: usize = a.unicode_len();
    let b_len: usize = b.unicode_len();
    if a_len != b_len {
        return false;
    }
    let r = matches_at(a, a_len, 0, b, b_len);
    proof {
        assert(a@.subrange(0, b@.len() as int) =~= a@);
    }
    r
}

/// `n` occurs at the start of `h`.
pub open spec fn starts_with_seq(h: Seq<char>, n: Seq<char>) -> bool {
    contains_at(h, n, 0)
}

/// Prefix test.
pub fn starts_with_sub(hay: &str, needle: &str) -> (r: bool)
    ensures
        r == starts_with_seq(hay@, needle@),
{
    let hay_len: usize = hay.unicode_len();
    let needle_len: usize = needle.unicode_len();
    if needle_len > hay_len {
        return false;
    }
    matches_at(hay, hay_len, 0, needle, needle_len)
}

/// The part of a request uri before its first `'?'`; the whole uri when
/// it has none.
pub open spec fn path_of_uri(s: Seq<char>) -> Seq<char>
    decreases s.len(),
{
    if s.len() == 0 {
        s
    } else if s.first() == '?' {
        Seq::empty()
    } else {
        seq![s.first()].add(path_of_uri(s.drop_first()))
    }
}

/// The part of a request uri after its first `'?'`; empty when it has
/// none.
pub open spec fn query_of_uri(s: Seq<char>) -> Seq<char>
    decreases s.len(),
{
    if s.len() == 0 {
        Seq::empty()
    } else if s.first() == '?' {
        s.drop_first()
    } else {
        query_of_uri(s.drop_first())
    }
}

/// Where the first `'?'` stands, the uri splits.
proof fn lemma_uri_split_at(s: Seq<char>, i: int)
    requires
        0 <= i <= s.len(),
        forall|k: int| 0 <= k < i ==> s[k] != '?',
        i == s.len() || s[i] == '?',
    ensures
        path_of_uri(s) == s.take(i),
        query_of_uri(s) == if i == s.len() {
            Seq::<char>::empty()
        } else {
            s.skip(i + 1)
        },
    decreases i,
{
    if i == 0 {
        if s.len() == 0 {
            assert(path_of_uri(s) =~= s.take(0));
        } else {
            assert(path_of_uri(s) =~= s.take(0));
            assert(s.drop_first() =~= s.skip(1));
        }
    } else {
        assert(forall|k: int| 0 <= k < i - 1 ==> s.drop_first()[k] == s[k + 1]);
        lemma_uri_split_at(s.drop_first(), i - 1);
        assert(path_of_uri(s) =~= s.take(i));
        if i < s.len() {
            assert(s.drop_first().skip(i) =~= s.skip(i + 1));
        }
    }
}

/// Splits a request uri into its path and its query string.
pub fn split_uri(uri: &str) -> (r: (String, String))
    ensures
        r.0@ == path_of_uri(uri@),
        r.1@ == query_of_uri(uri@),
{
    let len: usize = uri.unicode_len();
    let mut i: usize = 0;
    while i < len
        invariant
            i <= len,
            len == uri@.len(),
            forall|k: int| 0 <= k < i ==> uri@[k] != '?',
        decreases len - i,
    {
        if uri.get_char(i) == '?' {
            let path = uri.substring_char(0, i);
            let query = uri.substring_char(i + 1, len);
            proof {
                lemma_uri_split_at(uri@, i as int);
                assert(path@ =~= uri@.take(i as int));
                assert(query@ =~= uri@.skip(i + 1));
            }
            return (path.to_owned(), query.to_owned());
        }
        i = i + 1;
    }
    proof {
        lemma_uri_split_at(uri@, len as int);
        assert(uri@.take(len as int) =~= uri@);
    }
    (uri.to_owned(), String::new())
}

/// The decimal digit `d` as a character; `d` at ten and beyond is never
/// reached by `dec_str`.
pub open spec fn dec_digit(d: nat) -> char {
    if d == 0 { '0' }
    else if d == 1 { '1' }
    else if d == 2 { '2' }
    else if d == 3 { '3' }
    else if d == 4 { '4' }
    else if d == 5 { '5' }
    else if d == 6 { '6' }
    else if d == 7 { '7' }
    else if d == 8 { '8' }
    else if d == 9 { '9' }
    else { '0' }
}

/// The decimal notation of `n`, most significant digit first.
pub open spec fn dec_str(n: nat) -> Seq<char>
    decreases n,
{
    if n < 10 {
        seq![dec_digit(n)]
    } else {
        dec_str(n / 10).push(dec_digit(n % 10))
    }
}

fn dec_digit_char(d: u64) -> (c: char)
    requires
        d < 10,
    ensures
        c == dec_digit(d as nat),
{
    match d {
        0 => '0',
        1 => '1',
        2 => '2',
        3 => '3',
        4 => '4',
        5 => '5',
        6 => '6',
        7 => '7',
        8 => '8',
        _ => '9',
    }
}

/// Writes `n` in decimal.
pub fn u64_to_dec(n: u64) -> (r: String)
    ensures
        r@ == dec_str(n as nat),
    decreases n,
{
    if n < 10 {
        let mut r = String::new();
        push_char(&mut r, dec_digit_char(n));
        proof {
            assert(r@ =~= seq![dec_digit(n as nat)]);
        }
        r
    } else {
        let mut r = u64_to_dec(n / 10);
        push_char(&mut r, dec_digit_char(n % 10));
        r
    }
}

} // verus!
