//! String-keyed association lists.
//!
//! Both the header lists of the envelopes and the captured route
//! parameters are small string-to-string maps; this module holds their
//! shared lookup and replace operations.  Header names are always written
//! lower-case by the framework, as the HTTP layer that feeds it does.
use vstd::prelude::*;
use crate::util::str_eq;

verus! {

/// The views of a list of string pairs.
pub open spec fn pair_views(v: Seq<(String, String)>) -> Seq<(Seq<char>, Seq<char>)> {
    v.map_values(|p: (String, String)| (p.0@, p.1@))
}

/// The value of the first pair named `n`, if any.
pub open spec fn find_spec(hs: Seq<(Seq<char>, Seq<char>)>, n: Seq<char>) -> Option<Seq<char>>
    decreases hs.len(),
{
    if hs.len() == 0 {
        None
    } else if hs.first().0 == n {
        Some(hs.first().1)
    } else {
        find_spec(hs.drop_first(), n)
    }
}

/// The list with every pair named `n` removed and `(n, v)` appended:
/// what inserting into a string-keyed map leaves behind.
pub open spec fn upsert_spec(
    hs: Seq<(Seq<char>, Seq<char>)>,
    n: Seq<char>,
    v: Seq<char>,
) -> Seq<(Seq<char>, Seq<char>)> {
    hs.filter(|p: (Seq<char>, Seq<char>)| p.0 != n).push((n, v))
}

/// Looks a pair up by name.
pub fn find_in<'a>(pairs: &'a Vec<(String, String)>, name: &str) -> (r: Option<&'a String>)
    ensures
        match r {
            Some(v) => find_spec(pair_views(pairs@), name@) == Some(v@),
            None => find_spec(pair_views(pairs@), name@) is None,
        },
{
    let ghost hv = pair_views(pairs@);
    proof {
        assert(hv.skip(0) =~= hv);
    }
    let mut i: usize = 0;
    while i < pairs.len()
        invariant
            i <= pairs@.len(),
            hv == pair_views(pairs@),
            find_spec(hv, name@) == find_spec(hv.skip(i as int), name@),
        decreases pairs@.len() - i,
    {
        proof {
            assert(hv.skip(i as int).first() == hv[i as int]);
            assert(hv.skip(i as int).drop_first() =~= hv.skip(i + 1));
        }
        if str_eq(pairs[i].0.as_str(), name) {
            return Some(&pairs[i].1);
        }
        i = i + 1;
    }
    proof {
        assert(hv.skip(pairs@.len() as int) =~= Seq::<(Seq<char>, Seq<char>)>::empty());
    }
    None
}

/// Replaces any pair named `name` with the pair `(name, value)`.
pub fn upsert_in(pairs: &mut Vec<(String, String)>, name: &str, value: String)
    ensures
        pair_views(final(pairs)@) == upsert_spec(pair_views(old(pairs)@), name@, value@),
{
    let ghost old_hv = pair_views(old(pairs)@);
    let ghost pred = (|p: (Seq<char>, Seq<char>)| p.0 != name@);
    let mut kept: Vec<(String, String)> = Vec::new();
    proof {
        reveal(Seq::filter);
        assert(old_hv.take(0).filter(pred) =~= Seq::<(Seq<char>, Seq<char>)>::empty());
    }
    let mut i: usize = 0;
    while i < pairs.len()
        invariant
            i <= pairs@.len(),
            pairs == old(pairs),
            old_hv == pair_views(pairs@),
            pred == (|p: (Seq<char>, Seq<char>)| p.0 != name@),
            pair_views(kept@) == old_hv.take(i as int).filter(pred),
        decreases pairs@.len() - i,
    {
        let ghost prefix = old_hv.take(i as int);
        proof {
            reveal(Seq::filter);
            assert(old_hv.take(i + 1).drop_last() =~= prefix);
            assert(old_hv.take(i + 1).last() == old_hv[i as int]);
        }
        if !str_eq(pairs[i].0.as_str(), name) {
            let pair = (pairs[i].0.clone(), pairs[i].1.clone());
            kept.push(pair);
            proof {
                assert(pair_views(kept@) =~= prefix.filter(pred).push(old_hv[i as int]));
            }
        } else {
            proof {
                assert(pair_views(kept@) =~= old_hv.take(i + 1).filter(pred));
            }
        }
        i = i + 1;
    }
    kept.push((name.to_owned(), value));
    proof {
        reveal(Seq::filter);
        assert(old_hv.take(old_hv.len() as int) =~= old_hv);
        assert(pair_views(kept@) =~= old_hv.filter(pred).push((name@, value@)));
    }
    *pairs = kept;
}

} // verus!
