//! The middleware capability and the fold semantics of middleware chains.
//!
//! A middleware takes a value — a request before the handler runs, a
//! response after — and either passes a (possibly modified) value on, or
//! short-circuits with an early response.  A vector of middlewares
//! behaves as one middleware by folding this continue-or-short-circuit
//! rule left to right over its elements.
use vstd::prelude::*;
use vstd::utf8::encode_utf8;
use crate::request::{Request, ReqView};
use crate::response::{clamp_status, clamped, Response, RespView};

verus! {

/// The view of a middleware outcome.
pub open spec fn mw_out_view<T: View>(out: Result<T, Response>) -> Result<T::V, RespView> {
    match out {
        Ok(t) => Ok(t@),
        Err(r) => Err(r@),
    }
}

/// The middleware capability.
///
/// Think of a `MiddleWare<T>` as a function from `T` to
/// `Result<T, Response>`: `Ok` hands the value to the next stage, `Err`
/// is an early response that skips every later stage.  Each implementor
/// describes its own outcomes with `call_ensures`, and `call` promises
/// nothing beyond that relation.
pub trait MiddleWare<T: View>: Sized {
    /// What this middleware's `call` may return for a given input.
    spec fn call_ensures(&self, t: T::V, out: Result<T::V, RespView>) -> bool;

    /// Runs the middleware.
    fn call(&self, t: T) -> (out: Result<T, Response>)
        ensures
            self.call_ensures(t@, mw_out_view(out)),
    ;
}

/// The fold of a middleware chain: the empty chain passes the value
/// through; otherwise the first middleware runs, and its outcome either
/// feeds the rest of the chain or short-circuits it.
pub open spec fn chain_ensures<T: View, M: MiddleWare<T>>(
    ms: Seq<M>,
    t: T::V,
    out: Result<T::V, RespView>,
) -> bool
    decreases ms.len(),
{
    if ms.len() == 0 {
        out == Ok::<T::V, RespView>(t)
    } else {
        exists|mid: Result<T::V, RespView>|
            #[trigger] ms.first().call_ensures(t, mid) && match mid {
                Ok(t2) => chain_ensures(ms.drop_first(), t2, out),
                Err(r) => out == Err::<T::V, RespView>(r),
            }
    }
}

/// One step of the fold, for building `chain_ensures` facts.
pub proof fn lemma_chain_step<T: View, M: MiddleWare<T>>(
    ms: Seq<M>,
    t: T::V,
    mid: Result<T::V, RespView>,
    out: Result<T::V, RespView>,
)
    requires
        ms.len() > 0,
        ms.first().call_ensures(t, mid),
        match mid {
            Ok(t2) => chain_ensures(ms.drop_first(), t2, out),
            Err(r) => out == Err::<T::V, RespView>(r),
        },
    ensures
        chain_ensures(ms, t, out),
{
}

/// LAW — middleware chain short-circuit.  For a two-element chain whose
/// first element always continues and whose second always answers with
/// the response `r`, the fold's outcome is exactly `Err(r)`: nothing
/// after the short-circuiting middleware contributes to it.
pub proof fn lemma_chain_short_circuit<T: View, M: MiddleWare<T>>(
    ms: Seq<M>,
    t: T::V,
    r: RespView,
    out: Result<T::V, RespView>,
)
    requires
        ms.len() == 2,
        forall|x: T::V, o: Result<T::V, RespView>|
            #[trigger] ms[0].call_ensures(x, o) ==> o is Ok,
        forall|x: T::V, o: Result<T::V, RespView>|
            #[trigger] ms[1].call_ensures(x, o) ==> o == Err::<T::V, RespView>(r),
        chain_ensures(ms, t, out),
    ensures
        out == Err::<T::V, RespView>(r),
{
    let mid = choose|mid: Result<T::V, RespView>|
        #[trigger] ms.first().call_ensures(t, mid) && match mid {
            Ok(t2) => chain_ensures(ms.drop_first(), t2, out),
            Err(rr) => out == Err::<T::V, RespView>(rr),
        };
    assert(ms.first() == ms[0]);
    assert(mid is Ok);
    let t2 = mid->Ok_0;
    let rest = ms.drop_first();
    assert(rest.first() == ms[1]);
    assert(chain_ensures(rest, t2, out));
    let mid2 = choose|mid2: Result<T::V, RespView>|
        #[trigger] rest.first().call_ensures(t2, mid2) && match mid2 {
            Ok(t3) => chain_ensures(rest.drop_first(), t3, out),
            Err(rr) => out == Err::<T::V, RespView>(rr),
        };
    assert(mid2 == Err::<T::V, RespView>(r));
}

/// Runs a middleware chain left to right, stopping at the first
/// middleware that answers with an early response.
#[verifier::loop_isolation(false)]
pub fn chain_run<T: View, M: MiddleWare<T>>(ms: &Vec<M>, t: T) -> (out: Result<T, Response>)
    ensures
        chain_ensures(ms@, t@, mw_out_view(out)),
{
    let ghost t0 = t@;
    let mut cur = t;
    proof {
        assert(ms@.skip(0) =~= ms@);
    }
    let mut i: usize = 0;
    while i < ms.len()
        invariant
            i <= ms@.len(),
            forall|fin: Result<T::V, RespView>|
                #[trigger] chain_ensures(ms@.skip(i as int), cur@, fin)
                    ==> chain_ensures(ms@, t0, fin),
        decreases ms@.len() - i,
    {
        let ghost suffix = ms@.skip(i as int);
        let ghost curv = cur@;
        proof {
            assert(suffix.first() == ms@[i as int]);
            assert(suffix.drop_first() =~= ms@.skip(i + 1));
        }
        let step = ms[i].call(cur);
        match step {
            Ok(next) => {
                proof {
                    assert forall|fin: Result<T::V, RespView>|
                        #[trigger] chain_ensures(ms@.skip(i + 1), next@, fin)
                            implies chain_ensures(ms@, t0, fin) by {
                        lemma_chain_step(suffix, curv, Ok(next@), fin);
                    }
                }
                cur = next;
            }
            Err(resp) => {
                proof {
                    lemma_chain_step(suffix, curv, Err(resp@), Err(resp@));
                }
                return Err(resp);
            }
        }
        i = i + 1;
    }
    proof {
        assert(ms@.skip(ms@.len() as int) =~= Seq::<M>::empty());
        assert(chain_ensures(ms@.skip(ms@.len() as int), cur@, Ok::<T::V, RespView>(cur@)));
    }
    Ok(cur)
}

impl<T: View, M: MiddleWare<T>> MiddleWare<T> for Vec<M> {
    /// A vector of middlewares behaves as the fold of its elements.
    open spec fn call_ensures(&self, t: T::V, out: Result<T::V, RespView>) -> bool {
        chain_ensures(self@, t, out)
    }

    /// Runs the chain left to right, stopping at the first middleware
    /// that answers with an early response.
    fn call(&self, t: T) -> (out: Result<T, Response>) {
        chain_run(self, t)
    }
}

/// A gate middleware: passes requests through unchanged, or refuses them
/// all with a fixed early response, as configured.
pub struct Guard {
    pub allow: bool,
    pub deny_status: u16,
    pub deny_body: String,
}

impl MiddleWare<Request> for Guard {
    open spec fn call_ensures(
        &self,
        t: ReqView,
        out: Result<ReqView, RespView>,
    ) -> bool {
        if self.allow {
            out == Ok::<ReqView, RespView>(t)
        } else {
            out matches Err(r) && r.status == clamp_status(self.deny_status)
                && r.body == encode_utf8(self.deny_body@)
        }
    }

    fn call(&self, t: Request) -> (out: Result<Request, Response>) {
        if self.allow {
            Ok(t)
        } else {
            let status = clamped(self.deny_status);
            Err(Response::new().with_status(status).with_text(self.deny_body.as_str()))
        }
    }
}

/// A response middleware that stamps one header onto every response that
/// passes it, the way a server header is added before serialization.
pub struct HeaderStamp {
    pub name: String,
    pub value: String,
}

impl MiddleWare<Response> for HeaderStamp {
    open spec fn call_ensures(&self, t: RespView, out: Result<RespView, RespView>) -> bool {
        out == Ok::<RespView, RespView>(t.with_header(self.name@, self.value@))
    }

    fn call(&self, t: Response) -> (out: Result<Response, Response>) {
        let mut r = t;
        r.set_header(self.name.as_str(), self.value.clone());
        Ok(r)
    }
}

} // verus!
