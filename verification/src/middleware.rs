//! The middleware chain: what runs next when a request passes through the
//! middleware in front of an endpoint.
use vstd::prelude::*;

verus! {

/// The rest of a middleware chain: the middleware still to run, in order,
/// and the endpoint that answers after them.
pub struct Next<'a, E, M> {
    pub endpoint: E,
    pub next_middleware: &'a [M],
}

/// What one step of a chain with these middleware does: the first
/// middleware and the ones after it, or nothing where none is left (the
/// endpoint is called).
pub open spec fn step_spec<M>(m: Seq<M>) -> Option<(M, Seq<M>)> {
    if m.len() > 0 {
        Some((m[0], m.drop_first()))
    } else {
        None
    }
}

/// The middleware still to run after `k` steps of a chain.
pub open spec fn remaining_after<M>(m: Seq<M>, k: nat) -> Seq<M>
    decreases k,
{
    if k == 0 {
        m
    } else {
        match step_spec(remaining_after(m, (k - 1) as nat)) {
            Some(found) => found.1,
            None => Seq::empty(),
        }
    }
}

/// A chain hands the request to its middleware in slice order, each once,
/// and after the last of them to the endpoint: step `k` runs middleware `k`
/// for every `k` below their number, and the step after them calls the
/// endpoint.
pub proof fn law_chain_runs_in_order<M>(m: Seq<M>, k: nat)
    requires
        k <= m.len(),
    ensures
        remaining_after(m, k) == m.skip(k as int),
        k < m.len() ==> step_spec(remaining_after(m, k)) == Some((m[k as int], m.skip(k + 1int))),
        k == m.len() ==> step_spec(remaining_after(m, k)) is None,
    decreases k,
{
    if k == 0 {
        assert(m.skip(0) =~= m);
    } else {
        law_chain_runs_in_order(m, (k - 1) as nat);
        assert(m.skip(k - 1).drop_first() =~= m.skip(k as int));
    }
    if k < m.len() {
        assert(m.skip(k as int)[0] == m[k as int]);
        assert(m.skip(k as int).drop_first() =~= m.skip(k + 1int));
    }
}

/// What a chain does next.
pub enum Step<'a, E, M> {
    /// Run this middleware, handing it the rest of the chain.
    Middleware(&'a M, Next<'a, E, M>),
    /// No middleware is left: call the endpoint.
    Endpoint(E),
}

impl<'a, E, M> Next<'a, E, M> {
    /// The first middleware still to run, with the chain after it; or the
    /// endpoint, when no middleware is left.
    pub fn step(self) -> (s: Step<'a, E, M>)
        ensures
            match s {
                Step::Middleware(current, rest) => {
                    &&& self.next_middleware@.len() > 0
                    &&& *current == self.next_middleware@[0]
                    &&& rest.next_middleware@ == self.next_middleware@.drop_first()
                    &&& rest.endpoint == self.endpoint
                },
                Step::Endpoint(e) => self.next_middleware@.len() == 0 && e == self.endpoint,
            },
            match s {
                Step::Middleware(current, rest) => step_spec(self.next_middleware@) == Some(
                    (*current, rest.next_middleware@),
                ),
                Step::Endpoint(_) => step_spec(self.next_middleware@) is None,
            },
    {
        let n = self.next_middleware.len();
        if n > 0 {
            let current = &self.next_middleware[0];
            let rest = &self.next_middleware[1..n];
            proof {
                assert(rest@ =~= self.next_middleware@.drop_first());
            }
            Step::Middleware(current, Next { endpoint: self.endpoint, next_middleware: rest })
        } else {
            Step::Endpoint(self.endpoint)
        }
    }
}

} // verus!
