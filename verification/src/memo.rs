//! A generic memoizer: wraps a single-argument function with a cache keyed
//! by its argument, so that repeated calls return the stored result without
//! invoking the function again.

use std::collections::HashMap;
use std::hash::Hash;
use vstd::prelude::*;
use vstd::std_specs::hash::obeys_key_model;

verus! {

broadcast use vstd::std_specs::hash::group_hash_axioms;

/// A wrapped function together with its private cache of results. The cache
/// grows as new arguments arrive and is never evicted.
#[verifier::reject_recursive_types(A)]
#[verifier::reject_recursive_types(B)]
pub struct Memoizer<A: Eq + Hash + Copy, B: Copy, F: Fn(A) -> B> {
    f: F,
    cache: HashMap<A, B>,
}

/// One call of a memoizing wrapper: an argument already cached in `pre`
/// returns the stored result and leaves the cache as it was; a new argument
/// gets one outcome of the function, which is stored.
pub open spec fn memo_step<A, B, F: Fn(A) -> B>(
    pre: Map<A, B>,
    f: F,
    x: A,
    r: B,
    post: Map<A, B>,
) -> bool {
    if pre.contains_key(x) {
        r == pre[x] && post == pre
    } else {
        call_ensures(f, (x,), r) && post == pre.insert(x, r)
    }
}

impl<A: Eq + Hash + Copy, B: Copy, F: Fn(A) -> B> Memoizer<A, B, F> {
    /// The argument-to-result pairs stored so far.
    pub closed spec fn cache_model(&self) -> Map<A, B> {
        self.cache@
    }

    /// The wrapped function.
    pub closed spec fn func(&self) -> F {
        self.f
    }

    /// Calls the wrapper: returns the cached result for a seen argument
    /// without invoking the wrapped function, and otherwise computes, stores
    /// and returns the function's result.
    pub fn call(&mut self, x: A) -> (r: B)
        requires
            obeys_key_model::<A>(),
            !old(self).cache_model().contains_key(x) ==> call_requires(old(self).func(), (x,)),
        ensures
            final(self).func() == old(self).func(),
            memo_step(old(self).cache_model(), old(self).func(), x, r, final(self).cache_model()),
    {
        if self.cache.contains_key(&x) {
            *self.cache.get(&x).unwrap()
        } else {
            let y = (self.f)(x);
            self.cache.insert(x, y);
            y
        }
    }
}

/// Wraps `f` in a memoizing wrapper with an empty cache. Each wrapper owns
/// its own cache, so independently created wrappers never interfere.
pub fn memoized<A: Eq + Hash + Copy, B: Copy, F: Fn(A) -> B>(f: F) -> (m: Memoizer<A, B, F>)
    ensures
        m.func() == f,
        m.cache_model() == Map::<A, B>::empty(),
{
    Memoizer { f, cache: HashMap::new() }
}

/// Repeat-call law: a second call with the same argument returns exactly the
/// value the first call produced and leaves the cache unchanged, whatever
/// the wrapped function might have returned on a fresh call.
pub proof fn lemma_memoize_repeat<A, B, F: Fn(A) -> B>(
    f: F,
    pre: Map<A, B>,
    mid: Map<A, B>,
    post: Map<A, B>,
    x: A,
    r1: B,
    r2: B,
)
    requires
        memo_step(pre, f, x, r1, mid),
        memo_step(mid, f, x, r2, post),
    ensures
        r2 == r1,
        post == mid,
{
}

} // verus!
