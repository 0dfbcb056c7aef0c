//! A two-case result type (`Valid`/`NotValid`) and Kleisli composition of
//! fallible steps, short-circuiting on the first failure.

use vstd::prelude::*;

verus! {

/// The result of a fallible computation: a value, or nothing.
#[derive(PartialEq, Debug)]
pub enum Optional<T> {
    Valid(T),
    NotValid,
}

/// Wraps any value as `Valid(x)`: the monadic return.
pub fn identity<T>(x: T) -> (r: Optional<T>)
    ensures
        r == Optional::Valid(x),
{
    Optional::Valid(x)
}

/// A step behaves as the identity wrap when its only possible outcome on `t`
/// is `Valid(t)`.
pub open spec fn is_identity_step<T, F: Fn(T) -> Optional<T>>(f: F) -> bool {
    forall|t: T, o: Optional<T>| call_ensures(f, (t,), o) ==> o == Optional::Valid(t)
}

/// When the composite of `f1` and `f2` may be called on `x`: `f1` must be
/// callable, and `f2` must accept whatever value `f1` can produce.
pub open spec fn kleisli_pre<T, U, V, F1: Fn(T) -> Optional<U>, F2: Fn(U) -> Optional<V>>(
    f1: F1,
    f2: F2,
    x: T,
) -> bool {
    &&& call_requires(f1, (x,))
    &&& forall|u: U| call_ensures(f1, (x,), Optional::Valid(u)) ==> call_requires(f2, (u,))
}

/// What the composite of `f1` and `f2` returns on `x`: `NotValid` where `f1`
/// fails, and an outcome of `f2` on `f1`'s value where `f1` succeeds.
pub open spec fn kleisli_post<T, U, V, F1: Fn(T) -> Optional<U>, F2: Fn(U) -> Optional<V>>(
    f1: F1,
    f2: F2,
    x: T,
    y: Optional<V>,
) -> bool {
    ||| (call_ensures(f1, (x,), Optional::NotValid) && y == Optional::<V>::NotValid)
    ||| (exists|u: U|
        call_ensures(f1, (x,), Optional::Valid(u)) && #[trigger] call_ensures(f2, (u,), y))
}

/// Kleisli composition for `Optional`: applies `f1`, and on `Valid(u)` feeds
/// `u` to `f2`; on `NotValid` short-circuits without invoking `f2`.
pub fn compose<T, U, V, F1: Fn(T) -> Optional<U>, F2: Fn(U) -> Optional<V>>(
    f1: F1,
    f2: F2,
) -> (r: impl Fn(T) -> Optional<V>)
    ensures
        forall|x: T| kleisli_pre(f1, f2, x) ==> #[trigger] call_requires(r, (x,)),
        forall|x: T, y: Optional<V>| #[trigger] call_ensures(r, (x,), y) ==> kleisli_post(f1, f2, x, y),
{
    move |x: T| -> (y: Optional<V>)
        requires
            kleisli_pre(f1, f2, x),
        ensures
            kleisli_post(f1, f2, x, y),
        {
            match f1(x) {
                Optional::Valid(u) => f2(u),
                Optional::NotValid => Optional::NotValid,
            }
        }
}

/// Left unit law: every outcome of `compose(identity, f)` on `x` is an
/// outcome of `f` on `x`, so composing the identity wrap before a step
/// changes nothing.
pub proof fn lemma_compose_left_unit<T, V, F1: Fn(T) -> Optional<T>, F2: Fn(T) -> Optional<V>>(
    f1: F1,
    f2: F2,
    x: T,
    y: Optional<V>,
)
    requires
        is_identity_step(f1),
        kleisli_post(f1, f2, x, y),
    ensures
        call_ensures(f2, (x,), y),
{
    assert(!call_ensures(f1, (x,), Optional::<T>::NotValid));
    let u = choose|u: T|
        call_ensures(f1, (x,), Optional::Valid(u)) && #[trigger] call_ensures(f2, (u,), y);
    assert(Optional::Valid(u) == Optional::Valid(x));
}

/// Right unit law: every outcome of `compose(f, identity)` on `x` is an
/// outcome of `f` on `x`, so composing the identity wrap after a step
/// changes nothing.
pub proof fn lemma_compose_right_unit<T, U, F1: Fn(T) -> Optional<U>, F2: Fn(U) -> Optional<U>>(
    f1: F1,
    f2: F2,
    x: T,
    y: Optional<U>,
)
    requires
        is_identity_step(f2),
        kleisli_post(f1, f2, x, y),
    ensures
        call_ensures(f1, (x,), y),
{
    if !(call_ensures(f1, (x,), Optional::NotValid) && y == Optional::<U>::NotValid) {
        let u = choose|u: U|
            call_ensures(f1, (x,), Optional::Valid(u)) && #[trigger] call_ensures(f2, (u,), y);
        assert(y == Optional::Valid(u));
    }
}

/// What a chain of three steps returns on `x`: failure propagates from the
/// first failing step, and a value flows through all three.
pub open spec fn kleisli_three_post<
    T,
    U,
    V,
    W,
    F1: Fn(T) -> Optional<U>,
    F2: Fn(U) -> Optional<V>,
    F3: Fn(V) -> Optional<W>,
>(f1: F1, f2: F2, f3: F3, x: T, y: Optional<W>) -> bool {
    ||| (call_ensures(f1, (x,), Optional::NotValid) && y == Optional::<W>::NotValid)
    ||| (exists|u: U|
        call_ensures(f1, (x,), Optional::Valid(u)) && #[trigger] kleisli_post(f2, f3, u, y))
}

/// Associativity, left association: every outcome of
/// `compose(compose(f1, f2), f3)` on `x` is an outcome of the three-step
/// chain `f1`, `f2`, `f3` on `x`.
pub proof fn lemma_compose_assoc_left<
    T,
    U,
    V,
    W,
    F1: Fn(T) -> Optional<U>,
    F2: Fn(U) -> Optional<V>,
    F3: Fn(V) -> Optional<W>,
    G: Fn(T) -> Optional<V>,
>(f1: F1, f2: F2, f3: F3, g: G, x: T, y: Optional<W>)
    requires
        forall|t: T, v: Optional<V>| call_ensures(g, (t,), v) ==> kleisli_post(f1, f2, t, v),
        kleisli_post(g, f3, x, y),
    ensures
        kleisli_three_post(f1, f2, f3, x, y),
{
    if call_ensures(g, (x,), Optional::<V>::NotValid) && y == Optional::<W>::NotValid {
        assert(kleisli_post(f1, f2, x, Optional::<V>::NotValid));
        if !call_ensures(f1, (x,), Optional::<U>::NotValid) {
            let u = choose|u: U|
                call_ensures(f1, (x,), Optional::Valid(u)) && #[trigger] call_ensures(
                    f2,
                    (u,),
                    Optional::<V>::NotValid,
                );
            assert(kleisli_post(f2, f3, u, y));
            assert(kleisli_three_post(f1, f2, f3, x, y));
        }
    } else {
        let v = choose|v: V|
            call_ensures(g, (x,), Optional::Valid(v)) && #[trigger] call_ensures(f3, (v,), y);
        assert(kleisli_post(f1, f2, x, Optional::Valid(v)));
        let u = choose|u: U|
            call_ensures(f1, (x,), Optional::Valid(u)) && #[trigger] call_ensures(
                f2,
                (u,),
                Optional::Valid(v),
            );
        assert(kleisli_post(f2, f3, u, y));
        assert(kleisli_three_post(f1, f2, f3, x, y));
    }
}

/// Associativity, right association: every outcome of
/// `compose(f1, compose(f2, f3))` on `x` is an outcome of the same
/// three-step chain, so both associations refine one behaviour.
pub proof fn lemma_compose_assoc_right<
    T,
    U,
    V,
    W,
    F1: Fn(T) -> Optional<U>,
    F2: Fn(U) -> Optional<V>,
    F3: Fn(V) -> Optional<W>,
    H: Fn(U) -> Optional<W>,
>(f1: F1, f2: F2, f3: F3, h: H, x: T, y: Optional<W>)
    requires
        forall|u: U, w: Optional<W>| call_ensures(h, (u,), w) ==> kleisli_post(f2, f3, u, w),
        kleisli_post(f1, h, x, y),
    ensures
        kleisli_three_post(f1, f2, f3, x, y),
{
    if !(call_ensures(f1, (x,), Optional::<U>::NotValid) && y == Optional::<W>::NotValid) {
        let u = choose|u: U|
            call_ensures(f1, (x,), Optional::Valid(u)) && #[trigger] call_ensures(h, (u,), y);
        assert(kleisli_post(f2, f3, u, y));
        assert(kleisli_three_post(f1, f2, f3, x, y));
    }
}

} // verus!
