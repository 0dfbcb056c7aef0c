//! A two-case sum type, its bridge to an optional value, and the coproduct's
//! universal morphism (`factorizer`).

use vstd::prelude::*;

verus! {

/// A tagged union holding exactly one of `Left(L)` or `Right(R)`.
#[derive(PartialEq, Debug, Copy, Clone)]
pub enum Either<L, R> {
    Left(L),
    Right(R),
}

/// The value `either_to_maybe` returns: `Left(())` carries no value,
/// `Right(a)` carries `a`.
pub open spec fn spec_either_to_maybe<A>(x: Either<(), A>) -> Option<A> {
    match x {
        Either::Left(_) => None,
        Either::Right(a) => Some(a),
    }
}

/// The value `maybe_to_either` returns: the inverse of `spec_either_to_maybe`.
pub open spec fn spec_maybe_to_either<A>(x: Option<A>) -> Either<(), A> {
    match x {
        None => Either::Left(()),
        Some(a) => Either::Right(a),
    }
}

/// Maps `Left(())` to `None` and `Right(a)` to `Some(a)`.
pub fn either_to_maybe<A>(x: Either<(), A>) -> (r: Option<A>)
    ensures
        r == spec_either_to_maybe(x),
{
    match x {
        Either::Left(_) => None,
        Either::Right(a) => Some(a),
    }
}

/// Maps `None` to `Left(())` and `Some(a)` to `Right(a)`.
pub fn maybe_to_either<A>(x: Option<A>) -> (r: Either<(), A>)
    ensures
        r == spec_maybe_to_either(x),
{
    match x {
        None => Either::Left(()),
        Some(a) => Either::Right(a),
    }
}

/// Round-trip law: converting a sum value to an optional and back restores it.
pub proof fn lemma_either_maybe_round_trip<A>(x: Either<(), A>)
    ensures
        spec_maybe_to_either(spec_either_to_maybe(x)) == x,
{
    match x {
        Either::Left(u) => {
            assert(spec_maybe_to_either(spec_either_to_maybe(x)) == Either::<(), A>::Left(u));
        },
        Either::Right(a) => {
            assert(spec_maybe_to_either(spec_either_to_maybe(x)) == Either::<(), A>::Right(a));
        },
    }
}

/// Round-trip law, the other direction: an optional value survives the trip
/// through the sum type.
pub proof fn lemma_maybe_either_round_trip<A>(x: Option<A>)
    ensures
        spec_either_to_maybe(spec_maybe_to_either(x)) == x,
{
}

/// A sample left-branch function: the identity on integers.
pub fn i(n: i32) -> (r: i32)
    ensures
        r == n,
{
    n
}

/// A sample right-branch function: maps `true` to `0` and `false` to `1`.
pub fn j(b: bool) -> (r: i32)
    ensures
        r == (if b { 0i32 } else { 1i32 }),
{
    if b {
        0
    } else {
        1
    }
}

/// When the dispatcher built from `f` and `g` may be called on `x`: the
/// branch function that `x` selects must itself be callable.
pub open spec fn dispatch_pre<A, B, C, FA: Fn(A) -> C, FB: Fn(B) -> C>(
    f: FA,
    g: FB,
    x: Either<A, B>,
) -> bool {
    match x {
        Either::Left(a) => call_requires(f, (a,)),
        Either::Right(b) => call_requires(g, (b,)),
    }
}

/// What the dispatcher built from `f` and `g` returns on `x`: an outcome of
/// `f` on `Left(a)`, an outcome of `g` on `Right(b)`.
pub open spec fn dispatch_post<A, B, C, FA: Fn(A) -> C, FB: Fn(B) -> C>(
    f: FA,
    g: FB,
    x: Either<A, B>,
    y: C,
) -> bool {
    match x {
        Either::Left(a) => call_ensures(f, (a,), y),
        Either::Right(b) => call_ensures(g, (b,), y),
    }
}

/// The coproduct's universal morphism: given two functions with a common
/// result type, returns the function that dispatches a sum value to the
/// matching branch, so that `factorizer(f, g)(Left(a))` behaves as `f(a)`
/// and `factorizer(f, g)(Right(b))` behaves as `g(b)`.
pub fn factorizer<A, B, C, FA: Fn(A) -> C, FB: Fn(B) -> C>(f: FA, g: FB) -> (m: impl Fn(
    Either<A, B>,
) -> C)
    ensures
        forall|x: Either<A, B>| dispatch_pre(f, g, x) ==> #[trigger] call_requires(m, (x,)),
        forall|x: Either<A, B>, y: C| #[trigger] call_ensures(m, (x,), y) ==> dispatch_post(f, g, x, y),
{
    move |x: Either<A, B>| -> (y: C)
        requires
            dispatch_pre(f, g, x),
        ensures
            dispatch_post(f, g, x, y),
        {
            match x {
                Either::Left(a) => f(a),
                Either::Right(b) => g(b),
            }
        }
}

} // verus!
