//! The writer monad over an integer cost: annotated steps composed so that
//! their costs add. The composition shares its contract with the counter
//! module, whose pairs carry the same shape of annotation.

use crate::counter::{fish_post, fish_pre};
use crate::text::{split_spaces, upper_of, views_of};
use vstd::prelude::*;

verus! {

/// A value annotated with the accumulated cost of producing it.
pub type Writer<T> = (T, u32);

/// An uppercasing step: contributes cost 1.
pub fn to_upper_case(a: String) -> (r: Writer<String>)
    ensures
        r.0@ == upper_of(a@),
        r.1 == 1u32,
{
    (crate::text::uppercase(a.as_str()), 1)
}

/// A split-into-words step: contributes cost 1.
pub fn to_words(a: String) -> (r: Writer<Vec<String>>)
    ensures
        views_of(r.0@) == split_spaces(a@),
        r.1 == 1u32,
{
    (crate::text::words_of(a.as_str()), 1)
}

/// Composes two annotated steps: applies `m1`, feeds its value to `m2`, and
/// adds the two costs.
pub fn compose_writer<A, B, C, M1: Fn(A) -> Writer<B>, M2: Fn(B) -> Writer<C>>(
    m1: M1,
    m2: M2,
) -> (r: impl Fn(A) -> Writer<C>)
    ensures
        forall|a: A| fish_pre(m1, m2, a) ==> #[trigger] call_requires(r, (a,)),
        forall|a: A, c: Writer<C>| #[trigger] call_ensures(r, (a,), c) ==> fish_post(m1, m2, a, c),
{
    move |a: A| -> (c: Writer<C>)
        requires
            fish_pre(m1, m2, a),
        ensures
            fish_post(m1, m2, a, c),
        {
            let (x, c1) = m1(a);
            let (y, c2) = m2(x);
            (y, c1 + c2)
        }
}

} // verus!
