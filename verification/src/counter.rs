//! The cost-counting monad: a pair of a value and an accumulated cost, with
//! Kleisli composition (`fish_counter`), `bind`, `join` and three equivalent
//! `fmap` forms, and the functor and monad laws.

use crate::text::{split_spaces, upper_of, views_of};
use vstd::prelude::*;

verus! {

/// A value annotated with the accumulated cost of producing it.
pub type Counter<T> = (T, u32);

/// An uppercasing step: contributes cost 1.
pub fn to_upper_case(a: String) -> (r: Counter<String>)
    ensures
        r.0@ == upper_of(a@),
        r.1 == 1u32,
{
    (crate::text::uppercase(a.as_str()), 1)
}

/// A split-into-words step: contributes cost 1.
pub fn to_words(a: String) -> (r: Counter<Vec<String>>)
    ensures
        views_of(r.0@) == split_spaces(a@),
        r.1 == 1u32,
{
    (crate::text::words_of(a.as_str()), 1)
}

/// The plain identity function.
pub fn id<A>(x: A) -> (r: A)
    ensures
        r == x,
{
    x
}

/// The monadic return: annotates a value with cost 0.
pub fn return_counter<A>(a: A) -> (r: Counter<A>)
    ensures
        r == (a, 0u32),
{
    (a, 0)
}

/// A function behaves as the plain identity when its only possible outcome
/// on `x` is `x` itself.
pub open spec fn is_identity_fn<A, F: Fn(A) -> A>(f: F) -> bool {
    forall|x: A, y: A| call_ensures(f, (x,), y) ==> y == x
}

/// A step behaves as the monadic return when its only possible outcome on
/// `a` is `(a, 0)`.
pub open spec fn is_return_step<A, F: Fn(A) -> Counter<A>>(f: F) -> bool {
    forall|a: A, c: Counter<A>| call_ensures(f, (a,), c) ==> c == (a, 0u32)
}

/// When the composite of `m1` and `m2` may be called on `a`: `m1` must be
/// callable, `m2` must accept whatever value `m1` can produce, and the two
/// costs must fit when added.
pub open spec fn fish_pre<A, B, C, M1: Fn(A) -> Counter<B>, M2: Fn(B) -> Counter<C>>(
    m1: M1,
    m2: M2,
    a: A,
) -> bool {
    &&& call_requires(m1, (a,))
    &&& forall|cb: Counter<B>| #[trigger] call_ensures(m1, (a,), cb) ==> {
        &&& call_requires(m2, (cb.0,))
        &&& forall|cc: Counter<C>| #[trigger] call_ensures(m2, (cb.0,), cc) ==> cb.1 + cc.1
            <= u32::MAX
    }
}

/// What the composite of `m1` and `m2` returns on `a`: `m2`'s value on
/// `m1`'s value, annotated with the sum of the two costs.
pub open spec fn fish_post<A, B, C, M1: Fn(A) -> Counter<B>, M2: Fn(B) -> Counter<C>>(
    m1: M1,
    m2: M2,
    a: A,
    r: Counter<C>,
) -> bool {
    exists|cb: Counter<B>, cc: Counter<C>|
        {
            &&& #[trigger] call_ensures(m1, (a,), cb)
            &&& #[trigger] call_ensures(m2, (cb.0,), cc)
            &&& r.0 == cc.0
            &&& r.1 == cb.1 + cc.1
        }
}

/// Kleisli composition for `Counter`: applies `m1`, feeds its value to `m2`,
/// and adds the two costs.
pub fn fish_counter<A, B, C, M1: Fn(A) -> Counter<B>, M2: Fn(B) -> Counter<C>>(
    m1: M1,
    m2: M2,
) -> (r: impl Fn(A) -> Counter<C>)
    ensures
        forall|a: A| fish_pre(m1, m2, a) ==> #[trigger] call_requires(r, (a,)),
        forall|a: A, c: Counter<C>| #[trigger] call_ensures(r, (a,), c) ==> fish_post(m1, m2, a, c),
{
    move |a: A| -> (c: Counter<C>)
        requires
            fish_pre(m1, m2, a),
        ensures
            fish_post(m1, m2, a, c),
        {
            let (b, n1) = m1(a);
            let (cv, n2) = m2(b);
            (cv, n1 + n2)
        }
}

/// When `bind` may be called: the step must accept the carried value, and
/// the costs must fit when added.
pub open spec fn bind_pre<A, B, F: Fn(A) -> Counter<B>>(c: Counter<A>, f: F) -> bool {
    &&& call_requires(f, (c.0,))
    &&& forall|out: Counter<B>| #[trigger] call_ensures(f, (c.0,), out) ==> c.1 + out.1
        <= u32::MAX
}

/// What `bind` returns: the step's value on the carried value, annotated
/// with the sum of the carried and the step's costs.
pub open spec fn bind_post<A, B, F: Fn(A) -> Counter<B>>(
    c: Counter<A>,
    f: F,
    r: Counter<B>,
) -> bool {
    exists|out: Counter<B>|
        #[trigger] call_ensures(f, (c.0,), out) && r.0 == out.0 && r.1 == c.1 + out.1
}

/// Unpacks `(a, n1)`, applies the step to `a`, and adds the costs.
pub fn bind_counter<A, B, F: Fn(A) -> Counter<B>>(c: Counter<A>, f: F) -> (r: Counter<B>)
    requires
        bind_pre(c, f),
    ensures
        bind_post(c, f, r),
{
    let (a, n1) = c;
    let (b, n2) = f(a);
    (b, n1 + n2)
}

/// Flattens a nested pair, adding the inner and outer costs.
pub fn join_counter<A>(counter: Counter<Counter<A>>) -> (r: Counter<A>)
    requires
        counter.0.1 + counter.1 <= u32::MAX,
    ensures
        r == (counter.0.0, (counter.0.1 + counter.1) as u32),
{
    let ((a, n1), n2) = counter;
    (a, n1 + n2)
}

/// What wrapping a function's result with the monadic return yields on `x`:
/// an outcome of `f` on `x`, annotated with cost 0.
pub open spec fn wraps_result<A, B, F: Fn(A) -> B>(f: F, x: A, c: Counter<B>) -> bool {
    exists|b: B| #[trigger] call_ensures(f, (x,), b) && c == (b, 0u32)
}

/// What any `fmap` form returns: the transformed value with the cost
/// untouched.
pub open spec fn fmap_post<A, B, F: Fn(A) -> B>(f: F, ca: Counter<A>, cb: Counter<B>) -> bool {
    exists|b: B| #[trigger] call_ensures(f, (ca.0,), b) && cb == (b, ca.1)
}

/// Lifts a plain function over `Counter`, built from `fish_counter` with the
/// identity and the monadic return.
pub fn fmap_counter<A, B, F: Fn(A) -> B>(f: F) -> (r: impl Fn(Counter<A>) -> Counter<B>)
    ensures
        forall|ca: Counter<A>| call_requires(f, (ca.0,)) ==> #[trigger] call_requires(r, (ca,)),
        forall|ca: Counter<A>, cb: Counter<B>| #[trigger] call_ensures(r, (ca,), cb) ==> fmap_post(f, ca, cb),
{
    let f0: Ghost<F> = Ghost(f);
    let wrap = (move |x: A| -> (c: Counter<B>)
        requires
            call_requires(f0@, (x,)),
        ensures
            wraps_result(f0@, x, c),
        {
            return_counter(f(x))
        });
    let g = fish_counter(id, wrap);
    proof {
        assert forall|ca: Counter<A>| call_requires(f, (ca.0,)) implies call_requires(
            g,
            (ca,),
        ) by {
            assert(fish_pre(id, wrap, ca));
        }
        assert forall|ca: Counter<A>, cb: Counter<B>|
            call_ensures(g, (ca,), cb) implies fmap_post(f, ca, cb) by {
            assert(fish_post(id, wrap, ca, cb));
            let (cm, cc) = choose|cm: Counter<A>, cc: Counter<B>|
                {
                    &&& #[trigger] call_ensures(id, (ca,), cm)
                    &&& #[trigger] call_ensures(wrap, (cm.0,), cc)
                    &&& cb.0 == cc.0
                    &&& cb.1 == cm.1 + cc.1
                };
            let b = choose|b: B| #[trigger] call_ensures(f, (cm.0,), b) && cc == (b, 0u32);
            assert(cb == (b, ca.1));
        }
    }
    g
}

/// Lifts a plain function over `Counter` by direct pair mapping.
pub fn fmap_counter2<A, B, F: Fn(A) -> B>(f: F) -> (r: impl Fn(Counter<A>) -> Counter<B>)
    ensures
        forall|ca: Counter<A>| call_requires(f, (ca.0,)) ==> #[trigger] call_requires(r, (ca,)),
        forall|ca: Counter<A>, cb: Counter<B>| #[trigger] call_ensures(r, (ca,), cb) ==> fmap_post(f, ca, cb),
{
    move |ca: Counter<A>| -> (cb: Counter<B>)
        requires
            call_requires(f, (ca.0,)),
        ensures
            fmap_post(f, ca, cb),
        {
            let (a, n) = ca;
            (f(a), n)
        }
}

/// Lifts a plain function over `Counter`, built from `bind_counter` with the
/// monadic return.
pub fn fmap_counter3<A, B, F: Fn(A) -> B>(f: F) -> (r: impl Fn(Counter<A>) -> Counter<B>)
    ensures
        forall|ca: Counter<A>| call_requires(f, (ca.0,)) ==> #[trigger] call_requires(r, (ca,)),
        forall|ca: Counter<A>, cb: Counter<B>| #[trigger] call_ensures(r, (ca,), cb) ==> fmap_post(f, ca, cb),
{
    move |ca: Counter<A>| -> (cb: Counter<B>)
        requires
            call_requires(f, (ca.0,)),
        ensures
            fmap_post(f, ca, cb),
        {
            bind_counter(
                ca,
                (|x: A| -> (c: Counter<B>)
                    requires
                        call_requires(f, (x,)),
                    ensures
                        wraps_result(f, x, c),
                    {
                        return_counter(f(x))
                    }),
            )
        }
}

/// Binds through `join` and `fmap`: flattening the lifted step gives exactly
/// the behaviour of `bind_counter`.
pub fn bind_counter2<A, B, F: Fn(A) -> Counter<B>>(counter: Counter<A>, f: F) -> (r: Counter<B>)
    requires
        bind_pre(counter, f),
    ensures
        bind_post(counter, f, r),
{
    let g = fmap_counter(f);
    let nested = g(counter);
    proof {
        assert(fmap_post(f, counter, nested));
        let out = choose|out: Counter<B>|
            #[trigger] call_ensures(f, (counter.0,), out) && nested == (out, counter.1);
        assert(counter.1 + out.1 <= u32::MAX);
    }
    let r = join_counter(nested);
    proof {
        assert(fmap_post(f, counter, nested));
        let out = choose|out: Counter<B>|
            #[trigger] call_ensures(f, (counter.0,), out) && nested == (out, counter.1);
        assert(r.0 == out.0 && r.1 == counter.1 + out.1);
    }
    r
}

/// Left unit law: every outcome of `fish_counter(return_counter, m)` on `a`
/// is an outcome of `m` on `a` — prefixing the return changes neither the
/// value nor the cost.
pub proof fn lemma_fish_left_unit<A, C, M1: Fn(A) -> Counter<A>, M2: Fn(A) -> Counter<C>>(
    m1: M1,
    m2: M2,
    a: A,
    r: Counter<C>,
)
    requires
        is_return_step(m1),
        fish_post(m1, m2, a, r),
    ensures
        call_ensures(m2, (a,), r),
{
    let (cb, cc) = choose|cb: Counter<A>, cc: Counter<C>|
        {
            &&& #[trigger] call_ensures(m1, (a,), cb)
            &&& #[trigger] call_ensures(m2, (cb.0,), cc)
            &&& r.0 == cc.0
            &&& r.1 == cb.1 + cc.1
        };
    assert(cb == (a, 0u32));
    assert(r == (cc.0, cc.1));
}

/// Right unit law: every outcome of `fish_counter(m, return_counter)` on `a`
/// is an outcome of `m` on `a`.
pub proof fn lemma_fish_right_unit<A, B, M1: Fn(A) -> Counter<B>, M2: Fn(B) -> Counter<B>>(
    m1: M1,
    m2: M2,
    a: A,
    r: Counter<B>,
)
    requires
        is_return_step(m2),
        fish_post(m1, m2, a, r),
    ensures
        call_ensures(m1, (a,), r),
{
    let (cb, cc) = choose|cb: Counter<B>, cc: Counter<B>|
        {
            &&& #[trigger] call_ensures(m1, (a,), cb)
            &&& #[trigger] call_ensures(m2, (cb.0,), cc)
            &&& r.0 == cc.0
            &&& r.1 == cb.1 + cc.1
        };
    assert(cc == (cb.0, 0u32));
    assert(r == (cb.0, cb.1));
}

/// What a chain of three steps returns on `a`: the third step's value, with
/// the three costs summed.
pub open spec fn fish_three_post<
    A,
    B,
    C,
    D,
    M1: Fn(A) -> Counter<B>,
    M2: Fn(B) -> Counter<C>,
    M3: Fn(C) -> Counter<D>,
>(m1: M1, m2: M2, m3: M3, a: A, r: Counter<D>) -> bool {
    exists|cb: Counter<B>, cc: Counter<C>, cd: Counter<D>|
        {
            &&& #[trigger] call_ensures(m1, (a,), cb)
            &&& #[trigger] call_ensures(m2, (cb.0,), cc)
            &&& #[trigger] call_ensures(m3, (cc.0,), cd)
            &&& r.0 == cd.0
            &&& r.1 == cb.1 + cc.1 + cd.1
        }
}

/// Kleisli associativity, left association: every outcome of
/// `fish_counter(fish_counter(m1, m2), m3)` on `a` is an outcome of the
/// three-step chain, costs summed in one way.
pub proof fn lemma_fish_assoc_left<
    A,
    B,
    C,
    D,
    M1: Fn(A) -> Counter<B>,
    M2: Fn(B) -> Counter<C>,
    M3: Fn(C) -> Counter<D>,
    G: Fn(A) -> Counter<C>,
>(m1: M1, m2: M2, m3: M3, g: G, a: A, r: Counter<D>)
    requires
        forall|x: A, c: Counter<C>| call_ensures(g, (x,), c) ==> fish_post(m1, m2, x, c),
        fish_post(g, m3, a, r),
    ensures
        fish_three_post(m1, m2, m3, a, r),
{
    let (cg, cd) = choose|cg: Counter<C>, cd: Counter<D>|
        {
            &&& #[trigger] call_ensures(g, (a,), cg)
            &&& #[trigger] call_ensures(m3, (cg.0,), cd)
            &&& r.0 == cd.0
            &&& r.1 == cg.1 + cd.1
        };
    assert(fish_post(m1, m2, a, cg));
    let (cb, cc) = choose|cb: Counter<B>, cc: Counter<C>|
        {
            &&& #[trigger] call_ensures(m1, (a,), cb)
            &&& #[trigger] call_ensures(m2, (cb.0,), cc)
            &&& cg.0 == cc.0
            &&& cg.1 == cb.1 + cc.1
        };
    assert(call_ensures(m3, (cc.0,), cd));
}

/// Kleisli associativity, right association: every outcome of
/// `fish_counter(m1, fish_counter(m2, m3))` on `a` is an outcome of the same
/// three-step chain, so both associations refine one behaviour.
pub proof fn lemma_fish_assoc_right<
    A,
    B,
    C,
    D,
    M1: Fn(A) -> Counter<B>,
    M2: Fn(B) -> Counter<C>,
    M3: Fn(C) -> Counter<D>,
    H: Fn(B) -> Counter<D>,
>(m1: M1, m2: M2, m3: M3, h: H, a: A, r: Counter<D>)
    requires
        forall|b: B, c: Counter<D>| call_ensures(h, (b,), c) ==> fish_post(m2, m3, b, c),
        fish_post(m1, h, a, r),
    ensures
        fish_three_post(m1, m2, m3, a, r),
{
    let (cb, ch) = choose|cb: Counter<B>, ch: Counter<D>|
        {
            &&& #[trigger] call_ensures(m1, (a,), cb)
            &&& #[trigger] call_ensures(h, (cb.0,), ch)
            &&& r.0 == ch.0
            &&& r.1 == cb.1 + ch.1
        };
    assert(fish_post(m2, m3, cb.0, ch));
    let (cc, cd) = choose|cc: Counter<C>, cd: Counter<D>|
        {
            &&& #[trigger] call_ensures(m2, (cb.0,), cc)
            &&& #[trigger] call_ensures(m3, (cc.0,), cd)
            &&& ch.0 == cd.0
            &&& ch.1 == cc.1 + cd.1
        };
    assert(call_ensures(m3, (cc.0,), cd));
}

/// Functor identity law: mapping a function that behaves as the identity
/// over a counter changes nothing.
pub proof fn lemma_fmap_identity<A, F: Fn(A) -> A>(f: F, ca: Counter<A>, cb: Counter<A>)
    requires
        is_identity_fn(f),
        fmap_post(f, ca, cb),
    ensures
        cb == ca,
{
    let b = choose|b: A| #[trigger] call_ensures(f, (ca.0,), b) && cb == (b, ca.1);
    assert(ca == (ca.0, ca.1));
}

/// Functor composition law: every outcome of mapping a composed function is
/// an outcome of mapping each function in sequence.
pub proof fn lemma_fmap_composition<A, B, C, F: Fn(A) -> B, G: Fn(B) -> C, H: Fn(A) -> C>(
    f: F,
    g: G,
    h: H,
    ca: Counter<A>,
    cc: Counter<C>,
)
    requires
        forall|x: A, z: C| #[trigger] call_ensures(h, (x,), z) ==> exists|y: B|
            #[trigger] call_ensures(f, (x,), y) && call_ensures(g, (y,), z),
        fmap_post(h, ca, cc),
    ensures
        exists|cm: Counter<B>| #[trigger] fmap_post(f, ca, cm) && fmap_post(g, cm, cc),
{
    let z = choose|z: C| #[trigger] call_ensures(h, (ca.0,), z) && cc == (z, ca.1);
    let y = choose|y: B| #[trigger] call_ensures(f, (ca.0,), y) && call_ensures(g, (y,), z);
    let cm = (y, ca.1);
    assert(call_ensures(f, (ca.0,), y) && cm == (y, ca.1));
    assert(fmap_post(f, ca, cm));
    assert(call_ensures(g, (cm.0,), z) && cc == (z, cm.1));
    assert(fmap_post(g, cm, cc));
}

/// The three `fmap` forms agree: they share one contract, so with a
/// deterministic transform every one of them yields the same pair — the
/// transformed value with the cost untouched.
pub proof fn lemma_fmap_variants_agree<A, B, F: Fn(A) -> B>(
    f: F,
    fs: spec_fn(A) -> B,
    ca: Counter<A>,
    r1: Counter<B>,
    r2: Counter<B>,
)
    requires
        forall|x: A, y: B| call_ensures(f, (x,), y) ==> y == fs(x),
        fmap_post(f, ca, r1),
        fmap_post(f, ca, r2),
    ensures
        r1 == (fs(ca.0), ca.1),
        r2 == r1,
{
}

} // verus!
