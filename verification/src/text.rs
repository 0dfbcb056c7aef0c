//! Character-level helpers for the annotated-value steps: the Unicode
//! uppercase mapping (named, computed by the standard library) and a verified
//! split on single spaces.

use vstd::prelude::*;
use vstd::string::StrSliceExecFns;

verus! {

/// The Unicode uppercase mapping computed by `str::to_uppercase`: a function
/// of the characters alone.
pub uninterp spec fn upper_of(s: Seq<char>) -> Seq<char>;

/// Relies on `str::to_uppercase`: returns the uppercase equivalent of the
/// string, determined by its characters alone.
#[verifier::external_body]
pub(crate) fn uppercase(s: &str) -> (r: String)
    ensures
        r@ == upper_of(s@),
{
    s.to_uppercase()
}

/// The pieces of `s` between occurrences of the space character, in order:
/// what splitting on `' '` yields. An empty sequence has one empty piece.
pub open spec fn split_spaces(s: Seq<char>) -> Seq<Seq<char>>
    decreases s.len(),
{
    if s.len() == 0 {
        seq![Seq::<char>::empty()]
    } else if s[0] == ' ' {
        seq![Seq::<char>::empty()] + split_spaces(s.skip(1))
    } else {
        let rest = split_spaces(s.skip(1));
        seq![seq![s[0]] + rest[0]] + rest.skip(1)
    }
}

/// The views of a sequence of strings: each string as its characters.
pub open spec fn views_of(v: Seq<String>) -> Seq<Seq<char>> {
    v.map_values(|w: String| w@)
}

/// Where the first `j` characters of `t` hold no space and position `j` is a
/// space or the end, the first piece of `t` is exactly those `j` characters,
/// and the rest of the pieces split what follows the space.
pub proof fn lemma_split_word(t: Seq<char>, j: int)
    requires
        0 <= j <= t.len(),
        forall|k: int| 0 <= k < j ==> t[k] != ' ',
        j == t.len() || t[j] == ' ',
    ensures
        split_spaces(t) == if j == t.len() {
            seq![t.subrange(0, j)]
        } else {
            seq![t.subrange(0, j)] + split_spaces(t.subrange(j + 1, t.len() as int))
        },
    decreases t.len(),
{
    if t.len() == 0 {
        assert(t.subrange(0, 0) =~= Seq::<char>::empty());
        assert(split_spaces(t) =~= seq![t.subrange(0, 0)]);
    } else if j == 0 {
        assert(t.subrange(0, 0) =~= Seq::<char>::empty());
        assert(t.subrange(1, t.len() as int) =~= t.skip(1));
        assert(split_spaces(t) =~= seq![t.subrange(0, 0)] + split_spaces(
            t.subrange(1, t.len() as int),
        ));
    } else {
        let t1 = t.skip(1);
        assert(forall|k: int| 0 <= k < j - 1 ==> t1[k] != ' ');
        lemma_split_word(t1, j - 1);
        let rest = split_spaces(t1);
        if j == t.len() {
            assert(t1.subrange(0, j - 1) =~= t1);
            assert(rest[0] == t1);
            assert(seq![t[0]] + t1 =~= t);
            assert(rest.skip(1) =~= Seq::<Seq<char>>::empty());
            assert(t.subrange(0, j) =~= t);
            assert(split_spaces(t) =~= seq![t.subrange(0, j)]);
        } else {
            let tail = split_spaces(t1.subrange(j, t1.len() as int));
            assert(rest[0] == t1.subrange(0, j - 1));
            assert(seq![t[0]] + t1.subrange(0, j - 1) =~= t.subrange(0, j));
            assert(rest.skip(1) =~= tail);
            assert(t1.subrange(j, t1.len() as int) =~= t.subrange(j + 1, t.len() as int));
            assert(split_spaces(t) =~= seq![t.subrange(0, j)] + split_spaces(
                t.subrange(j + 1, t.len() as int),
            ));
        }
    }
}

/// Splits `s` on single spaces into owned strings, exactly as `split_spaces`
/// describes.
pub(crate) fn words_of(s: &str) -> (v: Vec<String>)
    ensures
        views_of(v@) == split_spaces(s@),
{
    let n = s.unicode_len();
    let mut result: Vec<String> = Vec::new();
    let mut ws: usize = 0;
    proof {
        assert(s@.skip(0) =~= s@);
        assert(views_of(result@) =~= Seq::<Seq<char>>::empty());
        assert(views_of(result@) + split_spaces(s@) =~= split_spaces(s@));
    }
    loop
        invariant_except_break
            split_spaces(s@) == views_of(result@) + split_spaces(s@.skip(ws as int)),
        invariant
            n == s@.len(),
            ws <= n,
        ensures
            views_of(result@) == split_spaces(s@),
        decreases n - ws,
    {
        let ghost ws0 = ws as int;
        let mut j = ws;
        while j < n && s.get_char(j) != ' '
            invariant
                n == s@.len(),
                ws <= j <= n,
                forall|k: int| ws <= k < j ==> s@[k] != ' ',
            decreases n - j,
        {
            j += 1;
        }
        let ghost r0 = result@;
        let ghost t = s@.skip(ws0);
        let w = s.substring_char(ws, j).to_owned();
        result.push(w);
        proof {
            lemma_split_word(t, j - ws0);
            assert(t.subrange(0, j - ws0) =~= s@.subrange(ws0, j as int));
            assert(w@ == t.subrange(0, j - ws0));
            assert(views_of(result@) =~= views_of(r0).push(w@));
        }
        if j == n {
            proof {
                assert(split_spaces(t) == seq![w@]);
                assert(views_of(result@) =~= views_of(r0) + seq![w@]);
                assert(views_of(result@) =~= split_spaces(s@));
            }
            break;
        }
        ws = j + 1;
        proof {
            assert(t.subrange(j - ws0 + 1, t.len() as int) =~= s@.skip(ws as int));
            assert(split_spaces(t) == seq![w@] + split_spaces(s@.skip(ws as int)));
            assert(views_of(result@) + split_spaces(s@.skip(ws as int)) =~= (views_of(r0) + seq![
                w@,
            ]) + split_spaces(s@.skip(ws as int)));
            assert(views_of(r0) + (seq![w@] + split_spaces(s@.skip(ws as int))) =~= (views_of(r0)
                + seq![w@]) + split_spaces(s@.skip(ws as int)));
        }
    }
    result
}

} // verus!
