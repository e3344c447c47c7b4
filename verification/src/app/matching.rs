//! Fuzzy matching of names.

use vstd::prelude::*;
use vstd::string::*;

use crate::text;

verus! {

/// The first place at or after `from` of a character that is `c` up to the case
/// of ASCII letters; the length of `h` where there is none.
pub open spec fn next_same(h: Seq<char>, c: char, from: int) -> int
    decreases h.len() - from,
{
    if from >= h.len() || text::same_ascii_letter(h[from], c) {
        from
    } else {
        next_same(h, c, from + 1)
    }
}

/// The places in `h`, from `from` on, of the characters of `n`: each the first
/// that is possible after the one before. Spaces in `n` are ignored.
pub open spec fn matched(h: Seq<char>, n: Seq<char>, from: int) -> Option<Seq<int>>
    decreases n.len(),
{
    if n.len() == 0 {
        Some(Seq::empty())
    } else if n[0] == ' ' {
        matched(h, n.skip(1), from)
    } else {
        let k = next_same(h, n[0], from);
        if k < h.len() {
            match matched(h, n.skip(1), k + 1) {
                Some(rest) => Some(seq![k] + rest),
                None => None,
            }
        } else {
            None
        }
    }
}

/// Places as integers.
pub open spec fn places(v: Seq<usize>) -> Seq<int> {
    Seq::new(v.len(), |i: int| v[i] as int)
}

/// Subsequence match: every character of the needle, spaces apart, must occur in
/// order, in either case. Gives the places of the matched characters.
pub fn fuzzy_match(haystack: &str, needle: &str) -> (r: Option<Vec<usize>>)
    ensures
        match r {
            Some(v) => matched(haystack@, needle@, 0) == Some(places(v@)),
            None => matched(haystack@, needle@, 0) is None,
        },
{
    let h = text::chars_of(haystack);
    let n = text::chars_of(needle);
    let mut out: Vec<usize> = Vec::new();
    let mut at: usize = 0;
    let mut i: usize = 0;
    assert(n@.skip(0) =~= n@);
    assert(places(out@) =~= Seq::empty());
    proof {
        match matched(h@, n@, 0) {
            Some(s) => {
                assert(places(out@) + s =~= s);
            },
            None => {},
        }
    }
    while i < n.len()
        invariant
            h@ == haystack@,
            n@ == needle@,
            i <= n@.len(),
            at <= h@.len(),
            match (matched(h@, n@, 0), matched(h@, n@.skip(i as int), at as int)) {
                (Some(all), Some(rest)) => all == places(out@) + rest,
                (None, None) => true,
                _ => false,
            },
        decreases n@.len() - i,
    {
        let c = n[i];
        let ghost rest = n@.skip(i as int);
        assert(rest[0] == c);
        assert(rest.skip(1) =~= n@.skip(i + 1));
        if c != ' ' {
            let ghost start = at as int;
            let mut k: usize = at;
            while k < h.len() && text::lower(h[k]) != text::lower(c)
                invariant
                    start <= k <= h@.len(),
                    next_same(h@, c, start) == next_same(h@, c, k as int),
                decreases h@.len() - k,
            {
                k = k + 1;
            }
            if k == h.len() {
                return None;
            }
            let ghost before = places(out@);
            out.push(k);
            assert(places(out@) =~= before.push(k as int));
            proof {
                match matched(h@, n@.skip(i + 1), k + 1) {
                    Some(tail) => {
                        assert(before + (seq![k as int] + tail) =~= places(out@) + tail);
                    },
                    None => {},
                }
            }
            at = k + 1;
        }
        i = i + 1;
    }
    assert(places(out@) + Seq::empty() =~= places(out@));
    Some(out)
}

// ---- laws ----------------------------------------------------------------

/// `n` without its spaces.
pub open spec fn spaceless(n: Seq<char>) -> Seq<char>
    decreases n.len(),
{
    if n.len() == 0 {
        Seq::empty()
    } else if n[0] == ' ' {
        spaceless(n.skip(1))
    } else {
        seq![n[0]] + spaceless(n.skip(1))
    }
}

/// `at` gives, for each character of `n` that is no space, a place in `h` from
/// `from` on where it stands in either case, each after the one before.
pub open spec fn embeds(h: Seq<char>, n: Seq<char>, from: int, at: Seq<int>) -> bool {
    &&& at.len() == spaceless(n).len()
    &&& forall|i: int|
        0 <= i < at.len() ==> from <= #[trigger] at[i] < h.len() && text::same_ascii_letter(
            h[at[i]],
            spaceless(n)[i],
        )
    &&& forall|i: int, j: int| 0 <= i < j < at.len() ==> #[trigger] at[i] < #[trigger] at[j]
}

proof fn lemma_next_same(h: Seq<char>, c: char, from: int)
    requires
        0 <= from <= h.len(),
    ensures
        from <= next_same(h, c, from) <= h.len(),
        next_same(h, c, from) < h.len() ==> text::same_ascii_letter(
            h[next_same(h, c, from)],
            c,
        ),
        forall|j: int|
            from <= j < next_same(h, c, from) ==> !text::same_ascii_letter(#[trigger] h[j], c),
    decreases h.len() - from,
{
    if from < h.len() && !text::same_ascii_letter(h[from], c) {
        lemma_next_same(h, c, from + 1);
    }
}

/// What a match finds are places in increasing order where the characters of the
/// needle stand, each in either case.
pub proof fn matches_are_subsequences(h: Seq<char>, n: Seq<char>, from: int)
    requires
        0 <= from <= h.len(),
        matched(h, n, from) is Some,
    ensures
        embeds(h, n, from, matched(h, n, from)->Some_0),
    decreases n.len(),
{
    if n.len() > 0 {
        if n[0] == ' ' {
            matches_are_subsequences(h, n.skip(1), from);
        } else {
            let k = next_same(h, n[0], from);
            lemma_next_same(h, n[0], from);
            matches_are_subsequences(h, n.skip(1), k + 1);
            let rest = matched(h, n.skip(1), k + 1)->Some_0;
            let at = matched(h, n, from)->Some_0;
            let m = spaceless(n);
            let m1 = spaceless(n.skip(1));
            assert(at =~= seq![k] + rest);
            assert forall|i: int| 0 <= i < at.len() implies from <= #[trigger] at[i] < h.len()
                && text::same_ascii_letter(h[at[i]], m[i]) by {
                if i > 0 {
                    assert(at[i] == rest[i - 1]);
                    assert(m[i] == m1[i - 1]);
                }
            }
            assert forall|i: int, j: int| 0 <= i < j < at.len() implies #[trigger] at[i]
                < #[trigger] at[j] by {
                assert(at[j] == rest[j - 1]);
                if i > 0 {
                    assert(at[i] == rest[i - 1]);
                }
            }
        }
    }
}

/// Where the needle can be found in order at all, the match finds it.
pub proof fn every_subsequence_matches(h: Seq<char>, n: Seq<char>, from: int, at: Seq<int>)
    requires
        0 <= from <= h.len(),
        embeds(h, n, from, at),
    ensures
        matched(h, n, from) is Some,
    decreases n.len(),
{
    if n.len() > 0 {
        if n[0] == ' ' {
            every_subsequence_matches(h, n.skip(1), from, at);
        } else {
            let k = next_same(h, n[0], from);
            let m = spaceless(n);
            let m1 = spaceless(n.skip(1));
            assert(m[0] == n[0]);
            lemma_next_same(h, n[0], from);
            assert(at[0] >= from);
            assert(k <= at[0]) by {
                if at[0] < k {
                    assert(!text::same_ascii_letter(h[at[0]], n[0]));
                }
            }
            let rest = at.skip(1);
            assert forall|i: int| 0 <= i < rest.len() implies k + 1 <= #[trigger] rest[i] < h.len()
                && text::same_ascii_letter(h[rest[i]], m1[i]) by {
                assert(rest[i] == at[i + 1]);
                assert(at[0] < at[i + 1]);
                assert(m1[i] == m[i + 1]);
            }
            assert forall|i: int, j: int| 0 <= i < j < rest.len() implies #[trigger] rest[i]
                < #[trigger] rest[j] by {
                assert(rest[i] == at[i + 1]);
                assert(rest[j] == at[j + 1]);
            }
            every_subsequence_matches(h, n.skip(1), k + 1, rest);
        }
    }
}

/// The empty query matches every name, at no place.
pub proof fn the_empty_query_matches(h: Seq<char>)
    ensures
        matched(h, Seq::empty(), 0) == Some(Seq::<int>::empty()),
{
}

} // verus!
