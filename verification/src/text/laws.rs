//! What holds of the words the rest of the library is said in.

use vstd::prelude::*;

use crate::text::{
    after_prefix, ascii_lower, before_suffix, cut_at, dec, dec_int, digit_char, has, integer, is_digit,
    is_number, is_space, joined, lemma_joined_front, lemma_run_len, lemma_span,
    lemma_span_is_first, natural, occurs_at, padded, parts, repeated, same_ascii_letter, span, trimmed, trimmed_end,
    trimmed_start, value_of, without_head, without_tail, words,
};

verus! {

/// Whether a text is nothing but whitespace.
pub open spec fn blank(s: Seq<char>) -> bool {
    forall|i: int| 0 <= i < s.len() ==> is_space(#[trigger] s[i])
}

/// Whether a text has something other than whitespace at both ends.
pub open spec fn bare(s: Seq<char>) -> bool {
    s.len() > 0 && !is_space(s[0]) && !is_space(s.last())
}

/// The whitespace around a text is trimmed off, all of it and nothing else.
pub proof fn what_is_around_is_trimmed(before: Seq<char>, s: Seq<char>, after: Seq<char>)
    requires
        blank(before),
        blank(after),
        bare(s) || s.len() == 0,
    ensures
        trimmed(before + s + after) == s,
{
    let all = before + s + after;
    assert(all =~= before + (s + after));
    if s.len() > 0 {
        assert((s + after)[0] == s[0]);
        lemma_start(before, s + after);
        lemma_end(s, after);
    } else {
        assert(s + after =~= after);
        assert(after =~= after + s);
        assert(all =~= (before + after) + s);
        assert(blank(before + after));
        lemma_start(before + after, s);
        assert(trimmed_end(s) == s);
    }
}

proof fn lemma_start(before: Seq<char>, rest: Seq<char>)
    requires
        blank(before),
        rest.len() > 0 ==> !is_space(rest[0]),
    ensures
        trimmed_start(before + rest) == rest,
    decreases before.len(),
{
    let all = before + rest;
    if before.len() == 0 {
        assert(all =~= rest);
    } else {
        assert(all[0] == before[0]);
        assert(all.skip(1) =~= before.skip(1) + rest);
        assert(blank(before.skip(1))) by {
            assert forall|i: int| 0 <= i < before.skip(1).len() implies is_space(
                #[trigger] before.skip(1)[i],
            ) by {
                assert(before.skip(1)[i] == before[i + 1]);
            }
        }
        lemma_start(before.skip(1), rest);
    }
}

proof fn lemma_end(rest: Seq<char>, after: Seq<char>)
    requires
        blank(after),
        rest.len() > 0 ==> !is_space(rest.last()),
    ensures
        trimmed_end(rest + after) == rest,
    decreases after.len(),
{
    let all = rest + after;
    if after.len() == 0 {
        assert(all =~= rest);
    } else {
        assert(all.last() == after.last());
        assert(all.drop_last() =~= rest + after.drop_last());
        assert(blank(after.drop_last())) by {
            assert forall|i: int| 0 <= i < after.drop_last().len() implies is_space(
                #[trigger] after.drop_last()[i],
            ) by {
                assert(after.drop_last()[i] == after[i]);
            }
        }
        lemma_end(rest, after.drop_last());
    }
}

/// The trailing characters of a kind are taken off, and the leading ones.
pub proof fn what_is_repeated_comes_off(s: Seq<char>, c: char, n: nat)
    ensures
        s.len() == 0 || s.last() != c ==> without_tail(s + repeated(c, n), c) == s,
        s.len() == 0 || s[0] != c ==> without_head(repeated(c, n) + s, c) == s,
    decreases n,
{
    if n == 0 {
        assert(s + repeated(c, 0) =~= s);
        assert(repeated(c, 0) + s =~= s);
    } else {
        let m = (n - 1) as nat;
        what_is_repeated_comes_off(s, c, m);
        assert((s + repeated(c, n)).last() == c);
        assert((s + repeated(c, n)).drop_last() =~= s + repeated(c, m));
        assert((repeated(c, n) + s)[0] == c);
        assert((repeated(c, n) + s).skip(1) =~= repeated(c, m) + s);
    }
}

/// What stands before and behind a text is told apart from it.
pub proof fn what_is_joined_comes_apart(a: Seq<char>, b: Seq<char>)
    ensures
        after_prefix(a + b, a) == Some(b),
        before_suffix(a + b, b) == Some(a),
        has(a + b, a),
        has(a + b, b),
{
    let s = a + b;
    assert(s.subrange(0, a.len() as int) =~= a);
    assert(s.skip(a.len() as int) =~= b);
    assert(s.subrange(s.len() - b.len(), s.len() - b.len() + b.len()) =~= b);
    assert(s.take(s.len() - b.len()) =~= a);
    assert(occurs_at(s, a, 0));
    assert(occurs_at(s, b, s.len() - b.len()));
}

/// A text is cut at the first place where the character stands, which is
/// dropped; one without it is not cut.
pub proof fn the_first_one_cuts(a: Seq<char>, c: char, b: Seq<char>)
    requires
        !a.contains(c),
    ensures
        cut_at(a.push(c) + b, c) == Some((a, b)),
        cut_at(a, c) is None,
{
    let s = a.push(c) + b;
    assert(s[a.len() as int] == c);
    assert(s.contains(c));
    assert forall|i: int| 0 <= i < a.len() implies s[i] != c by {
        assert(s[i] == a[i]);
        assert(a.contains(a[i]));
    }
    lemma_span(s, c, a.len() as int);
    assert(s.take(a.len() as int) =~= a);
    assert(s.skip(a.len() as int + 1) =~= b);
}

/// The parts between the separators hold none of them, and joined again they
/// are the text.
pub proof fn parts_come_together(s: Seq<char>, c: char)
    ensures
        joined(parts(s, c), seq![c]) == s,
        forall|i: int| 0 <= i < parts(s, c).len() ==> !(#[trigger] parts(s, c)[i]).contains(c),
    decreases s.len(),
{
    if s.contains(c) {
        lemma_span_is_first(s, c);
        let w = choose|w: int| 0 <= w < s.len() && s[w] == c;
        assert(s[w] == c);
        let k = span(s, c);
        assert(k < s.len());
        let rest = s.skip(k + 1);
        parts_come_together(rest, c);
        let all = parts(s, c);
        let tail = parts(rest, c);
        assert(all =~= seq![s.take(k)] + tail);
        crate::text::lemma_parts_some(rest, c);
        lemma_joined_front(all, seq![c]);
        assert(all.skip(1) =~= tail);
        assert(all[0] == s.take(k));
        assert(s =~= s.take(k) + seq![c] + rest);
        assert(!s.take(k).contains(c)) by {
            if s.take(k).contains(c) {
                let j = choose|j: int| 0 <= j < s.take(k).len() && s.take(k)[j] == c;
                assert(s.take(k)[j] == s[j]);
            }
        }
        assert forall|i: int| 0 <= i < all.len() implies !(#[trigger] all[i]).contains(c) by {
            if i > 0 {
                assert(all[i] == tail[i - 1]);
            }
        }
    } else {
        assert(parts(s, c) =~= seq![s]);
        assert(joined(parts(s, c), seq![c]) == s);
    }
}

/// Words are what stands between the whitespace.
pub proof fn words_stand_between_spaces(before: Seq<char>, word: Seq<char>, rest: Seq<char>)
    requires
        blank(before),
        word.len() > 0,
        forall|i: int| 0 <= i < word.len() ==> !is_space(#[trigger] word[i]),
        rest.len() > 0 ==> is_space(rest[0]),
    ensures
        words(before + word + rest) == seq![word] + words(rest),
        words(before) == Seq::<Seq<char>>::empty(),
{
    let s = before + word + rest;
    let n = before.len() as int;
    assert forall|i: int| 0 <= i < n implies is_space(#[trigger] s[i]) by {
        assert(s[i] == before[i]);
    }
    assert(s[n] == word[0]);
    lemma_run_len(s, true, n);
    let t = s.skip(n);
    assert(t =~= word + rest);
    let m = word.len() as int;
    assert forall|i: int| 0 <= i < m implies is_space(#[trigger] t[i]) == false by {
        assert(t[i] == word[i]);
    }
    if m < t.len() {
        assert(t[m] == rest[0]);
    }
    lemma_run_len(t, false, m);
    assert(t.take(m) =~= word);
    assert(t.skip(m) =~= rest);
    lemma_run_len(before, true, n);
    assert(before.skip(n).len() == 0);
}

/// A number is written in digits, without a zero in front, and read back as it
/// was.
pub proof fn numbers_are_read_back(n: nat)
    ensures
        is_number(dec(n)),
        value_of(dec(n)) == n,
        n > 0 ==> dec(n)[0] != '0',
    decreases n,
{
    let last = digit_char((n % 10) as int);
    assert(is_digit(last) && (last as int) - 48 == n % 10);
    if n < 10 {
        let d = seq![digit_char(n as int)];
        assert(dec(n) =~= d);
        assert(d.drop_last() =~= Seq::<char>::empty());
        assert(value_of(d.drop_last()) == 0);
        assert(value_of(d) == n);
        assert(n > 0 ==> (d[0] as int) != 48);
        assert(('0' as int) == 48);
    } else {
        let front = dec(n / 10);
        numbers_are_read_back(n / 10);
        let d = front.push(last);
        assert(d.drop_last() =~= front);
        assert(d.last() == last);
        assert(value_of(d) == value_of(front) * 10 + (n % 10));
        assert forall|i: int| 0 <= i < d.len() implies is_digit(#[trigger] d[i]) by {
            if i < front.len() {
                assert(d[i] == front[i]);
            }
        }
        assert(d[0] == front[0]);
    }
}

/// What fits is parsed as the number it writes, with its sign; what does not
/// fit is not parsed.
pub proof fn numbers_are_parsed(n: int, max: nat)
    ensures
        i64::MIN <= n <= i64::MAX ==> integer(dec_int(n)) == Some(n),
        0 <= n <= max ==> natural(dec_int(n), max) == Some(n as nat),
        max < n ==> natural(dec_int(n), max) is None,
        n < 0 ==> natural(dec_int(n), max) is None,
{
    let m = if n < 0 {
        (-n) as nat
    } else {
        n as nat
    };
    numbers_are_read_back(m);
    let d = dec(m);
    assert(is_digit(d[0]));
    if n < 0 {
        let s = seq!['-'] + d;
        assert(s[0] == '-');
        assert(s.skip(1) =~= d);
        assert(!is_digit(s[0]));
    }
}

/// Nothing but digits is a number, and there is at least one.
pub proof fn other_signs_are_no_number(s: Seq<char>, i: int, max: nat)
    requires
        s.len() == 0 || (0 < i < s.len() && !is_digit(s[i])),
    ensures
        natural(s, max) is None,
        integer(s) is None,
{
    if s.len() > 0 {
        let d = s.skip(1);
        assert(d[i - 1] == s[i]);
    }
}

/// Capitals are lowered to the letters they are of, and nothing else changes; two
/// characters are the same letter where they are after that.
pub proof fn capitals_are_lowered(c: char, d: char)
    ensures
        'A' <= c <= 'Z' ==> ascii_lower(c) as int - 'a' as int == c as int - 'A' as int,
        !('A' <= c <= 'Z') ==> ascii_lower(c) == c,
        ascii_lower(ascii_lower(c)) == ascii_lower(c),
        same_ascii_letter(c, d) <==> c == d || ascii_lower(c) == d || c == ascii_lower(d),
{
}

/// Padding fills up to the width with spaces and cuts nothing off.
pub proof fn padding_fills_up(s: Seq<char>, width: nat)
    ensures
        padded(s, width).len() == if s.len() < width {
            width
        } else {
            s.len()
        },
        padded(s, width).take(s.len() as int) == s,
        forall|i: int| s.len() <= i < width ==> #[trigger] padded(s, width)[i] == ' ',
{
    assert(padded(s, width).take(s.len() as int) =~= s);
}

} // verus!
