//! Text as sequences of characters: the operations on strings that the rest
//! of the library is stated in.

use vstd::prelude::*;
use vstd::string::*;
use vstd::utf8::encode_utf8;

pub mod laws;

verus! {

// ---- building ------------------------------------------------------------

/// `String::push` adds one character at the end.
pub assume_specification[ String::push ](s: &mut String, c: char)
    ensures
        final(s)@ == old(s)@.push(c),
;

/// The characters of `s`, in order.
pub fn chars_of(s: &str) -> (r: Vec<char>)
    ensures
        r@ == s@,
{
    let mut r: Vec<char> = Vec::new();
    for c in it: s.chars()
        invariant
            it.seq() == s@,
            r@ == s@.take(it.index()),
    {
        r.push(c);
        assert(s@.take(it.index() + 1) == s@.take(it.index()).push(c));
    }
    assert(s@.take(s@.len() as int) == s@);
    r
}

/// The text made of the characters at `from .. to`.
pub fn text_of(cs: &Vec<char>, from: usize, to: usize) -> (r: String)
    requires
        from <= to <= cs@.len(),
    ensures
        r@ == cs@.subrange(from as int, to as int),
{
    let mut r = String::new();
    let mut i: usize = from;
    assert(r@ =~= cs@.subrange(from as int, i as int));
    while i < to
        invariant
            from <= i <= to <= cs@.len(),
            r@ == cs@.subrange(from as int, i as int),
        decreases to - i,
    {
        r.push(cs[i]);
        assert(cs@.subrange(from as int, i + 1) =~= cs@.subrange(from as int, i as int).push(cs@[i as int]));
        i = i + 1;
    }
    r
}

/// A copy of `s` as an owned string.
pub fn owned(s: &str) -> (r: String)
    ensures
        r@ == s@,
{
    String::from_str(s)
}

/// Whether two texts are the same.
pub fn same(a: &str, b: &str) -> (r: bool)
    ensures
        r == (a@ == b@),
{
    let x = chars_of(a);
    let y = chars_of(b);
    same_chars(&x, &y)
}

pub fn same_chars(x: &Vec<char>, y: &Vec<char>) -> (r: bool)
    ensures
        r == (x@ == y@),
{
    if x.len() != y.len() {
        return false;
    }
    let mut i: usize = 0;
    while i < x.len()
        invariant
            i <= x@.len() == y@.len(),
            forall|k: int| 0 <= k < i ==> x@[k] == y@[k],
        decreases x@.len() - i,
    {
        if x[i] != y[i] {
            return false;
        }
        i = i + 1;
    }
    assert(x@ =~= y@);
    true
}

/// A text without characters.
pub fn empty() -> (r: String)
    ensures
        r@ == Seq::<char>::empty(),
{
    let r = String::new();
    assert(r@ =~= Seq::<char>::empty());
    r
}

/// `s` without its last character, where it has one.
pub open spec fn without_last(s: Seq<char>) -> Seq<char> {
    if s.len() == 0 {
        s
    } else {
        s.drop_last()
    }
}

pub fn pop_last(s: &str) -> (r: String)
    ensures
        r@ == without_last(s@),
{
    let n: usize = s.unicode_len();
    if n == 0 {
        owned(s)
    } else {
        let r = owned(s.substring_char(0, n - 1));
        assert(r@ =~= s@.drop_last());
        r
    }
}

/// `a` followed by `b`.
pub fn cat2(a: &str, b: &str) -> (r: String)
    ensures
        r@ == a@ + b@,
{
    String::from_str(a).concat(b)
}

pub fn cat3(a: &str, b: &str, c: &str) -> (r: String)
    ensures
        r@ == a@ + b@ + c@,
{
    String::from_str(a).concat(b).concat(c)
}

pub fn cat4(a: &str, b: &str, c: &str, d: &str) -> (r: String)
    ensures
        r@ == a@ + b@ + c@ + d@,
{
    String::from_str(a).concat(b).concat(c).concat(d)
}

pub fn cat5(a: &str, b: &str, c: &str, d: &str, e: &str) -> (r: String)
    ensures
        r@ == a@ + b@ + c@ + d@ + e@,
{
    String::from_str(a).concat(b).concat(c).concat(d).concat(e)
}

pub fn cat6(a: &str, b: &str, c: &str, d: &str, e: &str, f: &str) -> (r: String)
    ensures
        r@ == a@ + b@ + c@ + d@ + e@ + f@,
{
    String::from_str(a).concat(b).concat(c).concat(d).concat(e).concat(f)
}

pub fn cat7(a: &str, b: &str, c: &str, d: &str, e: &str, f: &str, g: &str) -> (r: String)
    ensures
        r@ == a@ + b@ + c@ + d@ + e@ + f@ + g@,
{
    String::from_str(a).concat(b).concat(c).concat(d).concat(e).concat(f).concat(g)
}

/// The text of `n` copies of one character.
pub open spec fn repeated(c: char, n: nat) -> Seq<char> {
    Seq::new(n, |i: int| c)
}

pub fn repeat(c: char, n: usize) -> (r: String)
    ensures
        r@ == repeated(c, n as nat),
{
    let mut r = String::new();
    let mut i: usize = 0;
    assert(r@ =~= repeated(c, 0));
    while i < n
        invariant
            i <= n,
            r@ == repeated(c, i as nat),
        decreases n - i,
    {
        r.push(c);
        i = i + 1;
        assert(r@ =~= repeated(c, i as nat));
    }
    r
}

/// `s` with spaces after it, up to a width counted in characters.
pub open spec fn padded(s: Seq<char>, width: nat) -> Seq<char> {
    s + repeated(' ', if s.len() < width { (width - s.len()) as nat } else { 0 })
}

pub fn pad(s: &str, width: usize) -> (r: String)
    ensures
        r@ == padded(s@, width as nat),
{
    let n: usize = s.unicode_len();
    let missing: usize = if n < width { width - n } else { 0 };
    let tail = repeat(' ', missing);
    cat2(s, tail.as_str())
}

// ---- single characters ---------------------------------------------------

pub open spec fn ascii_lower(c: char) -> char {
    if 'A' <= c <= 'Z' {
        ((c as int) + 32) as char
    } else {
        c
    }
}

/// Whether two characters are the same up to the case of ASCII letters.
pub open spec fn same_ascii_letter(a: char, b: char) -> bool {
    ascii_lower(a) == ascii_lower(b)
}

pub open spec fn is_upper(c: char) -> bool {
    'A' <= c <= 'Z'
}

pub open spec fn is_lower(c: char) -> bool {
    'a' <= c <= 'z'
}

pub open spec fn is_digit(c: char) -> bool {
    '0' <= c <= '9'
}

pub open spec fn is_alnum(c: char) -> bool {
    is_upper(c) || is_lower(c) || is_digit(c)
}

/// Unicode's White_Space property.
pub open spec fn is_space(c: char) -> bool {
    let u = c as int;
    ||| 0x9 <= u <= 0xd
    ||| u == 0x20
    ||| u == 0x85
    ||| u == 0xa0
    ||| u == 0x1680
    ||| 0x2000 <= u <= 0x200a
    ||| u == 0x2028
    ||| u == 0x2029
    ||| u == 0x202f
    ||| u == 0x205f
    ||| u == 0x3000
}

pub fn lower(c: char) -> (r: char)
    ensures
        r == ascii_lower(c),
{
    if 'A' <= c && c <= 'Z' {
        ((c as u8) + 32) as char
    } else {
        c
    }
}

pub fn alnum(c: char) -> (r: bool)
    ensures
        r == is_alnum(c),
{
    ('A' <= c && c <= 'Z') || ('a' <= c && c <= 'z') || ('0' <= c && c <= '9')
}

pub fn space(c: char) -> (r: bool)
    ensures
        r == is_space(c),
{
    let u: u32 = c as u32;
    (0x9 <= u && u <= 0xd) || u == 0x20 || u == 0x85 || u == 0xa0 || u == 0x1680 || (0x2000 <= u
        && u <= 0x200a) || u == 0x2028 || u == 0x2029 || u == 0x202f || u == 0x205f || u == 0x3000
}

/// The number of bytes of a character in UTF-8.
pub open spec fn width_of(c: char) -> nat {
    let u = c as int;
    if u < 0x80 {
        1
    } else if u < 0x800 {
        2
    } else if u < 0x10000 {
        3
    } else {
        4
    }
}

pub fn width(c: char) -> (r: usize)
    ensures
        r == width_of(c),
{
    let u: u32 = c as u32;
    if u < 0x80 {
        1
    } else if u < 0x800 {
        2
    } else if u < 0x10000 {
        3
    } else {
        4
    }
}

/// The number of bytes of a text in UTF-8.
pub open spec fn bytes_len(s: Seq<char>) -> nat
    decreases s.len(),
{
    if s.len() == 0 {
        0
    } else {
        bytes_len(s.drop_last()) + width_of(s.last())
    }
}

proof fn lemma_bytes_len_front(s: Seq<char>)
    requires
        s.len() > 0,
    ensures
        bytes_len(s) == width_of(s[0]) + bytes_len(s.skip(1)),
    decreases s.len(),
{
    if s.len() == 1 {
        assert(s.drop_last() =~= Seq::empty());
        assert(s.skip(1) =~= Seq::empty());
    } else {
        let d = s.drop_last();
        lemma_bytes_len_front(d);
        assert(d.skip(1) =~= s.skip(1).drop_last());
    }
}

proof fn lemma_width(c: char)
    ensures
        vstd::utf8::encode_scalar(c as u32).len() == width_of(c),
{
    let u = c as u32;
    assert(u == c as int);
    vstd::utf8::char_is_scalar(c);
}

/// The number of bytes is that of the UTF-8 encoding.
pub proof fn lemma_bytes_len(s: Seq<char>)
    ensures
        bytes_len(s) == encode_utf8(s).len(),
    decreases s.len(),
{
    if s.len() > 0 {
        lemma_bytes_len_front(s);
        lemma_bytes_len(s.drop_first());
        assert(s.skip(1) =~= s.drop_first());
        lemma_width(s[0]);
    }
}

/// A part of a text at its start has no more bytes than the text.
pub proof fn lemma_bytes_len_take(s: Seq<char>, k: int)
    requires
        0 <= k <= s.len(),
    ensures
        bytes_len(s.take(k)) <= bytes_len(s),
    decreases s.len() - k,
{
    if k < s.len() {
        lemma_bytes_len_take(s, k + 1);
        assert(s.take(k + 1).drop_last() =~= s.take(k));
    } else {
        assert(s.take(k) =~= s);
    }
}

/// The place of the character that starts at byte `n`, or the length where the
/// text ends there; none where no character starts there.
pub open spec fn at_byte(s: Seq<char>, n: int) -> Option<int>
    decreases s.len(),
{
    if n == 0 {
        Some(0)
    } else if s.len() == 0 || width_of(s[0]) > n {
        None
    } else {
        match at_byte(s.skip(1), n - width_of(s[0])) {
            Some(k) => Some(k + 1),
            None => None,
        }
    }
}

pub fn index_at_byte(s: &Vec<char>, n: usize) -> (r: Option<usize>)
    ensures
        match r {
            Some(k) => at_byte(s@, n as int) == Some(k as int) && k <= s@.len(),
            None => at_byte(s@, n as int) is None,
        },
{
    let mut left: usize = n;
    let mut i: usize = 0;
    assert(s@.skip(0) =~= s@);
    while left > 0
        invariant
            i <= s@.len(),
            match (at_byte(s@, n as int), at_byte(s@.skip(i as int), left as int)) {
                (Some(a), Some(b)) => a == i + b,
                (None, None) => true,
                _ => false,
            },
        decreases s@.len() - i,
    {
        if i == s.len() {
            return None;
        }
        let w: usize = width(s[i]);
        assert(s@.skip(i as int)[0] == s@[i as int]);
        if w > left {
            return None;
        }
        assert(s@.skip(i as int).skip(1) =~= s@.skip(i + 1));
        left = left - w;
        i = i + 1;
    }
    Some(i)
}

// ---- trimming ------------------------------------------------------------

pub open spec fn trimmed_start(s: Seq<char>) -> Seq<char>
    decreases s.len(),
{
    if s.len() > 0 && is_space(s[0]) {
        trimmed_start(s.skip(1))
    } else {
        s
    }
}

pub open spec fn trimmed_end(s: Seq<char>) -> Seq<char>
    decreases s.len(),
{
    if s.len() > 0 && is_space(s.last()) {
        trimmed_end(s.drop_last())
    } else {
        s
    }
}

/// `s` without the white space at its two ends.
pub open spec fn trimmed(s: Seq<char>) -> Seq<char> {
    trimmed_end(trimmed_start(s))
}

/// `s` without the occurrences of `c` at its end.
pub open spec fn without_tail(s: Seq<char>, c: char) -> Seq<char>
    decreases s.len(),
{
    if s.len() > 0 && s.last() == c {
        without_tail(s.drop_last(), c)
    } else {
        s
    }
}

/// `s` without the occurrences of `c` at its start.
pub open spec fn without_head(s: Seq<char>, c: char) -> Seq<char>
    decreases s.len(),
{
    if s.len() > 0 && s[0] == c {
        without_head(s.skip(1), c)
    } else {
        s
    }
}

pub fn trim_start(s: &str) -> (r: &str)
    ensures
        r@ == trimmed_start(s@),
{
    let cs = chars_of(s);
    let mut i: usize = 0;
    assert(s@.skip(0) =~= s@);
    while i < cs.len() && space(cs[i])
        invariant
            cs@ == s@,
            i <= cs@.len(),
            trimmed_start(s@) == trimmed_start(s@.skip(i as int)),
        decreases cs@.len() - i,
    {
        assert(s@.skip(i as int).skip(1) =~= s@.skip(i + 1));
        i = i + 1;
    }
    let r = s.substring_char(i, cs.len());
    assert(r@ =~= s@.skip(i as int));
    r
}

pub fn trim_end(s: &str) -> (r: &str)
    ensures
        r@ == trimmed_end(s@),
{
    let cs = chars_of(s);
    let mut n: usize = cs.len();
    assert(s@.take(n as int) =~= s@);
    while n > 0 && space(cs[n - 1])
        invariant
            cs@ == s@,
            n <= cs@.len(),
            trimmed_end(s@) == trimmed_end(s@.take(n as int)),
        decreases n,
    {
        assert(s@.take(n as int).drop_last() =~= s@.take(n - 1));
        n = n - 1;
    }
    let r = s.substring_char(0, n);
    assert(r@ =~= s@.take(n as int));
    r
}

pub fn trim(s: &str) -> (r: &str)
    ensures
        r@ == trimmed(s@),
{
    trim_end(trim_start(s))
}

pub fn trim_end_of(s: &str, c: char) -> (r: &str)
    ensures
        r@ == without_tail(s@, c),
{
    let cs = chars_of(s);
    let mut n: usize = cs.len();
    assert(s@.take(n as int) =~= s@);
    while n > 0 && cs[n - 1] == c
        invariant
            cs@ == s@,
            n <= cs@.len(),
            without_tail(s@, c) == without_tail(s@.take(n as int), c),
        decreases n,
    {
        assert(s@.take(n as int).drop_last() =~= s@.take(n - 1));
        n = n - 1;
    }
    let r = s.substring_char(0, n);
    assert(r@ =~= s@.take(n as int));
    r
}

pub fn trim_start_of(s: &str, c: char) -> (r: &str)
    ensures
        r@ == without_head(s@, c),
{
    let cs = chars_of(s);
    let mut i: usize = 0;
    assert(s@.skip(0) =~= s@);
    while i < cs.len() && cs[i] == c
        invariant
            cs@ == s@,
            i <= cs@.len(),
            without_head(s@, c) == without_head(s@.skip(i as int), c),
        decreases cs@.len() - i,
    {
        assert(s@.skip(i as int).skip(1) =~= s@.skip(i + 1));
        i = i + 1;
    }
    let r = s.substring_char(i, cs.len());
    assert(r@ =~= s@.skip(i as int));
    r
}

// ---- searching -----------------------------------------------------------

/// `needle` stands in `s` from position `i` on.
pub open spec fn occurs_at(s: Seq<char>, needle: Seq<char>, i: int) -> bool {
    &&& 0 <= i
    &&& i + needle.len() <= s.len()
    &&& s.subrange(i, i + needle.len()) == needle
}

pub open spec fn has(s: Seq<char>, needle: Seq<char>) -> bool {
    exists|i: int| #[trigger] occurs_at(s, needle, i)
}

pub open spec fn begins(s: Seq<char>, prefix: Seq<char>) -> bool {
    occurs_at(s, prefix, 0)
}

pub open spec fn finishes(s: Seq<char>, suffix: Seq<char>) -> bool {
    occurs_at(s, suffix, s.len() - suffix.len())
}

/// The first place of `needle` in `s`, if it has one.
#[verifier::opaque]
pub open spec fn first_place(s: Seq<char>, needle: Seq<char>) -> Option<int> {
    if has(s, needle) {
        Some(
            choose|i: int| #[trigger]
                occurs_at(s, needle, i) && forall|j: int|
                    0 <= j < i ==> !#[trigger] occurs_at(s, needle, j),
        )
    } else {
        None
    }
}

/// `i` is the first place exactly when `needle` stands there and nowhere before.
pub proof fn lemma_first_place(s: Seq<char>, needle: Seq<char>, i: int)
    requires
        occurs_at(s, needle, i),
        forall|j: int| 0 <= j < i ==> !#[trigger] occurs_at(s, needle, j),
    ensures
        first_place(s, needle) == Some(i),
{
    reveal(first_place);
    let k = first_place(s, needle)->Some_0;
    assert(occurs_at(s, needle, k) && forall|j: int|
        0 <= j < k ==> !#[trigger] occurs_at(s, needle, j));
    if k < i {
        assert(!occurs_at(s, needle, k));
    } else if i < k {
        assert(!occurs_at(s, needle, i));
    }
}

/// What `first_place` finds stands there, and nowhere before.
pub proof fn lemma_first_place_found(s: Seq<char>, needle: Seq<char>)
    ensures
        match first_place(s, needle) {
            Some(i) => occurs_at(s, needle, i) && forall|j: int|
                0 <= j < i ==> !#[trigger] occurs_at(s, needle, j),
            None => forall|j: int| !#[trigger] occurs_at(s, needle, j),
        },
{
    reveal(first_place);
    if has(s, needle) {
        let w = choose|i: int| #[trigger] occurs_at(s, needle, i);
        lemma_least(s, needle, w);
    }
}

proof fn lemma_least(s: Seq<char>, needle: Seq<char>, w: int)
    requires
        occurs_at(s, needle, w),
    ensures
        exists|i: int| #[trigger]
            occurs_at(s, needle, i) && forall|j: int|
                0 <= j < i ==> !#[trigger] occurs_at(s, needle, j),
    decreases w,
{
    if exists|j: int| 0 <= j < w && #[trigger] occurs_at(s, needle, j) {
        let j = choose|j: int| 0 <= j < w && #[trigger] occurs_at(s, needle, j);
        lemma_least(s, needle, j);
    }
}

pub fn matches_at(s: &Vec<char>, needle: &Vec<char>, i: usize) -> (r: bool)
    requires
        i <= s@.len(),
    ensures
        r == occurs_at(s@, needle@, i as int),
{
    if needle.len() > s.len() - i {
        return false;
    }
    let n: usize = s.len();
    let mut k: usize = 0;
    while k < needle.len()
        invariant
            i + needle@.len() <= n == s@.len(),
            k <= needle@.len(),
            forall|j: int| 0 <= j < k ==> s@[i + j] == needle@[j],
        decreases needle@.len() - k,
    {
        if s[i + k] != needle[k] {
            assert(s@.subrange(i as int, i + needle@.len())[k as int] != needle@[k as int]);
            return false;
        }
        k = k + 1;
    }
    assert(s@.subrange(i as int, i + needle@.len()) =~= needle@);
    true
}

/// The first place at or after `from` where `needle` stands in `s`.
pub fn find_from(s: &Vec<char>, needle: &Vec<char>, from: usize) -> (r: Option<usize>)
    requires
        from <= s@.len(),
    ensures
        match r {
            Some(i) => from <= i && occurs_at(s@, needle@, i as int) && forall|j: int|
                from <= j < i ==> !#[trigger] occurs_at(s@, needle@, j),
            None => forall|j: int| from <= j ==> !#[trigger] occurs_at(s@, needle@, j),
        },
{
    let mut i: usize = from;
    while i < s.len()
        invariant
            from <= i <= s@.len(),
            forall|j: int| from <= j < i ==> !#[trigger] occurs_at(s@, needle@, j),
        decreases s@.len() - i,
    {
        if matches_at(s, needle, i) {
            return Some(i);
        }
        i = i + 1;
    }
    if matches_at(s, needle, i) {
        return Some(i);
    }
    None
}

pub fn find(s: &str, needle: &str) -> (r: Option<usize>)
    ensures
        match r {
            Some(i) => first_place(s@, needle@) == Some(i as int) && occurs_at(
                s@,
                needle@,
                i as int,
            ),
            None => first_place(s@, needle@) is None,
        },
{
    let cs = chars_of(s);
    let ns = chars_of(needle);
    let r = find_from(&cs, &ns, 0);
    proof {
        reveal(first_place);
        match r {
            Some(i) => {
                lemma_first_place(s@, needle@, i as int);
            },
            None => {
                assert forall|j: int| !#[trigger] occurs_at(s@, needle@, j) by {}
            },
        }
    }
    r
}

pub fn contains(s: &str, needle: &str) -> (r: bool)
    ensures
        r == has(s@, needle@),
{
    proof {
        lemma_first_place_found(s@, needle@);
    }
    find(s, needle).is_some()
}

pub fn starts_with(s: &str, prefix: &str) -> (r: bool)
    ensures
        r == begins(s@, prefix@),
{
    let cs = chars_of(s);
    let ps = chars_of(prefix);
    matches_at(&cs, &ps, 0)
}

pub fn ends_with(s: &str, suffix: &str) -> (r: bool)
    ensures
        r == finishes(s@, suffix@),
{
    let cs = chars_of(s);
    let ps = chars_of(suffix);
    if ps.len() > cs.len() {
        return false;
    }
    matches_at(&cs, &ps, cs.len() - ps.len())
}

/// What follows `prefix` in `s`, where `s` begins with it.
pub open spec fn after_prefix(s: Seq<char>, prefix: Seq<char>) -> Option<Seq<char>> {
    if begins(s, prefix) {
        Some(s.skip(prefix.len() as int))
    } else {
        None
    }
}

/// What stands before `suffix` in `s`, where `s` finishes with it.
pub open spec fn before_suffix(s: Seq<char>, suffix: Seq<char>) -> Option<Seq<char>> {
    if finishes(s, suffix) {
        Some(s.take(s.len() - suffix.len()))
    } else {
        None
    }
}

pub fn strip_prefix<'a>(s: &'a str, prefix: &str) -> (r: Option<&'a str>)
    ensures
        r.deep_view() == after_prefix(s@, prefix@),
{
    if starts_with(s, prefix) {
        let n: usize = s.unicode_len();
        let r = s.substring_char(prefix.unicode_len(), n);
        assert(r@ =~= s@.skip(prefix@.len() as int));
        Some(r)
    } else {
        None
    }
}

pub fn strip_suffix<'a>(s: &'a str, suffix: &str) -> (r: Option<&'a str>)
    ensures
        r.deep_view() == before_suffix(s@, suffix@),
{
    if ends_with(s, suffix) {
        let n: usize = s.unicode_len();
        let r = s.substring_char(0, n - suffix.unicode_len());
        assert(r@ =~= s@.take(s@.len() - suffix@.len()));
        Some(r)
    } else {
        None
    }
}

/// The number of characters of `s` before the first `c`: all of them, where
/// there is none.
pub open spec fn span(s: Seq<char>, c: char) -> int
    decreases s.len(),
{
    if s.len() == 0 || s[0] == c {
        0
    } else {
        1 + span(s.skip(1), c)
    }
}

pub proof fn lemma_span(s: Seq<char>, c: char, k: int)
    requires
        0 <= k <= s.len(),
        forall|i: int| 0 <= i < k ==> s[i] != c,
        k < s.len() ==> s[k] == c,
    ensures
        span(s, c) == k,
    decreases k,
{
    if k > 0 {
        lemma_span(s.skip(1), c, k - 1);
    }
}

/// `span` is the first place of `c`, or the length of a text without it.
pub proof fn lemma_span_is_first(s: Seq<char>, c: char)
    ensures
        0 <= span(s, c) <= s.len(),
        forall|i: int| 0 <= i < span(s, c) ==> s[i] != c,
        span(s, c) < s.len() ==> s[span(s, c)] == c,
    decreases s.len(),
{
    if s.len() > 0 && s[0] != c {
        let t = s.skip(1);
        lemma_span_is_first(t, c);
        assert forall|i: int| 0 <= i < span(s, c) implies s[i] != c by {
            if i > 0 {
                assert(s[i] == t[i - 1]);
            }
        }
    }
}

/// The first place of `c` at or after `from`, or the length of `s`.
pub fn scan(s: &Vec<char>, c: char, from: usize) -> (r: usize)
    requires
        from <= s@.len(),
    ensures
        from <= r <= s@.len(),
        r - from == span(s@.skip(from as int), c),
        forall|i: int| from <= i < r ==> s@[i] != c,
        r < s@.len() ==> s@[r as int] == c,
{
    let mut i: usize = from;
    while i < s.len() && s[i] != c
        invariant
            from <= i <= s@.len(),
            forall|k: int| from <= k < i ==> s@[k] != c,
        decreases s@.len() - i,
    {
        i = i + 1;
    }
    proof {
        lemma_span(s@.skip(from as int), c, i - from);
    }
    i
}

/// What stands before and after the first `c` in `s`.
pub open spec fn cut_at(s: Seq<char>, c: char) -> Option<(Seq<char>, Seq<char>)> {
    if s.contains(c) {
        Some((s.take(span(s, c)), s.skip(span(s, c) + 1)))
    } else {
        None
    }
}

pub fn split_once<'a>(s: &'a str, c: char) -> (r: Option<(&'a str, &'a str)>)
    ensures
        r.deep_view() == cut_at(s@, c),
{
    let cs = chars_of(s);
    let k: usize = scan(&cs, c, 0);
    assert(s@.skip(0) =~= s@);
    if k < cs.len() {
        assert(s@[k as int] == c);
        let a = s.substring_char(0, k);
        let b = s.substring_char(k + 1, cs.len());
        assert(a@ =~= s@.take(k as int));
        assert(b@ =~= s@.skip(k + 1));
        Some((a, b))
    } else {
        None
    }
}

/// The place after the last `c` of `s`: 0 where there is none.
pub open spec fn tail_start(s: Seq<char>, c: char) -> int
    decreases s.len(),
{
    if s.len() == 0 {
        0
    } else if s.last() == c {
        s.len() as int
    } else {
        tail_start(s.drop_last(), c)
    }
}

/// The place after the last `c` of `s`.
pub fn rscan(s: &Vec<char>, c: char) -> (r: usize)
    ensures
        r == tail_start(s@, c),
        r <= s@.len(),
        r > 0 ==> s@[r - 1] == c,
        forall|i: int| r <= i < s@.len() ==> s@[i] != c,
{
    let mut n: usize = s.len();
    assert(s@.take(n as int) =~= s@);
    while n > 0 && s[n - 1] != c
        invariant
            n <= s@.len(),
            forall|i: int| n <= i < s@.len() ==> s@[i] != c,
            tail_start(s@, c) == tail_start(s@.take(n as int), c),
        decreases n,
    {
        assert(s@.take(n as int).drop_last() =~= s@.take(n - 1));
        n = n - 1;
    }
    n
}

// ---- parts ---------------------------------------------------------------

/// The parts of `s` between the occurrences of `c`.
pub open spec fn parts(s: Seq<char>, c: char) -> Seq<Seq<char>>
    decreases s.len(),
    via parts_shrink
{
    if s.contains(c) {
        seq![s.take(span(s, c))] + parts(s.skip(span(s, c) + 1), c)
    } else {
        seq![s]
    }
}

#[via_fn]
proof fn parts_shrink(s: Seq<char>, c: char) {
    lemma_span_is_first(s, c);
}

/// There is always at least one part.
pub proof fn lemma_parts_some(s: Seq<char>, c: char)
    ensures
        parts(s, c).len() > 0,
{
}

pub fn split<'a>(s: &'a str, c: char) -> (r: Vec<&'a str>)
    ensures
        r.deep_view() == parts(s@, c),
{
    let cs = chars_of(s);
    let mut r: Vec<&'a str> = Vec::new();
    let mut from: usize = 0;
    assert(s@.skip(0) =~= s@);
    assert(r.deep_view() + parts(s@, c) =~= parts(s@, c));
    loop
        invariant
            cs@ == s@,
            from <= cs@.len(),
            r.deep_view() + parts(s@.skip(from as int), c) == parts(s@, c),
        decreases cs@.len() - from,
    {
        let ghost rest = s@.skip(from as int);
        let ghost before = r.deep_view();
        let k: usize = scan(&cs, c, from);
        let part = s.substring_char(from, k);
        assert(part@ =~= rest.take(k - from));
        r.push(part);
        assert(r.deep_view() =~= before.push(part@));
        if k == cs.len() {
            assert forall|i: int| 0 <= i < rest.len() implies rest[i] != c by {
                assert(rest[i] == s@[from + i]);
            }
            assert(rest.take(k - from) =~= rest);
            assert(parts(rest, c) =~= seq![rest]);
            assert(r.deep_view() =~= before + parts(rest, c));
            return r;
        }
        proof {
            assert(rest[k - from] == c);
            assert(rest.skip(k - from + 1) =~= s@.skip(k + 1));
            assert(parts(rest, c) == seq![part@] + parts(s@.skip(k + 1), c));
            assert(r.deep_view() + parts(s@.skip(k + 1), c) =~= before + parts(rest, c));
        }
        from = k + 1;
    }
}

/// `parts` put together with `sep` between each two.
pub open spec fn joined(parts: Seq<Seq<char>>, sep: Seq<char>) -> Seq<char>
    decreases parts.len(),
{
    if parts.len() == 0 {
        Seq::empty()
    } else if parts.len() == 1 {
        parts[0]
    } else {
        joined(parts.drop_last(), sep) + sep + parts.last()
    }
}

pub fn join(parts: &Vec<String>, sep: &str) -> (r: String)
    ensures
        r@ == joined(parts.deep_view(), sep@),
{
    let mut r = String::new();
    let mut i: usize = 0;
    let ghost all = parts.deep_view();
    while i < parts.len()
        invariant
            all == parts.deep_view(),
            i <= parts@.len(),
            r@ == joined(all.take(i as int), sep@),
        decreases parts@.len() - i,
    {
        assert(all.take(i + 1).drop_last() =~= all.take(i as int));
        assert(all[i as int] == parts@[i as int]@);
        if i > 0 {
            r.append(sep);
        } else {
            assert(r@ =~= Seq::<char>::empty());
        }
        r.append(parts[i].as_str());
        assert(i == 0 ==> r@ =~= all[0]);
        i = i + 1;
    }
    assert(all.take(i as int) =~= all);
    r
}

/// The length of the run of characters at the start of `s` that are, or are
/// not, white space.
pub open spec fn run_len(s: Seq<char>, white: bool) -> int
    decreases s.len(),
{
    if s.len() > 0 && is_space(s[0]) == white {
        1 + run_len(s.skip(1), white)
    } else {
        0
    }
}

pub proof fn lemma_run_len(s: Seq<char>, white: bool, k: int)
    requires
        0 <= k <= s.len(),
        forall|i: int| 0 <= i < k ==> is_space(#[trigger] s[i]) == white,
        k < s.len() ==> is_space(s[k]) != white,
    ensures
        run_len(s, white) == k,
    decreases k,
{
    if k > 0 {
        let t = s.skip(1);
        assert forall|i: int| 0 <= i < k - 1 implies is_space(#[trigger] t[i]) == white by {
            assert(t[i] == s[i + 1]);
        }
        lemma_run_len(t, white, k - 1);
    }
}

pub proof fn lemma_run_len_bounds(s: Seq<char>, white: bool)
    ensures
        0 <= run_len(s, white) <= s.len(),
    decreases s.len(),
{
    if s.len() > 0 {
        lemma_run_len_bounds(s.skip(1), white);
    }
}

/// The words of `s`: its longest runs without white space.
pub open spec fn words(s: Seq<char>) -> Seq<Seq<char>>
    decreases s.len(),
    via words_shrink
{
    let t = s.skip(run_len(s, true));
    if t.len() == 0 {
        Seq::empty()
    } else {
        seq![t.take(run_len(t, false))] + words(t.skip(run_len(t, false)))
    }
}

#[via_fn]
proof fn words_shrink(s: Seq<char>) {
    lemma_run_len_bounds(s, true);
    let t = s.skip(run_len(s, true));
    lemma_run_len_bounds(t, false);
    if t.len() > 0 {
        lemma_run_len_stops(s, true);
        lemma_run_len_bounds(t.skip(1), false);
    }
}

proof fn lemma_run_len_stops(s: Seq<char>, white: bool)
    requires
        run_len(s, white) < s.len(),
    ensures
        is_space(s[run_len(s, white)]) != white,
        0 <= run_len(s, white),
    decreases s.len(),
{
    lemma_run_len_bounds(s, white);
    if s.len() > 0 && is_space(s[0]) == white {
        lemma_run_len_stops(s.skip(1), white);
    }
}

/// The end of the run of characters from `from` on that are, or are not,
/// white space.
fn run_end(s: &Vec<char>, white: bool, from: usize) -> (r: usize)
    requires
        from <= s@.len(),
    ensures
        from <= r <= s@.len(),
        r - from == run_len(s@.skip(from as int), white),
        r < s@.len() ==> is_space(s@[r as int]) != white,
{
    let mut i: usize = from;
    while i < s.len() && space(s[i]) == white
        invariant
            from <= i <= s@.len(),
            forall|k: int| from <= k < i ==> is_space(#[trigger] s@[k]) == white,
        decreases s@.len() - i,
    {
        i = i + 1;
    }
    proof {
        let t = s@.skip(from as int);
        assert forall|k: int| 0 <= k < i - from implies is_space(#[trigger] t[k]) == white by {
            assert(t[k] == s@[from + k]);
        }
        lemma_run_len(t, white, i - from);
    }
    i
}

pub fn split_words<'a>(s: &'a str) -> (r: Vec<&'a str>)
    ensures
        r.deep_view() == words(s@),
{
    let cs = chars_of(s);
    let mut r: Vec<&'a str> = Vec::new();
    let mut from: usize = 0;
    assert(s@.skip(0) =~= s@);
    assert(r.deep_view() + words(s@) =~= words(s@));
    loop
        invariant
            cs@ == s@,
            from <= cs@.len(),
            r.deep_view() + words(s@.skip(from as int)) == words(s@),
        decreases cs@.len() - from,
    {
        let ghost rest = s@.skip(from as int);
        let ghost before = r.deep_view();
        let a: usize = run_end(&cs, true, from);
        let ghost t = rest.skip(a - from);
        assert(t =~= s@.skip(a as int));
        if a == cs.len() {
            assert(words(rest) =~= Seq::empty());
            assert(before + words(rest) =~= before);
            return r;
        }
        let b: usize = run_end(&cs, false, a);
        proof {
            assert(t[0] == s@[a as int]);
            assert(t.skip(b - a) =~= s@.skip(b as int));
            assert(words(rest) == seq![t.take(b - a)] + words(s@.skip(b as int)));
        }
        let word = s.substring_char(a, b);
        assert(word@ =~= t.take(b - a));
        r.push(word);
        assert(r.deep_view() =~= before.push(word@));
        assert(r.deep_view() + words(s@.skip(b as int)) =~= before + words(rest));
        assert(b > a);
        from = b;
    }
}

// ---- lines ---------------------------------------------------------------

/// A line without the carriage return at its end.
pub open spec fn bare_line(s: Seq<char>) -> Seq<char> {
    if s.len() > 0 && s.last() == '\r' {
        s.drop_last()
    } else {
        s
    }
}

/// The lines of `s`: each ends at a line feed, or at a carriage return before
/// one, and what follows the last line feed is a line where it is not empty.
pub open spec fn lines_of(s: Seq<char>) -> Seq<Seq<char>>
    decreases s.len(),
    via lines_shrink
{
    if s.contains('\n') {
        seq![bare_line(s.take(span(s, '\n')))] + lines_of(s.skip(span(s, '\n') + 1))
    } else if s.len() == 0 {
        Seq::empty()
    } else {
        seq![s]
    }
}

#[via_fn]
proof fn lines_shrink(s: Seq<char>) {
    lemma_span_is_first(s, '\n');
}

/// A text that is one line as it is: without line feeds, and no carriage return
/// at its end.
pub open spec fn one_line(s: Seq<char>) -> bool {
    !s.contains('\n') && bare_line(s) == s
}

pub(crate) proof fn lemma_joined_front(parts: Seq<Seq<char>>, sep: Seq<char>)
    requires
        parts.len() > 1,
    ensures
        joined(parts, sep) == parts[0] + sep + joined(parts.skip(1), sep),
    decreases parts.len(),
{
    let d = parts.drop_last();
    let rest = parts.skip(1);
    if parts.len() == 2 {
        assert(joined(d, sep) == parts[0]);
        assert(joined(rest, sep) == parts[1]);
    } else {
        lemma_joined_front(d, sep);
        assert(rest.drop_last() =~= d.skip(1));
        assert(joined(rest, sep) == joined(d.skip(1), sep) + sep + parts.last());
    }
    assert(joined(parts, sep) =~= parts[0] + sep + joined(rest, sep));
}

/// Lines that are joined by line feeds are the lines of the whole, where the last
/// is not empty.
pub proof fn joined_lines_come_apart(parts: Seq<Seq<char>>)
    requires
        forall|i: int| 0 <= i < parts.len() ==> one_line(#[trigger] parts[i]),
        parts.len() > 0 ==> parts.last().len() > 0,
    ensures
        lines_of(joined(parts, "\n"@)) == parts,
    decreases parts.len(),
{
    reveal_strlit("\n");
    let s = joined(parts, "\n"@);
    if parts.len() == 0 {
        assert(lines_of(s) =~= parts);
    } else if parts.len() == 1 {
        assert(one_line(parts[0]));
        assert(lines_of(s) =~= parts);
    } else {
        let p = parts[0];
        let rest = parts.skip(1);
        let tail = joined(rest, "\n"@);
        lemma_joined_front(parts, "\n"@);
        assert(one_line(parts[0]));
        assert(s[p.len() as int] == '\n');
        assert(s.contains('\n'));
        assert forall|i: int| 0 <= i < p.len() implies s[i] != '\n' by {
            assert(s[i] == p[i]);
            assert(p.contains(p[i]));
        }
        lemma_span(s, '\n', p.len() as int);
        assert(s.take(p.len() as int) =~= p);
        assert(s.skip(p.len() as int + 1) =~= tail);
        assert forall|i: int| 0 <= i < rest.len() implies one_line(#[trigger] rest[i]) by {
            assert(rest[i] == parts[i + 1]);
        }
        assert(rest.last() == parts.last());
        joined_lines_come_apart(rest);
        assert(seq![p] + rest =~= parts);
    }
}

pub fn lines<'a>(s: &'a str) -> (r: Vec<&'a str>)
    ensures
        r.deep_view() == lines_of(s@),
{
    let cs = chars_of(s);
    let mut r: Vec<&'a str> = Vec::new();
    let mut from: usize = 0;
    assert(s@.skip(0) =~= s@);
    assert(r.deep_view() + lines_of(s@) =~= lines_of(s@));
    while from < cs.len()
        invariant
            cs@ == s@,
            from <= cs@.len(),
            r.deep_view() + lines_of(s@.skip(from as int)) == lines_of(s@),
        decreases cs@.len() - from,
    {
        let ghost rest = s@.skip(from as int);
        let ghost before = r.deep_view();
        let k: usize = scan(&cs, '\n', from);
        if k == cs.len() {
            let line = s.substring_char(from, k);
            proof {
                assert forall|i: int| 0 <= i < rest.len() implies rest[i] != '\n' by {
                    assert(rest[i] == s@[from + i]);
                }
                assert(line@ =~= rest);
                assert(lines_of(rest) =~= seq![rest]);
            }
            r.push(line);
            assert(r.deep_view() =~= before + lines_of(rest));
            return r;
        }
        let end: usize = if k > from && cs[k - 1] == '\r' { k - 1 } else { k };
        let line = s.substring_char(from, end);
        proof {
            assert(rest[k - from] == '\n');
            let whole = rest.take(k - from);
            assert(k > from ==> whole.last() == s@[k - 1]);
            assert(line@ =~= bare_line(whole));
            assert(rest.skip(k - from + 1) =~= s@.skip(k + 1));
        }
        r.push(line);
        assert(r.deep_view() =~= before.push(line@));
        assert(r.deep_view() + lines_of(s@.skip(k + 1)) =~= before + lines_of(rest));
        from = k + 1;
    }
    assert(s@.skip(from as int) =~= Seq::empty());
    assert(lines_of(Seq::<char>::empty()) =~= Seq::empty());
    assert(r.deep_view() + Seq::empty() =~= r.deep_view());
    r
}

/// The first line of a text.
pub open spec fn first_line_of(s: Seq<char>) -> Seq<char> {
    let ls = lines_of(s);
    if ls.len() > 0 {
        ls[0]
    } else {
        Seq::empty()
    }
}

pub(crate) fn first_line(s: &str) -> (r: String)
    ensures
        r@ == first_line_of(s@),
{
    let ls = lines(s);
    assert(ls.deep_view().len() == ls@.len());
    if ls.len() > 0 {
        assert(ls.deep_view()[0] == ls@[0]@);
        owned(ls[0])
    } else {
        empty()
    }
}

/// Adds one line.
pub(crate) fn push_line(out: &mut Vec<String>, line: String)
    ensures
        final(out).deep_view() == old(out).deep_view().push(line@),
{
    out.push(line);
    assert(out.deep_view() =~= old(out).deep_view().push(line@));
}

// ---- numbers -------------------------------------------------------------

pub open spec fn digit_char(d: int) -> char {
    (d + 48) as char
}

/// `n` in decimal.
pub open spec fn dec(n: nat) -> Seq<char>
    decreases n,
{
    if n < 10 {
        seq![digit_char(n as int)]
    } else {
        dec(n / 10).push(digit_char((n % 10) as int))
    }
}

/// `n` in decimal, with a minus sign before it where it is negative.
pub open spec fn dec_int(n: int) -> Seq<char> {
    if n < 0 {
        seq!['-'] + dec((-n) as nat)
    } else {
        dec(n as nat)
    }
}

fn digit(d: u8) -> (r: char)
    requires
        d < 10,
    ensures
        r == digit_char(d as int),
{
    (d + 48) as char
}

fn push_decimal(out: &mut String, n: u128)
    ensures
        final(out)@ == old(out)@ + dec(n as nat),
    decreases n,
{
    if n >= 10 {
        push_decimal(out, n / 10);
    }
    let ghost mid = out@;
    out.push(digit((n % 10) as u8));
    proof {
        if n < 10 {
            assert(out@ =~= old(out)@ + dec(n as nat));
        } else {
            assert(mid == old(out)@ + dec((n / 10) as nat));
            assert(out@ =~= old(out)@ + dec(n as nat));
        }
    }
}

pub fn decimal(n: u128) -> (r: String)
    ensures
        r@ == dec(n as nat),
{
    let mut r = String::new();
    push_decimal(&mut r, n);
    assert(r@ =~= dec(n as nat));
    r
}

pub fn decimal_u(n: u64) -> (r: String)
    ensures
        r@ == dec(n as nat),
{
    decimal(n as u128)
}

pub fn decimal_n(n: usize) -> (r: String)
    ensures
        r@ == dec(n as nat),
{
    decimal(n as u128)
}

pub fn decimal_i(n: i64) -> (r: String)
    ensures
        r@ == dec_int(n as int),
{
    decimal_wide(n as i128)
}

pub fn decimal_wide(n: i128) -> (r: String)
    requires
        n > i128::MIN,
    ensures
        r@ == dec_int(n as int),
{
    let mut r = String::new();
    if n < 0 {
        r.push('-');
        push_decimal(&mut r, (-n) as u128);
        assert(r@ =~= dec_int(n as int));
    } else {
        push_decimal(&mut r, n as u128);
        assert(r@ =~= dec_int(n as int));
    }
    r
}

/// `n` in decimal, with a zero before a single digit.
pub open spec fn two_digits(n: nat) -> Seq<char> {
    if n < 10 {
        "0"@ + dec(n)
    } else {
        dec(n)
    }
}

pub fn padded_decimal(n: usize) -> (r: String)
    ensures
        r@ == two_digits(n as nat),
{
    let d = decimal_n(n);
    if n < 10 {
        cat2("0", d.as_str())
    } else {
        d
    }
}

/// All of `s` is ASCII digits, and there is at least one.
pub open spec fn is_number(s: Seq<char>) -> bool {
    s.len() > 0 && forall|i: int| 0 <= i < s.len() ==> is_digit(#[trigger] s[i])
}

/// The value that the digits of `s` stand for.
pub open spec fn value_of(s: Seq<char>) -> nat
    decreases s.len(),
{
    if s.len() == 0 {
        0
    } else {
        value_of(s.drop_last()) * 10 + ((s.last() as int) - 48) as nat
    }
}

proof fn lemma_value_grows(s: Seq<char>, k: int)
    requires
        0 <= k <= s.len(),
    ensures
        value_of(s.take(k)) <= value_of(s),
    decreases s.len() - k,
{
    if k < s.len() {
        lemma_value_grows(s, k + 1);
        assert(s.take(k + 1).drop_last() =~= s.take(k));
    } else {
        assert(s.take(k) =~= s);
    }
}

/// The value of the digits at `from ..`, where they are all digits and the
/// value is at most `max`.
fn parse_digits(cs: &Vec<char>, from: usize, max: u64) -> (r: Option<u64>)
    requires
        from <= cs@.len(),
    ensures
        r == {
            let d = cs@.skip(from as int);
            if is_number(d) && value_of(d) <= max {
                Some(value_of(d) as u64)
            } else {
                None
            }
        },
{
    let ghost d = cs@.skip(from as int);
    if from == cs.len() {
        return None;
    }
    let mut v: u64 = 0;
    let mut i: usize = from;
    while i < cs.len()
        invariant
            from <= i <= cs@.len(),
            d == cs@.skip(from as int),
            forall|k: int| 0 <= k < i - from ==> is_digit(#[trigger] d[k]),
            v == value_of(d.take(i - from)),
            v <= max,
        decreases cs@.len() - i,
    {
        let c = cs[i];
        assert(d[i - from] == c);
        if !('0' <= c && c <= '9') {
            return None;
        }
        let next: u128 = (v as u128) * 10 + ((c as u8) - 48) as u128;
        assert(d.take(i - from + 1).drop_last() =~= d.take(i - from));
        assert(d.take(i - from + 1).last() == c);
        assert(next == value_of(d.take(i - from + 1)));
        if next > max as u128 {
            proof {
                lemma_value_grows(d, i - from + 1);
            }
            return None;
        }
        v = next as u64;
        i = i + 1;
    }
    assert(d.take(i - from) =~= d);
    Some(v)
}

/// The number that `s` writes in decimal: digits with at most a plus sign
/// before them.
pub open spec fn natural(s: Seq<char>, max: nat) -> Option<nat> {
    let d = if s.len() > 0 && s[0] == '+' {
        s.skip(1)
    } else {
        s
    };
    if is_number(d) && value_of(d) <= max {
        Some(value_of(d))
    } else {
        None
    }
}

pub fn parse_u64(s: &str) -> (r: Option<u64>)
    ensures
        match r {
            Some(n) => natural(s@, u64::MAX as nat) == Some(n as nat),
            None => natural(s@, u64::MAX as nat) is None,
        },
{
    let cs = chars_of(s);
    assert(cs@.skip(0) =~= cs@);
    if cs.len() > 0 && cs[0] == '+' {
        parse_digits(&cs, 1, u64::MAX)
    } else {
        parse_digits(&cs, 0, u64::MAX)
    }
}

/// The integer that `s` writes in decimal, where it fits in 64 bits.
pub open spec fn integer(s: Seq<char>) -> Option<int> {
    if s.len() > 0 && s[0] == '-' {
        let d = s.skip(1);
        if is_number(d) && value_of(d) <= 0x8000_0000_0000_0000 {
            Some(-(value_of(d) as int))
        } else {
            None
        }
    } else {
        match natural(s, i64::MAX as nat) {
            Some(n) => Some(n as int),
            None => None,
        }
    }
}

pub fn parse_i64(s: &str) -> (r: Option<i64>)
    ensures
        match r {
            Some(n) => integer(s@) == Some(n as int),
            None => integer(s@) is None,
        },
{
    let cs = chars_of(s);
    assert(cs@.skip(0) =~= cs@);
    if cs.len() > 0 && cs[0] == '-' {
        match parse_digits(&cs, 1, 0x8000_0000_0000_0000) {
            Some(v) => {
                let m: i128 = -(v as i128);
                Some(m as i64)
            },
            None => None,
        }
    } else {
        let from: usize = if cs.len() > 0 && cs[0] == '+' { 1 } else { 0 };
        match parse_digits(&cs, from, 0x7fff_ffff_ffff_ffff) {
            Some(v) => Some(v as i64),
            None => None,
        }
    }
}

} // verus!
