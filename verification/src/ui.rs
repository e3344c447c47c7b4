//! What the interface shows: text with styles, from the state.

use vstd::prelude::*;
use vstd::string::*;
use vstd::utf8::encode_utf8;

use crate::api::{ascii_lowered, lower_ascii};
use crate::app::open::{first_chars, take_chars};
use crate::inspect::{mentions_failure, tells_failure, tells_success, tells_warning};
use crate::text;
use crate::unicode::{char_to_lowercase, lowercase_char};

pub mod console;
pub mod detail;
pub mod dialogs;
pub mod laws;
pub mod lists;
pub mod panes;

verus! {

// ---- styles --------------------------------------------------------------

/// What a colour means.
#[derive(Debug, Clone, Copy, PartialEq, Eq, Structural)]
pub enum Tint {
    /// Focus, and what can be acted on.
    Accent,
    Success,
    Warning,
    Danger,
    Info,
    /// Secondary text.
    Muted,
    /// Gold, so that a starred pipeline does not read as a warning.
    Favorite,
    Black,
}

/// How a text is shown; without a colour it has the terminal's own.
#[derive(Debug, Clone, Copy, PartialEq, Eq, Structural)]
pub struct Style {
    pub fg: Option<Tint>,
    pub bg: Option<Tint>,
    pub bold: bool,
}

pub open spec fn plain() -> Style {
    Style { fg: None, bg: None, bold: false }
}

pub open spec fn tinted(t: Tint) -> Style {
    Style { fg: Some(t), bg: None, bold: false }
}

pub open spec fn bold_tinted(t: Tint) -> Style {
    Style { fg: Some(t), bg: None, bold: true }
}

pub open spec fn bold() -> Style {
    Style { fg: None, bg: None, bold: true }
}

/// Black on a filled background, in bold.
pub open spec fn badge(t: Tint) -> Style {
    Style { fg: Some(Tint::Black), bg: Some(t), bold: true }
}

/// A text in one style.
#[derive(Debug, PartialEq, Eq)]
pub struct Span {
    pub content: String,
    pub style: Style,
}

#[verifier::ext_equal]
pub struct SpanView {
    pub content: Seq<char>,
    pub style: Style,
}

impl DeepView for Span {
    type V = SpanView;

    open spec fn deep_view(&self) -> SpanView {
        SpanView { content: self.content@, style: self.style }
    }
}

/// A line of texts.
pub type Line = Vec<Span>;

pub open spec fn sp(content: Seq<char>, style: Style) -> SpanView {
    SpanView { content, style }
}

pub open spec fn raw_sp(content: Seq<char>) -> SpanView {
    sp(content, plain())
}

pub(crate) fn span(content: &str, style: Style) -> (r: Span)
    ensures
        r.deep_view() == sp(content@, style),
{
    Span { content: text::owned(content), style }
}

pub(crate) fn span_of(content: String, style: Style) -> (r: Span)
    ensures
        r.deep_view() == sp(content@, style),
{
    Span { content, style }
}

pub(crate) fn raw(content: &str) -> (r: Span)
    ensures
        r.deep_view() == raw_sp(content@),
{
    span(content, Style { fg: None, bg: None, bold: false })
}

pub(crate) fn tint(t: Tint) -> (r: Style)
    ensures
        r == tinted(t),
{
    Style { fg: Some(t), bg: None, bold: false }
}

pub(crate) fn bold_tint(t: Tint) -> (r: Style)
    ensures
        r == bold_tinted(t),
{
    Style { fg: Some(t), bg: None, bold: true }
}

pub(crate) fn bolded() -> (r: Style)
    ensures
        r == bold(),
{
    Style { fg: None, bg: None, bold: true }
}

pub(crate) fn put(line: &mut Line, s: Span)
    ensures
        final(line).deep_view() == old(line).deep_view().push(s.deep_view()),
{
    line.push(s);
    assert(line.deep_view() =~= old(line).deep_view().push(s.deep_view()));
}

pub(crate) fn put_line(lines: &mut Vec<Line>, l: Line)
    ensures
        final(lines).deep_view() == old(lines).deep_view().push(l.deep_view()),
{
    lines.push(l);
    assert(lines.deep_view() =~= old(lines).deep_view().push(l.deep_view()));
}

pub(crate) fn no_spans() -> (r: Line)
    ensures
        r.deep_view() == Seq::<SpanView>::empty(),
{
    let r: Line = Vec::new();
    assert(r.deep_view() =~= Seq::<SpanView>::empty());
    r
}

pub(crate) fn no_lines() -> (r: Vec<Line>)
    ensures
        r.deep_view() == Seq::<Seq<SpanView>>::empty(),
{
    let r: Vec<Line> = Vec::new();
    assert(r.deep_view() =~= Seq::<Seq<SpanView>>::empty());
    r
}

/// A line of one text.
pub(crate) fn one(s: Span) -> (r: Line)
    ensures
        r.deep_view() == seq![s.deep_view()],
{
    let mut r = no_spans();
    put(&mut r, s);
    assert(r.deep_view() =~= seq![s.deep_view()]);
    r
}

/// A line without text.
pub open spec fn blank_line() -> Seq<SpanView> {
    seq![raw_sp(Seq::empty())]
}

pub(crate) fn blank() -> (r: Line)
    ensures
        r.deep_view() == blank_line(),
{
    let e = text::empty();
    one(raw(e.as_str()))
}

/// A line of muted text.
pub open spec fn muted_line(t: Seq<char>) -> Seq<SpanView> {
    seq![sp(t, tinted(Tint::Muted))]
}

pub(crate) fn muted(t: &str) -> (r: Line)
    ensures
        r.deep_view() == muted_line(t@),
{
    one(span(t, tint(Tint::Muted)))
}

// ---- small texts ---------------------------------------------------------

/// The host of a URL.
pub open spec fn host_of(url: Seq<char>) -> Seq<char> {
    let s = match text::after_prefix(url, "https://"@) {
        Some(r) => r,
        None => match text::after_prefix(url, "http://"@) {
            Some(r) => r,
            None => url,
        },
    };
    text::parts(s, '/')[0]
}

/// Host only: the full URL never changes and takes 45 columns.
pub fn short_host(url: &str) -> (r: String)
    ensures
        r@ == host_of(url@),
{
    let s = match text::strip_prefix(url, "https://") {
        Some(r) => r,
        None => match text::strip_prefix(url, "http://") {
            Some(r) => r,
            None => url,
        },
    };
    let parts = text::split(s, '/');
    proof {
        text::lemma_parts_some(s@, '/');
        assert(parts.deep_view().len() == parts@.len());
        assert(parts.deep_view()[0] == parts@[0]@);
    }
    text::owned(parts[0])
}

pub open spec fn glyph_of(status: Seq<char>) -> Seq<char> {
    if status == "Passed"@ || status == "Failed"@ {
        "\u{25cf}"@
    } else if status == "Building"@ {
        "\u{25d0}"@
    } else if status == "Cancelled"@ {
        "\u{25d1}"@
    } else {
        "\u{25cb}"@
    }
}

pub fn dot_for(status: &str) -> (r: &'static str)
    ensures
        r@ == glyph_of(status@),
{
    if text::same(status, "Passed") || text::same(status, "Failed") {
        "\u{25cf}"
    } else if text::same(status, "Building") {
        "\u{25d0}"
    } else if text::same(status, "Cancelled") {
        "\u{25d1}"
    } else {
        "\u{25cb}"
    }
}

pub open spec fn tint_of(status: Seq<char>) -> Tint {
    if status == "Passed"@ {
        Tint::Success
    } else if status == "Failed"@ {
        Tint::Danger
    } else if status == "Building"@ {
        Tint::Warning
    } else if status == "Cancelled"@ {
        Tint::Info
    } else {
        Tint::Muted
    }
}

pub fn status_color(status: &str) -> (r: Tint)
    ensures
        r == tint_of(status@),
{
    if text::same(status, "Passed") {
        Tint::Success
    } else if text::same(status, "Failed") {
        Tint::Danger
    } else if text::same(status, "Building") {
        Tint::Warning
    } else if text::same(status, "Cancelled") {
        Tint::Info
    } else {
        Tint::Muted
    }
}

/// The first seven characters of a commit.
pub fn short_sha(sha: &str) -> (r: String)
    ensures
        r@ == first_chars(sha@, 7),
{
    text::owned(take_chars(sha, 7))
}

pub open spec fn frame_of(i: int) -> char {
    if i == 0 {
        '\u{280b}'
    } else if i == 1 {
        '\u{2819}'
    } else if i == 2 {
        '\u{2839}'
    } else if i == 3 {
        '\u{2838}'
    } else if i == 4 {
        '\u{283c}'
    } else if i == 5 {
        '\u{2834}'
    } else if i == 6 {
        '\u{2826}'
    } else {
        '\u{2827}'
    }
}

/// One of eight frames, each for four ticks.
pub open spec fn spinner_char(tick: u64) -> char {
    frame_of(tick as int / 4 % 8)
}

pub fn spinner(tick: u64) -> (r: char)
    ensures
        r == spinner_char(tick),
{
    let i: u64 = tick / 4 % 8;
    if i == 0 {
        '\u{280b}'
    } else if i == 1 {
        '\u{2819}'
    } else if i == 2 {
        '\u{2839}'
    } else if i == 3 {
        '\u{2838}'
    } else if i == 4 {
        '\u{283c}'
    } else if i == 5 {
        '\u{2834}'
    } else if i == 6 {
        '\u{2826}'
    } else {
        '\u{2827}'
    }
}

/// A text after the spinner.
pub open spec fn spinning(tick: u64, t: Seq<char>) -> Seq<char> {
    seq![spinner_char(tick)] + t
}

pub(crate) fn spin(tick: u64, t: &str) -> (r: String)
    ensures
        r@ == spinning(tick, t@),
{
    let mut s = String::new();
    s.push(spinner(tick));
    assert(s@ =~= seq![spinner_char(tick)]);
    text::cat2(s.as_str(), t)
}

/// A short word for why a check failed.
pub open spec fn failure_label(why: Seq<char>) -> Seq<char> {
    if text::has(why, "SSO"@) {
        "needs SSO authorization"@
    } else if text::has(why, "401"@) {
        "token invalid"@
    } else if text::has(why, "404"@) {
        "repo or branch not found"@
    } else if text::has(why, "no token"@) || text::has(why, "rate limit"@) {
        "no token (press @ to connect)"@
    } else {
        "check failed"@
    }
}

pub fn github_failure_label(why: &str) -> (r: &'static str)
    ensures
        r@ == failure_label(why@),
{
    if text::contains(why, "SSO") {
        "needs SSO authorization"
    } else if text::contains(why, "401") {
        "token invalid"
    } else if text::contains(why, "404") {
        "repo or branch not found"
    } else if text::contains(why, "no token") || text::contains(why, "rate limit") {
        "no token (press @ to connect)"
    } else {
        "check failed"
    }
}

/// The rows for a message of that length: two where it is too long for one.
pub open spec fn rows_for(len: nat, width: u16) -> u16 {
    let room = if width < 2 {
        0
    } else {
        width - 2
    };
    if len > room {
        2
    } else {
        1
    }
}

/// An error that is too long for one row gets two, so that its end, which names
/// what to do, is not cut off.
pub fn message_rows(error: Option<&str>, width: u16) -> (r: u16)
    ensures
        r == match error.deep_view() {
            Some(e) => rows_for(e.len(), width),
            None => 1,
        },
{
    let room: usize = if width < 2 { 0 } else { width as usize - 2 };
    match error {
        Some(e) => if e.unicode_len() > room {
            2
        } else {
            1
        },
        None => 1,
    }
}

// ---- console lines -------------------------------------------------------

/// The style of a console line: failures, then warnings, then successes, then
/// what GoCD itself says.
pub open spec fn body_style(marker: Seq<char>, body: Seq<char>) -> Style {
    let lower = ascii_lowered(body);
    if tells_failure(lower) || marker == "!!"@ {
        tinted(Tint::Danger)
    } else if tells_warning(lower) || marker == "&2"@ {
        tinted(Tint::Warning)
    } else if tells_success(lower) {
        tinted(Tint::Success)
    } else if text::begins(body, "[go]"@) || marker == "##"@ {
        tinted(Tint::Muted)
    } else {
        plain()
    }
}

pub fn console_body_style(marker: &str, body: &str) -> (r: Style)
    ensures
        r == body_style(marker@, body@),
{
    let lowered = lower_ascii(body);
    let lower = lowered.as_str();
    if mentions_failure(lower) || text::same(marker, "!!") {
        tint(Tint::Danger)
    } else if text::contains(lower, "warn") || text::contains(lower, "deprecat") || text::same(
        marker,
        "&2",
    ) {
        tint(Tint::Warning)
    } else if text::contains(lower, "passed") || text::contains(lower, "success")
        || text::contains(lower, "job completed") {
        tint(Tint::Success)
    } else if text::starts_with(body, "[go]") || text::same(marker, "##") {
        tint(Tint::Muted)
    } else {
        Style { fg: None, bg: None, bold: false }
    }
}

/// A line in its time, "HH:MM:SS.mmm ", and the rest. The time is 13 bytes with
/// colons at two places; what would end inside a character is none.
pub open spec fn timed(rest: Seq<char>) -> (Seq<char>, Seq<char>) {
    match (text::at_byte(rest, 13), text::at_byte(rest, 2), text::at_byte(rest, 5)) {
        (Some(k), Some(a), Some(b)) => if a < rest.len() && rest[a] == ':' && b < rest.len()
            && rest[b] == ':' {
            (rest.take(k), rest.skip(k))
        } else {
            (Seq::empty(), rest)
        },
        _ => (Seq::empty(), rest),
    }
}

pub fn split_time(rest: &str) -> (r: (&str, &str))
    ensures
        (r.0@, r.1@) == timed(rest@),
{
    let cs = text::chars_of(rest);
    let n: usize = cs.len();
    if let Some(k) = text::index_at_byte(&cs, 13) {
        if let Some(a) = text::index_at_byte(&cs, 2) {
            if let Some(b) = text::index_at_byte(&cs, 5) {
                if a < n && cs[a] == ':' && b < n && cs[b] == ':' {
                    let x = rest.substring_char(0, k);
                    let y = rest.substring_char(k, n);
                    assert(x@ =~= rest@.take(k as int));
                    assert(y@ =~= rest@.skip(k as int));
                    return (x, y);
                }
            }
        }
    }
    let x = rest.substring_char(0, 0);
    assert(x@ =~= Seq::<char>::empty());
    (x, rest)
}

// ---- search matches ------------------------------------------------------

/// Characters put one after another.
pub open spec fn flat(cs: Seq<Seq<char>>) -> Seq<char>
    decreases cs.len(),
{
    if cs.len() == 0 {
        Seq::empty()
    } else {
        flat(cs.drop_last()) + cs.last()
    }
}

/// Each character in lower case, which can be more than one.
pub open spec fn lowered_chars(s: Seq<char>) -> Seq<Seq<char>> {
    Seq::new(s.len(), |i: int| lowercase_char(s[i]))
}

/// The end of a match that goes on at place `i` with what follows the first `qi`
/// characters of `q`.
pub open spec fn match_end(h: Seq<Seq<char>>, q: Seq<char>, i: int, qi: int) -> Option<int>
    decreases h.len() - i,
{
    if qi == q.len() {
        Some(i)
    } else if i >= h.len() {
        None
    } else if qi + h[i].len() <= q.len() && q.subrange(qi, qi + h[i].len()) == h[i] {
        match_end(h, q, i + 1, qi + h[i].len())
    } else {
        None
    }
}

/// The matches of `q` from place `from` on, none overlapping another.
pub open spec fn matches_from(h: Seq<Seq<char>>, q: Seq<char>, from: int) -> Seq<(int, int)>
    decreases h.len() - from,
{
    if from >= h.len() {
        Seq::empty()
    } else {
        match match_end(h, q, from, 0) {
            Some(end) => if from < end <= h.len() {
                seq![(from, end)] + matches_from(h, q, end)
            } else {
                Seq::empty()
            },
            None => matches_from(h, q, from + 1),
        }
    }
}

proof fn lemma_match_end(h: Seq<Seq<char>>, q: Seq<char>, i: int, qi: int)
    requires
        0 <= i <= h.len(),
        0 <= qi <= q.len(),
        match_end(h, q, i, qi) is Some,
    ensures
        i <= match_end(h, q, i, qi)->Some_0 <= h.len(),
        qi < q.len() ==> i < match_end(h, q, i, qi)->Some_0,
    decreases h.len() - i,
{
    if qi != q.len() && i < h.len() {
        lemma_match_end(h, q, i + 1, qi + h[i].len());
    }
}

fn is_part(q: &Vec<char>, qi: usize, part: &Vec<char>) -> (r: bool)
    requires
        qi <= q@.len(),
    ensures
        r == (qi + part@.len() <= q@.len() && q@.subrange(qi as int, qi + part@.len()) == part@),
{
    text::matches_at(q, part, qi)
}

fn probe(h: &Vec<Vec<char>>, q: &Vec<char>, from: usize) -> (r: Option<usize>)
    requires
        from <= h@.len(),
    ensures
        match r {
            Some(e) => match_end(h.deep_view(), q@, from as int, 0) == Some(e as int) && e
                <= h@.len(),
            None => match_end(h.deep_view(), q@, from as int, 0) is None,
        },
{
    let ghost hv = h.deep_view();
    let mut i: usize = from;
    let mut qi: usize = 0;
    while qi < q.len()
        invariant
            hv == h.deep_view(),
            i <= h@.len(),
            qi <= q@.len(),
            match_end(hv, q@, from as int, 0) == match_end(hv, q@, i as int, qi as int),
        decreases h@.len() - i,
    {
        if i == h.len() {
            return None;
        }
        let part = &h[i];
        assert(hv[i as int] =~= part@);
        if !is_part(q, qi, part) {
            return None;
        }
        qi = qi + part.len();
        i = i + 1;
    }
    Some(i)
}

/// The matches of `q` in characters that are given in lower case, as places.
pub fn find_in(h: &Vec<Vec<char>>, q: &Vec<char>) -> (r: Vec<(usize, usize)>)
    requires
        q@.len() > 0,
    ensures
        r@.len() == matches_from(h.deep_view(), q@, 0).len(),
        forall|k: int|
            0 <= k < r@.len() ==> matches_from(h.deep_view(), q@, 0)[k] == (
                (#[trigger] r@[k]).0 as int,
                r@[k].1 as int,
            ) && r@[k].0 < r@[k].1 <= h@.len(),
{
    let ghost hv = h.deep_view();
    let ghost want = matches_from(hv, q@, 0);
    let mut out: Vec<(usize, usize)> = Vec::new();
    let mut from: usize = 0;
    while from < h.len()
        invariant
            hv == h.deep_view(),
            hv.len() == h@.len(),
            q@.len() > 0,
            want == matches_from(hv, q@, 0),
            from <= h@.len(),
            want.len() == out@.len() + matches_from(hv, q@, from as int).len(),
            forall|k: int|
                0 <= k < matches_from(hv, q@, from as int).len() ==> want[out@.len() + k]
                    == #[trigger] matches_from(hv, q@, from as int)[k],
            forall|k: int|
                0 <= k < out@.len() ==> want[k] == ((#[trigger] out@[k]).0 as int, out@[k].1 as int)
                    && out@[k].0 < out@[k].1 <= h@.len(),
        decreases h@.len() - from,
    {
        let ghost rest = matches_from(hv, q@, from as int);
        match probe(h, q, from) {
            Some(end) => {
                proof {
                    lemma_match_end(hv, q@, from as int, 0);
                    let tail = matches_from(hv, q@, end as int);
                    assert(rest == seq![(from as int, end as int)] + tail);
                    assert(rest[0] == (from as int, end as int));
                    assert(want[out@.len() as int] == rest[0]);
                    assert forall|k: int| 0 <= k < tail.len() implies want[out@.len() + 1 + k]
                        == #[trigger] tail[k] by {
                        assert(rest[k + 1] == tail[k]);
                        assert(want[out@.len() + (k + 1)] == rest[k + 1]);
                    }
                }
                out.push((from, end));
                from = end;
            },
            None => {
                from = from + 1;
            },
        }
    }
    out
}

fn lower_chars(s: &Vec<char>) -> (r: Vec<Vec<char>>)
    ensures
        r.deep_view() == lowered_chars(s@),
        s@.len() > 0 ==> flat(lowered_chars(s@)).len() > 0,
{
    let mut r: Vec<Vec<char>> = Vec::new();
    let mut i: usize = 0;
    while i < s.len()
        invariant
            i <= s@.len(),
            r@.len() == i,
            forall|k: int|
                0 <= k < i ==> (#[trigger] r@[k])@ == lowercase_char(s@[k]) && r@[k]@.len() > 0,
        decreases s@.len() - i,
    {
        r.push(char_to_lowercase(s[i]));
        i = i + 1;
    }
    assert forall|k: int| 0 <= k < r@.len() implies (#[trigger] r.deep_view()[k]) == lowercase_char(
        s@[k],
    ) by {
        assert(r.deep_view()[k] =~= r@[k]@);
    }
    assert(r.deep_view() =~= lowered_chars(s@));
    if s.len() > 0 {
        assert(lowered_chars(s@).last() == r@[s@.len() - 1]@);
    }
    r
}

fn flatten_chars(cs: &Vec<Vec<char>>) -> (r: Vec<char>)
    ensures
        r@ == flat(cs.deep_view()),
{
    let ghost all = cs.deep_view();
    let mut r: Vec<char> = Vec::new();
    let mut i: usize = 0;
    while i < cs.len()
        invariant
            all == cs.deep_view(),
            i <= cs@.len(),
            r@ == flat(all.take(i as int)),
        decreases cs@.len() - i,
    {
        let ghost before = r@;
        let part = &cs[i];
        assert(all.take(i + 1).drop_last() =~= all.take(i as int));
        assert(all.take(i + 1).last() =~= part@);
        let mut j: usize = 0;
        assert(before + part@.take(0) =~= before);
        while j < part.len()
            invariant
                j <= part@.len(),
                r@ == before + part@.take(j as int),
            decreases part@.len() - j,
        {
            r.push(part[j]);
            assert(before + part@.take(j + 1) =~= (before + part@.take(j as int)).push(
                part@[j as int],
            ));
            j = j + 1;
        }
        assert(part@.take(j as int) =~= part@);
        i = i + 1;
    }
    assert(all.take(i as int) =~= all);
    r
}

/// The places of the matches of `query` in `haystack`, in either case.
pub open spec fn match_places(haystack: Seq<char>, query: Seq<char>) -> Seq<(int, int)> {
    let q = flat(lowered_chars(query));
    if q.len() == 0 {
        Seq::empty()
    } else {
        matches_from(lowered_chars(haystack), q, 0)
    }
}

pub(crate) fn places_ci(haystack: &Vec<char>, query: &str) -> (r: Vec<(usize, usize)>)
    ensures
        query@.len() > 0 ==> flat(lowered_chars(query@)).len() > 0,
        r@.len() == match_places(haystack@, query@).len(),
        forall|k: int|
            0 <= k < r@.len() ==> match_places(haystack@, query@)[k] == (
                (#[trigger] r@[k]).0 as int,
                r@[k].1 as int,
            ) && r@[k].0 < r@[k].1 <= haystack@.len(),
{
    let qs = lower_chars(&text::chars_of(query));
    let q = flatten_chars(&qs);
    if q.len() == 0 {
        return Vec::new();
    }
    let h = lower_chars(haystack);
    assert(h.deep_view().len() == h@.len());
    find_in(&h, &q)
}

/// The number of bytes before place `k`.
fn byte_offset(cs: &Vec<char>, k: usize) -> (r: usize)
    requires
        k <= cs@.len(),
        text::bytes_len(cs@) <= usize::MAX,
    ensures
        r == text::bytes_len(cs@.take(k as int)),
{
    let mut n: usize = 0;
    let mut i: usize = 0;
    while i < k
        invariant
            i <= k <= cs@.len(),
            text::bytes_len(cs@) <= usize::MAX,
            n == text::bytes_len(cs@.take(i as int)),
        decreases k - i,
    {
        proof {
            assert(cs@.take(i + 1).drop_last() =~= cs@.take(i as int));
            text::lemma_bytes_len_take(cs@, i + 1);
        }
        n = n + text::width(cs[i]);
        i = i + 1;
    }
    n
}

/// The matches of `query` in `haystack`, in either case and none overlapping
/// another, as ranges of bytes that start and end between characters.
pub fn find_matches_ci(haystack: &str, query: &str) -> (r: Vec<(usize, usize)>)
    ensures
        query@.len() > 0 ==> flat(lowered_chars(query@)).len() > 0,
        r@.len() == match_places(haystack@, query@).len(),
        forall|k: int|
            0 <= k < r@.len() ==> {
                let (a, b) = match_places(haystack@, query@)[k];
                &&& (#[trigger] r@[k]).0 == text::bytes_len(haystack@.take(a))
                &&& r@[k].1 == text::bytes_len(haystack@.take(b))
            },
{
    let cs = text::chars_of(haystack);
    let places = places_ci(&cs, query);
    let ghost want = match_places(haystack@, query@);
    let size: usize = haystack.as_bytes().len();
    proof {
        text::lemma_bytes_len(haystack@);
        assert(text::bytes_len(cs@) == size);
    }
    let mut out: Vec<(usize, usize)> = Vec::new();
    let mut i: usize = 0;
    while i < places.len()
        invariant
            cs@ == haystack@,
            text::bytes_len(cs@) == size,
            want == match_places(haystack@, query@),
            places@.len() == want.len(),
            forall|k: int|
                0 <= k < places@.len() ==> want[k] == (
                    (#[trigger] places@[k]).0 as int,
                    places@[k].1 as int,
                ) && places@[k].0 < places@[k].1 <= cs@.len(),
            i <= places@.len(),
            out@.len() == i,
            forall|k: int|
                0 <= k < i ==> {
                    let (a, b) = want[k];
                    &&& (#[trigger] out@[k]).0 == text::bytes_len(haystack@.take(a))
                    &&& out@[k].1 == text::bytes_len(haystack@.take(b))
                },
        decreases places@.len() - i,
    {
        let (a, b) = places[i];
        assert(want[i as int] == (places@[i as int].0 as int, places@[i as int].1 as int));
        out.push((byte_offset(&cs, a), byte_offset(&cs, b)));
        i = i + 1;
    }
    out
}

// ---- laws ----------------------------------------------------------------

/// Matches are never empty, lie inside the text, come in order, and none
/// overlaps another.
pub proof fn matches_do_not_overlap(h: Seq<Seq<char>>, q: Seq<char>, from: int)
    requires
        0 <= from <= h.len(),
        q.len() > 0,
    ensures
        forall|k: int|
            0 <= k < matches_from(h, q, from).len() ==> from <= (#[trigger] matches_from(
                h,
                q,
                from,
            )[k]).0 < matches_from(h, q, from)[k].1 <= h.len(),
        forall|j: int, k: int|
            0 <= j < k < matches_from(h, q, from).len() ==> (#[trigger] matches_from(
                h,
                q,
                from,
            )[j]).1 <= (#[trigger] matches_from(h, q, from)[k]).0,
    decreases h.len() - from,
{
    if from < h.len() {
        match match_end(h, q, from, 0) {
            Some(end) => {
                lemma_match_end(h, q, from, 0);
                matches_do_not_overlap(h, q, end);
                let tail = matches_from(h, q, end);
                let all = matches_from(h, q, from);
                assert(all == seq![(from, end)] + tail);
                assert forall|k: int| 0 <= k < all.len() implies from <= (#[trigger] all[k]).0
                    < all[k].1 <= h.len() by {
                    if k > 0 {
                        assert(all[k] == tail[k - 1]);
                    }
                }
                assert forall|j: int, k: int| 0 <= j < k < all.len() implies (#[trigger] all[j]).1
                    <= (#[trigger] all[k]).0 by {
                    assert(all[k] == tail[k - 1]);
                    if j > 0 {
                        assert(all[j] == tail[j - 1]);
                    }
                }
            },
            None => {
                matches_do_not_overlap(h, q, from + 1);
                let all = matches_from(h, q, from);
                let tail = matches_from(h, q, from + 1);
                assert(all == tail);
                assert forall|k: int| 0 <= k < all.len() implies from <= (#[trigger] all[k]).0
                    < all[k].1 <= h.len() by {
                    assert(all[k] == tail[k]);
                }
            },
        }
    }
}

proof fn lemma_flat_front(cs: Seq<Seq<char>>)
    requires
        cs.len() > 0,
    ensures
        flat(cs) == cs[0] + flat(cs.skip(1)),
    decreases cs.len(),
{
    let d = cs.drop_last();
    if d.len() > 0 {
        lemma_flat_front(d);
        assert(cs.skip(1).drop_last() =~= d.skip(1));
    } else {
        assert(cs.skip(1).len() == 0);
        assert(flat(d) =~= Seq::empty());
    }
    assert(flat(cs) =~= cs[0] + flat(cs.skip(1)));
}

proof fn lemma_match_spells(h: Seq<Seq<char>>, q: Seq<char>, i: int, qi: int)
    requires
        0 <= i <= h.len(),
        0 <= qi <= q.len(),
        match_end(h, q, i, qi) is Some,
    ensures
        flat(h.subrange(i, match_end(h, q, i, qi)->Some_0)) == q.skip(qi),
    decreases h.len() - i,
{
    lemma_match_end(h, q, i, qi);
    let end = match_end(h, q, i, qi)->Some_0;
    if qi == q.len() {
        assert(h.subrange(i, end) =~= Seq::empty());
        assert(q.skip(qi) =~= Seq::empty());
    } else {
        let n = qi + h[i].len();
        lemma_match_end(h, q, i + 1, n);
        lemma_match_spells(h, q, i + 1, n);
        let s = h.subrange(i, end);
        lemma_flat_front(s);
        assert(s.skip(1) =~= h.subrange(i + 1, end));
        assert(q.skip(qi) =~= q.subrange(qi, n) + q.skip(n));
    }
}

proof fn lemma_spelling_matches(h: Seq<Seq<char>>, q: Seq<char>, i: int, qi: int, b: int)
    requires
        0 <= i <= b <= h.len(),
        0 <= qi <= q.len(),
        flat(h.subrange(i, b)) == q.skip(qi),
    ensures
        match_end(h, q, i, qi) is Some,
    decreases b - i,
{
    let s = h.subrange(i, b);
    if qi < q.len() {
        if i == b {
            assert(s.len() == 0);
            assert(q.skip(qi).len() > 0);
        } else {
            lemma_flat_front(s);
            let n = qi + h[i].len();
            let rest = h.subrange(i + 1, b);
            assert(s.skip(1) =~= rest);
            assert(q.skip(qi) == h[i] + flat(rest));
            assert(q.skip(qi).len() == h[i].len() + flat(rest).len());
            assert(q.subrange(qi, n) =~= h[i]) by {
                assert forall|k: int| 0 <= k < h[i].len() implies q[qi + k] == h[i][k] by {
                    assert(q.skip(qi)[k] == q[qi + k]);
                }
            }
            assert(q.skip(n) =~= flat(rest)) by {
                assert forall|k: int| 0 <= k < flat(rest).len() implies q[n + k] == flat(
                    rest,
                )[k] by {
                    assert(q.skip(qi)[h[i].len() + k] == q[n + k]);
                }
            }
            lemma_spelling_matches(h, q, i + 1, n, b);
        }
    }
}

proof fn lemma_each_match_spells(h: Seq<Seq<char>>, q: Seq<char>, from: int)
    requires
        0 <= from <= h.len(),
        q.len() > 0,
    ensures
        forall|k: int|
            0 <= k < matches_from(h, q, from).len() ==> {
                let (a, b) = #[trigger] matches_from(h, q, from)[k];
                flat(h.subrange(a, b)) == q
            },
    decreases h.len() - from,
{
    if from < h.len() {
        match match_end(h, q, from, 0) {
            Some(end) => {
                lemma_match_end(h, q, from, 0);
                lemma_match_spells(h, q, from, 0);
                assert(q.skip(0) =~= q);
                lemma_each_match_spells(h, q, end);
                let tail = matches_from(h, q, end);
                let all = matches_from(h, q, from);
                assert(all == seq![(from, end)] + tail);
                assert forall|k: int| 0 <= k < all.len() implies {
                    let (a, b) = #[trigger] all[k];
                    flat(h.subrange(a, b)) == q
                } by {
                    if k > 0 {
                        assert(all[k] == tail[k - 1]);
                    }
                }
            },
            None => {
                lemma_each_match_spells(h, q, from + 1);
                let tail = matches_from(h, q, from + 1);
                let all = matches_from(h, q, from);
                assert(all == tail);
                assert forall|k: int| 0 <= k < all.len() implies {
                    let (a, b) = #[trigger] all[k];
                    flat(h.subrange(a, b)) == q
                } by {
                    let (a, b) = tail[k];
                    assert(flat(h.subrange(a, b)) == q);
                }
            },
        }
    }
}

proof fn lemma_spelling_found(h: Seq<Seq<char>>, q: Seq<char>, from: int, a: int, b: int) -> (k: int)
    requires
        0 <= from <= a <= b <= h.len(),
        q.len() > 0,
        flat(h.subrange(a, b)) == q,
    ensures
        0 <= k < matches_from(h, q, from).len(),
        matches_from(h, q, from)[k].0 <= a < matches_from(h, q, from)[k].1,
    decreases h.len() - from,
{
    assert(q.skip(0) =~= q);
    lemma_spelling_matches(h, q, a, 0, b);
    lemma_match_end(h, q, a, 0);
    let all = matches_from(h, q, from);
    match match_end(h, q, from, 0) {
        Some(end) => {
            lemma_match_end(h, q, from, 0);
            let tail = matches_from(h, q, end);
            assert(all == seq![(from, end)] + tail);
            if a < end {
                assert(all[0] == (from, end));
                0
            } else {
                let j = lemma_spelling_found(h, q, end, a, b);
                assert(all[j + 1] == tail[j]);
                j + 1
            }
        },
        None => {
            assert(from != a);
            lemma_spelling_found(h, q, from + 1, a, b)
        },
    }
}

/// What a text spells in lower case.
pub open spec fn spelled(s: Seq<char>) -> Seq<char> {
    flat(lowered_chars(s))
}

/// The places of the matches are exactly right. Each match is in lower case what the
/// query is in lower case, and wherever such a text starts there is a match. A query
/// that spells nothing matches nowhere.
pub proof fn matches_are_sound_and_complete(haystack: Seq<char>, query: Seq<char>)
    ensures
        spelled(query).len() == 0 ==> match_places(haystack, query).len() == 0,
        forall|k: int|
            0 <= k < match_places(haystack, query).len() ==> {
                let (a, b) = #[trigger] match_places(haystack, query)[k];
                0 <= a < b <= haystack.len() && spelled(haystack.subrange(a, b)) == spelled(query)
            },
        forall|a: int, b: int|
            0 <= a <= b <= haystack.len() && spelled(query).len() > 0 && #[trigger] spelled(
                haystack.subrange(a, b),
            ) == spelled(query) ==> exists|k: int|
                0 <= k < match_places(haystack, query).len() && (#[trigger] match_places(
                    haystack,
                    query,
                )[k]).0 <= a < match_places(haystack, query)[k].1,
{
    let h = lowered_chars(haystack);
    let q = spelled(query);
    let m = match_places(haystack, query);
    if q.len() > 0 {
        matches_do_not_overlap(h, q, 0);
        lemma_each_match_spells(h, q, 0);
        assert forall|k: int| 0 <= k < m.len() implies {
            let (a, b) = #[trigger] m[k];
            0 <= a < b <= haystack.len() && spelled(haystack.subrange(a, b)) == q
        } by {
            let (a, b) = m[k];
            assert(lowered_chars(haystack.subrange(a, b)) =~= h.subrange(a, b));
        }
        assert forall|a: int, b: int|
            0 <= a <= b <= haystack.len() && #[trigger] spelled(haystack.subrange(a, b))
                == q implies exists|k: int|
            0 <= k < m.len() && (#[trigger] m[k]).0 <= a < m[k].1 by {
            assert(lowered_chars(haystack.subrange(a, b)) =~= h.subrange(a, b));
            let k = lemma_spelling_found(h, q, 0, a, b);
            assert(m[k].0 <= a < m[k].1);
        }
    }
}

/// A building and a cancelled pipeline look different from one that is done, and
/// a failed one differs from a passed one by its colour.
pub proof fn states_can_be_told_apart()
    ensures
        glyph_of("Building"@) != glyph_of("Passed"@),
        glyph_of("Cancelled"@) != glyph_of("Passed"@),
        glyph_of("Passed"@) == glyph_of("Failed"@),
        tint_of("Passed"@) != tint_of("Failed"@),
        tint_of("Building"@) != tint_of("Passed"@),
{
    reveal_strlit("Passed");
    reveal_strlit("Failed");
    reveal_strlit("Building");
    reveal_strlit("Cancelled");
    reveal_strlit("\u{25cf}");
    reveal_strlit("\u{25d0}");
    reveal_strlit("\u{25d1}");
    assert("Passed"@[0] == 'P' && "Failed"@[0] == 'F' && "Building"@[0] == 'B'
        && "Cancelled"@[0] == 'C');
    assert("\u{25cf}"@[0] == '\u{25cf}');
    assert("\u{25d0}"@[0] == '\u{25d0}');
    assert("\u{25d1}"@[0] == '\u{25d1}');
}

} // verus!
