//! The view of a job: its tabs, its log with matches, its artifacts.

use vstd::prelude::*;
use vstd::string::*;

use crate::app::console::{at_most, less};
use crate::app::{ConsoleLogState, ConsoleLogStateView, JobTab};
use crate::inspect::{framed, split_marker};
use crate::model::{ArtifactRow, ArtifactRowView};
use crate::text;
use crate::ui::{
    badge, body_style, bold, bold_tint, bold_tinted, bolded, console_body_style, match_places,
    muted, muted_line, no_lines, no_spans, one, places_ci, plain, put, put_line, raw, raw_sp, sp,
    span, span_of, spin, spinning, split_time, status_color, timed, tint, tint_of, tinted, Line,
    Span, SpanView, Style, Tint,
};
use crate::unicode::{lowercase, to_lowercase};

verus! {

// ---- one line of the log -------------------------------------------------

/// How a match is shown: the current one stands out from the others.
pub open spec fn match_style(current: bool) -> Style {
    if current {
        badge(Tint::Warning)
    } else {
        Style { fg: Some(Tint::Black), bg: Some(Tint::Accent), bold: false }
    }
}

/// The spans of a body up to the last of the matches `ms`.
pub open spec fn matched_spans(
    body: Seq<char>,
    ms: Seq<(int, int)>,
    style: Style,
    current: bool,
) -> Seq<SpanView>
    decreases ms.len(),
{
    if ms.len() == 0 {
        Seq::empty()
    } else {
        let m = ms.last();
        let from = last_end(ms.drop_last());
        matched_spans(body, ms.drop_last(), style, current).push(
            sp(body.subrange(from, m.0), style),
        ).push(sp(body.subrange(m.0, m.1), match_style(current)))
    }
}

/// The end of the last match, or the start of the text.
pub open spec fn last_end(ms: Seq<(int, int)>) -> int {
    if ms.len() == 0 {
        0
    } else {
        ms.last().1
    }
}

/// A body with its matches marked.
pub open spec fn body_spans(
    body: Seq<char>,
    query: Option<Seq<char>>,
    style: Style,
    current: bool,
) -> Seq<SpanView> {
    match query {
        Some(q) => {
            let ms = match_places(body, q);
            matched_spans(body, ms, style, current).push(sp(body.skip(last_end(ms)), style))
        },
        None => seq![sp(body, style)],
    }
}

/// A line of the log: without its marker, its time muted, in the colour of what
/// it tells, and with the matches of a search marked.
pub open spec fn log_spans(raw: Seq<char>, query: Option<Seq<char>>, current: bool) -> Seq<SpanView> {
    let (marker, rest) = framed(raw);
    let (time, body) = timed(rest);
    seq![sp(time, tinted(Tint::Muted))] + body_spans(
        body,
        query,
        body_style(marker, body),
        current,
    )
}

fn style_of_match(current: bool) -> (r: Style)
    ensures
        r == match_style(current),
{
    if current {
        Style { fg: Some(Tint::Black), bg: Some(Tint::Warning), bold: true }
    } else {
        Style { fg: Some(Tint::Black), bg: Some(Tint::Accent), bold: false }
    }
}

fn matches_into(body: &str, query: &str, style: Style, current: bool, out: &mut Line)
    ensures
        final(out).deep_view() == old(out).deep_view() + body_spans(
            body@,
            Some(query@),
            style,
            current,
        ),
{
    let cs = text::chars_of(body);
    let places = places_ci(&cs, query);
    let ghost ms = match_places(body@, query@);
    let ghost start = out.deep_view();
    proof {
        lemma_places_in_order(body@, query@);
    }
    let hl = style_of_match(current);
    let mut pos: usize = 0;
    let mut i: usize = 0;
    assert(start + matched_spans(body@, ms.take(0), style, current) =~= start);
    while i < places.len()
        invariant
            cs@ == body@,
            ms == match_places(body@, query@),
            places@.len() == ms.len(),
            forall|k: int|
                0 <= k < places@.len() ==> ms[k] == (
                    (#[trigger] places@[k]).0 as int,
                    places@[k].1 as int,
                ) && places@[k].0 < places@[k].1 <= cs@.len(),
            forall|j: int, k: int| 0 <= j < k < ms.len() ==> (#[trigger] ms[j]).1 <= (
            #[trigger] ms[k]).0,
            hl == match_style(current),
            i <= places@.len(),
            pos == last_end(ms.take(i as int)),
            pos <= cs@.len(),
            i > 0 ==> pos == ms[i - 1].1,
            i == 0 ==> pos == 0,
            out.deep_view() == start + matched_spans(body@, ms.take(i as int), style, current),
        decreases places@.len() - i,
    {
        let (a, b) = places[i];
        proof {
            assert(ms[i as int] == (places@[i as int].0 as int, places@[i as int].1 as int));
            assert(ms.take(i + 1).drop_last() =~= ms.take(i as int));
            assert(ms.take(i + 1).last() == ms[i as int]);
            if i > 0 {
                assert(ms[i - 1].1 <= ms[i as int].0);
            }
        }
        let plain_part = text::text_of(&cs, pos, a);
        let hit = text::text_of(&cs, a, b);
        put(out, span_of(plain_part, style));
        put(out, span_of(hit, hl));
        assert(out.deep_view() =~= start + matched_spans(body@, ms.take(i + 1), style, current));
        pos = b;
        i = i + 1;
    }
    assert(ms.take(i as int) =~= ms);
    let tail = text::text_of(&cs, pos, cs.len());
    assert(tail@ =~= body@.skip(pos as int));
    put(out, span_of(tail, style));
    assert(out.deep_view() =~= start + body_spans(body@, Some(query@), style, current));
}

proof fn lemma_places_in_order(body: Seq<char>, query: Seq<char>)
    ensures
        forall|j: int, k: int|
            0 <= j < k < match_places(body, query).len() ==> (#[trigger] match_places(
                body,
                query,
            )[j]).1 <= (#[trigger] match_places(body, query)[k]).0,
{
    let q = crate::ui::flat(crate::ui::lowered_chars(query));
    if q.len() > 0 {
        crate::ui::matches_do_not_overlap(crate::ui::lowered_chars(body), q, 0);
    }
}

/// One line of the log as it is shown. `query` is the search text, in lower case.
pub fn console_line(raw: &str, query: Option<&str>, current_match: bool) -> (r: Line)
    ensures
        r.deep_view() == log_spans(raw@, query.deep_view(), current_match),
{
    let (marker, rest) = split_marker(raw);
    let (time, body) = split_time(rest);
    let style = console_body_style(marker, body);
    let mut out = one(span(time, tint(Tint::Muted)));
    match query {
        Some(q) => {
            matches_into(body, q, style, current_match, &mut out);
        },
        None => {
            put(&mut out, span(body, style));
        },
    }
    assert(out.deep_view() =~= log_spans(raw@, query.deep_view(), current_match));
    out
}

// ---- the tabs ------------------------------------------------------------

pub open spec fn tab_name(i: int) -> Seq<char> {
    if i == 0 {
        "1 Console"@
    } else if i == 1 {
        "2 Artifacts"@
    } else {
        "3 Materials"@
    }
}

pub open spec fn tab_index(tab: JobTab) -> int {
    match tab {
        JobTab::Console => 0,
        JobTab::Artifacts => 1,
        JobTab::Materials => 2,
    }
}

pub open spec fn tab_span(i: int, tab: JobTab) -> SpanView {
    sp(
        tab_name(i),
        if tab_index(tab) == i {
            bold_tinted(Tint::Accent)
        } else {
            tinted(Tint::Muted)
        },
    )
}

/// The bar with the names of the tabs.
pub open spec fn tab_bar(tab: JobTab) -> Seq<SpanView> {
    let bar = sp("  |  "@, tinted(Tint::Muted));
    seq![tab_span(0, tab), bar, tab_span(1, tab), bar, tab_span(2, tab)]
}

fn tab_of(name: &str, chosen: bool) -> (r: Span)
    ensures
        r.deep_view() == sp(
            name@,
            if chosen {
                bold_tinted(Tint::Accent)
            } else {
                tinted(Tint::Muted)
            },
        ),
{
    span(
        name,
        if chosen {
            bold_tint(Tint::Accent)
        } else {
            tint(Tint::Muted)
        },
    )
}

pub fn tab_line(tab: JobTab) -> (r: Line)
    ensures
        r.deep_view() == tab_bar(tab),
{
    let mut out = no_spans();
    put(&mut out, tab_of("1 Console", tab == JobTab::Console));
    put(&mut out, span("  |  ", tint(Tint::Muted)));
    put(&mut out, tab_of("2 Artifacts", tab == JobTab::Artifacts));
    put(&mut out, span("  |  ", tint(Tint::Muted)));
    put(&mut out, tab_of("3 Materials", tab == JobTab::Materials));
    assert(out.deep_view() =~= tab_bar(tab));
    out
}

pub open spec fn tab_hint(tab: JobTab) -> Seq<char> {
    match tab {
        JobTab::Console => "tab/1-3 switch   / search   n/N match   j/k scroll   e editor   O gocd   r refresh   q/esc close"@,
        JobTab::Artifacts => "tab/1-3 switch   j/k select   enter open/close   o browser   O gocd   y copy url   q/esc close"@,
        JobTab::Materials => "tab/1-3 switch   j/k scroll   e editor   O gocd   q/esc close"@,
    }
}

pub fn hint_line(tab: JobTab) -> (r: Line)
    ensures
        r.deep_view() == muted_line(tab_hint(tab)),
{
    muted(
        match tab {
            JobTab::Console => "tab/1-3 switch   / search   n/N match   j/k scroll   e editor   O gocd   r refresh   q/esc close",
            JobTab::Artifacts => "tab/1-3 switch   j/k select   enter open/close   o browser   O gocd   y copy url   q/esc close",
            JobTab::Materials => "tab/1-3 switch   j/k scroll   e editor   O gocd   q/esc close",
        },
    )
}

// ---- the status row ------------------------------------------------------

pub open spec fn gap() -> SpanView {
    raw_sp("  "@)
}

pub open spec fn result_part(s: ConsoleLogStateView) -> Seq<SpanView> {
    match s.result {
        Some(res) => seq![sp(res, bold_tinted(tint_of(res))), gap()],
        None => Seq::empty(),
    }
}

/// The search text, and which of how many matches is the current one.
pub open spec fn search_part(s: ConsoleLogStateView) -> Seq<SpanView> {
    if s.search_active || s.search.len() > 0 {
        let typed = seq![
            gap(),
            sp(
                "/"@ + s.search + if s.search_active {
                    "\u{2588}"@
                } else {
                    ""@
                },
                tinted(Tint::Accent),
            ),
        ];
        let none = s.matches.len() == 0;
        if s.search.len() > 0 {
            typed.push(
                sp(
                    "  "@ + text::dec(
                        if none {
                            0
                        } else {
                            s.match_idx as nat + 1
                        },
                    ) + "/"@ + text::dec(s.matches.len()) + " matches"@,
                    tinted(
                        if none {
                            Tint::Danger
                        } else {
                            Tint::Muted
                        },
                    ),
                ),
            )
        } else {
            typed
        }
    } else {
        Seq::empty()
    }
}

pub open spec fn progress_part(s: ConsoleLogStateView, tick: u64) -> Seq<SpanView> {
    (if s.loading || s.artifacts_loading {
        seq![gap(), sp(spinning(tick, " refreshing"@), tinted(Tint::Muted))]
    } else {
        Seq::empty()
    }) + (if s.following && s.tab == JobTab::Console {
        seq![gap(), sp("following"@, tinted(Tint::Success))]
    } else {
        Seq::empty()
    }) + match s.error {
        Some(e) => seq![gap(), sp("! "@ + e, tinted(Tint::Danger))],
        None => Seq::empty(),
    }
}

/// The row below the content.
pub open spec fn status_row(s: ConsoleLogStateView, tick: u64) -> Seq<SpanView> {
    result_part(s).push(sp(text::dec(s.lines.len()) + " lines"@, tinted(Tint::Muted)))
        + search_part(s) + progress_part(s, tick)
}

fn search_into(s: &ConsoleLogState, out: &mut Line)
    ensures
        final(out).deep_view() == old(out).deep_view() + search_part(s.deep_view()),
{
    let ghost start = out.deep_view();
    let typed = s.search.as_str().unicode_len() > 0;
    if s.search_active || typed {
        put(out, raw("  "));
        let cursor = if s.search_active {
            "\u{2588}"
        } else {
            ""
        };
        put(out, span_of(text::cat3("/", s.search.as_str(), cursor), tint(Tint::Accent)));
        if typed {
            let none = s.matches.len() == 0;
            let pos: u128 = if none { 0 } else { s.match_idx as u128 + 1 };
            let a = text::decimal(pos);
            let b = text::decimal_n(s.matches.len());
            put(
                out,
                span_of(
                    text::cat5("  ", a.as_str(), "/", b.as_str(), " matches"),
                    tint(
                        if none {
                            Tint::Danger
                        } else {
                            Tint::Muted
                        },
                    ),
                ),
            );
        }
    }
    assert(out.deep_view() =~= start + search_part(s.deep_view()));
}

fn progress_into(s: &ConsoleLogState, tick: u64, out: &mut Line)
    ensures
        final(out).deep_view() == old(out).deep_view() + progress_part(s.deep_view(), tick),
{
    let ghost start = out.deep_view();
    if s.loading || s.artifacts_loading {
        put(out, raw("  "));
        put(out, span_of(spin(tick, " refreshing"), tint(Tint::Muted)));
    }
    if s.following && s.tab == JobTab::Console {
        put(out, raw("  "));
        put(out, span("following", tint(Tint::Success)));
    }
    if let Some(e) = &s.error {
        put(out, raw("  "));
        put(out, span_of(text::cat2("! ", e.as_str()), tint(Tint::Danger)));
    }
    assert(out.deep_view() =~= start + progress_part(s.deep_view(), tick));
}

pub fn status_line(s: &ConsoleLogState, tick: u64) -> (r: Line)
    ensures
        r.deep_view() == status_row(s.deep_view(), tick),
{
    let mut out = no_spans();
    if let Some(res) = &s.result {
        put(&mut out, span(res.as_str(), bold_tint(status_color(res.as_str()))));
        put(&mut out, raw("  "));
    }
    assert(out.deep_view() =~= result_part(s.deep_view()));
    assert(s.deep_view().lines.len() == s.lines@.len());
    let n = text::decimal_n(s.lines.len());
    put(&mut out, span_of(text::cat2(n.as_str(), " lines"), tint(Tint::Muted)));
    search_into(s, &mut out);
    progress_into(s, tick, &mut out);
    out
}

// ---- contents ------------------------------------------------------------

/// The number of items shown from `from` on in `height` rows.
pub open spec fn shown(len: nat, from: int, height: u16) -> nat {
    if from >= len {
        0
    } else if len - from < height {
        (len - from) as nat
    } else {
        height as nat
    }
}

/// The first line of the log that is on screen.
pub open spec fn log_scroll(s: ConsoleLogStateView, height: u16) -> int {
    at_most(s.scroll, less(s.lines.len() as int, height as int)) as int
}

/// Whether line `i` holds the current match.
pub open spec fn is_current(s: ConsoleLogStateView, i: int) -> bool {
    s.match_idx < s.matches.len() && s.matches[s.match_idx as int] == i
}

pub open spec fn search_query(s: ConsoleLogStateView) -> Option<Seq<char>> {
    if s.search.len() > 0 {
        Some(lowercase(s.search))
    } else {
        None
    }
}

/// The lines of the log that are on screen, or why there are none.
pub open spec fn console_content(s: ConsoleLogStateView, height: u16, tick: u64) -> Seq<Seq<SpanView>> {
    if s.lines.len() == 0 {
        if s.loading {
            seq![seq![raw_sp(spinning(tick, " Loading console log..."@))]]
        } else {
            seq![
                muted_line(
                    match s.error {
                        Some(e) => e,
                        None => "No output yet"@,
                    },
                ),
            ]
        }
    } else {
        let from = log_scroll(s, height);
        Seq::new(
            shown(s.lines.len(), from, height),
            |i: int| log_spans(s.lines[from + i], search_query(s), is_current(s, from + i)),
        )
    }
}

fn first_shown(scroll: usize, len: usize, height: u16) -> (r: usize)
    ensures
        r == at_most(scroll, less(len as int, height as int)),
        r <= len,
{
    let max: usize = if len > height as usize { len - height as usize } else { 0 };
    if scroll <= max {
        scroll
    } else {
        max
    }
}

fn count_shown(len: usize, from: usize, height: u16) -> (r: usize)
    ensures
        r == shown(len as nat, from as int, height),
        r > 0 ==> from + r <= len,
{
    if from >= len {
        0
    } else if len - from < height as usize {
        len - from
    } else {
        height as usize
    }
}

pub fn console_tab(s: &ConsoleLogState, height: u16, tick: u64) -> (r: Vec<Line>)
    ensures
        r.deep_view() == console_content(s.deep_view(), height, tick),
{
    let ghost sv = s.deep_view();
    let mut out = no_lines();
    assert(sv.lines.len() == s.lines@.len());
    if s.lines.len() == 0 {
        if s.loading {
            let words = spin(tick, " Loading console log...");
            put_line(&mut out, one(raw(words.as_str())));
        } else {
            let words = match &s.error {
                Some(e) => e.as_str(),
                None => "No output yet",
            };
            put_line(&mut out, muted(words));
        }
        assert(out.deep_view() =~= console_content(sv, height, tick));
        return out;
    }
    let total: usize = s.lines.len();
    let from: usize = first_shown(s.scroll, total, height);
    let n: usize = count_shown(total, from, height);
    let query = if s.search.as_str().unicode_len() > 0 {
        Some(to_lowercase(s.search.as_str()))
    } else {
        None
    };
    let ghost want = console_content(sv, height, tick);
    let mut i: usize = 0;
    assert(out.deep_view() =~= want.take(0));
    while i < n
        invariant
            sv == s.deep_view(),
            n > 0 ==> from + n <= total,
            total == s.lines@.len(),
            total > 0,
            from == log_scroll(sv, height),
            n == shown(sv.lines.len(), from as int, height),
            query.deep_view() == search_query(sv),
            want == console_content(sv, height, tick),
            want.len() == n,
            i <= n,
            out.deep_view() == want.take(i as int),
        decreases n - i,
    {
        let current = s.match_idx < s.matches.len() && s.matches[s.match_idx] == from + i;
        let q = match &query {
            Some(t) => Some(t.as_str()),
            None => None,
        };
        assert(sv.lines[from + i] == s.lines@[from + i]@);
        let line = console_line(s.lines[from + i].as_str(), q, current);
        put_line(&mut out, line);
        assert(want[i as int] == line.deep_view());
        assert(want.take(i + 1) =~= want.take(i as int).push(want[i as int]));
        i = i + 1;
    }
    assert(want.take(n as int) =~= want);
    out
}

/// A row of the artifacts. Open and closed folders look different.
pub open spec fn artifact_spans(row: ArtifactRowView, selected: bool) -> Seq<SpanView> {
    let icon = if row.is_folder && row.expanded {
        "\u{25be} "@
    } else if row.is_folder {
        "\u{25b8} "@
    } else {
        "  "@
    };
    seq![
        raw_sp(
            if selected {
                "\u{25b6} "@
            } else {
                "  "@
            },
        ),
        raw_sp(text::repeated(' ', 2 * row.depth as nat)),
        sp(
            icon + row.name,
            if selected {
                bold_tinted(Tint::Accent)
            } else if row.is_folder {
                bold()
            } else {
                plain()
            },
        ),
    ]
}

/// The first artifact on screen: the selected one is the last shown at most.
pub open spec fn artifact_scroll(s: ConsoleLogStateView, height: u16) -> int {
    less(s.artifact_selected as int, less(height as int, 1))
}

pub open spec fn artifact_content(s: ConsoleLogStateView, height: u16, tick: u64) -> Seq<
    Seq<SpanView>,
> {
    match s.artifacts {
        None => seq![seq![raw_sp(spinning(tick, " Loading artifacts..."@))]],
        Some(rows) => if rows.len() == 0 {
            seq![muted_line("No artifacts"@)]
        } else {
            let from = artifact_scroll(s, height);
            Seq::new(
                shown(rows.len(), from, height),
                |i: int| artifact_spans(rows[from + i], from + i == s.artifact_selected),
            )
        },
    }
}

/// Two spaces for each level.
fn indent(depth: usize) -> (r: String)
    ensures
        r@ == text::repeated(' ', 2 * depth as nat),
{
    let half = text::repeat(' ', depth);
    let r = text::cat2(half.as_str(), half.as_str());
    assert(r@ =~= text::repeated(' ', 2 * depth as nat));
    r
}

fn artifact_line(row: &ArtifactRow, selected: bool) -> (r: Line)
    ensures
        r.deep_view() == artifact_spans(row.deep_view(), selected),
{
    let icon = if row.is_folder && row.expanded {
        "\u{25be} "
    } else if row.is_folder {
        "\u{25b8} "
    } else {
        "  "
    };
    let style = if selected {
        bold_tint(Tint::Accent)
    } else if row.is_folder {
        bolded()
    } else {
        Style { fg: None, bg: None, bold: false }
    };
    let mut out = no_spans();
    put(
        &mut out,
        raw(
            if selected {
                "\u{25b6} "
            } else {
                "  "
            },
        ),
    );
    let space = indent(row.depth);
    put(&mut out, raw(space.as_str()));
    put(&mut out, span_of(text::cat2(icon, row.name.as_str()), style));
    assert(out.deep_view() =~= artifact_spans(row.deep_view(), selected));
    out
}

pub fn artifacts_tab(s: &ConsoleLogState, height: u16, tick: u64) -> (r: Vec<Line>)
    ensures
        r.deep_view() == artifact_content(s.deep_view(), height, tick),
{
    let ghost sv = s.deep_view();
    let ghost want = artifact_content(sv, height, tick);
    let mut out = no_lines();
    let rows = match &s.artifacts {
        Some(rows) => rows,
        None => {
            let words = spin(tick, " Loading artifacts...");
            put_line(&mut out, one(raw(words.as_str())));
            assert(out.deep_view() =~= want);
            return out;
        },
    };
    let ghost all = rows.deep_view();
    assert(all.len() == rows@.len());
    if rows.len() == 0 {
        put_line(&mut out, muted("No artifacts"));
        assert(out.deep_view() =~= want);
        return out;
    }
    let room: usize = if height > 1 { height as usize - 1 } else { 0 };
    let from: usize = if s.artifact_selected > room { s.artifact_selected - room } else { 0 };
    let total: usize = rows.len();
    let n: usize = count_shown(total, from, height);
    let mut i: usize = 0;
    assert(out.deep_view() =~= want.take(0));
    while i < n
        invariant
            sv == s.deep_view(),
            all == rows.deep_view(),
            sv.artifacts == Some(all),
            all.len() > 0,
            n > 0 ==> from + n <= total,
            total == rows@.len(),
            from == artifact_scroll(sv, height),
            n == shown(all.len(), from as int, height),
            want == artifact_content(sv, height, tick),
            want.len() == n,
            i <= n,
            out.deep_view() == want.take(i as int),
        decreases n - i,
    {
        assert(all[from + i] == rows@[from + i].deep_view());
        let line = artifact_line(&rows[from + i], from + i == s.artifact_selected);
        put_line(&mut out, line);
        assert(want[i as int] == line.deep_view());
        assert(want.take(i + 1) =~= want.take(i as int).push(want[i as int]));
        i = i + 1;
    }
    assert(want.take(n as int) =~= want);
    out
}

/// The lines of the materials from the first one on screen on.
pub open spec fn materials_content(s: ConsoleLogStateView) -> Seq<Seq<SpanView>> {
    Seq::new(s.materials.len(), |i: int| seq![raw_sp(s.materials[i])])
}

pub fn materials_tab(s: &ConsoleLogState) -> (r: Vec<Line>)
    ensures
        r.deep_view() == materials_content(s.deep_view()),
{
    let ghost sv = s.deep_view();
    let ghost want = materials_content(sv);
    let mut out = no_lines();
    let mut i: usize = 0;
    assert(out.deep_view() =~= want.take(0));
    while i < s.materials.len()
        invariant
            sv == s.deep_view(),
            want == materials_content(sv),
            i <= s.materials@.len(),
            out.deep_view() == want.take(i as int),
        decreases s.materials@.len() - i,
    {
        assert(sv.materials[i as int] == s.materials@[i as int]@);
        let line = one(raw(s.materials[i].as_str()));
        put_line(&mut out, line);
        assert(want.take(i + 1) =~= want.take(i as int).push(want[i as int]));
        i = i + 1;
    }
    assert(want.take(i as int) =~= want);
    out
}

/// The first line of the materials on screen.
pub fn materials_scroll(s: &ConsoleLogState, height: u16) -> (r: usize)
    ensures
        r == at_most(s.scroll, less(s.materials@.len() as int, height as int)),
{
    first_shown(s.scroll, s.materials.len(), height)
}

} // verus!
