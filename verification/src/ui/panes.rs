//! The header, the message row, the footer, the tree and the history.

use vstd::prelude::*;
use vstd::string::*;

use crate::app::{App, AppView, Focus};
use crate::text;
use crate::ui::{
    badge, blank, blank_line, bold, bold_tint, bold_tinted, host_of, no_spans, one, put, raw,
    raw_sp, short_host, sp, span, span_of, tint, tinted, Line, Span, SpanView, Style, Tint,
};

verus! {

// ---- header --------------------------------------------------------------

pub open spec fn count_sp(n: nat, label: Seq<char>) -> SpanView {
    sp(text::dec(n) + " "@ + label, bold_tinted(Tint::Accent))
}

pub open spec fn dot_sep() -> SpanView {
    sp(" \u{00b7} "@, tinted(Tint::Muted))
}

/// A count with its glyph, where it is not zero.
pub open spec fn glyph_count(glyph: Seq<char>, n: nat, style: Style) -> Seq<SpanView> {
    if n > 0 {
        seq![dot_sep(), sp(glyph + text::dec(n), style)]
    } else {
        Seq::empty()
    }
}

/// How many groups and pipelines there are, and how many are paused, building
/// and failed.
pub open spec fn fleet_part(v: AppView) -> Seq<SpanView> {
    if v.groups.len() == 0 {
        Seq::empty()
    } else {
        seq![
            raw_sp("   "@),
            count_sp(v.groups.len(), "groups"@),
            dot_sep(),
            count_sp(v.fleet().len(), "pipelines"@),
        ] + glyph_count("\u{23f8}"@, v.fleet_paused(), tinted(Tint::Warning)) + glyph_count(
            "\u{25d0}"@,
            v.fleet_with("Building"@),
            tinted(Tint::Warning),
        ) + glyph_count("\u{25cf}"@, v.fleet_with("Failed"@), bold_tinted(Tint::Danger))
    }
}

pub open spec fn filter_part(v: AppView, with_groups: bool) -> Seq<SpanView> {
    if v.filter.len() == 0 {
        Seq::empty()
    } else {
        seq![
            raw_sp("   "@),
            sp("/"@ + v.filter, bold_tinted(Tint::Accent)),
            sp(
                if with_groups {
                    " +groups"@
                } else {
                    ""@
                },
                tinted(Tint::Muted),
            ),
        ]
    }
}

pub open spec fn view_part(v: AppView) -> Seq<SpanView> {
    match v.active_view {
        Some(i) => if i < v.views.len() {
            seq![
                raw_sp("   "@),
                sp("["@ + v.views[i as int].name + "]"@, bold_tinted(Tint::Favorite)),
            ]
        } else {
            Seq::empty()
        },
        None => Seq::empty(),
    }
}

/// The header: a light for how things stand, the host, the counts, the filter
/// and the view.
pub open spec fn header_spans(v: AppView, with_groups: bool) -> Seq<SpanView> {
    let light = if v.error_line is Some {
        Tint::Danger
    } else if v.loading_groups {
        Tint::Warning
    } else {
        Tint::Success
    };
    seq![
        sp(" lazygocd "@, badge(Tint::Accent)),
        raw_sp(" "@),
        sp("\u{25cf}"@, tinted(light)),
        raw_sp(" "@),
        sp(host_of(v.server_url), tinted(Tint::Muted)),
    ] + fleet_part(v) + filter_part(v, with_groups) + view_part(v)
}

fn count_span(n: usize, label: &str) -> (r: Span)
    ensures
        r.deep_view() == count_sp(n as nat, label@),
{
    let d = text::decimal_n(n);
    span_of(text::cat3(d.as_str(), " ", label), bold_tint(Tint::Accent))
}

fn glyph_count_into(glyph: &str, n: u32, style: Style, out: &mut Line)
    ensures
        final(out).deep_view() == old(out).deep_view() + glyph_count(glyph@, n as nat, style),
{
    let ghost start = out.deep_view();
    if n > 0 {
        let d = text::decimal_u(n as u64);
        put(out, span(" \u{00b7} ", tint(Tint::Muted)));
        put(out, span_of(text::cat2(glyph, d.as_str()), style));
    }
    assert(out.deep_view() =~= start + glyph_count(glyph@, n as nat, style));
}

fn fleet_into(app: &App, out: &mut Line)
    requires
        app.deep_view().fleet().len() <= u32::MAX,
    ensures
        final(out).deep_view() == old(out).deep_view() + fleet_part(app.deep_view()),
{
    let ghost start = out.deep_view();
    let ghost v = app.deep_view();
    assert(v.groups.len() == app.groups@.len());
    if app.groups.len() == 0 {
        assert(start + fleet_part(v) =~= start);
        return;
    }
    let (paused, building, failed) = app.fleet_counts();
    assert(v.pipeline_info.dom() =~= app.pipeline_info@.dom());
    put(out, raw("   "));
    put(out, count_span(app.groups.len(), "groups"));
    put(out, span(" \u{00b7} ", tint(Tint::Muted)));
    put(out, count_span(app.pipeline_info.len(), "pipelines"));
    glyph_count_into("\u{23f8}", paused, tint(Tint::Warning), out);
    glyph_count_into("\u{25d0}", building, tint(Tint::Warning), out);
    glyph_count_into("\u{25cf}", failed, bold_tint(Tint::Danger), out);
    assert(out.deep_view() =~= start + fleet_part(v));
}

fn filter_into(app: &App, with_groups: bool, out: &mut Line)
    ensures
        final(out).deep_view() == old(out).deep_view() + filter_part(app.deep_view(), with_groups),
{
    let ghost start = out.deep_view();
    if app.filter.as_str().unicode_len() > 0 {
        put(out, raw("   "));
        put(out, span_of(text::cat2("/", app.filter.as_str()), bold_tint(Tint::Accent)));
        put(
            out,
            span(
                if with_groups {
                    " +groups"
                } else {
                    ""
                },
                tint(Tint::Muted),
            ),
        );
    }
    assert(out.deep_view() =~= start + filter_part(app.deep_view(), with_groups));
}

fn view_into(app: &App, out: &mut Line)
    ensures
        final(out).deep_view() == old(out).deep_view() + view_part(app.deep_view()),
{
    let ghost start = out.deep_view();
    assert(app.deep_view().views.len() == app.views@.len());
    if let Some(i) = app.active_view {
        if i < app.views.len() {
            assert(app.deep_view().views[i as int].name == app.views@[i as int].name@);
            put(out, raw("   "));
            put(
                out,
                span_of(
                    text::cat3("[", app.views[i].name.as_str(), "]"),
                    bold_tint(Tint::Favorite),
                ),
            );
        }
    }
    assert(out.deep_view() =~= start + view_part(app.deep_view()));
}

/// The header. `with_groups` tells whether the filter looks at group names too.
pub fn header_line(app: &App, with_groups: bool) -> (r: Line)
    requires
        app.deep_view().fleet().len() <= u32::MAX,
    ensures
        r.deep_view() == header_spans(app.deep_view(), with_groups),
{
    let light = if app.error_line.is_some() {
        Tint::Danger
    } else if app.loading_groups {
        Tint::Warning
    } else {
        Tint::Success
    };
    let host = short_host(app.server_url.as_str());
    let mut out = no_spans();
    put(
        &mut out,
        span(" lazygocd ", Style { fg: Some(Tint::Black), bg: Some(Tint::Accent), bold: true }),
    );
    put(&mut out, raw(" "));
    put(&mut out, span("\u{25cf}", tint(light)));
    put(&mut out, raw(" "));
    put(&mut out, span_of(host, tint(Tint::Muted)));
    assert(out.deep_view() =~= seq![
        sp(" lazygocd "@, badge(Tint::Accent)),
        raw_sp(" "@),
        sp("\u{25cf}"@, tinted(light)),
        raw_sp(" "@),
        sp(host_of(app.deep_view().server_url), tinted(Tint::Muted)),
    ]);
    fleet_into(app, &mut out);
    filter_into(app, with_groups, &mut out);
    view_into(app, &mut out);
    out
}

// ---- the message row -----------------------------------------------------

/// The error where there is one, else the status.
pub open spec fn message_spans(v: AppView) -> Seq<SpanView> {
    match v.error_line {
        Some(e) => seq![
            sp("\u{25bc} "@, bold_tinted(Tint::Danger)),
            sp(e, tinted(Tint::Danger)),
        ],
        None => if v.status_line.len() > 0 {
            seq![sp(v.status_line, tinted(Tint::Success))]
        } else {
            blank_line()
        },
    }
}

pub fn message_line(app: &App) -> (r: Line)
    ensures
        r.deep_view() == message_spans(app.deep_view()),
{
    match &app.error_line {
        Some(e) => {
            let mut out = no_spans();
            put(&mut out, span("\u{25bc} ", bold_tint(Tint::Danger)));
            put(&mut out, span(e.as_str(), tint(Tint::Danger)));
            assert(out.deep_view() =~= message_spans(app.deep_view()));
            out
        },
        None => if app.status_line.as_str().unicode_len() > 0 {
            one(span(app.status_line.as_str(), tint(Tint::Success)))
        } else {
            blank()
        },
    }
}

// ---- footer --------------------------------------------------------------

/// A key, what it does, and whether it changes something on the server: such a
/// key is red, so that it does not hide among the others.
pub struct Hint {
    pub key: &'static str,
    pub does: &'static str,
    pub mutates: bool,
}

pub struct HintView {
    pub key: Seq<char>,
    pub does: Seq<char>,
    pub mutates: bool,
}

impl DeepView for Hint {
    type V = HintView;

    open spec fn deep_view(&self) -> HintView {
        HintView { key: self.key@, does: self.does@, mutates: self.mutates }
    }
}

pub open spec fn hv(key: &str, does: &str, mutates: bool) -> HintView {
    HintView { key: key@, does: does@, mutates }
}

pub(crate) fn hint(key: &'static str, does: &'static str, mutates: bool) -> (r: Hint)
    ensures
        r.deep_view() == hv(key, does, mutates),
{
    Hint { key, does, mutates }
}

/// The keys of the focused pane, in six hints, so that the row fits a narrow
/// terminal. The help has all of them.
pub open spec fn pane_hints(pane: Focus) -> Seq<HintView> {
    match pane {
        Focus::Groups => seq![
            hv("j/k", "move", false),
            hv("enter", "open", false),
            hv("1/2/3", "pane", false),
            hv("//^g", "filter", false),
            hv("t", "trigger", true),
            hv("?", "keys", false),
        ],
        Focus::History => seq![
            hv("j/k", "move", false),
            hv("1/2/3", "pane", false),
            hv("o", "commit", false),
            hv("R", "rerun", true),
            hv("X", "cancel", true),
            hv("?", "keys", false),
        ],
        Focus::Detail => seq![
            hv("j/k", "move", false),
            hv("enter", "console", false),
            hv("1/2/3", "pane", false),
            hv("R", "rerun", true),
            hv("X", "cancel", true),
            hv("?", "keys", false),
        ],
    }
}

pub open spec fn pane_name(pane: Focus) -> Seq<char> {
    match pane {
        Focus::Groups => "groups"@,
        Focus::History => "history"@,
        Focus::Detail => "jobs"@,
    }
}

pub open spec fn hint_spans(hs: Seq<HintView>) -> Seq<SpanView>
    decreases hs.len(),
{
    if hs.len() == 0 {
        Seq::empty()
    } else {
        let h = hs.last();
        let before = if hs.len() > 1 {
            hint_spans(hs.drop_last()).push(raw_sp("   "@))
        } else {
            Seq::empty()
        };
        before.push(
            sp(
                h.key,
                bold_tinted(
                    if h.mutates {
                        Tint::Danger
                    } else {
                        Tint::Accent
                    },
                ),
            ),
        ).push(
            sp(
                " "@ + h.does,
                tinted(
                    if h.mutates {
                        Tint::Danger
                    } else {
                        Tint::Muted
                    },
                ),
            ),
        )
    }
}

/// The name of the pane and its keys.
pub open spec fn footer_spans(pane: Seq<char>, hs: Seq<HintView>) -> Seq<SpanView> {
    seq![sp(" "@ + pane + " "@, badge(Tint::Muted)), raw_sp("  "@)] + hint_spans(hs)
}

fn hints_of(pane: Focus) -> (r: Vec<Hint>)
    ensures
        r.deep_view() == pane_hints(pane),
{
    let r = match pane {
        Focus::Groups => vec![
            hint("j/k", "move", false),
            hint("enter", "open", false),
            hint("1/2/3", "pane", false),
            hint("//^g", "filter", false),
            hint("t", "trigger", true),
            hint("?", "keys", false),
        ],
        Focus::History => vec![
            hint("j/k", "move", false),
            hint("1/2/3", "pane", false),
            hint("o", "commit", false),
            hint("R", "rerun", true),
            hint("X", "cancel", true),
            hint("?", "keys", false),
        ],
        Focus::Detail => vec![
            hint("j/k", "move", false),
            hint("enter", "console", false),
            hint("1/2/3", "pane", false),
            hint("R", "rerun", true),
            hint("X", "cancel", true),
            hint("?", "keys", false),
        ],
    };
    assert(r.deep_view() =~= pane_hints(pane));
    r
}

fn footer_hints(pane: &str, hs: &Vec<Hint>) -> (r: Line)
    ensures
        r.deep_view() == footer_spans(pane@, hs.deep_view()),
{
    let ghost all = hs.deep_view();
    let mut out = no_spans();
    put(
        &mut out,
        span_of(
            text::cat3(" ", pane, " "),
            Style { fg: Some(Tint::Black), bg: Some(Tint::Muted), bold: true },
        ),
    );
    put(&mut out, raw("  "));
    let ghost head = out.deep_view();
    assert(head =~= seq![sp(" "@ + pane@ + " "@, badge(Tint::Muted)), raw_sp("  "@)]);
    let mut i: usize = 0;
    assert(head + hint_spans(all.take(0)) =~= head);
    while i < hs.len()
        invariant
            all == hs.deep_view(),
            i <= hs@.len(),
            out.deep_view() == head + hint_spans(all.take(i as int)),
        decreases hs@.len() - i,
    {
        let h = &hs[i];
        proof {
            assert(all.take(i + 1).drop_last() =~= all.take(i as int));
            assert(all.take(i + 1).last() == h.deep_view());
        }
        if i > 0 {
            put(&mut out, raw("   "));
        } else {
            assert(all.take(0) =~= Seq::empty());
        }
        put(
            &mut out,
            span(
                h.key,
                bold_tint(
                    if h.mutates {
                        Tint::Danger
                    } else {
                        Tint::Accent
                    },
                ),
            ),
        );
        put(
            &mut out,
            span_of(
                text::cat2(" ", h.does),
                tint(
                    if h.mutates {
                        Tint::Danger
                    } else {
                        Tint::Muted
                    },
                ),
            ),
        );
        assert(out.deep_view() =~= head + hint_spans(all.take(i + 1)));
        i = i + 1;
    }
    assert(all.take(i as int) =~= all);
    out
}

/// What the focused pane can do.
pub fn footer_line(pane: Focus) -> (r: Line)
    ensures
        r.deep_view() == footer_spans(pane_name(pane), pane_hints(pane)),
        pane_hints(pane).len() == 6,
{
    let hs = hints_of(pane);
    footer_hints(
        match pane {
            Focus::Groups => "groups",
            Focus::History => "history",
            Focus::Detail => "jobs",
        },
        &hs,
    )
}

// ---- laws ----------------------------------------------------------------

/// The number of characters of a line.
pub open spec fn line_len(spans: Seq<SpanView>) -> nat
    decreases spans.len(),
{
    if spans.len() == 0 {
        0
    } else {
        line_len(spans.drop_last()) + spans.last().content.len()
    }
}

proof fn lemma_line_len(a: Seq<SpanView>, b: Seq<SpanView>)
    ensures
        line_len(a + b) == line_len(a) + line_len(b),
    decreases b.len(),
{
    if b.len() == 0 {
        assert(a + b =~= a);
    } else {
        lemma_line_len(a, b.drop_last());
        assert((a + b).drop_last() =~= a + b.drop_last());
    }
}

/// The characters of hints: one blank in each, and three between two.
pub open spec fn hints_len(hs: Seq<HintView>) -> nat
    decreases hs.len(),
{
    if hs.len() == 0 {
        0
    } else {
        hints_len(hs.drop_last()) + (if hs.len() > 1 {
            3nat
        } else {
            0
        }) + hs.last().key.len() + 1 + hs.last().does.len()
    }
}

proof fn lemma_hints_len(hs: Seq<HintView>)
    ensures
        line_len(hint_spans(hs)) == hints_len(hs),
    decreases hs.len(),
{
    reveal_strlit("   ");
    reveal_strlit(" ");
    if hs.len() > 0 {
        lemma_hints_len(hs.drop_last());
        let h = hs.last();
        let s = hint_spans(hs);
        let head = if hs.len() > 1 {
            hint_spans(hs.drop_last()).push(raw_sp("   "@))
        } else {
            Seq::empty()
        };
        assert(s.drop_last().drop_last() =~= head);
        assert(s.last().content.len() == 1 + h.does.len());
        assert(s.drop_last().last().content == h.key);
        if hs.len() > 1 {
            assert(head.drop_last() =~= hint_spans(hs.drop_last()));
            assert(head.last().content.len() == 3);
        } else {
            assert(hs.drop_last().len() == 0);
        }
        reveal_with_fuel(line_len, 4);
        assert(line_len(s) == line_len(head) + h.key.len() + 1 + h.does.len());
    }
}

/// Six hints are listed, and the row fits a terminal of 80 columns.
pub proof fn footers_fit(pane: Focus)
    ensures
        pane_hints(pane).len() == 6,
        line_len(footer_spans(pane_name(pane), pane_hints(pane))) <= 80,
{
    let hs = pane_hints(pane);
    let head = seq![sp(" "@ + pane_name(pane) + " "@, badge(Tint::Muted)), raw_sp("  "@)];
    lemma_line_len(head, hint_spans(hs));
    lemma_hints_len(hs);
    reveal_with_fuel(line_len, 3);
    reveal_with_fuel(hints_len, 7);
    reveal_strlit(" ");
    reveal_strlit("  ");
    reveal_strlit("groups");
    reveal_strlit("history");
    reveal_strlit("jobs");
    reveal_strlit("j/k");
    reveal_strlit("move");
    reveal_strlit("enter");
    reveal_strlit("open");
    reveal_strlit("console");
    reveal_strlit("1/2/3");
    reveal_strlit("pane");
    reveal_strlit("//^g");
    reveal_strlit("filter");
    reveal_strlit("t");
    reveal_strlit("trigger");
    reveal_strlit("o");
    reveal_strlit("commit");
    reveal_strlit("R");
    reveal_strlit("rerun");
    reveal_strlit("X");
    reveal_strlit("cancel");
    reveal_strlit("?");
    reveal_strlit("keys");
    assert(line_len(head) == pane_name(pane).len() + 4) by {
        assert(head.drop_last() =~= seq![head[0]]);
        assert(head.drop_last().drop_last() =~= Seq::empty());
    }
    let h5 = hs.drop_last();
    let h4 = h5.drop_last();
    let h3 = h4.drop_last();
    let h2 = h3.drop_last();
    let h1 = h2.drop_last();
    assert(h1.drop_last() =~= Seq::empty());
    assert(hints_len(hs) <= 69);
}

} // verus!
