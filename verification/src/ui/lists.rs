//! The rows of the tree and of the history.

use vstd::prelude::*;
use vstd::string::*;

use crate::app::matching::{fuzzy_match, matched, places};
use crate::app::{App, AppView, Row, RowView};
use crate::clock::{is_time, time_text};
use crate::model::{DashboardGroup, DashboardGroupView, PipelineInstance, PipelineInstanceView};
use crate::names::ordered;
use crate::text;
use crate::ui::{
    blank, blank_line, bold, bold_tint, bold_tinted, bolded, dot_for, glyph_of, no_lines, no_spans,
    plain, put, put_line, raw, raw_sp, sp, span, span_of, spin, spinning, status_color, tint,
    tint_of, tinted, Line, Span, SpanView, Style, Tint,
};

verus! {

// ---- names ---------------------------------------------------------------

pub open spec fn run_style(hit: bool) -> Style {
    if hit {
        bold_tinted(Tint::Accent)
    } else {
        plain()
    }
}

/// The first `n` characters of a name in runs, each of characters that are all
/// among the matched places or all not.
pub open spec fn runs(name: Seq<char>, hits: Seq<int>, n: int) -> Seq<SpanView>
    decreases n,
{
    if n <= 0 {
        Seq::empty()
    } else {
        let hit = hits.contains(n - 1);
        let before = runs(name, hits, n - 1);
        if n > 1 && hits.contains(n - 2) == hit {
            before.drop_last().push(
                sp(before.last().content.push(name[n - 1]), run_style(hit)),
            )
        } else {
            before.push(sp(seq![name[n - 1]], run_style(hit)))
        }
    }
}

/// A name with what the filter matched marked.
pub open spec fn name_view(name: Seq<char>, filter: Seq<char>) -> Seq<SpanView> {
    if filter.len() == 0 {
        seq![raw_sp(name)]
    } else {
        match matched(name, filter, 0) {
            Some(hits) => runs(name, hits, name.len() as int),
            None => seq![raw_sp(name)],
        }
    }
}

fn holds_place(v: &Vec<usize>, i: usize) -> (r: bool)
    ensures
        r == places(v@).contains(i as int),
{
    let ghost all = places(v@);
    let mut k: usize = 0;
    while k < v.len()
        invariant
            all == places(v@),
            k <= v@.len(),
            forall|j: int| 0 <= j < k ==> #[trigger] all[j] != i,
        decreases v@.len() - k,
    {
        assert(all[k as int] == v@[k as int]);
        if v[k] == i {
            return true;
        }
        k = k + 1;
    }
    false
}

fn style_of_run(hit: bool) -> (r: Style)
    ensures
        r == run_style(hit),
{
    if hit {
        bold_tint(Tint::Accent)
    } else {
        Style { fg: None, bg: None, bold: false }
    }
}

fn runs_into(cs: &Vec<char>, hits: &Vec<usize>, out: &mut Line)
    ensures
        final(out).deep_view() == old(out).deep_view() + runs(
            cs@,
            places(hits@),
            cs@.len() as int,
        ),
{
    let ghost start = out.deep_view();
    let ghost ps = places(hits@);
    let n: usize = cs.len();
    let mut run = text::empty();
    let mut flag = false;
    let mut i: usize = 0;
    while i < n
        invariant
            n == cs@.len(),
            ps == places(hits@),
            i <= n,
            i == 0 ==> out.deep_view() == start && run@.len() == 0,
            i > 0 ==> {
                &&& flag == ps.contains(i - 1)
                &&& run@.len() > 0
                &&& out.deep_view().push(sp(run@, run_style(flag))) == start + runs(
                    cs@,
                    ps,
                    i as int,
                )
                &&& runs(cs@, ps, i as int).len() > 0
            },
        decreases n - i,
    {
        let hit = holds_place(hits, i);
        let ghost before = runs(cs@, ps, i as int);
        let ghost so_far = out.deep_view();
        if i > 0 && hit != flag {
            put(out, span_of(run, style_of_run(flag)));
            run = text::empty();
            run.push(cs[i]);
            assert(run@ =~= seq![cs@[i as int]]);
            assert(out.deep_view().push(sp(run@, run_style(hit))) =~= start + runs(
                cs@,
                ps,
                i + 1,
            ));
        } else {
            let ghost was = run@;
            run.push(cs[i]);
            proof {
                if i > 0 {
                    let w = so_far.push(sp(was, run_style(flag)));
                    assert(w == start + before);
                    assert(w.last() == before.last());
                    assert(before.last() == sp(was, run_style(flag)));
                    assert(so_far =~= w.drop_last());
                    assert((start + before).drop_last() =~= start + before.drop_last());
                    assert(so_far == start + before.drop_last());
                } else {
                    assert(run@ =~= seq![cs@[0]]);
                }
                assert(so_far.push(sp(run@, run_style(hit))) =~= start + runs(cs@, ps, i + 1));
            }
        }
        flag = hit;
        i = i + 1;
    }
    if n > 0 {
        put(out, span_of(run, style_of_run(flag)));
    }
    assert(out.deep_view() =~= start + runs(cs@, ps, n as int));
}

fn name_spans(name: &str, filter: &str, out: &mut Line)
    ensures
        final(out).deep_view() == old(out).deep_view() + name_view(name@, filter@),
{
    let ghost start = out.deep_view();
    if filter.unicode_len() > 0 {
        if let Some(hits) = fuzzy_match(name, filter) {
            let cs = text::chars_of(name);
            runs_into(&cs, &hits, out);
            return;
        }
    }
    put(out, raw(name));
    assert(out.deep_view() =~= start + name_view(name@, filter@));
}

// ---- the tree ------------------------------------------------------------

/// The icon of a pipeline: a pause sign, or the state of its latest run.
pub open spec fn pipeline_icon(v: AppView, name: Seq<char>) -> SpanView {
    if v.is_paused(name) {
        sp("\u{23f8}"@, tinted(Tint::Warning))
    } else if v.pipeline_info.contains_key(name) {
        let s = v.pipeline_info[name].latest();
        sp(glyph_of(s), tinted(tint_of(s)))
    } else {
        sp("\u{2022}"@, tinted(Tint::Muted))
    }
}

/// A pipeline in the tree. Under its group a favorite has a star; among the
/// favorites that would say nothing.
pub open spec fn pipeline_item(v: AppView, name: Seq<char>, show_star: bool) -> Seq<SpanView> {
    seq![raw_sp("   "@), pipeline_icon(v, name), raw_sp(" "@)] + (if show_star
        && v.favorites.contains(name) {
        seq![sp("\u{2605} "@, tinted(Tint::Favorite))]
    } else {
        Seq::empty()
    }) + name_view(name, v.filter) + (if v.pipeline_info.contains_key(name)
        && v.pipeline_info[name].locked {
        seq![sp(" \u{1f512}"@, tinted(Tint::Muted))]
    } else {
        Seq::empty()
    })
}

/// How many of the names have that status.
pub open spec fn count_status(v: AppView, names: Seq<Seq<char>>, status: Seq<char>) -> nat
    decreases names.len(),
{
    if names.len() == 0 {
        0
    } else {
        count_status(v, names.drop_last(), status) + if v.pipeline_info.contains_key(names.last())
            && v.pipeline_info[names.last()].latest() == status {
            1nat
        } else {
            0
        }
    }
}

pub open spec fn arrow(open: bool) -> Seq<char> {
    if open {
        "\u{25be}"@
    } else {
        "\u{25b8}"@
    }
}

/// A group in the tree, with how many of its pipelines failed and build.
pub open spec fn group_item(v: AppView, g: DashboardGroupView) -> Seq<SpanView> {
    let failed = count_status(v, g.pipelines, "Failed"@);
    let building = count_status(v, g.pipelines, "Building"@);
    seq![
        sp(arrow(v.expanded.contains(g.name) || v.filter.len() > 0) + " "@ + g.name, bold()),
        sp(" ("@ + text::dec(g.pipelines.len()) + ")"@, tinted(Tint::Muted)),
    ] + (if failed > 0 {
        seq![sp(" \u{25cf}"@ + text::dec(failed), tinted(Tint::Danger))]
    } else {
        Seq::empty()
    }) + (if building > 0 {
        seq![sp(" \u{25d0}"@ + text::dec(building), tinted(Tint::Warning))]
    } else {
        Seq::empty()
    })
}

pub open spec fn favorites_item(v: AppView) -> Seq<SpanView> {
    seq![
        sp(
            arrow(v.favorites_expanded) + " \u{2605} Favorites"@,
            bold_tinted(Tint::Favorite),
        ),
        sp(" ("@ + text::dec(ordered(v.favorites).len()) + ")"@, tinted(Tint::Muted)),
    ]
}

/// A row of the tree; nothing for one that stands for no group or pipeline.
pub open spec fn tree_item(v: AppView, row: RowView) -> Seq<SpanView> {
    match row {
        RowView::FavoritesHeader => favorites_item(v),
        RowView::FavoritePipeline(name) => pipeline_item(v, name, false),
        RowView::Group { idx } => if idx < v.groups.len() {
            group_item(v, v.groups[idx as int])
        } else {
            blank_line()
        },
        RowView::Pipeline { group_idx, pipeline_idx } => match v.pipeline_at(
            group_idx,
            pipeline_idx,
        ) {
            Some(name) => pipeline_item(v, name, true),
            None => blank_line(),
        },
    }
}

/// What stands in place of the tree where there is none.
pub open spec fn tree_notice(v: AppView) -> Option<Seq<char>> {
    if v.groups.len() > 0 {
        None
    } else if v.loading_groups {
        Some(spinning(v.tick, " Loading dashboard..."@))
    } else if v.error_line is None && v.modal is None {
        Some("Press 'A' to connect to a GoCD server"@)
    } else {
        None
    }
}

fn icon_of(app: &App, name: &str) -> (r: Span)
    ensures
        r.deep_view() == pipeline_icon(app.deep_view(), name@),
{
    match app.pipeline_info.get(name) {
        Some(p) => {
            assert(app.deep_view().pipeline_info[name@] == p.deep_view());
            if p.pause_info.paused {
                span("\u{23f8}", tint(Tint::Warning))
            } else {
                let s = p.latest_status();
                span(dot_for(s), tint(status_color(s)))
            }
        },
        None => span("\u{2022}", tint(Tint::Muted)),
    }
}

fn is_locked(app: &App, name: &str) -> (r: bool)
    ensures
        r == (app.deep_view().pipeline_info.contains_key(name@)
            && app.deep_view().pipeline_info[name@].locked),
{
    match app.pipeline_info.get(name) {
        Some(p) => {
            assert(app.deep_view().pipeline_info[name@] == p.deep_view());
            p.locked
        },
        None => false,
    }
}

fn pipeline_list_item(app: &App, name: &str, show_star: bool) -> (r: Line)
    ensures
        r.deep_view() == pipeline_item(app.deep_view(), name@, show_star),
{
    let mut out = no_spans();
    put(&mut out, raw("   "));
    put(&mut out, icon_of(app, name));
    put(&mut out, raw(" "));
    if show_star && app.favorites.contains(name) {
        put(&mut out, span("\u{2605} ", tint(Tint::Favorite)));
    }
    name_spans(name, app.filter.as_str(), &mut out);
    if is_locked(app, name) {
        put(&mut out, span(" \u{1f512}", tint(Tint::Muted)));
    }
    assert(out.deep_view() =~= pipeline_item(app.deep_view(), name@, show_star));
    out
}

fn count_of(app: &App, names: &Vec<String>, status: &str) -> (r: usize)
    ensures
        r == count_status(app.deep_view(), names.deep_view(), status@),
{
    let ghost v = app.deep_view();
    let ghost all = names.deep_view();
    let mut n: usize = 0;
    let mut i: usize = 0;
    while i < names.len()
        invariant
            v == app.deep_view(),
            all == names.deep_view(),
            i <= names@.len(),
            n <= i,
            n == count_status(v, all.take(i as int), status@),
        decreases names@.len() - i,
    {
        assert(all.take(i + 1).drop_last() =~= all.take(i as int));
        assert(all.take(i + 1).last() == names@[i as int]@);
        if let Some(p) = app.pipeline_info.get(names[i].as_str()) {
            assert(v.pipeline_info[names@[i as int]@] == p.deep_view());
            if text::same(p.latest_status(), status) {
                n = n + 1;
            }
        }
        i = i + 1;
    }
    assert(all.take(i as int) =~= all);
    n
}

fn arrow_of(open: bool) -> (r: &'static str)
    ensures
        r@ == arrow(open),
{
    if open {
        "\u{25be}"
    } else {
        "\u{25b8}"
    }
}

fn group_line(app: &App, g: &DashboardGroup) -> (r: Line)
    ensures
        r.deep_view() == group_item(app.deep_view(), g.deep_view()),
{
    let open = app.expanded.contains(g.name.as_str()) || app.filter.as_str().unicode_len() > 0;
    let mut out = no_spans();
    put(&mut out, span_of(text::cat3(arrow_of(open), " ", g.name.as_str()), bolded()));
    assert(g.deep_view().pipelines.len() == g.pipelines@.len());
    let n = text::decimal_n(g.pipelines.len());
    put(&mut out, span_of(text::cat3(" (", n.as_str(), ")"), tint(Tint::Muted)));
    let failed: usize = count_of(app, &g.pipelines, "Failed");
    let building: usize = count_of(app, &g.pipelines, "Building");
    if failed > 0 {
        let d = text::decimal_n(failed);
        put(&mut out, span_of(text::cat2(" \u{25cf}", d.as_str()), tint(Tint::Danger)));
    }
    if building > 0 {
        let d = text::decimal_n(building);
        put(&mut out, span_of(text::cat2(" \u{25d0}", d.as_str()), tint(Tint::Warning)));
    }
    assert(out.deep_view() =~= group_item(app.deep_view(), g.deep_view()));
    out
}

fn favorites_line(app: &App) -> (r: Line)
    ensures
        r.deep_view() == favorites_item(app.deep_view()),
{
    let mut out = no_spans();
    put(
        &mut out,
        span_of(
            text::cat2(arrow_of(app.favorites_expanded), " \u{2605} Favorites"),
            bold_tint(Tint::Favorite),
        ),
    );
    let n = text::decimal_n(app.favorites.len());
    put(&mut out, span_of(text::cat3(" (", n.as_str(), ")"), tint(Tint::Muted)));
    assert(out.deep_view() =~= favorites_item(app.deep_view()));
    out
}

fn tree_line(app: &App, row: &Row) -> (r: Line)
    ensures
        r.deep_view() == tree_item(app.deep_view(), row.deep_view()),
{
    match row {
        Row::FavoritesHeader => favorites_line(app),
        Row::FavoritePipeline(name) => pipeline_list_item(app, name.as_str(), false),
        Row::Group { idx } => {
            assert(app.deep_view().groups.len() == app.groups@.len());
            if *idx < app.groups.len() {
                assert(app.deep_view().groups[*idx as int] == app.groups@[*idx as int].deep_view());
                group_line(app, &app.groups[*idx])
            } else {
                blank()
            }
        },
        Row::Pipeline { group_idx, pipeline_idx } => match app.pipeline_name_at(
            *group_idx,
            *pipeline_idx,
        ) {
            Some(name) => pipeline_list_item(app, name.as_str(), true),
            None => blank(),
        },
    }
}

/// The rows of the tree as they are shown.
pub fn tree_lines(app: &App) -> (r: Vec<Line>)
    ensures
        r.deep_view() == app.deep_view().rows.map_values(
            |row: RowView| tree_item(app.deep_view(), row),
        ),
{
    let ghost v = app.deep_view();
    let ghost want = v.rows.map_values(|row: RowView| tree_item(v, row));
    let mut out = no_lines();
    let mut i: usize = 0;
    assert(out.deep_view() =~= want.take(0));
    while i < app.rows.len()
        invariant
            v == app.deep_view(),
            want == v.rows.map_values(|row: RowView| tree_item(v, row)),
            i <= app.rows@.len(),
            out.deep_view() == want.take(i as int),
        decreases app.rows@.len() - i,
    {
        assert(v.rows[i as int] == app.rows@[i as int].deep_view());
        put_line(&mut out, tree_line(app, &app.rows[i]));
        assert(want.take(i + 1) =~= want.take(i as int).push(want[i as int]));
        i = i + 1;
    }
    assert(want.take(i as int) =~= want);
    out
}

/// What stands in place of the tree where there is none.
pub fn tree_placeholder(app: &App) -> (r: Option<String>)
    ensures
        r.deep_view() == tree_notice(app.deep_view()),
{
    assert(app.deep_view().groups.len() == app.groups@.len());
    if app.groups.len() > 0 {
        None
    } else if app.loading_groups {
        Some(spin(app.tick, " Loading dashboard..."))
    } else if app.error_line.is_none() && app.modal.is_none() {
        Some(text::owned("Press 'A' to connect to a GoCD server"))
    } else {
        None
    }
}

// ---- the history ---------------------------------------------------------

/// A run in the table of the history.
#[derive(Debug, PartialEq, Eq)]
pub struct HistoryRow {
    pub run: String,
    pub when: String,
    pub status: String,
    pub tint: Tint,
    pub cause: String,
}

#[verifier::ext_equal]
pub struct HistoryRowView {
    pub run: Seq<char>,
    pub when: Seq<char>,
    pub status: Seq<char>,
    pub tint: Tint,
    pub cause: Seq<char>,
}

impl DeepView for HistoryRow {
    type V = HistoryRowView;

    open spec fn deep_view(&self) -> HistoryRowView {
        HistoryRowView {
            run: self.run@,
            when: self.when@,
            status: self.status@,
            tint: self.tint,
            cause: self.cause@,
        }
    }
}

/// A run by its counter and label: of two runs of one commit only the counter
/// differs.
pub open spec fn history_item(r: PipelineInstanceView, when: Seq<char>) -> HistoryRowView {
    HistoryRowView {
        run: "#"@ + text::dec_int(r.counter as int) + " "@ + r.label,
        when,
        status: r.overall(),
        tint: tint_of(r.overall()),
        cause: match r.build_cause {
            Some(c) => match c.trigger_message {
                Some(m) => m,
                None => Seq::empty(),
            },
            None => Seq::empty(),
        },
    }
}

/// When each run was scheduled, in some time zone: nothing where that is not
/// known, and a dash where it is out of range.
pub open spec fn are_times(runs: Seq<PipelineInstanceView>, whens: Seq<Seq<char>>) -> bool {
    &&& whens.len() == runs.len()
    &&& forall|i: int|
        0 <= i < runs.len() ==> is_time((#[trigger] runs[i]).scheduled_date, whens[i])
}

pub fn history_times(runs: &Vec<PipelineInstance>) -> (r: Vec<String>)
    ensures
        are_times(runs.deep_view(), r.deep_view()),
{
    let ghost all = runs.deep_view();
    let mut r: Vec<String> = Vec::new();
    let mut i: usize = 0;
    while i < runs.len()
        invariant
            all == runs.deep_view(),
            i <= runs@.len(),
            r@.len() == i,
            forall|k: int|
                0 <= k < i ==> is_time((#[trigger] all[k]).scheduled_date, r@[k]@),
        decreases runs@.len() - i,
    {
        assert(all[i as int] == runs@[i as int].deep_view());
        r.push(time_text(runs[i].scheduled_date));
        i = i + 1;
    }
    r
}

fn history_row_of(r: &PipelineInstance, when: &str) -> (s: HistoryRow)
    ensures
        s.deep_view() == history_item(r.deep_view(), when@),
{
    let d = text::decimal_i(r.counter);
    let status = r.overall_status();
    let cause = match &r.build_cause {
        Some(c) => match &c.trigger_message {
            Some(m) => m.clone(),
            None => text::empty(),
        },
        None => text::empty(),
    };
    HistoryRow {
        run: text::cat4("#", d.as_str(), " ", r.label.as_str()),
        when: text::owned(when),
        status: text::owned(status),
        tint: status_color(status),
        cause,
    }
}

/// The table of the history, given when each run was scheduled.
pub fn history_rows(runs: &Vec<PipelineInstance>, whens: &Vec<String>) -> (r: Vec<HistoryRow>)
    requires
        whens@.len() == runs@.len(),
    ensures
        r.deep_view() == Seq::new(
            runs.deep_view().len(),
            |i: int| history_item(runs.deep_view()[i], whens.deep_view()[i]),
        ),
{
    let ghost all = runs.deep_view();
    let ghost ws = whens.deep_view();
    let mut r: Vec<HistoryRow> = Vec::new();
    let mut i: usize = 0;
    while i < runs.len()
        invariant
            all == runs.deep_view(),
            ws == whens.deep_view(),
            whens@.len() == runs@.len(),
            i <= runs@.len(),
            r@.len() == i,
            forall|k: int|
                0 <= k < i ==> (#[trigger] r@[k]).deep_view() == history_item(all[k], ws[k]),
        decreases runs@.len() - i,
    {
        assert(all[i as int] == runs@[i as int].deep_view());
        assert(ws[i as int] == whens@[i as int]@);
        r.push(history_row_of(&runs[i], whens[i].as_str()));
        i = i + 1;
    }
    assert(r.deep_view() =~= Seq::new(all.len(), |i: int| history_item(all[i], ws[i])));
    r
}

pub open spec fn history_title_of(v: AppView) -> Seq<char> {
    match v.selected_pipeline {
        Some(name) => "History: "@ + name,
        None => "History"@,
    }
}

pub fn history_title(app: &App) -> (r: String)
    ensures
        r@ == history_title_of(app.deep_view()),
{
    match &app.selected_pipeline {
        Some(name) => text::cat2("History: ", name.as_str()),
        None => text::owned("History"),
    }
}

/// What stands in place of the history where there is none.
pub open spec fn history_notice(v: AppView) -> Option<Seq<char>> {
    if v.selected_pipeline is None {
        Some("Select a pipeline (enter) to view its history"@)
    } else if v.history.len() > 0 {
        None
    } else if v.history_loading {
        Some(spinning(v.tick, " Loading history..."@))
    } else {
        Some("No runs yet"@)
    }
}

pub fn history_placeholder(app: &App) -> (r: Option<String>)
    ensures
        r.deep_view() == history_notice(app.deep_view()),
{
    assert(app.deep_view().history.len() == app.history@.len());
    if app.selected_pipeline.is_none() {
        Some(text::owned("Select a pipeline (enter) to view its history"))
    } else if app.history.len() > 0 {
        None
    } else if app.history_loading {
        Some(spin(app.tick, " Loading history..."))
    } else {
        Some(text::owned("No runs yet"))
    }
}

} // verus!
