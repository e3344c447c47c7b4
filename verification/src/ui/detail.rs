//! The details of a run: what it is, its stages and jobs, and whether its commit
//! is the latest.

use vstd::prelude::*;
use vstd::string::*;

use crate::app::open::{first_chars, or_dash};
use crate::app::{App, AppView, DetailRow, Focus, GithubState, GithubStateView};
use crate::clock::{found_or, is_time, time_text};
use crate::model::{
    GitRef, GitRefView, JobInstance, JobInstanceView, PipelineInstance, PipelineInstanceView,
    StageInstance, StageInstanceView,
};
use crate::text;
use crate::ui::{
    blank, blank_line, bold, bold_tint, bold_tinted, bolded, failure_label, github_failure_label,
    muted, muted_line, no_lines, no_spans, plain, put, put_line, raw, raw_sp, short_sha, sp, span,
    span_of, spin, spinning, status_color, tint, tint_of, tinted, Line, Span, SpanView, Style,
    Tint,
};

verus! {

// ---- times ---------------------------------------------------------------

/// The times of a run as text: empty where there is none.
#[derive(Debug)]
pub struct DetailTimes {
    pub started: String,
    pub committed: String,
    /// One for each stage.
    pub stages: Vec<String>,
}

#[verifier::ext_equal]
pub struct DetailTimesView {
    pub started: Seq<char>,
    pub committed: Seq<char>,
    pub stages: Seq<Seq<char>>,
}

impl DeepView for DetailTimes {
    type V = DetailTimesView;

    open spec fn deep_view(&self) -> DetailTimesView {
        DetailTimesView {
            started: self.started@,
            committed: self.committed@,
            stages: self.stages.deep_view(),
        }
    }
}

/// The time of the commit of a run.
pub open spec fn commit_time(r: PipelineInstanceView) -> Option<i64> {
    match r.modification() {
        Some(m) => m.modified_time,
        None => None,
    }
}

/// The times of a run in the time zone of the machine.
pub fn detail_times(r: &PipelineInstance) -> (t: DetailTimes)
    ensures
        is_time(r.scheduled_date, t.started@),
        is_time(commit_time(r.deep_view()), t.committed@),
        t.stages@.len() == r.stages@.len(),
        forall|i: int|
            0 <= i < r.stages@.len() ==> is_time(
                (#[trigger] r.stages@[i]).scheduled_date,
                t.stages@[i]@,
            ),
{
    let started = time_text(r.scheduled_date);
    let committed = match r.git_modification() {
        Some(m) => time_text(m.modified_time),
        None => time_text(None),
    };
    let mut stages: Vec<String> = Vec::new();
    let mut i: usize = 0;
    while i < r.stages.len()
        invariant
            i <= r.stages@.len(),
            stages@.len() == i,
            forall|k: int|
                0 <= k < i ==> is_time((#[trigger] r.stages@[k]).scheduled_date, stages@[k]@),
        decreases r.stages@.len() - i,
    {
        stages.push(time_text(r.stages[i].scheduled_date));
        i = i + 1;
    }
    DetailTimes { started, committed, stages }
}

// ---- the run -------------------------------------------------------------

pub open spec fn label_sp(t: Seq<char>) -> SpanView {
    sp(t, tinted(Tint::Muted))
}

/// A label and a text.
pub open spec fn labelled(label: Seq<char>, t: Seq<char>) -> Seq<SpanView> {
    seq![label_sp(label), raw_sp(t)]
}

/// A labelled line for a text that may be missing.
pub open spec fn maybe_line(label: Seq<char>, t: Option<Seq<char>>) -> Seq<Seq<SpanView>> {
    match t {
        Some(s) => seq![labelled(label, s)],
        None => Seq::empty(),
    }
}

pub open spec fn when_line(label: Seq<char>, ms: Option<i64>, t: Seq<char>) -> Seq<Seq<SpanView>> {
    if ms is Some {
        seq![labelled(label, t)]
    } else {
        Seq::empty()
    }
}

pub open spec fn commit_part(r: PipelineInstanceView, committed: Seq<char>) -> Seq<Seq<SpanView>> {
    match r.modification() {
        Some(m) => (match m.revision {
            Some(sha) => seq![
                seq![
                    label_sp("Commit: "@),
                    sp(first_chars(sha, 7), tinted(Tint::Accent)),
                    raw_sp("  "@),
                    raw_sp(text::first_line_of(found_or(m.comment, ""@))),
                ],
            ],
            None => Seq::empty(),
        }) + maybe_line("Author: "@, m.user_name) + when_line(
            "Committed: "@,
            m.modified_time,
            committed,
        ),
        None => Seq::empty(),
    }
}

pub open spec fn cause_part(r: PipelineInstanceView) -> Seq<Seq<SpanView>> {
    match r.build_cause {
        Some(c) => maybe_line("Cause: "@, c.trigger_message) + maybe_line("By: "@, c.approver),
        None => Seq::empty(),
    }
}

/// The lines above the stages.
pub open spec fn head_part(r: PipelineInstanceView, t: DetailTimesView) -> Seq<Seq<SpanView>> {
    (seq![labelled("Run "@, "#"@ + text::dec_int(r.counter as int) + " "@ + r.label)] + when_line(
        "Started: "@,
        r.scheduled_date,
        t.started,
    ) + maybe_line("Comment: "@, r.comment) + cause_part(r) + commit_part(r, t.committed)).push(
        blank_line(),
    )
}

fn label_line(label: &str, t: &str) -> (r: Line)
    ensures
        r.deep_view() == labelled(label@, t@),
{
    let mut out = no_spans();
    put(&mut out, span(label, tint(Tint::Muted)));
    put(&mut out, raw(t));
    assert(out.deep_view() =~= labelled(label@, t@));
    out
}

fn maybe_into(label: &str, t: &Option<String>, out: &mut Vec<Line>)
    ensures
        final(out).deep_view() == old(out).deep_view() + maybe_line(label@, t.deep_view()),
{
    let ghost start = out.deep_view();
    if let Some(s) = t {
        put_line(out, label_line(label, s.as_str()));
    }
    assert(out.deep_view() =~= start + maybe_line(label@, t.deep_view()));
}

fn when_into(label: &str, ms: Option<i64>, t: &str, out: &mut Vec<Line>)
    ensures
        final(out).deep_view() == old(out).deep_view() + when_line(label@, ms, t@),
{
    let ghost start = out.deep_view();
    if ms.is_some() {
        put_line(out, label_line(label, t));
    }
    assert(out.deep_view() =~= start + when_line(label@, ms, t@));
}

fn commit_into(r: &PipelineInstance, committed: &str, out: &mut Vec<Line>)
    ensures
        final(out).deep_view() == old(out).deep_view() + commit_part(r.deep_view(), committed@),
{
    let ghost start = out.deep_view();
    if let Some(m) = r.git_modification() {
        if let Some(sha) = &m.revision {
            let mut line = no_spans();
            put(&mut line, span("Commit: ", tint(Tint::Muted)));
            put(&mut line, span_of(short_sha(sha.as_str()), tint(Tint::Accent)));
            put(&mut line, raw("  "));
            let comment = match &m.comment {
                Some(c) => c.as_str(),
                None => "",
            };
            let subject = text::first_line(comment);
            put(&mut line, raw(subject.as_str()));
            assert(line.deep_view() =~= seq![
                label_sp("Commit: "@),
                sp(first_chars(sha@, 7), tinted(Tint::Accent)),
                raw_sp("  "@),
                raw_sp(text::first_line_of(comment@)),
            ]);
            put_line(out, line);
        }
        maybe_into("Author: ", &m.user_name, out);
        when_into("Committed: ", m.modified_time, committed, out);
    }
    assert(out.deep_view() =~= start + commit_part(r.deep_view(), committed@));
}

fn cause_into(r: &PipelineInstance, out: &mut Vec<Line>)
    ensures
        final(out).deep_view() == old(out).deep_view() + cause_part(r.deep_view()),
{
    let ghost start = out.deep_view();
    if let Some(c) = &r.build_cause {
        maybe_into("Cause: ", &c.trigger_message, out);
        maybe_into("By: ", &c.approver, out);
    }
    assert(out.deep_view() =~= start + cause_part(r.deep_view()));
}

fn head_lines(r: &PipelineInstance, t: &DetailTimes) -> (l: Vec<Line>)
    ensures
        l.deep_view() == head_part(r.deep_view(), t.deep_view()),
{
    let mut out = no_lines();
    let d = text::decimal_i(r.counter);
    let run = text::cat4("#", d.as_str(), " ", r.label.as_str());
    put_line(&mut out, label_line("Run ", run.as_str()));
    assert(out.deep_view() =~= seq![
        labelled("Run "@, "#"@ + text::dec_int(r.counter as int) + " "@ + r.label@),
    ]);
    when_into("Started: ", r.scheduled_date, t.started.as_str(), &mut out);
    maybe_into("Comment: ", &r.comment, &mut out);
    cause_into(r, &mut out);
    commit_into(r, t.committed.as_str(), &mut out);
    put_line(&mut out, blank());
    out
}

// ---- stages and jobs -----------------------------------------------------

/// A stage; `time` is when it was scheduled.
pub open spec fn stage_spans(s: StageInstanceView, time: Seq<char>, selected: bool) -> Seq<SpanView> {
    let status = found_or(s.status, "Unknown"@);
    seq![
        if selected {
            sp("\u{25b6} "@, tinted(Tint::Accent))
        } else {
            sp("\u{25b8} "@, tinted(Tint::Muted))
        },
        sp(s.name, bold()),
        raw_sp("  "@),
        sp(status, tinted(tint_of(status))),
    ] + (match s.approval_type {
        Some(a) => seq![sp("  ("@ + a + ")"@, tinted(Tint::Muted))],
        None => Seq::empty(),
    }) + (if s.scheduled_date is Some {
        seq![sp("  "@ + time, tinted(Tint::Muted))]
    } else {
        Seq::empty()
    })
}

/// The result of a job, or else its state.
pub open spec fn job_result(j: JobInstanceView) -> Seq<char> {
    match j.result {
        Some(r) => r,
        None => or_dash(j.state),
    }
}

pub open spec fn job_spans(j: JobInstanceView, selected: bool) -> Seq<SpanView> {
    seq![
        raw_sp(
            if selected {
                "\u{25b6} "@
            } else {
                "    "@
            },
        ),
        sp(
            j.name,
            if selected {
                bold_tinted(Tint::Accent)
            } else {
                plain()
            },
        ),
        raw_sp("  "@),
        sp(job_result(j), tinted(tint_of(job_result(j)))),
    ]
}

/// Each stage and its jobs; `row` is the one under the cursor.
pub open spec fn stage_part(
    stages: Seq<StageInstanceView>,
    times: Seq<Seq<char>>,
    row: Option<DetailRow>,
) -> Seq<Seq<SpanView>>
    decreases stages.len(),
{
    if stages.len() == 0 {
        Seq::empty()
    } else {
        let si = (stages.len() - 1) as usize;
        let s = stages.last();
        stage_part(stages.drop_last(), times, row).push(
            stage_spans(s, times[stages.len() - 1], row == Some(DetailRow::Stage(si))),
        ) + Seq::new(
            s.jobs.len(),
            |ji: int| job_spans(s.jobs[ji], row == Some(DetailRow::Job(si, ji as usize))),
        )
    }
}

/// The place of a row among the lines of the stages.
pub open spec fn row_place(stages: Seq<StageInstanceView>, row: DetailRow) -> Option<int> {
    match row {
        DetailRow::Stage(s) => if s < stages.len() {
            Some(line_count(stages.take(s as int)))
        } else {
            None
        },
        DetailRow::Job(s, j) => if s < stages.len() && j < stages[s as int].jobs.len() {
            Some(line_count(stages.take(s as int)) + 1 + j)
        } else {
            None
        },
    }
}

/// The number of lines of the stages.
pub open spec fn line_count(stages: Seq<StageInstanceView>) -> int
    decreases stages.len(),
{
    if stages.len() == 0 {
        0
    } else {
        line_count(stages.drop_last()) + 1 + stages.last().jobs.len()
    }
}

fn stage_line(s: &StageInstance, time: &str, selected: bool) -> (r: Line)
    ensures
        r.deep_view() == stage_spans(s.deep_view(), time@, selected),
{
    let status = match &s.status {
        Some(t) => t.as_str(),
        None => "Unknown",
    };
    let mut out = no_spans();
    if selected {
        put(&mut out, span("\u{25b6} ", tint(Tint::Accent)));
    } else {
        put(&mut out, span("\u{25b8} ", tint(Tint::Muted)));
    }
    put(&mut out, span(s.name.as_str(), bolded()));
    put(&mut out, raw("  "));
    put(&mut out, span(status, tint(status_color(status))));
    if let Some(a) = &s.approval_type {
        put(&mut out, span_of(text::cat3("  (", a.as_str(), ")"), tint(Tint::Muted)));
    }
    if s.scheduled_date.is_some() {
        put(&mut out, span_of(text::cat2("  ", time), tint(Tint::Muted)));
    }
    assert(out.deep_view() =~= stage_spans(s.deep_view(), time@, selected));
    out
}

fn job_line(j: &JobInstance, selected: bool) -> (r: Line)
    ensures
        r.deep_view() == job_spans(j.deep_view(), selected),
{
    let result = match &j.result {
        Some(t) => t.as_str(),
        None => crate::app::open::text_or_dash(&j.state),
    };
    let mut out = no_spans();
    put(
        &mut out,
        raw(
            if selected {
                "\u{25b6} "
            } else {
                "    "
            },
        ),
    );
    put(
        &mut out,
        span(
            j.name.as_str(),
            if selected {
                bold_tint(Tint::Accent)
            } else {
                Style { fg: None, bg: None, bold: false }
            },
        ),
    );
    put(&mut out, raw("  "));
    put(&mut out, span(result, tint(status_color(result))));
    assert(out.deep_view() =~= job_spans(j.deep_view(), selected));
    out
}

fn jobs_into(s: &StageInstance, si: usize, row: Option<DetailRow>, out: &mut Vec<Line>)
    ensures
        final(out).deep_view() == old(out).deep_view() + Seq::new(
            s.deep_view().jobs.len(),
            |ji: int|
                job_spans(s.deep_view().jobs[ji], row == Some(DetailRow::Job(si, ji as usize))),
        ),
{
    let ghost start = out.deep_view();
    let ghost all = s.jobs.deep_view();
    let ghost want = Seq::new(
        all.len(),
        |ji: int| job_spans(all[ji], row == Some(DetailRow::Job(si, ji as usize))),
    );
    let mut i: usize = 0;
    assert(start + want.take(0) =~= start);
    while i < s.jobs.len()
        invariant
            all == s.jobs.deep_view(),
            want == Seq::new(
                all.len(),
                |ji: int| job_spans(all[ji], row == Some(DetailRow::Job(si, ji as usize))),
            ),
            i <= s.jobs@.len(),
            out.deep_view() == start + want.take(i as int),
        decreases s.jobs@.len() - i,
    {
        assert(all[i as int] == s.jobs@[i as int].deep_view());
        let selected = match row {
            Some(DetailRow::Job(a, b)) => a == si && b == i,
            _ => false,
        };
        put_line(out, job_line(&s.jobs[i], selected));
        assert(start + want.take(i + 1) =~= (start + want.take(i as int)).push(want[i as int]));
        i = i + 1;
    }
    assert(want.take(i as int) =~= want);
}

fn stages_into(
    stages: &Vec<StageInstance>,
    times: &Vec<String>,
    row: Option<DetailRow>,
    out: &mut Vec<Line>,
)
    requires
        times@.len() == stages@.len(),
    ensures
        final(out).deep_view() == old(out).deep_view() + stage_part(
            stages.deep_view(),
            times.deep_view(),
            row,
        ),
{
    let ghost start = out.deep_view();
    let ghost all = stages.deep_view();
    let ghost ts = times.deep_view();
    let mut i: usize = 0;
    assert(start + stage_part(all.take(0), ts, row) =~= start);
    while i < stages.len()
        invariant
            all == stages.deep_view(),
            ts == times.deep_view(),
            times@.len() == stages@.len(),
            i <= stages@.len(),
            out.deep_view() == start + stage_part(all.take(i as int), ts, row),
        decreases stages@.len() - i,
    {
        let s = &stages[i];
        proof {
            assert(all.take(i + 1).drop_last() =~= all.take(i as int));
            assert(all.take(i + 1).last() == s.deep_view());
            assert(ts[i as int] == times@[i as int]@);
        }
        let selected = match row {
            Some(DetailRow::Stage(a)) => a == i,
            _ => false,
        };
        put_line(out, stage_line(s, times[i].as_str(), selected));
        jobs_into(s, i, row, out);
        assert(out.deep_view() =~= start + stage_part(all.take(i + 1), ts, row));
        i = i + 1;
    }
    assert(all.take(i as int) =~= all);
}

// ---- checks --------------------------------------------------------------

/// How a commit stands to the latest one.
pub open spec fn check_sp(g: GitRefView, state: GithubStateView, tick: u64) -> SpanView {
    match state {
        GithubStateView::Idle => sp("(not checked)"@, tinted(Tint::Muted)),
        GithubStateView::Checking => sp(spinning(tick, " checking..."@), tinted(Tint::Muted)),
        GithubStateView::Found(latest) => if latest == g.deployed_sha {
            sp("\u{2713} up to date"@, tinted(Tint::Success))
        } else {
            sp(
                "\u{26a0} not latest (latest "@ + first_chars(latest, 7) + ")"@,
                tinted(Tint::Warning),
            )
        },
        GithubStateView::Failed(why) => sp(
            "\u{2717} "@ + failure_label(why),
            tinted(Tint::Warning),
        ),
    }
}

/// A material with its check. The host is named where it is not the usual one,
/// and the run that the commit was traced through where it was.
pub open spec fn check_lines(g: GitRefView, state: GithubStateView, tick: u64) -> Seq<Seq<SpanView>> {
    let host = if g.host == "github.com"@ {
        Seq::<char>::empty()
    } else {
        g.host + "/"@
    };
    seq![
        seq![
            label_sp("GitHub: "@),
            raw_sp(host + g.owner + "/"@ + g.repo + "@"@ + g.branch),
            raw_sp("  "@),
            sp(first_chars(g.deployed_sha, 7), tinted(Tint::Accent)),
            raw_sp("  "@),
            check_sp(g, state, tick),
        ],
    ] + match g.via {
        Some((name, counter)) => seq![
            muted_line("        via "@ + name + " #"@ + text::dec_int(counter as int)),
        ],
        None => Seq::empty(),
    }
}

pub open spec fn checks_lines(cs: Seq<(GitRefView, GithubStateView)>, tick: u64) -> Seq<
    Seq<SpanView>,
>
    decreases cs.len(),
{
    if cs.len() == 0 {
        Seq::empty()
    } else {
        checks_lines(cs.drop_last(), tick) + check_lines(cs.last().0, cs.last().1, tick)
    }
}

/// The checks belong to the latest run, and are shown with it only.
pub open spec fn check_part(v: AppView) -> Seq<Seq<SpanView>> {
    if v.history_selected == 0 && v.github_checks.len() > 0 {
        seq![blank_line()] + checks_lines(v.github_checks, v.tick)
    } else {
        Seq::empty()
    }
}

fn check_span(g: &GitRef, state: &GithubState, tick: u64) -> (r: Span)
    ensures
        r.deep_view() == check_sp(g.deep_view(), state.deep_view(), tick),
{
    match state {
        GithubState::Idle => span("(not checked)", tint(Tint::Muted)),
        GithubState::Checking => span_of(spin(tick, " checking..."), tint(Tint::Muted)),
        GithubState::Found(latest) => if text::same(latest.as_str(), g.deployed_sha.as_str()) {
            span("\u{2713} up to date", tint(Tint::Success))
        } else {
            let sha = short_sha(latest.as_str());
            span_of(
                text::cat3("\u{26a0} not latest (latest ", sha.as_str(), ")"),
                tint(Tint::Warning),
            )
        },
        GithubState::Failed(why) => span_of(
            text::cat2("\u{2717} ", github_failure_label(why.as_str())),
            tint(Tint::Warning),
        ),
    }
}

fn check_into(g: &GitRef, state: &GithubState, tick: u64, out: &mut Vec<Line>)
    ensures
        final(out).deep_view() == old(out).deep_view() + check_lines(
            g.deep_view(),
            state.deep_view(),
            tick,
        ),
{
    let ghost start = out.deep_view();
    let host = if text::same(g.host.as_str(), "github.com") {
        text::empty()
    } else {
        text::cat2(g.host.as_str(), "/")
    };
    let mut line = no_spans();
    put(&mut line, span("GitHub: ", tint(Tint::Muted)));
    let place = text::cat6(
        host.as_str(),
        g.owner.as_str(),
        "/",
        g.repo.as_str(),
        "@",
        g.branch.as_str(),
    );
    put(&mut line, raw(place.as_str()));
    put(&mut line, raw("  "));
    put(&mut line, span_of(short_sha(g.deployed_sha.as_str()), tint(Tint::Accent)));
    put(&mut line, raw("  "));
    put(&mut line, check_span(g, state, tick));
    let ghost lv = line.deep_view();
    put_line(out, line);
    if let Some((name, counter)) = &g.via {
        let d = text::decimal_i(*counter);
        let words = text::cat4("        via ", name.as_str(), " #", d.as_str());
        put_line(out, muted(words.as_str()));
    }
    proof {
        let gv = g.deep_view();
        let h = if gv.host == "github.com"@ {
            Seq::<char>::empty()
        } else {
            gv.host + "/"@
        };
        assert(lv =~= seq![
            label_sp("GitHub: "@),
            raw_sp(h + gv.owner + "/"@ + gv.repo + "@"@ + gv.branch),
            raw_sp("  "@),
            sp(first_chars(gv.deployed_sha, 7), tinted(Tint::Accent)),
            raw_sp("  "@),
            check_sp(gv, state.deep_view(), tick),
        ]);
        assert(out.deep_view() =~= start + check_lines(gv, state.deep_view(), tick));
    }
}

fn checks_into(app: &App, out: &mut Vec<Line>)
    ensures
        final(out).deep_view() == old(out).deep_view() + check_part(app.deep_view()),
{
    let ghost start = out.deep_view();
    let ghost all = app.deep_view().github_checks;
    assert(all.len() == app.github_checks@.len());
    if app.history_selected != 0 || app.github_checks.len() == 0 {
        assert(start + check_part(app.deep_view()) =~= start);
        return;
    }
    put_line(out, blank());
    let ghost mid = out.deep_view();
    let mut i: usize = 0;
    assert(mid + checks_lines(all.take(0), app.tick) =~= mid);
    while i < app.github_checks.len()
        invariant
            all == app.github_checks.deep_view(),
            i <= app.github_checks@.len(),
            out.deep_view() == mid + checks_lines(all.take(i as int), app.tick),
        decreases app.github_checks@.len() - i,
    {
        let c = &app.github_checks[i];
        assert(all.take(i + 1).drop_last() =~= all.take(i as int));
        assert(all.take(i + 1).last() == c.deep_view());
        check_into(&c.0, &c.1, app.tick, out);
        assert(out.deep_view() =~= mid + checks_lines(all.take(i + 1), app.tick));
        i = i + 1;
    }
    assert(all.take(i as int) =~= all);
    assert(out.deep_view() =~= start + check_part(app.deep_view()));
}

// ---- all of it -----------------------------------------------------------

/// The row under the cursor, where the details are focused.
pub open spec fn cursor_row_of(v: AppView) -> Option<DetailRow> {
    if v.focus == Focus::Detail && v.detail_selected < v.detail_rows.len() {
        Some(v.detail_rows[v.detail_selected as int])
    } else {
        None
    }
}

/// The lines of the details of a run.
pub open spec fn detail_text(v: AppView, r: PipelineInstanceView, t: DetailTimesView) -> Seq<
    Seq<SpanView>,
> {
    head_part(r, t) + stage_part(r.stages, t.stages, cursor_row_of(v)) + check_part(v)
}

/// The line of the row under the cursor.
pub open spec fn cursor_line(v: AppView, r: PipelineInstanceView, t: DetailTimesView) -> Option<int> {
    match cursor_row_of(v) {
        Some(row) => match row_place(r.stages, row) {
            Some(k) => Some(head_part(r, t).len() + k),
            None => None,
        },
        None => None,
    }
}

fn cursor(app: &App) -> (r: Option<DetailRow>)
    ensures
        r == cursor_row_of(app.deep_view()),
{
    if app.focus == Focus::Detail && app.detail_selected < app.detail_rows.len() {
        Some(app.detail_rows[app.detail_selected])
    } else {
        None
    }
}

/// The first line on screen: the row under the cursor is in view. `height` is the
/// number of lines that fit.
pub open spec fn detail_scroll(line: Option<int>, height: int, len: int) -> int {
    match line {
        Some(k) => if height > 0 && k >= height {
            if k - height + 1 < len {
                k - height + 1
            } else {
                len
            }
        } else {
            0
        },
        None => 0,
    }
}

proof fn lemma_line_count(stages: Seq<StageInstanceView>)
    ensures
        0 <= line_count(stages),
    decreases stages.len(),
{
    if stages.len() > 0 {
        lemma_line_count(stages.drop_last());
    }
}

/// The number of lines of the first `s` stages.
fn lines_before(stages: &Vec<StageInstance>, s: usize) -> (r: u128)
    requires
        s <= stages@.len(),
    ensures
        r == line_count(stages.deep_view().take(s as int)),
        r <= s * 0x1_0000_0000_0000_0000,
{
    let ghost all = stages.deep_view();
    let mut n: u128 = 0;
    let mut i: usize = 0;
    while i < s
        invariant
            all == stages.deep_view(),
            i <= s <= stages@.len(),
            n == line_count(all.take(i as int)),
            n <= i * 0x1_0000_0000_0000_0000,
        decreases s - i,
    {
        proof {
            assert(all.take(i + 1).drop_last() =~= all.take(i as int));
            assert(all.take(i + 1).last() == stages@[i as int].deep_view());
            assert(all.take(i + 1).last().jobs.len() == stages@[i as int].jobs@.len());
        }
        n = n + 1 + stages[i].jobs.len() as u128;
        i = i + 1;
    }
    n
}

fn place_of(stages: &Vec<StageInstance>, row: DetailRow) -> (r: Option<u128>)
    ensures
        match r {
            Some(k) => row_place(stages.deep_view(), row) == Some(k as int) && k
                <= 0xffff_ffff_ffff_ffff_0000_0000_0000_0000,
            None => row_place(stages.deep_view(), row) is None,
        },
{
    let ghost all = stages.deep_view();
    assert(all.len() == stages@.len());
    match row {
        DetailRow::Stage(s) => if s < stages.len() {
            Some(lines_before(stages, s))
        } else {
            None
        },
        DetailRow::Job(s, j) => if s < stages.len() {
            assert(all[s as int].jobs.len() == stages@[s as int].jobs@.len());
            if j < stages[s].jobs.len() {
                Some(lines_before(stages, s) + 1 + j as u128)
            } else {
                None
            }
        } else {
            None
        },
    }
}

fn scroll_to(line: Option<u128>, height: u16, len: usize) -> (r: usize)
    ensures
        r == detail_scroll(
            match line {
                Some(k) => Some(k as int),
                None => None,
            },
            height as int,
            len as int,
        ),
{
    match line {
        Some(k) => {
            let h: u128 = height as u128;
            if h > 0 && k >= h {
                let top: u128 = k - h + 1;
                if top < len as u128 {
                    top as usize
                } else {
                    len
                }
            } else {
                0
            }
        },
        None => 0,
    }
}

/// The details of a run, given its times, and the first of the lines on screen.
/// `height` is the number of lines that fit.
pub fn detail_lines(app: &App, r: &PipelineInstance, t: &DetailTimes, height: u16) -> (l: (
    Vec<Line>,
    usize,
))
    requires
        t.stages@.len() == r.stages@.len(),
    ensures
        l.0.deep_view() == detail_text(app.deep_view(), r.deep_view(), t.deep_view()),
        l.1 == detail_scroll(
            cursor_line(app.deep_view(), r.deep_view(), t.deep_view()),
            height as int,
            l.0@.len() as int,
        ),
{
    let mut out = head_lines(r, t);
    assert(out.deep_view().len() == out@.len());
    let head: u128 = out.len() as u128;
    let row = cursor(app);
    stages_into(&r.stages, &t.stages, row, &mut out);
    checks_into(app, &mut out);
    let line: Option<u128> = match row {
        Some(at) => match place_of(&r.stages, at) {
            Some(k) => Some(head + k),
            None => None,
        },
        None => None,
    };
    let offset: usize = scroll_to(line, height, out.len());
    (out, offset)
}

// ---- laws ----------------------------------------------------------------

proof fn lemma_stage_part_len(
    stages: Seq<StageInstanceView>,
    times: Seq<Seq<char>>,
    row: Option<DetailRow>,
)
    ensures
        stage_part(stages, times, row).len() == line_count(stages),
    decreases stages.len(),
{
    if stages.len() > 0 {
        lemma_stage_part_len(stages.drop_last(), times, row);
    }
}

proof fn lemma_place_inside(stages: Seq<StageInstanceView>, row: DetailRow)
    ensures
        row_place(stages, row) matches Some(k) ==> 0 <= k < line_count(stages),
    decreases stages.len(),
{
    let s = match row {
        DetailRow::Stage(s) => s,
        DetailRow::Job(s, _) => s,
    };
    if s < stages.len() {
        lemma_line_count(stages.take(s as int));
        let d = stages.drop_last();
        if s < d.len() {
            lemma_place_inside(d, row);
            assert(d.take(s as int) =~= stages.take(s as int));
        } else {
            assert(stages.take(s as int) =~= d);
        }
    }
}

/// The row under the cursor is always on screen: it is neither above the first
/// line shown nor below the last.
pub proof fn the_cursor_stays_in_view(
    v: AppView,
    r: PipelineInstanceView,
    t: DetailTimesView,
    height: int,
)
    requires
        height > 0,
    ensures
        cursor_line(v, r, t) matches Some(k) ==> {
            let top = detail_scroll(cursor_line(v, r, t), height, detail_text(v, r, t).len() as int);
            top <= k < top + height
        },
{
    if let Some(row) = cursor_row_of(v) {
        lemma_place_inside(r.stages, row);
        lemma_stage_part_len(r.stages, t.stages, cursor_row_of(v));
    }
}

} // verus!
