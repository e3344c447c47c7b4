//! The summary of a run that the command line prints for people.

use vstd::prelude::*;
use vstd::string::*;

use crate::app::hints::age_text;
use crate::app::open::{first_chars, take_chars};
use crate::clock::{age, found_or, is_time, time_text};
use crate::inspect::report::{
    approver, approver_of, dimmed, number_of, run_number, shown_len, title, title_line,
};
use crate::inspect::{job_label, label_of, status_text, wrapped, Paint};
use crate::model::{
    JobInstance, JobInstanceView, PipelineInstance, PipelineInstanceView, StageInstance,
    StageInstanceView,
};
use crate::text;

verus! {

// ---- the run -------------------------------------------------------------

/// What the run is, when it started and why.
pub open spec fn run_lines(on: bool, r: PipelineInstanceView, started: Seq<char>, now: i64) -> Seq<
    Seq<char>,
> {
    seq![
        Seq::empty(),
        dimmed(on, "Run"@) + " #"@ + text::dec_int(r.counter as int) + " "@ + r.label + "  "@
            + status_text(on, r.overall()),
    ] + match r.scheduled_date {
        Some(ts) => seq![
            dimmed(on, "Started"@) + " "@ + started + "  "@ + dimmed(
                on,
                age_text(ts as int, now as int),
            ),
        ],
        None => Seq::empty(),
    }
}

pub open spec fn cause_lines(on: bool, r: PipelineInstanceView) -> Seq<Seq<char>> {
    match r.build_cause {
        Some(c) => match (c.approver, c.trigger_message) {
            (Some(by), _) => seq![dimmed(on, "By     "@) + " "@ + by],
            (None, Some(msg)) => seq![dimmed(on, "Cause  "@) + " "@ + msg],
            (None, None) => Seq::empty(),
        },
        None => Seq::empty(),
    }
}

pub open spec fn commit_lines(on: bool, r: PipelineInstanceView) -> Seq<Seq<char>> {
    match r.modification() {
        Some(m) => (match m.revision {
            Some(sha) => seq![
                dimmed(on, "Commit "@) + " "@ + first_chars(sha, 12) + "  "@ + text::first_line_of(
                    found_or(m.comment, ""@),
                ),
            ],
            None => Seq::empty(),
        }) + match m.user_name {
            Some(author) => seq![dimmed(on, "Author "@) + " "@ + author],
            None => Seq::empty(),
        },
        None => Seq::empty(),
    }
}

fn run_into(p: &Paint, r: &PipelineInstance, started: &str, now: i64, out: &mut Vec<String>)
    ensures
        final(out).deep_view() == old(out).deep_view() + run_lines(
            p.0,
            r.deep_view(),
            started@,
            now,
        ),
{
    let ghost start = out.deep_view();
    text::push_line(out, text::empty());
    let head = p.dim("Run");
    let number = text::decimal_i(r.counter);
    let status = p.status(r.overall_status());
    text::push_line(
        out,
        text::cat7(
            head.as_str(),
            " #",
            number.as_str(),
            " ",
            r.label.as_str(),
            "  ",
            status.as_str(),
        ),
    );
    if let Some(ts) = r.scheduled_date {
        let a = p.dim("Started");
        let when = age(ts, now);
        let b = p.dim(when.as_str());
        text::push_line(out, text::cat5(a.as_str(), " ", started, "  ", b.as_str()));
    }
    assert(out.deep_view() =~= start + run_lines(p.0, r.deep_view(), started@, now));
}

fn cause_into(p: &Paint, r: &PipelineInstance, out: &mut Vec<String>)
    ensures
        final(out).deep_view() == old(out).deep_view() + cause_lines(p.0, r.deep_view()),
{
    let ghost start = out.deep_view();
    if let Some(c) = &r.build_cause {
        if let Some(by) = &c.approver {
            let a = p.dim("By     ");
            text::push_line(out, text::cat3(a.as_str(), " ", by.as_str()));
        } else if let Some(msg) = &c.trigger_message {
            let a = p.dim("Cause  ");
            text::push_line(out, text::cat3(a.as_str(), " ", msg.as_str()));
        }
    }
    assert(out.deep_view() =~= start + cause_lines(p.0, r.deep_view()));
}

fn commit_into(p: &Paint, r: &PipelineInstance, out: &mut Vec<String>)
    ensures
        final(out).deep_view() == old(out).deep_view() + commit_lines(p.0, r.deep_view()),
{
    let ghost start = out.deep_view();
    if let Some(m) = r.git_modification() {
        if let Some(sha) = &m.revision {
            let a = p.dim("Commit ");
            let comment = match &m.comment {
                Some(c) => c.as_str(),
                None => "",
            };
            let subject = text::first_line(comment);
            text::push_line(
                out,
                text::cat5(
                    a.as_str(),
                    " ",
                    take_chars(sha.as_str(), 12),
                    "  ",
                    subject.as_str(),
                ),
            );
        }
        if let Some(author) = &m.user_name {
            let a = p.dim("Author ");
            text::push_line(out, text::cat3(a.as_str(), " ", author.as_str()));
        }
    }
    assert(out.deep_view() =~= start + commit_lines(p.0, r.deep_view()));
}

// ---- stages and jobs -----------------------------------------------------

pub open spec fn stage_line(on: bool, s: StageInstanceView) -> Seq<char> {
    "  "@ + text::padded(s.name, 28) + " "@ + status_text(on, found_or(s.status, "Unknown"@))
        + match s.approval_type {
        Some(a) => dimmed(on, "  ("@ + a + ")"@),
        None => Seq::empty(),
    }
}

pub open spec fn job_line(on: bool, j: JobInstanceView) -> Seq<char> {
    "    "@ + text::padded(j.name, 26) + " "@ + status_text(on, label_of(j))
}

/// Each stage, and under it its jobs.
pub open spec fn stage_lines(on: bool, stages: Seq<StageInstanceView>) -> Seq<Seq<char>>
    decreases stages.len(),
{
    if stages.len() == 0 {
        Seq::empty()
    } else {
        stage_lines(on, stages.drop_last()).push(stage_line(on, stages.last())) + Seq::new(
            stages.last().jobs.len(),
            |i: int| job_line(on, stages.last().jobs[i]),
        )
    }
}

pub open spec fn stages_block(on: bool, stages: Seq<StageInstanceView>) -> Seq<Seq<char>> {
    if stages.len() == 0 {
        Seq::empty()
    } else {
        seq![Seq::<char>::empty()] + stage_lines(on, stages)
    }
}

fn stage_text(p: &Paint, s: &StageInstance) -> (r: String)
    ensures
        r@ == stage_line(p.0, s.deep_view()),
{
    let name = text::pad(s.name.as_str(), 28);
    let status = p.status(
        match &s.status {
            Some(t) => t.as_str(),
            None => "Unknown",
        },
    );
    let approval = match &s.approval_type {
        Some(a) => {
            let inner = text::cat3("  (", a.as_str(), ")");
            p.dim(inner.as_str())
        },
        None => text::empty(),
    };
    text::cat5("  ", name.as_str(), " ", status.as_str(), approval.as_str())
}

fn job_text(p: &Paint, j: &JobInstance) -> (r: String)
    ensures
        r@ == job_line(p.0, j.deep_view()),
{
    let name = text::pad(j.name.as_str(), 26);
    let status = p.status(job_label(j));
    text::cat4("    ", name.as_str(), " ", status.as_str())
}

fn jobs_into(p: &Paint, jobs: &Vec<JobInstance>, out: &mut Vec<String>)
    ensures
        final(out).deep_view() == old(out).deep_view() + Seq::new(
            jobs.deep_view().len(),
            |i: int| job_line(p.0, jobs.deep_view()[i]),
        ),
{
    let ghost start = out.deep_view();
    let ghost all = jobs.deep_view();
    let ghost want = Seq::new(all.len(), |i: int| job_line(p.0, all[i]));
    let mut i: usize = 0;
    assert(start + want.take(0) =~= start);
    while i < jobs.len()
        invariant
            all == jobs.deep_view(),
            want == Seq::new(all.len(), |i: int| job_line(p.0, all[i])),
            i <= jobs@.len(),
            out.deep_view() == start + want.take(i as int),
        decreases jobs@.len() - i,
    {
        assert(all[i as int] == jobs@[i as int].deep_view());
        text::push_line(out, job_text(p, &jobs[i]));
        assert(start + want.take(i + 1) =~= (start + want.take(i as int)).push(want[i as int]));
        i = i + 1;
    }
    assert(want.take(i as int) =~= want);
}

fn stages_into(p: &Paint, stages: &Vec<StageInstance>, out: &mut Vec<String>)
    ensures
        final(out).deep_view() == old(out).deep_view() + stages_block(p.0, stages.deep_view()),
{
    let ghost start = out.deep_view();
    let ghost all = stages.deep_view();
    assert(all.len() == stages@.len());
    if stages.len() == 0 {
        assert(start + stages_block(p.0, all) =~= start);
        return;
    }
    text::push_line(out, text::empty());
    let ghost mid = out.deep_view();
    let mut i: usize = 0;
    assert(mid + stage_lines(p.0, all.take(0)) =~= mid);
    while i < stages.len()
        invariant
            all == stages.deep_view(),
            i <= stages@.len(),
            out.deep_view() == mid + stage_lines(p.0, all.take(i as int)),
        decreases stages@.len() - i,
    {
        let s = &stages[i];
        proof {
            assert(all.take(i + 1).drop_last() =~= all.take(i as int));
            assert(all.take(i + 1).last() == s.deep_view());
        }
        text::push_line(out, stage_text(p, s));
        jobs_into(p, &s.jobs, out);
        assert(out.deep_view() =~= mid + stage_lines(p.0, all.take(i + 1)));
        i = i + 1;
    }
    assert(all.take(i as int) =~= all);
    assert(out.deep_view() =~= start + stages_block(p.0, all));
}

// ---- recent runs ---------------------------------------------------------

pub open spec fn recent_row(on: bool, r: PipelineInstanceView, now: i64) -> Seq<char> {
    "  "@ + text::padded(run_number(r), 8) + " "@ + text::padded(
        status_text(on, r.overall()),
        10,
    ) + " "@ + text::padded(
        match r.scheduled_date {
            Some(ts) => age_text(ts as int, now as int),
            None => "-"@,
        },
        10,
    ) + " "@ + dimmed(on, approver_of(r))
}

/// The first runs, where there are at least two.
pub open spec fn recent_block(on: bool, runs: Seq<PipelineInstanceView>, limit: nat, now: i64) -> Seq<
    Seq<char>,
> {
    let n = shown_len(runs.len(), limit);
    if n > 1 {
        seq![Seq::<char>::empty(), dimmed(on, "Recent runs"@)] + Seq::new(
            n,
            |i: int| recent_row(on, runs[i], now),
        )
    } else {
        Seq::empty()
    }
}

fn recent_line(p: &Paint, r: &PipelineInstance, now: i64) -> (s: String)
    ensures
        s@ == recent_row(p.0, r.deep_view(), now),
{
    let number = number_of(r);
    let status = p.status(r.overall_status());
    let when = match r.scheduled_date {
        Some(ts) => age(ts, now),
        None => text::owned("-"),
    };
    let by = p.dim(approver(r));
    let a = text::pad(number.as_str(), 8);
    let b = text::pad(status.as_str(), 10);
    let c = text::pad(when.as_str(), 10);
    let mut s = String::from_str("  ");
    s.append(a.as_str());
    s.append(" ");
    s.append(b.as_str());
    s.append(" ");
    s.append(c.as_str());
    s.append(" ");
    s.append(by.as_str());
    s
}

fn recent_into(
    p: &Paint,
    runs: &Vec<PipelineInstance>,
    limit: usize,
    now: i64,
    out: &mut Vec<String>,
)
    ensures
        final(out).deep_view() == old(out).deep_view() + recent_block(
            p.0,
            runs.deep_view(),
            limit as nat,
            now,
        ),
{
    let ghost start = out.deep_view();
    let ghost all = runs.deep_view();
    assert(all.len() == runs@.len());
    let n: usize = if limit < runs.len() { limit } else { runs.len() };
    if n <= 1 {
        assert(start + recent_block(p.0, all, limit as nat, now) =~= start);
        return;
    }
    text::push_line(out, text::empty());
    text::push_line(out, p.dim("Recent runs"));
    let ghost mid = out.deep_view();
    let ghost want = Seq::new(n as nat, |i: int| recent_row(p.0, all[i], now));
    let mut i: usize = 0;
    assert(mid + want.take(0) =~= mid);
    while i < n
        invariant
            all == runs.deep_view(),
            n <= runs@.len(),
            want == Seq::new(n as nat, |i: int| recent_row(p.0, all[i], now)),
            i <= n,
            out.deep_view() == mid + want.take(i as int),
        decreases n - i,
    {
        assert(all[i as int] == runs@[i as int].deep_view());
        text::push_line(out, recent_line(p, &runs[i], now));
        assert(mid + want.take(i + 1) =~= (mid + want.take(i as int)).push(want[i as int]));
        i = i + 1;
    }
    assert(want.take(i as int) =~= want);
    assert(out.deep_view() =~= start + recent_block(p.0, all, limit as nat, now));
}

// ---- all of it -----------------------------------------------------------

pub open spec fn heading(on: bool, name: Seq<char>, group: Option<Seq<char>>, paused: bool) -> Seq<
    char,
> {
    if paused {
        title_line(on, name, group) + wrapped(on, "33"@, "  [paused]"@)
    } else {
        title_line(on, name, group)
    }
}

pub open spec fn url_block(on: bool, url: Option<Seq<char>>) -> Seq<Seq<char>> {
    match url {
        Some(u) => seq![Seq::<char>::empty(), dimmed(on, "Open  "@) + " "@ + u],
        None => Seq::empty(),
    }
}

/// The summary of the run that is asked for; `started` says when it started, and
/// `url` is where it can be seen in a browser.
pub open spec fn human_text(
    on: bool,
    name: Seq<char>,
    group: Option<Seq<char>>,
    paused: bool,
    target: Option<PipelineInstanceView>,
    runs: Seq<PipelineInstanceView>,
    limit: nat,
    now: i64,
    started: Seq<char>,
    url: Option<Seq<char>>,
) -> Seq<Seq<char>> {
    match target {
        None => seq![heading(on, name, group, paused), dimmed(on, "No runs yet."@)],
        Some(r) => seq![heading(on, name, group, paused)] + run_lines(on, r, started, now)
            + cause_lines(on, r) + commit_lines(on, r) + stages_block(on, r.stages)
            + recent_block(on, runs, limit, now) + url_block(on, url),
    }
}

/// The summary, given when the run started.
pub fn human_lines(
    p: &Paint,
    name: &str,
    group: Option<&str>,
    paused: bool,
    target: Option<&PipelineInstance>,
    runs: &Vec<PipelineInstance>,
    limit: usize,
    now: i64,
    started: &str,
    url: Option<&str>,
) -> (r: Vec<String>)
    ensures
        r.deep_view() == human_text(
            p.0,
            name@,
            group.deep_view(),
            paused,
            target.deep_view(),
            runs.deep_view(),
            limit as nat,
            now,
            started@,
            url.deep_view(),
        ),
{
    let mut out: Vec<String> = Vec::new();
    let head = title(p, name, group);
    let head = if paused {
        let tag = p.wrap("33", "  [paused]");
        text::cat2(head.as_str(), tag.as_str())
    } else {
        head
    };
    text::push_line(&mut out, head);
    assert(out.deep_view() =~= seq![heading(p.0, name@, group.deep_view(), paused)]);
    match target {
        None => {
            text::push_line(&mut out, p.dim("No runs yet."));
            assert(out.deep_view() =~= seq![
                heading(p.0, name@, group.deep_view(), paused),
                dimmed(p.0, "No runs yet."@),
            ]);
        },
        Some(r) => {
            run_into(p, r, started, now, &mut out);
            cause_into(p, r, &mut out);
            commit_into(p, r, &mut out);
            stages_into(p, &r.stages, &mut out);
            recent_into(p, runs, limit, now, &mut out);
            let ghost mid = out.deep_view();
            if let Some(u) = url {
                text::push_line(&mut out, text::empty());
                let a = p.dim("Open  ");
                text::push_line(&mut out, text::cat3(a.as_str(), " ", u));
            }
            assert(out.deep_view() =~= mid + url_block(p.0, url.deep_view()));
        },
    }
    out
}

/// When the run that is summed up started.
pub open spec fn start_of(target: Option<PipelineInstanceView>) -> Option<i64> {
    match target {
        Some(r) => r.scheduled_date,
        None => None,
    }
}

/// The summary. When the run started is said in the time zone of the machine.
pub fn print_human(
    p: &Paint,
    name: &str,
    group: Option<&str>,
    paused: bool,
    target: Option<&PipelineInstance>,
    runs: &Vec<PipelineInstance>,
    limit: usize,
    now: i64,
    url: Option<&str>,
) -> (r: Vec<String>)
    ensures
        exists|started: Seq<char>|
            r.deep_view() == #[trigger] human_text(
                p.0,
                name@,
                group.deep_view(),
                paused,
                target.deep_view(),
                runs.deep_view(),
                limit as nat,
                now,
                started,
                url.deep_view(),
            ) && is_time(start_of(target.deep_view()), started),
{
    let started = match target {
        Some(r) => time_text(r.scheduled_date),
        None => time_text(None),
    };
    human_lines(
        p,
        name,
        group,
        paused,
        target,
        runs,
        limit,
        now,
        started.as_str(),
        url,
    )
}

} // verus!
