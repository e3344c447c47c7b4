//! What the command line prints of a pipeline.

use vstd::prelude::*;
use vstd::string::*;

use crate::app::open::{first_chars, take_chars};
use crate::clock::{found_or, iso, local, rfc3339, shows_time};
use crate::dup::Dup;
use crate::inspect::{
    job_label, label_of, status_text, wrapped, Paint,
};
use crate::model::{
    JobInstance, JobInstanceView, PipelineInstance, PipelineInstanceView, StageInstance,
    StageInstanceView,
};
use crate::text;

verus! {

// ---- parts of lines ------------------------------------------------------

/// The approver of a run, or nothing.
pub open spec fn approver_of(r: PipelineInstanceView) -> Seq<char> {
    match r.build_cause {
        Some(c) => found_or(c.approver, ""@),
        None => ""@,
    }
}

pub(crate) fn approver(r: &PipelineInstance) -> (s: &str)
    ensures
        s@ == approver_of(r.deep_view()),
{
    match &r.build_cause {
        Some(c) => match &c.approver {
            Some(a) => a.as_str(),
            None => "",
        },
        None => "",
    }
}

/// The number of a run as it is listed.
pub open spec fn run_number(r: PipelineInstanceView) -> Seq<char> {
    "#"@ + text::dec_int(r.counter as int)
}

pub(crate) fn number_of(r: &PipelineInstance) -> (s: String)
    ensures
        s@ == run_number(r.deep_view()),
{
    let d = text::decimal_i(r.counter);
    text::cat2("#", d.as_str())
}

pub open spec fn dimmed(on: bool, t: Seq<char>) -> Seq<char> {
    wrapped(on, "90"@, t)
}

/// The name of a pipeline with its group.
pub open spec fn title_line(on: bool, name: Seq<char>, group: Option<Seq<char>>) -> Seq<char> {
    wrapped(on, "1"@, name) + match group {
        Some(g) => dimmed(on, "  ("@ + g + ")"@),
        None => Seq::empty(),
    }
}

pub(crate) fn title(p: &Paint, name: &str, group: Option<&str>) -> (r: String)
    ensures
        r@ == title_line(p.0, name@, group.deep_view()),
{
    let b = p.bold(name);
    match group {
        Some(g) => {
            let inner = text::cat3("  (", g, ")");
            let d = p.dim(inner.as_str());
            text::cat2(b.as_str(), d.as_str())
        },
        None => {
            assert(b@ + Seq::empty() =~= b@);
            b
        },
    }
}

// ---- history -------------------------------------------------------------

pub open spec fn shown_len(len: nat, limit: nat) -> nat {
    if limit < len {
        limit
    } else {
        len
    }
}

/// A run in the list of runs.
pub open spec fn history_row(on: bool, r: PipelineInstanceView, when: Seq<char>) -> Seq<char> {
    "  "@ + text::padded(run_number(r), 8) + " "@ + text::padded(first_chars(r.label, 12), 12)
        + " "@ + text::padded(status_text(on, r.overall()), 10) + " "@ + text::padded(when, 20)
        + " "@ + dimmed(on, approver_of(r))
}

/// The list of runs; `whens` says when each started.
pub open spec fn history_text(
    on: bool,
    name: Seq<char>,
    group: Option<Seq<char>>,
    runs: Seq<PipelineInstanceView>,
    limit: nat,
    whens: Seq<Seq<char>>,
) -> Seq<Seq<char>> {
    seq![title_line(on, name, group), Seq::empty()] + Seq::new(
        shown_len(runs.len(), limit),
        |i: int| history_row(on, runs[i], whens[i]),
    )
}

/// When each of the first runs started, in some time zone; a dash where that is
/// not known.
pub open spec fn are_starts(
    runs: Seq<PipelineInstanceView>,
    limit: nat,
    whens: Seq<Seq<char>>,
) -> bool {
    &&& whens.len() == shown_len(runs.len(), limit)
    &&& forall|i: int|
        0 <= i < whens.len() ==> match (#[trigger] runs[i]).scheduled_date {
            Some(ts) => shows_time(ts, whens[i]),
            None => whens[i] == "-"@,
        }
}

fn starts(runs: &Vec<PipelineInstance>, limit: usize) -> (r: Vec<String>)
    ensures
        are_starts(runs.deep_view(), limit as nat, r.deep_view()),
{
    let n: usize = if limit < runs.len() { limit } else { runs.len() };
    let ghost all = runs.deep_view();
    let mut r: Vec<String> = Vec::new();
    let mut i: usize = 0;
    while i < n
        invariant
            all == runs.deep_view(),
            n <= runs@.len(),
            i <= n,
            r@.len() == i,
            forall|k: int|
                0 <= k < i ==> match (#[trigger] all[k]).scheduled_date {
                    Some(ts) => shows_time(ts, r@[k]@),
                    None => r@[k]@ == "-"@,
                },
        decreases n - i,
    {
        assert(all[i as int] == runs@[i as int].deep_view());
        let when = match runs[i].scheduled_date {
            Some(ts) => local(ts),
            None => text::owned("-"),
        };
        r.push(when);
        i = i + 1;
    }
    r
}

fn history_line(p: &Paint, r: &PipelineInstance, when: &str) -> (s: String)
    ensures
        s@ == history_row(p.0, r.deep_view(), when@),
{
    let number = number_of(r);
    let status = p.status(r.overall_status());
    let by = p.dim(approver(r));
    let a = text::pad(number.as_str(), 8);
    let b = text::pad(take_chars(r.label.as_str(), 12), 12);
    let c = text::pad(status.as_str(), 10);
    let d = text::pad(when, 20);
    let mut s = String::from_str("  ");
    s.append(a.as_str());
    s.append(" ");
    s.append(b.as_str());
    s.append(" ");
    s.append(c.as_str());
    s.append(" ");
    s.append(d.as_str());
    s.append(" ");
    s.append(by.as_str());
    s
}

/// The list of runs, given when each started.
pub fn history_lines(
    p: &Paint,
    name: &str,
    group: Option<&str>,
    runs: &Vec<PipelineInstance>,
    limit: usize,
    whens: &Vec<String>,
) -> (r: Vec<String>)
    requires
        whens@.len() == shown_len(runs@.len(), limit as nat),
    ensures
        r.deep_view() == history_text(
            p.0,
            name@,
            group.deep_view(),
            runs.deep_view(),
            limit as nat,
            whens.deep_view(),
        ),
{
    let ghost all = runs.deep_view();
    let ghost ws = whens.deep_view();
    let ghost want = history_text(p.0, name@, group.deep_view(), all, limit as nat, ws);
    let mut out: Vec<String> = Vec::new();
    text::push_line(&mut out, title(p, name, group));
    text::push_line(&mut out, text::empty());
    let n: usize = whens.len();
    let mut i: usize = 0;
    assert(out.deep_view() =~= want.take(2));
    while i < n
        invariant
            all == runs.deep_view(),
            ws == whens.deep_view(),
            want == history_text(p.0, name@, group.deep_view(), all, limit as nat, ws),
            n == whens@.len(),
            n == shown_len(runs@.len(), limit as nat),
            want.len() == n + 2,
            i <= n,
            out.deep_view() == want.take(i + 2),
        decreases n - i,
    {
        assert(all[i as int] == runs@[i as int].deep_view());
        assert(ws[i as int] == whens@[i as int]@);
        let line = history_line(p, &runs[i], whens[i].as_str());
        assert(want[i + 2] == line@);
        text::push_line(&mut out, line);
        assert(want.take(i + 3) =~= want.take(i + 2).push(want[i + 2]));
        i = i + 1;
    }
    assert(want.take(n + 2) =~= want);
    out
}

/// The list of runs. When each started is said in the time zone of the machine.
pub fn print_history(
    p: &Paint,
    name: &str,
    group: Option<&str>,
    runs: &Vec<PipelineInstance>,
    limit: usize,
) -> (r: Vec<String>)
    ensures
        exists|whens: Seq<Seq<char>>|
            are_starts(runs.deep_view(), limit as nat, whens) && r.deep_view()
                == #[trigger] history_text(
                p.0,
                name@,
                group.deep_view(),
                runs.deep_view(),
                limit as nat,
                whens,
            ),
{
    let whens = starts(runs, limit);
    assert(whens.deep_view().len() == whens@.len());
    history_lines(p, name, group, runs, limit, &whens)
}

// ---- machine-readable ----------------------------------------------------

/// A job in machine-readable output.
#[derive(Debug)]
pub struct JobSummary {
    pub name: String,
    pub result: String,
}

#[verifier::ext_equal]
pub struct JobSummaryView {
    pub name: Seq<char>,
    pub result: Seq<char>,
}

impl DeepView for JobSummary {
    type V = JobSummaryView;

    open spec fn deep_view(&self) -> JobSummaryView {
        JobSummaryView {
            name: self.name@,
            result: self.result@,
        }
    }
}

/// A stage in machine-readable output.
#[derive(Debug)]
pub struct StageSummary {
    pub name: String,
    pub status: Option<String>,
    pub approval: Option<String>,
    pub jobs: Vec<JobSummary>,
}

#[verifier::ext_equal]
pub struct StageSummaryView {
    pub name: Seq<char>,
    pub status: Option<Seq<char>>,
    pub approval: Option<Seq<char>>,
    pub jobs: Seq<JobSummaryView>,
}

impl DeepView for StageSummary {
    type V = StageSummaryView;

    open spec fn deep_view(&self) -> StageSummaryView {
        StageSummaryView {
            name: self.name@,
            status: self.status.deep_view(),
            approval: self.approval.deep_view(),
            jobs: self.jobs.deep_view(),
        }
    }
}

/// A run in machine-readable output.
#[derive(Debug)]
pub struct RunSummary {
    pub counter: i64,
    pub label: String,
    pub status: String,
    pub scheduled_at: Option<String>,
    pub triggered_by: Option<String>,
    pub cause: Option<String>,
    pub commit: Option<String>,
    pub stages: Vec<StageSummary>,
}

#[verifier::ext_equal]
pub struct RunSummaryView {
    pub counter: i64,
    pub label: Seq<char>,
    pub status: Seq<char>,
    pub scheduled_at: Option<Seq<char>>,
    pub triggered_by: Option<Seq<char>>,
    pub cause: Option<Seq<char>>,
    pub commit: Option<Seq<char>>,
    pub stages: Seq<StageSummaryView>,
}

impl DeepView for RunSummary {
    type V = RunSummaryView;

    open spec fn deep_view(&self) -> RunSummaryView {
        RunSummaryView {
            counter: self.counter,
            label: self.label@,
            status: self.status@,
            scheduled_at: self.scheduled_at.deep_view(),
            triggered_by: self.triggered_by.deep_view(),
            cause: self.cause.deep_view(),
            commit: self.commit.deep_view(),
            stages: self.stages.deep_view(),
        }
    }
}

/// A pipeline in machine-readable output.
#[derive(Debug)]
pub struct PipelineSummary {
    pub pipeline: String,
    pub group: Option<String>,
    pub paused: bool,
    pub status: Option<String>,
    pub latest: Option<RunSummary>,
    pub runs: Vec<RunSummary>,
}

#[verifier::ext_equal]
pub struct PipelineSummaryView {
    pub pipeline: Seq<char>,
    pub group: Option<Seq<char>>,
    pub paused: bool,
    pub status: Option<Seq<char>>,
    pub latest: Option<RunSummaryView>,
    pub runs: Seq<RunSummaryView>,
}

impl DeepView for PipelineSummary {
    type V = PipelineSummaryView;

    open spec fn deep_view(&self) -> PipelineSummaryView {
        PipelineSummaryView {
            pipeline: self.pipeline@,
            group: self.group.deep_view(),
            paused: self.paused,
            status: self.status.deep_view(),
            latest: self.latest.deep_view(),
            runs: self.runs.deep_view(),
        }
    }
}


pub open spec fn job_summary(j: JobInstanceView) -> JobSummaryView {
    JobSummaryView { name: j.name, result: label_of(j) }
}

pub open spec fn stage_summary(s: StageInstanceView) -> StageSummaryView {
    StageSummaryView {
        name: s.name,
        status: s.status,
        approval: s.approval_type,
        jobs: s.jobs.map_values(|j: JobInstanceView| job_summary(j)),
    }
}

/// The commit of the first git material.
pub open spec fn commit_of(r: PipelineInstanceView) -> Option<Seq<char>> {
    if r.refs().len() > 0 {
        Some(r.refs()[0].deployed_sha)
    } else {
        None
    }
}

pub open spec fn run_summary(r: PipelineInstanceView) -> RunSummaryView {
    RunSummaryView {
        counter: r.counter,
        label: r.label,
        status: r.overall(),
        scheduled_at: match r.scheduled_date {
            Some(ts) => Some(found_or(rfc3339(ts), ""@)),
            None => None,
        },
        triggered_by: match r.build_cause {
            Some(c) => c.approver,
            None => None,
        },
        cause: match r.build_cause {
            Some(c) => c.trigger_message,
            None => None,
        },
        commit: commit_of(r),
        stages: r.stages.map_values(|s: StageInstanceView| stage_summary(s)),
    }
}

/// A pipeline: the run that is asked for, and the first runs of its history.
pub open spec fn pipeline_summary(
    name: Seq<char>,
    group: Option<Seq<char>>,
    paused: bool,
    target: Option<PipelineInstanceView>,
    runs: Seq<PipelineInstanceView>,
    limit: nat,
) -> PipelineSummaryView {
    PipelineSummaryView {
        pipeline: name,
        group,
        paused,
        status: match target {
            Some(r) => Some(r.overall()),
            None => None,
        },
        latest: match target {
            Some(r) => Some(run_summary(r)),
            None => None,
        },
        runs: Seq::new(shown_len(runs.len(), limit), |i: int| run_summary(runs[i])),
    }
}

fn summarize_jobs(jobs: &Vec<JobInstance>) -> (r: Vec<JobSummary>)
    ensures
        r.deep_view() == jobs.deep_view().map_values(|j: JobInstanceView| job_summary(j)),
{
    let mut r: Vec<JobSummary> = Vec::new();
    let mut i: usize = 0;
    while i < jobs.len()
        invariant
            i <= jobs@.len(),
            r@.len() == i,
            forall|k: int|
                0 <= k < i ==> (#[trigger] r@[k]).deep_view() == job_summary(jobs@[k].deep_view()),
        decreases jobs@.len() - i,
    {
        let j = &jobs[i];
        r.push(JobSummary { name: j.name.clone(), result: text::owned(job_label(j)) });
        i = i + 1;
    }
    assert(r.deep_view() =~= jobs.deep_view().map_values(|j: JobInstanceView| job_summary(j)));
    r
}

fn summarize_stages(stages: &Vec<StageInstance>) -> (r: Vec<StageSummary>)
    ensures
        r.deep_view() == stages.deep_view().map_values(|s: StageInstanceView| stage_summary(s)),
{
    let mut r: Vec<StageSummary> = Vec::new();
    let mut i: usize = 0;
    while i < stages.len()
        invariant
            i <= stages@.len(),
            r@.len() == i,
            forall|k: int|
                0 <= k < i ==> (#[trigger] r@[k]).deep_view() == stage_summary(
                    stages@[k].deep_view(),
                ),
        decreases stages@.len() - i,
    {
        let s = &stages[i];
        r.push(
            StageSummary {
                name: s.name.clone(),
                status: s.status.dup(),
                approval: s.approval_type.dup(),
                jobs: summarize_jobs(&s.jobs),
            },
        );
        i = i + 1;
    }
    assert(r.deep_view() =~= stages.deep_view().map_values(
        |s: StageInstanceView| stage_summary(s),
    ));
    r
}

/// A run in machine-readable form.
pub fn run_json(r: &PipelineInstance) -> (s: RunSummary)
    ensures
        s.deep_view() == run_summary(r.deep_view()),
{
    let (triggered_by, cause): (Option<String>, Option<String>) = match &r.build_cause {
        Some(c) => (c.approver.dup(), c.trigger_message.dup()),
        None => (None, None),
    };
    let commit = match r.git_ref() {
        Some(g) => Some(g.deployed_sha),
        None => None,
    };
    let scheduled_at = match r.scheduled_date {
        Some(ts) => Some(iso(ts)),
        None => None,
    };
    RunSummary {
        counter: r.counter,
        label: r.label.clone(),
        status: text::owned(r.overall_status()),
        scheduled_at,
        triggered_by,
        cause,
        commit,
        stages: summarize_stages(&r.stages),
    }
}

/// A pipeline in machine-readable form.
pub fn print_json(
    name: &str,
    group: Option<&str>,
    paused: bool,
    target: Option<&PipelineInstance>,
    runs: &Vec<PipelineInstance>,
    limit: usize,
) -> (r: PipelineSummary)
    ensures
        r.deep_view() == pipeline_summary(
            name@,
            group.deep_view(),
            paused,
            target.deep_view(),
            runs.deep_view(),
            limit as nat,
        ),
{
    let n: usize = if limit < runs.len() { limit } else { runs.len() };
    let mut list: Vec<RunSummary> = Vec::new();
    let mut i: usize = 0;
    while i < n
        invariant
            n <= runs@.len(),
            i <= n,
            list@.len() == i,
            forall|k: int|
                0 <= k < i ==> (#[trigger] list@[k]).deep_view() == run_summary(
                    runs@[k].deep_view(),
                ),
        decreases n - i,
    {
        list.push(run_json(&runs[i]));
        i = i + 1;
    }
    assert(list.deep_view() =~= Seq::new(
        shown_len(runs.deep_view().len(), limit as nat),
        |i: int| run_summary(runs.deep_view()[i]),
    ));
    let (status, latest): (Option<String>, Option<RunSummary>) = match target {
        Some(r) => (Some(text::owned(r.overall_status())), Some(run_json(r))),
        None => (None, None),
    };
    PipelineSummary {
        pipeline: text::owned(name),
        group: match group {
            Some(g) => Some(text::owned(g)),
            None => None,
        },
        paused,
        status,
        latest,
        runs: list,
    }
}

} // verus!
