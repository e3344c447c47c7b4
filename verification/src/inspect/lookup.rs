//! Which pipeline a query names, and what is then printed of it.

use vstd::prelude::*;
use vstd::string::*;

use crate::api::run_place;
use crate::inspect::{debug_quoted, quote, resolution, resolve, Resolved, ResolvedView};
use crate::model::{
    DashboardEmbedded, DashboardEmbeddedView, DashboardGroup, DashboardGroupView, DashboardPipeline,
    DashboardPipelineView, PipelineInstance, PipelineInstanceView,
};
use crate::text;

verus! {

/// What the command line was asked to show; the summary of a run by default.
#[derive(Debug)]
pub struct Opts {
    pub limit: usize,
    pub json: bool,
    pub logs: bool,
    pub follow: bool,
    pub history: bool,
    pub run: Option<i64>,
    pub stage: Option<String>,
    pub job: Option<String>,
    pub interval: u64,
}

/// At least one run is listed.
pub open spec fn effective_limit(limit: usize) -> usize {
    if limit == 0 {
        1
    } else {
        limit
    }
}

pub fn limit_of(opts: &Opts) -> (r: usize)
    ensures
        r == effective_limit(opts.limit),
{
    if opts.limit == 0 {
        1
    } else {
        opts.limit
    }
}

// ---- a query that names no single pipeline -------------------------------

/// Several pipelines match: the first of them, and how many more there are.
pub open spec fn ambiguous_text(all: Seq<Seq<char>>, quoted: Seq<char>, limit: nat) -> Seq<Seq<char>> {
    let n = if limit < all.len() {
        limit
    } else {
        all.len()
    };
    seq![text::dec(all.len()) + " pipelines match "@ + quoted + ":"@] + Seq::new(
        n,
        |i: int| "  "@ + all[i],
    ) + (if all.len() > limit {
        seq!["  ... and "@ + text::dec((all.len() - limit) as nat) + " more"@]
    } else {
        Seq::empty()
    }) + seq!["Narrow the query, or pass the full name."@]
}

/// The lines for several matches, given the query in quotes.
pub fn ambiguous_lines(all: &Vec<String>, quoted: &str, limit: usize) -> (r: Vec<String>)
    ensures
        r.deep_view() == ambiguous_text(all.deep_view(), quoted@, limit as nat),
{
    let ghost av = all.deep_view();
    let total: usize = all.len();
    assert(av.len() == total);
    let count = text::decimal_n(total);
    let mut out: Vec<String> = Vec::new();
    text::push_line(&mut out, text::cat4(count.as_str(), " pipelines match ", quoted, ":"));
    let ghost head = out.deep_view();
    assert(head =~= seq![text::dec(av.len()) + " pipelines match "@ + quoted@ + ":"@]);
    let n: usize = if limit < total { limit } else { total };
    let ghost want = Seq::new(n as nat, |i: int| "  "@ + av[i]);
    let mut i: usize = 0;
    assert(head + want.take(0) =~= head);
    while i < n
        invariant
            av == all.deep_view(),
            n <= all@.len(),
            want == Seq::new(n as nat, |i: int| "  "@ + av[i]),
            i <= n,
            out.deep_view() == head + want.take(i as int),
        decreases n - i,
    {
        assert(av[i as int] == all@[i as int]@);
        text::push_line(&mut out, text::cat2("  ", all[i].as_str()));
        assert(head + want.take(i + 1) =~= (head + want.take(i as int)).push(want[i as int]));
        i = i + 1;
    }
    assert(want.take(i as int) =~= want);
    let ghost mid = out.deep_view();
    if total > limit {
        let more = text::decimal_n(total - limit);
        text::push_line(&mut out, text::cat3("  ... and ", more.as_str(), " more"));
        assert(out.deep_view() =~= mid + seq![
            "  ... and "@ + text::dec((av.len() - limit) as nat) + " more"@,
        ]);
    } else {
        assert(mid + Seq::<Seq<char>>::empty() =~= mid);
    }
    let ghost tail = out.deep_view();
    text::push_line(&mut out, text::owned("Narrow the query, or pass the full name."));
    assert(out.deep_view() =~= tail + seq!["Narrow the query, or pass the full name."@]);
    out
}

/// No pipeline matches. That there are none at all points elsewhere.
pub open spec fn missing_text(quoted: Seq<char>, none_at_all: bool) -> Seq<Seq<char>> {
    if none_at_all {
        seq![
            "No pipeline matches "@ + quoted + "."@,
            "The dashboard returned no pipelines at all; check the server URL and token."@,
        ]
    } else {
        seq!["No pipeline matches "@ + quoted + "."@]
    }
}

/// The lines for no match, given the query in quotes.
pub fn missing_lines(quoted: &str, none_at_all: bool) -> (r: Vec<String>)
    ensures
        r.deep_view() == missing_text(quoted@, none_at_all),
{
    let mut out: Vec<String> = Vec::new();
    text::push_line(&mut out, text::cat3("No pipeline matches ", quoted, "."));
    if none_at_all {
        text::push_line(
            &mut out,
            text::owned(
                "The dashboard returned no pipelines at all; check the server URL and token.",
            ),
        );
    }
    assert(out.deep_view() =~= missing_text(quoted@, none_at_all));
    out
}

// ---- the pipeline --------------------------------------------------------

/// What a query led to.
#[derive(Debug)]
pub enum Lookup {
    /// A pipeline, with its group and whether it is paused.
    Found { name: String, group: Option<String>, paused: bool },
    /// None, or more than one: these lines are said, and the exit code is 1.
    Stop(Vec<String>),
}

#[verifier::ext_equal]
pub enum LookupView {
    Found { name: Seq<char>, group: Option<Seq<char>>, paused: bool },
    Stop(Seq<Seq<char>>),
}

impl DeepView for Lookup {
    type V = LookupView;

    open spec fn deep_view(&self) -> LookupView {
        match self {
            Lookup::Found { name, group, paused } => LookupView::Found {
                name: name@,
                group: group.deep_view(),
                paused: *paused,
            },
            Lookup::Stop(lines) => LookupView::Stop(lines.deep_view()),
        }
    }
}

pub open spec fn pipeline_names(ps: Seq<DashboardPipelineView>) -> Seq<Seq<char>> {
    Seq::new(ps.len(), |i: int| ps[i].name)
}

/// The first group that holds the pipeline.
pub open spec fn group_of(groups: Seq<DashboardGroupView>, name: Seq<char>) -> Option<Seq<char>>
    decreases groups.len(),
{
    if groups.len() == 0 {
        None
    } else if groups[0].pipelines.contains(name) {
        Some(groups[0].name)
    } else {
        group_of(groups.skip(1), name)
    }
}

/// Whether the first pipeline of that name is paused.
pub open spec fn paused_of(ps: Seq<DashboardPipelineView>, name: Seq<char>) -> bool
    decreases ps.len(),
{
    if ps.len() == 0 {
        false
    } else if ps[0].name == name {
        ps[0].pause_info.paused
    } else {
        paused_of(ps.skip(1), name)
    }
}

pub open spec fn looked_up(dash: DashboardEmbeddedView, query: Seq<char>, limit: usize) -> LookupView {
    let names = pipeline_names(dash.pipelines);
    match resolution(names, query) {
        ResolvedView::One(name) => LookupView::Found {
            name,
            group: group_of(dash.pipeline_groups, name),
            paused: paused_of(dash.pipelines, name),
        },
        ResolvedView::Many(all) => LookupView::Stop(
            ambiguous_text(all, debug_quoted(query), effective_limit(limit) as nat),
        ),
        ResolvedView::Missing => LookupView::Stop(
            missing_text(debug_quoted(query), names.len() == 0),
        ),
    }
}

fn holds_name(names: &Vec<String>, name: &str) -> (r: bool)
    ensures
        r == names.deep_view().contains(name@),
{
    let ghost all = names.deep_view();
    let mut i: usize = 0;
    while i < names.len()
        invariant
            all == names.deep_view(),
            i <= names@.len(),
            forall|k: int| 0 <= k < i ==> #[trigger] all[k] != name@,
        decreases names@.len() - i,
    {
        assert(all[i as int] == names@[i as int]@);
        if text::same(names[i].as_str(), name) {
            return true;
        }
        i = i + 1;
    }
    false
}

fn find_group(groups: &Vec<DashboardGroup>, name: &str) -> (r: Option<String>)
    ensures
        r.deep_view() == group_of(groups.deep_view(), name@),
{
    let ghost all = groups.deep_view();
    let mut i: usize = 0;
    assert(all.skip(0) =~= all);
    while i < groups.len()
        invariant
            all == groups.deep_view(),
            i <= groups@.len(),
            group_of(all, name@) == group_of(all.skip(i as int), name@),
        decreases groups@.len() - i,
    {
        assert(all.skip(i as int)[0] == groups@[i as int].deep_view());
        if holds_name(&groups[i].pipelines, name) {
            return Some(groups[i].name.clone());
        }
        assert(all.skip(i as int).skip(1) =~= all.skip(i + 1));
        i = i + 1;
    }
    None
}

fn find_paused(ps: &Vec<DashboardPipeline>, name: &str) -> (r: bool)
    ensures
        r == paused_of(ps.deep_view(), name@),
{
    let ghost all = ps.deep_view();
    let mut i: usize = 0;
    assert(all.skip(0) =~= all);
    while i < ps.len()
        invariant
            all == ps.deep_view(),
            i <= ps@.len(),
            paused_of(all, name@) == paused_of(all.skip(i as int), name@),
        decreases ps@.len() - i,
    {
        assert(all.skip(i as int)[0] == ps@[i as int].deep_view());
        if text::same(ps[i].name.as_str(), name) {
            return ps[i].pause_info.paused;
        }
        assert(all.skip(i as int).skip(1) =~= all.skip(i + 1));
        i = i + 1;
    }
    false
}

fn names_of(ps: &Vec<DashboardPipeline>) -> (r: Vec<String>)
    ensures
        r.deep_view() == pipeline_names(ps.deep_view()),
{
    let mut r: Vec<String> = Vec::new();
    let mut i: usize = 0;
    while i < ps.len()
        invariant
            i <= ps@.len(),
            r@.len() == i,
            forall|k: int| 0 <= k < i ==> (#[trigger] r@[k])@ == ps@[k].name@,
        decreases ps@.len() - i,
    {
        r.push(ps[i].name.clone());
        i = i + 1;
    }
    assert(r.deep_view() =~= pipeline_names(ps.deep_view()));
    r
}

/// Looks up the pipeline that a query names on the dashboard.
pub fn run(dash: &DashboardEmbedded, query: &str, opts: &Opts) -> (r: Lookup)
    ensures
        r.deep_view() == looked_up(dash.deep_view(), query@, opts.limit),
{
    let names = names_of(&dash.pipelines);
    assert(names.deep_view().len() == names@.len());
    match resolve(&names, query) {
        Resolved::One(name) => {
            let group = find_group(&dash.pipeline_groups, name.as_str());
            let paused = find_paused(&dash.pipelines, name.as_str());
            Lookup::Found { name, group, paused }
        },
        Resolved::Many(all) => {
            let quoted = quote(query);
            Lookup::Stop(ambiguous_lines(&all, quoted.as_str(), limit_of(opts)))
        },
        Resolved::Missing => {
            let quoted = quote(query);
            Lookup::Stop(missing_lines(quoted.as_str(), names.len() == 0))
        },
    }
}

impl LookupView {
    /// The exit code, where the lookup ends here: 1 for a miss and for a query that
    /// names several pipelines, so that a script can tell.
    pub open spec fn code(self) -> Option<u8> {
        match self {
            LookupView::Stop(_) => Some(1),
            LookupView::Found { .. } => None,
        }
    }
}

impl Lookup {
    pub fn exit_code(&self) -> (r: Option<u8>)
        ensures
            r == self.deep_view().code(),
    {
        match self {
            Lookup::Stop(_) => Some(1),
            Lookup::Found { .. } => None,
        }
    }
}

// ---- what is printed -----------------------------------------------------

/// Whether the run that was asked for is not among those that are loaded.
pub open spec fn is_further_back(runs: Seq<PipelineInstanceView>, run: Option<i64>) -> bool {
    match run {
        Some(c) => run_place(runs, c) >= runs.len(),
        None => false,
    }
}

/// Whether the run that is asked for has to be fetched by itself: it is not on
/// the first page of history.
pub fn wants_instance(runs: &Vec<PipelineInstance>, run: Option<i64>) -> (r: bool)
    ensures
        r == is_further_back(runs.deep_view(), run),
{
    match run {
        Some(c) => {
            let ghost all = runs.deep_view();
            assert(all.skip(0) =~= all);
            let mut i: usize = 0;
            while i < runs.len()
                invariant
                    run == Some(c),
                    all == runs.deep_view(),
                    i <= runs@.len(),
                    run_place(all, c) == i + run_place(all.skip(i as int), c),
                decreases runs@.len() - i,
            {
                assert(all.skip(i as int)[0] == runs@[i as int].deep_view());
                if runs[i].counter == c {
                    return false;
                }
                assert(all.skip(i as int).skip(1) =~= all.skip(i + 1));
                i = i + 1;
            }
            true
        },
        None => false,
    }
}

/// What is printed of a pipeline.
#[derive(Debug, PartialEq, Eq)]
pub enum Plan {
    /// There is no run with that counter: this is said, and the exit code is 1.
    NoSuchRun(String),
    /// There is no run at all: these lines.
    NoRuns(Vec<String>),
    /// The log of a job.
    Logs,
    /// Machine-readable output.
    Json,
    /// The list of runs.
    History,
    /// The summary of the run.
    Human,
}

#[verifier::ext_equal]
pub enum PlanView {
    NoSuchRun(Seq<char>),
    NoRuns(Seq<Seq<char>>),
    Logs,
    Json,
    History,
    Human,
}

impl DeepView for Plan {
    type V = PlanView;

    open spec fn deep_view(&self) -> PlanView {
        match self {
            Plan::NoSuchRun(s) => PlanView::NoSuchRun(s@),
            Plan::NoRuns(ls) => PlanView::NoRuns(ls.deep_view()),
            Plan::Logs => PlanView::Logs,
            Plan::Json => PlanView::Json,
            Plan::History => PlanView::History,
            Plan::Human => PlanView::Human,
        }
    }
}

impl PlanView {
    /// The exit code after printing: 1 where the run that was asked for is not
    /// there, and else 0. That of a log is decided while it is printed.
    pub open spec fn code(self) -> Option<u8> {
        match self {
            PlanView::NoSuchRun(_) => Some(1),
            PlanView::Logs => None,
            _ => Some(0),
        }
    }
}

impl Plan {
    pub fn exit_code(&self) -> (r: Option<u8>)
        ensures
            r == self.deep_view().code(),
    {
        match self {
            Plan::NoSuchRun(_) => Some(1),
            Plan::Logs => None,
            Plan::NoRuns(_) | Plan::Json | Plan::History | Plan::Human => Some(0),
        }
    }
}

/// `found` tells whether the run that is asked for, or else the latest one, is
/// there.
pub open spec fn planned(name: Seq<char>, opts: Opts, found: bool) -> PlanView {
    if !found {
        match opts.run {
            Some(c) => PlanView::NoSuchRun(
                name + " has no run #"@ + text::dec_int(c as int) + "."@,
            ),
            None => if opts.json {
                PlanView::Json
            } else {
                PlanView::NoRuns(seq![name, "No runs yet."@])
            },
        }
    } else if opts.logs {
        PlanView::Logs
    } else if opts.json {
        PlanView::Json
    } else if opts.history {
        PlanView::History
    } else {
        PlanView::Human
    }
}

pub fn plan(name: &str, opts: &Opts, found: bool) -> (r: Plan)
    ensures
        r.deep_view() == planned(name@, *opts, found),
{
    if !found {
        return match opts.run {
            Some(c) => {
                let d = text::decimal_i(c);
                Plan::NoSuchRun(text::cat4(name, " has no run #", d.as_str(), "."))
            },
            None => if opts.json {
                Plan::Json
            } else {
                let mut lines: Vec<String> = Vec::new();
                text::push_line(&mut lines, text::owned(name));
                text::push_line(&mut lines, text::owned("No runs yet."));
                assert(lines.deep_view() =~= seq![name@, "No runs yet."@]);
                Plan::NoRuns(lines)
            },
        };
    }
    if opts.logs {
        Plan::Logs
    } else if opts.json {
        Plan::Json
    } else if opts.history {
        Plan::History
    } else {
        Plan::Human
    }
}

// ---- laws ----------------------------------------------------------------

/// The exit code of a lookup: 1 exactly where the query does not come down to one
/// pipeline of the dashboard, or the run that was asked for is not there. Only a
/// log that is printed decides for itself.
pub proof fn exit_codes_tell_what_was_found(
    dash: DashboardEmbeddedView,
    query: Seq<char>,
    opts: Opts,
    name: Seq<char>,
    found: bool,
)
    ensures
        looked_up(dash, query, opts.limit).code() == if resolution(
            pipeline_names(dash.pipelines),
            query,
        ) is One {
            None
        } else {
            Some(1u8)
        },
        planned(name, opts, found).code() == if !found && opts.run is Some {
            Some(1u8)
        } else if found && opts.logs {
            None
        } else {
            Some(0u8)
        },
{
}

} // verus!
