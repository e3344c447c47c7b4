//! Looking a pipeline up from the command line, without the interface.

use vstd::prelude::*;
use vstd::string::*;

use crate::api::{ascii_lowered, lower_ascii};
use crate::app::matching::{fuzzy_match, matched, next_same};
use crate::clock::found_or;
use crate::model::{
    reads, JobInstance, JobInstanceView, PipelineInstance, PipelineInstanceView, StageInstance,
    StageInstanceView,
};
use crate::names::{before, before_irreflexive, before_total, before_transitive, comes_before};
use crate::text;

pub mod human;
pub mod laws;
pub mod lookup;
pub mod report;
pub mod stream;

verus! {

// ---- sorting -------------------------------------------------------------

/// The place of `x` among sorted names: after all that do not come after it.
pub open spec fn slot(t: Seq<Seq<char>>, x: Seq<char>) -> int
    decreases t.len(),
{
    if t.len() == 0 || !before(x, t.last()) {
        t.len() as int
    } else {
        slot(t.drop_last(), x)
    }
}

/// The names in order, those that are the same beside each other.
pub open spec fn sorted(s: Seq<Seq<char>>) -> Seq<Seq<char>>
    decreases s.len(),
{
    if s.len() == 0 {
        s
    } else {
        let t = sorted(s.drop_last());
        t.insert(slot(t, s.last()), s.last())
    }
}

fn sort_names(names: Vec<String>) -> (r: Vec<String>)
    ensures
        r.deep_view() == sorted(names.deep_view()),
{
    let ghost all = names.deep_view();
    let mut r: Vec<String> = Vec::new();
    let mut i: usize = 0;
    assert(r.deep_view() =~= sorted(all.take(0)));
    while i < names.len()
        invariant
            all == names.deep_view(),
            i <= names@.len(),
            r.deep_view() == sorted(all.take(i as int)),
        decreases names@.len() - i,
    {
        let x = &names[i];
        let ghost t = r.deep_view();
        assert(all.take(i + 1).drop_last() =~= all.take(i as int));
        assert(all.take(i + 1).last() == x@);
        let mut p: usize = r.len();
        assert(t.take(p as int) =~= t);
        while p > 0 && comes_before(x.as_str(), r[p - 1].as_str())
            invariant
                t == r.deep_view(),
                p <= r@.len(),
                slot(t, x@) == slot(t.take(p as int), x@),
            decreases p,
        {
            assert(t.take(p as int).last() == r@[p - 1]@);
            assert(t.take(p as int).drop_last() =~= t.take(p - 1));
            p = p - 1;
        }
        proof {
            if p > 0 {
                assert(t.take(p as int).last() == r@[p - 1]@);
            }
            assert(slot(t.take(p as int), x@) == p);
        }
        r.insert(p, x.clone());
        assert(r.deep_view() =~= t.insert(p as int, x@));
        i = i + 1;
    }
    assert(all.take(i as int) =~= all);
    r
}

// ---- resolving a query ---------------------------------------------------

/// What a query came down to. Several matches want a longer query, none wants
/// another one.
#[derive(Debug, PartialEq, Eq)]
pub enum Resolved {
    One(String),
    Many(Vec<String>),
    Missing,
}

#[verifier::ext_equal]
pub enum ResolvedView {
    One(Seq<char>),
    Many(Seq<Seq<char>>),
    Missing,
}

impl DeepView for Resolved {
    type V = ResolvedView;

    open spec fn deep_view(&self) -> ResolvedView {
        match self {
            Resolved::One(n) => ResolvedView::One(n@),
            Resolved::Many(ns) => ResolvedView::Many(ns.deep_view()),
            Resolved::Missing => ResolvedView::Missing,
        }
    }
}

/// The same text up to the case of ASCII letters.
pub open spec fn same_word(a: Seq<char>, b: Seq<char>) -> bool {
    ascii_lowered(a) == ascii_lowered(b)
}

/// How a name can fit a query: 0 is the same word, 1 holding it, 2 holding its
/// characters in order.
pub open spec fn fits(name: Seq<char>, q: Seq<char>, how: int) -> bool {
    if how == 0 {
        same_word(name, q)
    } else if how == 1 {
        text::has(ascii_lowered(name), ascii_lowered(q))
    } else {
        matched(name, q, 0) is Some
    }
}

/// The names that fit in that way.
pub open spec fn tier(names: Seq<Seq<char>>, q: Seq<char>, how: int) -> Seq<Seq<char>>
    decreases names.len(),
{
    if names.len() == 0 {
        Seq::empty()
    } else {
        let above = tier(names.drop_last(), q, how);
        if fits(names.last(), q, how) {
            above.push(names.last())
        } else {
            above
        }
    }
}

/// One name, or several in order.
pub open spec fn of_tier(t: Seq<Seq<char>>) -> ResolvedView {
    if t.len() == 1 {
        ResolvedView::One(t[0])
    } else {
        ResolvedView::Many(sorted(t))
    }
}

/// A query goes by the closest way in which any name fits it; a blank one names
/// nothing.
pub open spec fn resolution(names: Seq<Seq<char>>, query: Seq<char>) -> ResolvedView {
    let q = text::trimmed(query);
    if q.len() == 0 {
        ResolvedView::Missing
    } else if tier(names, q, 0).len() > 0 {
        of_tier(tier(names, q, 0))
    } else if tier(names, q, 1).len() > 0 {
        of_tier(tier(names, q, 1))
    } else if tier(names, q, 2).len() > 0 {
        of_tier(tier(names, q, 2))
    } else {
        ResolvedView::Missing
    }
}

/// Whether two words are the same up to the case of ASCII letters.
pub fn same_ignoring_case(a: &str, b: &str) -> (r: bool)
    ensures
        r == same_word(a@, b@),
{
    let x = lower_ascii(a);
    let y = lower_ascii(b);
    text::same(x.as_str(), y.as_str())
}

fn fit(name: &str, q: &str, how: u8) -> (r: bool)
    ensures
        r == fits(name@, q@, how as int),
{
    if how == 0 {
        same_ignoring_case(name, q)
    } else if how == 1 {
        let x = lower_ascii(name);
        let y = lower_ascii(q);
        text::contains(x.as_str(), y.as_str())
    } else {
        fuzzy_match(name, q).is_some()
    }
}

fn fitting(names: &Vec<String>, q: &str, how: u8) -> (r: Vec<String>)
    ensures
        r.deep_view() == tier(names.deep_view(), q@, how as int),
{
    let ghost all = names.deep_view();
    let mut r: Vec<String> = Vec::new();
    let mut i: usize = 0;
    assert(r.deep_view() =~= Seq::<Seq<char>>::empty());
    while i < names.len()
        invariant
            all == names.deep_view(),
            i <= names@.len(),
            r.deep_view() == tier(all.take(i as int), q@, how as int),
        decreases names@.len() - i,
    {
        let ghost above = r.deep_view();
        assert(all.take(i + 1).drop_last() =~= all.take(i as int));
        assert(all.take(i + 1).last() == names@[i as int]@);
        if fit(names[i].as_str(), q, how) {
            r.push(names[i].clone());
            assert(r.deep_view() =~= above.push(names@[i as int]@));
        }
        i = i + 1;
    }
    assert(all.take(i as int) =~= all);
    r
}

/// Finds the pipeline that a query names. It goes by tiers, so that a query that
/// names a pipeline exactly is never drowned out by those that it is part of.
pub fn resolve(names: &Vec<String>, query: &str) -> (r: Resolved)
    ensures
        r.deep_view() == resolution(names.deep_view(), query@),
{
    let q = text::trim(query);
    if q.unicode_len() == 0 {
        return Resolved::Missing;
    }
    let mut how: u8 = 0;
    while how < 3
        invariant
            how <= 3,
            q@ == text::trimmed(query@),
            q@.len() > 0,
            how > 0 ==> tier(names.deep_view(), q@, 0).len() == 0,
            how > 1 ==> tier(names.deep_view(), q@, 1).len() == 0,
            how > 2 ==> tier(names.deep_view(), q@, 2).len() == 0,
        decreases 3 - how,
    {
        let found = fitting(names, q, how);
        assert(found.deep_view().len() == found@.len());
        if found.len() == 1 {
            assert(found.deep_view()[0] == found@[0]@);
            return Resolved::One(found[0].clone());
        }
        if found.len() > 1 {
            return Resolved::Many(sort_names(found));
        }
        how = how + 1;
    }
    Resolved::Missing
}

// ---- colours -------------------------------------------------------------

/// Whether output is coloured.
pub struct Paint(pub bool);

/// A text between the codes for a colour and for none.
pub open spec fn wrapped(on: bool, code: Seq<char>, t: Seq<char>) -> Seq<char> {
    if on {
        "\x1b["@ + code + "m"@ + t + "\x1b[0m"@
    } else {
        t
    }
}

/// The colour of a status.
pub open spec fn status_code(s: Seq<char>) -> Seq<char> {
    if s == "Passed"@ {
        "32"@
    } else if s == "Failed"@ {
        "31"@
    } else if s == "Building"@ || s == "Scheduled"@ {
        "33"@
    } else if s == "Cancelled"@ {
        "90"@
    } else {
        "0"@
    }
}

pub open spec fn status_text(on: bool, s: Seq<char>) -> Seq<char> {
    wrapped(on, status_code(s), s)
}

impl Paint {
    pub fn wrap(&self, code: &str, t: &str) -> (r: String)
        ensures
            r@ == wrapped(self.0, code@, t@),
    {
        if self.0 {
            text::cat5("\x1b[", code, "m", t, "\x1b[0m")
        } else {
            text::owned(t)
        }
    }

    pub fn bold(&self, t: &str) -> (r: String)
        ensures
            r@ == wrapped(self.0, "1"@, t@),
    {
        self.wrap("1", t)
    }

    pub fn dim(&self, t: &str) -> (r: String)
        ensures
            r@ == wrapped(self.0, "90"@, t@),
    {
        self.wrap("90", t)
    }

    pub fn status(&self, s: &str) -> (r: String)
        ensures
            r@ == status_text(self.0, s@),
    {
        let code = if text::same(s, "Passed") {
            "32"
        } else if text::same(s, "Failed") {
            "31"
        } else if text::same(s, "Building") || text::same(s, "Scheduled") {
            "33"
        } else if text::same(s, "Cancelled") {
            "90"
        } else {
            "0"
        };
        self.wrap(code, s)
    }
}

// ---- runs and jobs -------------------------------------------------------

/// The run with that counter, or the latest one where none is asked for.
pub open spec fn chosen_run(runs: Seq<PipelineInstanceView>, counter: Option<i64>) -> Option<
    PipelineInstanceView,
> {
    match counter {
        Some(c) => {
            let p = crate::api::run_place(runs, c);
            if p < runs.len() {
                Some(runs[p])
            } else {
                None
            }
        },
        None => if runs.len() > 0 {
            Some(runs[0])
        } else {
            None
        },
    }
}

pub fn pick_run(runs: &Vec<PipelineInstance>, counter: Option<i64>) -> (r: Option<&PipelineInstance>)
    ensures
        r.deep_view() == chosen_run(runs.deep_view(), counter),
{
    let ghost all = runs.deep_view();
    match counter {
        Some(c) => {
            let mut i: usize = 0;
            assert(all.skip(0) =~= all);
            while i < runs.len()
                invariant
                    all == runs.deep_view(),
                    i <= runs@.len(),
                    counter == Some(c),
                    crate::api::run_place(all, c) == i + crate::api::run_place(
                        all.skip(i as int),
                        c,
                    ),
                decreases runs@.len() - i,
            {
                assert(all.skip(i as int)[0] == runs@[i as int].deep_view());
                if runs[i].counter == c {
                    assert(all[i as int] == runs@[i as int].deep_view());
                    return Some(&runs[i]);
                }
                assert(all.skip(i as int).skip(1) =~= all.skip(i + 1));
                i = i + 1;
            }
            None
        },
        None => if runs.len() > 0 {
            assert(all[0] == runs@[0].deep_view());
            Some(&runs[0])
        } else {
            None
        },
    }
}

/// What to call the state of a job: its result, or while that is unknown the
/// word for what it is doing.
pub open spec fn label_of(job: JobInstanceView) -> Seq<char> {
    match job.result {
        Some(r) => if r == "Unknown"@ {
            crate::app::open::or_dash(job.state)
        } else {
            r
        },
        None => crate::app::open::or_dash(job.state),
    }
}

pub fn job_label(job: &JobInstance) -> (r: &str)
    ensures
        r@ == label_of(job.deep_view()),
{
    match &job.result {
        Some(r) => if text::same(r.as_str(), "Unknown") {
            crate::app::open::text_or_dash(&job.state)
        } else {
            r.as_str()
        },
        None => crate::app::open::text_or_dash(&job.state),
    }
}

/// A job without a final result.
pub open spec fn unfinished(job: JobInstanceView) -> bool {
    job.result != Some("Passed"@) && job.result != Some("Failed"@) && job.result != Some(
        "Cancelled"@,
    )
}

pub fn is_running(job: &JobInstance) -> (r: bool)
    ensures
        r == unfinished(job.deep_view()),
{
    !reads(&job.result, "Passed") && !reads(&job.result, "Failed") && !reads(
        &job.result,
        "Cancelled",
    )
}

/// All jobs of the stages, each by the places of its stage and its own.
pub open spec fn job_places(stages: Seq<StageInstanceView>) -> Seq<(int, int)>
    decreases stages.len(),
{
    if stages.len() == 0 {
        Seq::empty()
    } else {
        job_places(stages.drop_last()) + Seq::new(
            stages.last().jobs.len(),
            |j: int| (stages.len() - 1, j),
        )
    }
}

/// Whether a job is one to watch: running in an active stage (0), or failed (1).
pub open spec fn watchable(stages: Seq<StageInstanceView>, at: (int, int), how: int) -> bool {
    if how == 0 {
        stages[at.0].active() && unfinished(stages[at.0].jobs[at.1])
    } else {
        stages[at.0].jobs[at.1].result == Some("Failed"@)
    }
}

/// The first of the places that is one to watch.
pub open spec fn first_watchable(
    stages: Seq<StageInstanceView>,
    ps: Seq<(int, int)>,
    how: int,
) -> Option<(int, int)>
    decreases ps.len(),
{
    if ps.len() == 0 {
        None
    } else {
        match first_watchable(stages, ps.drop_last(), how) {
            Some(at) => Some(at),
            None => if watchable(stages, ps.last(), how) {
                Some(ps.last())
            } else {
                None
            },
        }
    }
}

/// The job to follow where none is named: a running one, else a failed one, else
/// the last.
pub open spec fn job_choice(stages: Seq<StageInstanceView>) -> Option<(int, int)> {
    let ps = job_places(stages);
    match first_watchable(stages, ps, 0) {
        Some(at) => Some(at),
        None => match first_watchable(stages, ps, 1) {
            Some(at) => Some(at),
            None => if ps.len() > 0 {
                Some(ps.last())
            } else {
                None
            },
        },
    }
}

/// The places of all jobs, in order.
fn places_of_jobs(stages: &Vec<StageInstance>) -> (r: Vec<(usize, usize)>)
    ensures
        r@.len() == job_places(stages.deep_view()).len(),
        forall|k: int|
            0 <= k < r@.len() ==> {
                let at = #[trigger] r@[k];
                &&& at.0 < stages@.len()
                &&& at.1 < stages@[at.0 as int].jobs@.len()
                &&& job_places(stages.deep_view())[k] == (at.0 as int, at.1 as int)
            },
{
    let ghost all = stages.deep_view();
    let mut r: Vec<(usize, usize)> = Vec::new();
    let mut i: usize = 0;
    while i < stages.len()
        invariant
            all == stages.deep_view(),
            i <= stages@.len(),
            r@.len() == job_places(all.take(i as int)).len(),
            forall|k: int|
                0 <= k < r@.len() ==> {
                    let at = #[trigger] r@[k];
                    &&& at.0 < i
                    &&& at.1 < stages@[at.0 as int].jobs@.len()
                    &&& job_places(all.take(i as int))[k] == (at.0 as int, at.1 as int)
                },
        decreases stages@.len() - i,
    {
        let jobs = &stages[i].jobs;
        let ghost above = job_places(all.take(i as int));
        let ghost here = job_places(all.take(i + 1));
        proof {
            assert(all.take(i + 1).drop_last() =~= all.take(i as int));
            assert(all.take(i + 1).last() == stages@[i as int].deep_view());
            assert(all.take(i + 1).last().jobs.len() == jobs@.len());
            assert(here == above + Seq::new(
                jobs@.len(),
                |j: int| (all.take(i + 1).len() - 1, j),
            ));
        }
        let mut j: usize = 0;
        while j < jobs.len()
            invariant
                i < stages@.len(),
                *jobs == stages@[i as int].jobs,
                j <= jobs@.len(),
                r@.len() == above.len() + j,
                here.len() == above.len() + jobs@.len(),
                forall|k: int| 0 <= k < above.len() ==> #[trigger] here[k] == above[k],
                forall|k: int|
                    above.len() <= k < here.len() ==> #[trigger] here[k] == (
                        i as int,
                        k - above.len(),
                    ),
                forall|k: int|
                    0 <= k < r@.len() ==> {
                        let at = #[trigger] r@[k];
                        &&& at.0 <= i
                        &&& at.1 < stages@[at.0 as int].jobs@.len()
                        &&& here[k] == (at.0 as int, at.1 as int)
                    },
            decreases jobs@.len() - j,
        {
            r.push((i, j));
            j = j + 1;
        }
        i = i + 1;
    }
    assert(all.take(i as int) =~= all);
    r
}

fn is_watchable(stages: &Vec<StageInstance>, at: (usize, usize), how: u8) -> (r: bool)
    requires
        at.0 < stages@.len(),
        at.1 < stages@[at.0 as int].jobs@.len(),
    ensures
        r == watchable(stages.deep_view(), (at.0 as int, at.1 as int), how as int),
{
    let stage = &stages[at.0];
    let job = &stage.jobs[at.1];
    assert(stages.deep_view()[at.0 as int] == stage.deep_view());
    assert(stage.deep_view().jobs[at.1 as int] == job.deep_view());
    if how == 0 {
        stage.is_active() && is_running(job)
    } else {
        reads(&job.result, "Failed")
    }
}

fn find_watchable(stages: &Vec<StageInstance>, ps: &Vec<(usize, usize)>, how: u8) -> (r: Option<
    (usize, usize),
>)
    requires
        ps@.len() == job_places(stages.deep_view()).len(),
        forall|k: int|
            0 <= k < ps@.len() ==> {
                let at = #[trigger] ps@[k];
                &&& at.0 < stages@.len()
                &&& at.1 < stages@[at.0 as int].jobs@.len()
                &&& job_places(stages.deep_view())[k] == (at.0 as int, at.1 as int)
            },
    ensures
        match r {
            Some(at) => first_watchable(
                stages.deep_view(),
                job_places(stages.deep_view()),
                how as int,
            ) == Some((at.0 as int, at.1 as int)) && at.0 < stages@.len() && at.1
                < stages@[at.0 as int].jobs@.len(),
            None => first_watchable(
                stages.deep_view(),
                job_places(stages.deep_view()),
                how as int,
            ) is None,
        },
{
    let ghost all = stages.deep_view();
    let ghost want = job_places(all);
    let mut i: usize = 0;
    while i < ps.len()
        invariant
            all == stages.deep_view(),
            want == job_places(all),
            ps@.len() == want.len(),
            forall|k: int|
                0 <= k < ps@.len() ==> {
                    let at = #[trigger] ps@[k];
                    &&& at.0 < stages@.len()
                    &&& at.1 < stages@[at.0 as int].jobs@.len()
                    &&& want[k] == (at.0 as int, at.1 as int)
                },
            i <= ps@.len(),
            first_watchable(all, want.take(i as int), how as int) is None,
        decreases ps@.len() - i,
    {
        let at = ps[i];
        proof {
            assert(want.take(i + 1).drop_last() =~= want.take(i as int));
            assert(want.take(i + 1).last() == want[i as int]);
            assert(want[i as int] == (at.0 as int, at.1 as int));
        }
        if is_watchable(stages, at, how) {
            proof {
                lemma_first_watchable_stays(all, want, i + 1, how as int);
            }
            return Some(at);
        }
        i = i + 1;
    }
    assert(want.take(i as int) =~= want);
    None
}

proof fn lemma_first_watchable_stays(
    stages: Seq<StageInstanceView>,
    ps: Seq<(int, int)>,
    n: int,
    how: int,
)
    requires
        0 <= n <= ps.len(),
        first_watchable(stages, ps.take(n), how) is Some,
    ensures
        first_watchable(stages, ps, how) == first_watchable(stages, ps.take(n), how),
    decreases ps.len() - n,
{
    if n < ps.len() {
        assert(ps.take(n + 1).drop_last() =~= ps.take(n));
        lemma_first_watchable_stays(stages, ps, n + 1, how);
    } else {
        assert(ps.take(n) =~= ps);
    }
}

/// The job to follow where none is named, by the places of its stage and its
/// own.
fn pick_job_place(run: &PipelineInstance) -> (r: Option<(usize, usize)>)
    ensures
        match r {
            Some(at) => job_choice(run.deep_view().stages) == Some((at.0 as int, at.1 as int))
                && at.0 < run.stages@.len() && at.1 < run.stages@[at.0 as int].jobs@.len(),
            None => job_choice(run.deep_view().stages) is None,
        },
{
    let ps = places_of_jobs(&run.stages);
    if let Some(at) = find_watchable(&run.stages, &ps, 0) {
        return Some(at);
    }
    if let Some(at) = find_watchable(&run.stages, &ps, 1) {
        return Some(at);
    }
    let n: usize = ps.len();
    if n > 0 {
        assert(job_places(run.stages.deep_view()).last() == job_places(
            run.stages.deep_view(),
        )[n - 1]);
        let at = ps[n - 1];
        Some(at)
    } else {
        None
    }
}

/// A stage and a job of it, by their places.
pub open spec fn pair_at(stages: Seq<StageInstanceView>, at: (int, int)) -> (
    StageInstanceView,
    JobInstanceView,
) {
    (stages[at.0], stages[at.0].jobs[at.1])
}

fn pair_of(run: &PipelineInstance, at: (usize, usize)) -> (r: (&StageInstance, &JobInstance))
    requires
        at.0 < run.stages@.len(),
        at.1 < run.stages@[at.0 as int].jobs@.len(),
    ensures
        (r.0.deep_view(), r.1.deep_view()) == pair_at(
            run.deep_view().stages,
            (at.0 as int, at.1 as int),
        ),
{
    let stage = &run.stages[at.0];
    assert(run.deep_view().stages[at.0 as int] == stage.deep_view());
    assert(stage.deep_view().jobs[at.1 as int] == stage.jobs@[at.1 as int].deep_view());
    (stage, &stage.jobs[at.1])
}

/// The stage and the job to follow where none is named.
pub fn pick_job(run: &PipelineInstance) -> (r: Option<(&StageInstance, &JobInstance)>)
    ensures
        match (r, job_choice(run.deep_view().stages)) {
            (Some(p), Some(at)) => (p.0.deep_view(), p.1.deep_view()) == pair_at(
                run.deep_view().stages,
                at,
            ),
            (None, None) => true,
            _ => false,
        },
{
    match pick_job_place(run) {
        Some(at) => Some(pair_of(run, at)),
        None => None,
    }
}

// ---- jobs by name --------------------------------------------------------

/// The text that a string is shown as for debugging: in quotes, with escapes.
pub uninterp spec fn debug_quoted(s: Seq<char>) -> Seq<char>;

/// Formats a string by its `Debug`. Of the result only the name is claimed: it is
/// determined by the text alone.
#[verifier::external_body]
pub(crate) fn quote(s: &str) -> (r: String)
    ensures
        r@ == debug_quoted(s@),
{
    format!("{:?}", s)
}

/// Whether a name is the one that is wanted, if one is.
pub open spec fn wanted(name: Seq<char>, want: Option<Seq<char>>) -> bool {
    match want {
        Some(w) => same_word(name, w),
        None => true,
    }
}

pub open spec fn pair_wanted(
    stages: Seq<StageInstanceView>,
    at: (int, int),
    stage: Option<Seq<char>>,
    job: Option<Seq<char>>,
) -> bool {
    wanted(stages[at.0].name, stage) && wanted(stages[at.0].jobs[at.1].name, job)
}

/// The first of the places whose stage and job are the wanted ones.
pub open spec fn first_wanted(
    stages: Seq<StageInstanceView>,
    ps: Seq<(int, int)>,
    stage: Option<Seq<char>>,
    job: Option<Seq<char>>,
) -> Option<(int, int)>
    decreases ps.len(),
{
    if ps.len() == 0 {
        None
    } else {
        match first_wanted(stages, ps.drop_last(), stage, job) {
            Some(at) => Some(at),
            None => if pair_wanted(stages, ps.last(), stage, job) {
                Some(ps.last())
            } else {
                None
            },
        }
    }
}

pub open spec fn any_stage_wanted(stages: Seq<StageInstanceView>, stage: Option<Seq<char>>) -> bool {
    exists|i: int| 0 <= i < stages.len() && wanted(#[trigger] stages[i].name, stage)
}

pub open spec fn stage_names(stages: Seq<StageInstanceView>) -> Seq<Seq<char>> {
    Seq::new(stages.len(), |i: int| stages[i].name)
}

/// The names of the jobs of the wanted stages.
pub open spec fn job_names(stages: Seq<StageInstanceView>, stage: Option<Seq<char>>) -> Seq<
    Seq<char>,
>
    decreases stages.len(),
{
    if stages.len() == 0 {
        Seq::empty()
    } else {
        let above = job_names(stages.drop_last(), stage);
        if wanted(stages.last().name, stage) {
            above + Seq::new(stages.last().jobs.len(), |j: int| stages.last().jobs[j].name)
        } else {
            above
        }
    }
}

/// What is said where no job can be followed, given the name in quotes that no
/// stage or job has.
pub open spec fn no_job_words(
    run: PipelineInstanceView,
    stage: Option<Seq<char>>,
    job: Option<Seq<char>>,
    quoted: Seq<char>,
) -> Seq<char> {
    let counter = text::dec_int(run.counter as int);
    if stage is None && job is None {
        "Run #"@ + counter + " has no jobs yet."@
    } else if !any_stage_wanted(run.stages, stage) {
        "Run #"@ + counter + " has no stage "@ + quoted + ". Stages: "@ + text::joined(
            stage_names(run.stages),
            ", "@,
        )
    } else {
        "No job "@ + quoted + " in run #"@ + counter + ". Jobs: "@ + text::joined(
            job_names(run.stages, stage),
            ", "@,
        )
    }
}

/// The name that nothing has: that of the stage, or of the job where there is such
/// a stage.
pub open spec fn missing_name(
    run: PipelineInstanceView,
    stage: Option<Seq<char>>,
    job: Option<Seq<char>>,
) -> Seq<char> {
    if !any_stage_wanted(run.stages, stage) {
        found_or(stage, ""@)
    } else {
        found_or(job, ""@)
    }
}

/// What is said where no job can be followed.
pub open spec fn no_job_text(
    run: PipelineInstanceView,
    stage: Option<Seq<char>>,
    job: Option<Seq<char>>,
) -> Seq<char> {
    no_job_words(run, stage, job, debug_quoted(missing_name(run, stage, job)))
}

/// The place of the job to follow: the wanted one, or the one that `job_choice`
/// says where neither stage nor job is named.
pub open spec fn followed(
    stages: Seq<StageInstanceView>,
    stage: Option<Seq<char>>,
    job: Option<Seq<char>>,
) -> Option<(int, int)> {
    if stage is None && job is None {
        job_choice(stages)
    } else {
        first_wanted(stages, job_places(stages), stage, job)
    }
}

fn is_wanted(name: &str, want: Option<&str>) -> (r: bool)
    ensures
        r == wanted(name@, want.deep_view()),
{
    match want {
        Some(w) => same_ignoring_case(name, w),
        None => true,
    }
}

fn find_wanted(
    run: &PipelineInstance,
    ps: &Vec<(usize, usize)>,
    stage: Option<&str>,
    job: Option<&str>,
) -> (r: Option<(usize, usize)>)
    requires
        ps@.len() == job_places(run.deep_view().stages).len(),
        forall|k: int|
            0 <= k < ps@.len() ==> {
                let at = #[trigger] ps@[k];
                &&& at.0 < run.stages@.len()
                &&& at.1 < run.stages@[at.0 as int].jobs@.len()
                &&& job_places(run.deep_view().stages)[k] == (at.0 as int, at.1 as int)
            },
    ensures
        match r {
            Some(at) => first_wanted(
                run.deep_view().stages,
                job_places(run.deep_view().stages),
                stage.deep_view(),
                job.deep_view(),
            ) == Some((at.0 as int, at.1 as int)) && at.0 < run.stages@.len() && at.1
                < run.stages@[at.0 as int].jobs@.len(),
            None => first_wanted(
                run.deep_view().stages,
                job_places(run.deep_view().stages),
                stage.deep_view(),
                job.deep_view(),
            ) is None,
        },
{
    let ghost all = run.deep_view().stages;
    let ghost want = job_places(all);
    let ghost sv = stage.deep_view();
    let ghost jv = job.deep_view();
    let mut i: usize = 0;
    while i < ps.len()
        invariant
            all == run.deep_view().stages,
            want == job_places(all),
            sv == stage.deep_view(),
            jv == job.deep_view(),
            ps@.len() == want.len(),
            forall|k: int|
                0 <= k < ps@.len() ==> {
                    let at = #[trigger] ps@[k];
                    &&& at.0 < run.stages@.len()
                    &&& at.1 < run.stages@[at.0 as int].jobs@.len()
                    &&& want[k] == (at.0 as int, at.1 as int)
                },
            i <= ps@.len(),
            first_wanted(all, want.take(i as int), sv, jv) is None,
        decreases ps@.len() - i,
    {
        let at = ps[i];
        proof {
            assert(want.take(i + 1).drop_last() =~= want.take(i as int));
            assert(want.take(i + 1).last() == want[i as int]);
            assert(want[i as int] == (at.0 as int, at.1 as int));
        }
        let (s, j) = pair_of(run, at);
        if is_wanted(s.name.as_str(), stage) && is_wanted(j.name.as_str(), job) {
            proof {
                lemma_first_wanted_stays(all, want, i + 1, sv, jv);
            }
            return Some(at);
        }
        i = i + 1;
    }
    assert(want.take(i as int) =~= want);
    None
}

proof fn lemma_first_wanted_stays(
    stages: Seq<StageInstanceView>,
    ps: Seq<(int, int)>,
    n: int,
    stage: Option<Seq<char>>,
    job: Option<Seq<char>>,
)
    requires
        0 <= n <= ps.len(),
        first_wanted(stages, ps.take(n), stage, job) is Some,
    ensures
        first_wanted(stages, ps, stage, job) == first_wanted(stages, ps.take(n), stage, job),
    decreases ps.len() - n,
{
    if n < ps.len() {
        assert(ps.take(n + 1).drop_last() =~= ps.take(n));
        lemma_first_wanted_stays(stages, ps, n + 1, stage, job);
    } else {
        assert(ps.take(n) =~= ps);
    }
}

/// The names of the stages, and those of the jobs of the wanted ones; also
/// whether any stage is wanted.
fn names_in(run: &PipelineInstance, stage: Option<&str>) -> (r: (Vec<String>, Vec<String>, bool))
    ensures
        r.0.deep_view() == stage_names(run.deep_view().stages),
        r.1.deep_view() == job_names(run.deep_view().stages, stage.deep_view()),
        r.2 == any_stage_wanted(run.deep_view().stages, stage.deep_view()),
{
    let ghost all = run.deep_view().stages;
    let ghost sv = stage.deep_view();
    let mut stages: Vec<String> = Vec::new();
    let mut jobs: Vec<String> = Vec::new();
    let mut any = false;
    let mut i: usize = 0;
    assert(jobs.deep_view() =~= Seq::<Seq<char>>::empty());
    while i < run.stages.len()
        invariant
            all == run.stages.deep_view(),
            sv == stage.deep_view(),
            i <= run.stages@.len(),
            stages@.len() == i,
            forall|k: int| 0 <= k < i ==> (#[trigger] stages@[k])@ == all[k].name,
            jobs.deep_view() == job_names(all.take(i as int), sv),
            any == exists|k: int| 0 <= k < i && wanted(#[trigger] all[k].name, sv),
        decreases run.stages@.len() - i,
    {
        let s = &run.stages[i];
        let ghost above = jobs.deep_view();
        proof {
            assert(all[i as int] == s.deep_view());
            assert(all.take(i + 1).drop_last() =~= all.take(i as int));
            assert(all.take(i + 1).last() == s.deep_view());
            assert(s.deep_view().jobs.len() == s.jobs@.len());
        }
        stages.push(s.name.clone());
        let ghost was = any;
        if is_wanted(s.name.as_str(), stage) {
            any = true;
            let ghost here = Seq::new(s.jobs@.len(), |j: int| s.deep_view().jobs[j].name);
            let mut j: usize = 0;
            assert(above + here.take(0) =~= above);
            while j < s.jobs.len()
                invariant
                    j <= s.jobs@.len(),
                    here == Seq::new(s.jobs@.len(), |j: int| s.deep_view().jobs[j].name),
                    jobs.deep_view() == above + here.take(j as int),
                decreases s.jobs@.len() - j,
            {
                let ghost so_far = jobs.deep_view();
                assert(s.deep_view().jobs[j as int] == s.jobs@[j as int].deep_view());
                jobs.push(s.jobs[j].name.clone());
                assert(jobs.deep_view() =~= so_far.push(here[j as int]));
                assert(above + here.take(j + 1) =~= (above + here.take(j as int)).push(
                    here[j as int],
                ));
                j = j + 1;
            }
            assert(here.take(j as int) =~= here);
        }
        proof {
            assert(any == (was || wanted(all[i as int].name, sv)));
            if any {
                if was {
                    let k = choose|k: int| 0 <= k < i && wanted(#[trigger] all[k].name, sv);
                    assert(0 <= k < i + 1 && wanted(all[k].name, sv));
                }
            }
        }
        i = i + 1;
    }
    assert(all.take(i as int) =~= all);
    assert(stages.deep_view() =~= stage_names(all));
    (stages, jobs, any)
}

/// The stage and the job that are named, in either case, or the ones to follow
/// where none is; where there are none, what is there instead.
pub fn find_job<'a>(run: &'a PipelineInstance, stage: Option<&str>, job: Option<&str>) -> (r: Result<
    (&'a StageInstance, &'a JobInstance),
    String,
>)
    ensures
        match (r, followed(run.deep_view().stages, stage.deep_view(), job.deep_view())) {
            (Ok(p), Some(at)) => (p.0.deep_view(), p.1.deep_view()) == pair_at(
                run.deep_view().stages,
                at,
            ),
            (Err(e), None) => e@ == no_job_text(
                run.deep_view(),
                stage.deep_view(),
                job.deep_view(),
            ),
            _ => false,
        },
{
    let place = if stage.is_none() && job.is_none() {
        pick_job_place(run)
    } else {
        let ps = places_of_jobs(&run.stages);
        find_wanted(run, &ps, stage, job)
    };
    match place {
        Some(at) => Ok(pair_of(run, at)),
        None => {
            let quoted = quote(unknown_name(run, stage, job));
            Err(job_missing(run, stage, job, quoted.as_str()))
        },
    }
}

fn unknown_name<'a>(run: &PipelineInstance, stage: Option<&'a str>, job: Option<&'a str>) -> (r:
    &'a str)
    ensures
        r@ == missing_name(run.deep_view(), stage.deep_view(), job.deep_view()),
{
    let (_, _, any) = names_in(run, stage);
    let want = if any {
        job
    } else {
        stage
    };
    match want {
        Some(s) => s,
        None => "",
    }
}

/// What is said where no job can be followed. `quoted` is the name, in quotes, that
/// no stage or job has.
pub fn job_missing(
    run: &PipelineInstance,
    stage: Option<&str>,
    job: Option<&str>,
    quoted: &str,
) -> (r: String)
    ensures
        r@ == no_job_words(run.deep_view(), stage.deep_view(), job.deep_view(), quoted@),
{
    let number = text::decimal_i(run.counter);
    if stage.is_none() && job.is_none() {
        return text::cat3("Run #", number.as_str(), " has no jobs yet.");
    }
    let (stages, jobs, any) = names_in(run, stage);
    if any {
        let have = text::join(&jobs, ", ");
        text::cat6(
            "No job ",
            quoted,
            " in run #",
            number.as_str(),
            ". Jobs: ",
            have.as_str(),
        )
    } else {
        let have = text::join(&stages, ", ");
        text::cat6(
            "Run #",
            number.as_str(),
            " has no stage ",
            quoted,
            ". Stages: ",
            have.as_str(),
        )
    }
}

// ---- log lines -----------------------------------------------------------

/// A console line in its two parts. GoCD frames it as "xx|HH:MM:SS.mmm body": two
/// bytes that mark the stream, a bar, and more.
pub open spec fn framed(raw: Seq<char>) -> (Seq<char>, Seq<char>) {
    if raw.len() >= 4 && text::width_of(raw[0]) == 1 && text::width_of(raw[1]) == 1 && raw[2]
        == '|' {
        (raw.take(2), raw.skip(3))
    } else if raw.len() >= 3 && text::width_of(raw[0]) == 2 && raw[1] == '|' {
        (raw.take(1), raw.skip(2))
    } else {
        (Seq::empty(), raw)
    }
}

pub fn split_marker(raw: &str) -> (r: (&str, &str))
    ensures
        (r.0@, r.1@) == framed(raw@),
{
    let cs = text::chars_of(raw);
    let n: usize = cs.len();
    if n >= 4 && text::width(cs[0]) == 1 && text::width(cs[1]) == 1 && cs[2] == '|' {
        let a = raw.substring_char(0, 2);
        let b = raw.substring_char(3, n);
        assert(a@ =~= raw@.take(2));
        assert(b@ =~= raw@.skip(3));
        (a, b)
    } else if n >= 3 && text::width(cs[0]) == 2 && cs[1] == '|' {
        let a = raw.substring_char(0, 1);
        let b = raw.substring_char(2, n);
        assert(a@ =~= raw@.take(1));
        assert(b@ =~= raw@.skip(2));
        (a, b)
    } else {
        let a = raw.substring_char(0, 0);
        assert(a@ =~= Seq::<char>::empty());
        (a, raw)
    }
}

/// A line that tells of a failure.
pub open spec fn tells_failure(lower: Seq<char>) -> bool {
    ||| text::has(lower, "error"@)
    ||| text::has(lower, "failed"@)
    ||| text::has(lower, "failure"@)
    ||| text::has(lower, "exception"@)
    ||| text::has(lower, "fatal"@)
    ||| text::has(lower, "traceback"@)
    ||| text::has(lower, "exit code: 1"@)
}

pub open spec fn tells_warning(lower: Seq<char>) -> bool {
    text::has(lower, "warn"@) || text::has(lower, "deprecat"@)
}

pub open spec fn tells_success(lower: Seq<char>) -> bool {
    text::has(lower, "passed"@) || text::has(lower, "success"@) || text::has(
        lower,
        "job completed"@,
    )
}

/// The colour of a line: failures, then warnings, then successes, then what GoCD
/// itself says.
pub open spec fn severity_of(marker: Seq<char>, body: Seq<char>) -> Option<Seq<char>> {
    let lower = ascii_lowered(body);
    if marker == "!!"@ || tells_failure(lower) {
        Some("31"@)
    } else if marker == "&2"@ || tells_warning(lower) {
        Some("33"@)
    } else if tells_success(lower) {
        Some("32"@)
    } else if marker == "##"@ || text::begins(text::trimmed_start(body), "[go]"@) {
        Some("90"@)
    } else {
        None
    }
}

pub fn mentions_failure(lower: &str) -> (r: bool)
    ensures
        r == tells_failure(lower@),
{
    text::contains(lower, "error") || text::contains(lower, "failed") || text::contains(
        lower,
        "failure",
    ) || text::contains(lower, "exception") || text::contains(lower, "fatal") || text::contains(
        lower,
        "traceback",
    ) || text::contains(lower, "exit code: 1")
}

pub fn severity(marker: &str, body: &str) -> (r: Option<&'static str>)
    ensures
        r.deep_view() == severity_of(marker@, body@),
{
    let lowered = lower_ascii(body);
    let lower = lowered.as_str();
    if text::same(marker, "!!") || mentions_failure(lower) {
        Some("31")
    } else if text::same(marker, "&2") || text::contains(lower, "warn") || text::contains(
        lower,
        "deprecat",
    ) {
        Some("33")
    } else if text::contains(lower, "passed") || text::contains(lower, "success")
        || text::contains(lower, "job completed") {
        Some("32")
    } else if text::same(marker, "##") || text::starts_with(text::trim_start(body), "[go]") {
        Some("90")
    } else {
        None
    }
}

/// A console line as it is printed: without its marker, in its colour.
pub open spec fn printed_line(on: bool, raw: Seq<char>) -> Seq<char> {
    let (marker, rest) = framed(raw);
    match severity_of(marker, rest) {
        Some(code) => wrapped(on, code, rest),
        None => rest,
    }
}

pub fn log_line(p: &Paint, raw: &str) -> (r: String)
    ensures
        r@ == printed_line(p.0, raw@),
{
    let (marker, rest) = split_marker(raw);
    match severity(marker, rest) {
        Some(code) => p.wrap(code, rest),
        None => text::owned(rest),
    }
}

// ---- laws ----------------------------------------------------------------

/// Names of which none comes before an earlier one.
pub open spec fn in_order(s: Seq<Seq<char>>) -> bool {
    forall|i: int, j: int| 0 <= i < j < s.len() ==> !before(#[trigger] s[j], #[trigger] s[i])
}

proof fn lemma_slot_fits(t: Seq<Seq<char>>, x: Seq<char>)
    requires
        in_order(t),
    ensures
        0 <= slot(t, x) <= t.len(),
        forall|i: int| 0 <= i < slot(t, x) ==> !before(x, #[trigger] t[i]),
        forall|i: int| slot(t, x) <= i < t.len() ==> before(x, #[trigger] t[i]),
    decreases t.len(),
{
    if t.len() > 0 {
        let d = t.drop_last();
        if before(x, t.last()) {
            lemma_slot_fits(d, x);
            assert forall|i: int| 0 <= i < slot(t, x) implies !before(x, #[trigger] t[i]) by {
                assert(d[i] == t[i]);
            }
            assert forall|i: int| slot(t, x) <= i < t.len() implies before(x, #[trigger] t[i]) by {
                if i < d.len() {
                    assert(d[i] == t[i]);
                }
            }
        } else {
            assert forall|i: int| 0 <= i < t.len() implies !before(x, #[trigger] t[i]) by {
                if i < t.len() - 1 {
                    let y = t.last();
                    assert(!before(t[t.len() - 1], t[i]));
                    if before(x, t[i]) {
                        before_total(t[i], y);
                        if before(t[i], y) {
                            before_transitive(x, t[i], y);
                        }
                    }
                }
            }
        }
    }
}

/// What is listed is in order, and holds the same names as often.
pub proof fn listed_names_are_sorted(s: Seq<Seq<char>>)
    ensures
        in_order(sorted(s)),
        sorted(s).to_multiset() == s.to_multiset(),
    decreases s.len(),
{
    if s.len() > 0 {
        let d = s.drop_last();
        listed_names_are_sorted(d);
        let t = sorted(d);
        let x = s.last();
        lemma_slot_fits(t, x);
        let p = slot(t, x);
        let u = t.insert(p, x);
        assert forall|i: int, j: int| 0 <= i < j < u.len() implies !before(
            #[trigger] u[j],
            #[trigger] u[i],
        ) by {
            let a = if i < p {
                i
            } else {
                i - 1
            };
            let b = if j < p {
                j
            } else {
                j - 1
            };
            if i == p {
                assert(u[j] == t[b]);
                assert(before(x, t[b]));
                if before(t[b], x) {
                    before_transitive(x, t[b], x);
                    before_irreflexive(x);
                }
            } else if j == p {
                assert(u[i] == t[a]);
            } else {
                assert(u[i] == t[a] && u[j] == t[b]);
            }
        }
        vstd::seq_lib::to_multiset_insert(t, p, x);
        vstd::seq_lib::to_multiset_build(d, x);
        assert(s =~= d.push(x));
    }
}

pub(crate) proof fn lemma_tier_members(names: Seq<Seq<char>>, q: Seq<char>, how: int, x: Seq<char>)
    ensures
        tier(names, q, how).contains(x) <==> names.contains(x) && fits(x, q, how),
        tier(names, q, how).len() <= names.len(),
    decreases names.len(),
{
    if names.len() > 0 {
        let d = names.drop_last();
        lemma_tier_members(d, q, how, x);
        let t = tier(names, q, how);
        let td = tier(d, q, how);
        if names.contains(x) {
            let k = choose|k: int| 0 <= k < names.len() && names[k] == x;
            if k < d.len() {
                assert(d[k] == x);
            }
        }
        if d.contains(x) {
            let k = choose|k: int| 0 <= k < d.len() && d[k] == x;
            assert(names[k] == x);
        }
        assert(names[names.len() - 1] == names.last());
        if fits(names.last(), q, how) {
            assert(t == td.push(names.last()));
            if td.contains(x) {
                let k = choose|k: int| 0 <= k < td.len() && td[k] == x;
                assert(t[k] == x);
            }
            assert(t[td.len() as int] == names.last());
            if t.contains(x) {
                let k = choose|k: int| 0 <= k < t.len() && t[k] == x;
                if k < td.len() {
                    assert(td[k] == x);
                }
            }
        }
    }
}

proof fn lemma_matched_by_word(h: Seq<char>, a: Seq<char>, b: Seq<char>, from: int)
    requires
        same_word(a, b),
    ensures
        matched(h, a, from) == matched(h, b, from),
    decreases a.len(),
{
    assert(ascii_lowered(a).len() == a.len() && ascii_lowered(b).len() == b.len());
    if a.len() > 0 {
        assert(ascii_lowered(a)[0] == text::ascii_lower(a[0]));
        assert(ascii_lowered(b)[0] == text::ascii_lower(b[0]));
        assert(ascii_lowered(a.skip(1)) =~= ascii_lowered(a).skip(1));
        assert(ascii_lowered(b.skip(1)) =~= ascii_lowered(b).skip(1));
        if a[0] == ' ' || b[0] == ' ' {
            assert(a[0] == b[0]);
            lemma_matched_by_word(h, a.skip(1), b.skip(1), from);
        } else {
            lemma_next_by_letter(h, a[0], b[0], from);
            lemma_matched_by_word(h, a.skip(1), b.skip(1), next_same(h, a[0], from) + 1);
        }
    }
}

proof fn lemma_next_by_letter(h: Seq<char>, c: char, d: char, from: int)
    requires
        text::same_ascii_letter(c, d),
    ensures
        next_same(h, c, from) == next_same(h, d, from),
    decreases h.len() - from,
{
    if from < h.len() && !text::same_ascii_letter(h[from], c) {
        lemma_next_by_letter(h, c, d, from + 1);
    }
}

proof fn lemma_fits_by_word(name: Seq<char>, a: Seq<char>, b: Seq<char>, how: int)
    requires
        same_word(a, b),
    ensures
        fits(name, a, how) == fits(name, b, how),
{
    lemma_matched_by_word(name, a, b, 0);
}

proof fn lemma_tier_count(names: Seq<Seq<char>>, q: Seq<char>, how: int, x: Seq<char>)
    ensures
        tier(names, q, how).to_multiset().count(x) == if fits(x, q, how) {
            names.to_multiset().count(x)
        } else {
            0
        },
    decreases names.len(),
{
    broadcast use vstd::multiset::group_multiset_axioms;
    broadcast use vstd::seq_lib::group_to_multiset_ensures;

    if names.len() > 0 {
        let d = names.drop_last();
        lemma_tier_count(d, q, how, x);
        vstd::seq_lib::to_multiset_build(d, names.last());
        vstd::seq_lib::to_multiset_build(tier(d, q, how), names.last());
        assert(names =~= d.push(names.last()));
    } else {
        assert(tier(names, q, how) =~= Seq::<Seq<char>>::empty());
        assert(names =~= Seq::<Seq<char>>::empty());
    }
}

proof fn lemma_same_tier(
    names: Seq<Seq<char>>,
    others: Seq<Seq<char>>,
    a: Seq<char>,
    b: Seq<char>,
    how: int,
)
    requires
        names.to_multiset() == others.to_multiset(),
        same_word(a, b),
    ensures
        tier(names, a, how).to_multiset() == tier(others, b, how).to_multiset(),
        tier(names, a, how).len() == tier(others, b, how).len(),
        of_tier(tier(names, a, how)) == of_tier(tier(others, b, how)),
{
    broadcast use vstd::multiset::group_multiset_axioms;
    broadcast use vstd::seq_lib::group_to_multiset_ensures;

    let s = tier(names, a, how);
    let t = tier(others, b, how);
    assert forall|x: Seq<char>| #[trigger] s.to_multiset().count(x) == t.to_multiset().count(x) by {
        lemma_tier_count(names, a, how, x);
        lemma_tier_count(others, b, how, x);
        lemma_fits_by_word(x, a, b, how);
    }
    assert(s.to_multiset() =~= t.to_multiset());
    assert(s.len() == s.to_multiset().len());
    assert(t.len() == t.to_multiset().len());
    if s.len() == 1 {
        assert(s.contains(s[0]));
        assert(t.to_multiset().count(s[0]) > 0);
        assert(t.contains(s[0]));
    }
    listed_names_are_sorted(s);
    listed_names_are_sorted(t);
    lemma_one_order(sorted(s), sorted(t));
}

proof fn lemma_one_order(s: Seq<Seq<char>>, t: Seq<Seq<char>>)
    requires
        in_order(s),
        in_order(t),
        s.to_multiset() == t.to_multiset(),
    ensures
        s == t,
{
    let leq = |x: Seq<char>, y: Seq<char>| !before(y, x);
    assert(vstd::relations::reflexive(leq)) by {
        assert forall|x: Seq<char>| #[trigger] leq(x, x) by {
            before_irreflexive(x);
        }
    }
    assert(vstd::relations::antisymmetric(leq)) by {
        assert forall|x: Seq<char>, y: Seq<char>| #[trigger] leq(x, y) && #[trigger] leq(
            y,
            x,
        ) implies x == y by {
            before_total(x, y);
        }
    }
    assert(vstd::relations::transitive(leq)) by {
        assert forall|x: Seq<char>, y: Seq<char>, z: Seq<char>| #[trigger] leq(x, y)
            && #[trigger] leq(y, z) implies leq(x, z) by {
            if before(z, x) {
                before_total(x, y);
                if before(x, y) {
                    before_transitive(z, x, y);
                }
            }
        }
    }
    assert(vstd::relations::strongly_connected(leq)) by {
        assert forall|x: Seq<char>, y: Seq<char>| #[trigger] leq(x, y) || #[trigger] leq(y, x) by {
            if before(x, y) && before(y, x) {
                before_transitive(x, y, x);
                before_irreflexive(x);
            }
        }
    }
    vstd::seq_lib::lemma_sorted_unique(s, t, leq);
}

/// Neither the order in which the names are listed, nor the case of the query's
/// ASCII letters or the blanks around it, matters to what it names.
pub proof fn order_and_case_do_not_matter(
    names: Seq<Seq<char>>,
    others: Seq<Seq<char>>,
    query: Seq<char>,
    other_query: Seq<char>,
)
    requires
        names.to_multiset() == others.to_multiset(),
        same_word(text::trimmed(query), text::trimmed(other_query)),
    ensures
        resolution(names, query) == resolution(others, other_query),
{
    let a = text::trimmed(query);
    let b = text::trimmed(other_query);
    assert(ascii_lowered(a).len() == a.len() && ascii_lowered(b).len() == b.len());
    lemma_same_tier(names, others, a, b, 0);
    lemma_same_tier(names, others, a, b, 1);
    lemma_same_tier(names, others, a, b, 2);
}

/// A query that is the name of a pipeline, in either case, resolves among those
/// with that name alone, whatever others it is a part of.
pub proof fn an_exact_name_is_never_drowned_out(
    names: Seq<Seq<char>>,
    query: Seq<char>,
    name: Seq<char>,
)
    requires
        names.contains(name),
        text::trimmed(query).len() > 0,
        same_word(name, text::trimmed(query)),
    ensures
        resolution(names, query) == of_tier(tier(names, text::trimmed(query), 0)),
        match resolution(names, query) {
            ResolvedView::One(n) => same_word(n, name),
            ResolvedView::Many(_) => true,
            ResolvedView::Missing => false,
        },
{
    let q = text::trimmed(query);
    lemma_tier_members(names, q, 0, name);
    let t = tier(names, q, 0);
    let k = choose|k: int| 0 <= k < t.len() && t[k] == name;
    assert(t[k] == name);
    assert(t.len() > 0);
    if t.len() == 1 {
        lemma_tier_members(names, q, 0, t[0]);
        assert(t.contains(t[0]));
    }
}

/// The only pipeline of exactly that name is what the query names.
pub proof fn a_unique_exact_name_resolves(names: Seq<Seq<char>>, query: Seq<char>, i: int)
    requires
        0 <= i < names.len(),
        text::trimmed(query).len() > 0,
        same_word(names[i], text::trimmed(query)),
        forall|j: int|
            0 <= j < names.len() && j != i ==> !same_word(
                #[trigger] names[j],
                text::trimmed(query),
            ),
    ensures
        resolution(names, query) == ResolvedView::One(names[i]),
{
    lemma_single(names, text::trimmed(query), i);
}

proof fn lemma_single(names: Seq<Seq<char>>, q: Seq<char>, i: int)
    requires
        0 <= i < names.len(),
        same_word(names[i], q),
        forall|j: int| 0 <= j < names.len() && j != i ==> !same_word(#[trigger] names[j], q),
    ensures
        tier(names, q, 0) == seq![names[i]],
    decreases names.len(),
{
    let d = names.drop_last();
    if i == names.len() - 1 {
        assert forall|j: int| 0 <= j < d.len() implies !same_word(#[trigger] d[j], q) by {
            assert(d[j] == names[j]);
        }
        lemma_no_tier(d, q);
        assert(tier(names, q, 0) =~= seq![names[i]]);
    } else {
        assert forall|j: int| 0 <= j < d.len() && j != i implies !same_word(
            #[trigger] d[j],
            q,
        ) by {
            assert(d[j] == names[j]);
        }
        assert(d[i] == names[i]);
        lemma_single(d, q, i);
        assert(!same_word(names[names.len() - 1], q));
    }
}

proof fn lemma_no_tier(names: Seq<Seq<char>>, q: Seq<char>)
    requires
        forall|j: int| 0 <= j < names.len() ==> !same_word(#[trigger] names[j], q),
    ensures
        tier(names, q, 0).len() == 0,
    decreases names.len(),
{
    if names.len() > 0 {
        let d = names.drop_last();
        assert forall|j: int| 0 <= j < d.len() implies !same_word(#[trigger] d[j], q) by {
            assert(d[j] == names[j]);
        }
        assert(!same_word(names[names.len() - 1], q));
        lemma_no_tier(d, q);
    }
}

/// A word that tells of a failure outranks whatever else a line tells.
pub proof fn failures_outrank_successes(marker: Seq<char>, body: Seq<char>)
    requires
        tells_failure(ascii_lowered(body)),
    ensures
        severity_of(marker, body) == Some("31"@),
{
}

/// The marker of a line is framing: with colours off, what is printed is the line
/// or what follows its marker, and nothing else.
pub proof fn printing_adds_nothing(raw: Seq<char>)
    ensures
        printed_line(false, raw) == framed(raw).1,
{
}

} // verus!
