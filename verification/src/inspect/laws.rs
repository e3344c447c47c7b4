//! What looking a pipeline up from the command line is for: the right pipeline, run
//! and job, and all that is known of them.

use vstd::prelude::*;
use vstd::string::*;

use crate::api::{ascii_lowered, run_place};
use crate::app::laws::console::first_stage;
use crate::app::matching::{embeds, every_subsequence_matches, matched, matches_are_subsequences};
use crate::app::ticks::stage_named;
use crate::inspect::human::{
    cause_lines, commit_lines, heading, human_text, job_line, recent_block, run_lines, stage_line,
    stage_lines, stages_block, url_block,
};
use crate::inspect::lookup::{group_of, looked_up, paused_of, pipeline_names, LookupView};
use crate::inspect::report::pipeline_summary;
use crate::inspect::stream::{stream_start, LogStreamView, StreamStepView};
use crate::inspect::{
    chosen_run, first_wanted, first_watchable, fits, followed, job_choice, job_places, label_of,
    of_tier, pair_wanted, resolution, severity_of, sorted, tier, watchable, ResolvedView,
};
use crate::model::{
    DashboardEmbeddedView, DashboardGroupView, DashboardPipelineView, JobInstanceView,
    PipelineInstanceView, StageInstanceView,
};
use crate::text;

pub mod printing;

verus! {

// ---- jobs ----------------------------------------------------------------

/// Whether there is a job at that place.
pub open spec fn is_job(stages: Seq<StageInstanceView>, at: (int, int)) -> bool {
    0 <= at.0 < stages.len() && 0 <= at.1 < stages[at.0].jobs.len()
}

/// The order of jobs: by stage, and in a stage by their place.
pub open spec fn earlier(a: (int, int), b: (int, int)) -> bool {
    a.0 < b.0 || a.0 == b.0 && a.1 < b.1
}

/// A job that runs: its stage is building or scheduled, and it has no final result.
pub open spec fn runs_now(stages: Seq<StageInstanceView>, at: (int, int)) -> bool {
    let status = stages[at.0].status;
    let result = stages[at.0].jobs[at.1].result;
    &&& is_job(stages, at)
    &&& status == Some("Building"@) || status == Some("Scheduled"@)
    &&& result != Some("Passed"@) && result != Some("Failed"@) && result != Some("Cancelled"@)
}

pub open spec fn has_failed(stages: Seq<StageInstanceView>, at: (int, int)) -> bool {
    is_job(stages, at) && stages[at.0].jobs[at.1].result == Some("Failed"@)
}

proof fn lemma_job_places(stages: Seq<StageInstanceView>)
    ensures
        forall|k: int|
            0 <= k < job_places(stages).len() ==> is_job(stages, #[trigger] job_places(stages)[k]),
        forall|i: int, k: int|
            0 <= i < k < job_places(stages).len() ==> earlier(
                #[trigger] job_places(stages)[i],
                #[trigger] job_places(stages)[k],
            ),
        forall|at: (int, int)| #[trigger]
            is_job(stages, at) ==> job_places(stages).contains(at),
    decreases stages.len(),
{
    let ps = job_places(stages);
    if stages.len() > 0 {
        let d = stages.drop_last();
        let pd = job_places(d);
        let n = stages.len() - 1;
        lemma_job_places(d);
        assert forall|k: int| 0 <= k < ps.len() implies is_job(stages, #[trigger] ps[k]) by {
            if k < pd.len() {
                assert(ps[k] == pd[k]);
                assert(is_job(d, pd[k]));
            } else {
                assert(ps[k] == (n, k - pd.len()));
            }
        }
        assert forall|i: int, k: int| 0 <= i < k < ps.len() implies earlier(
            #[trigger] ps[i],
            #[trigger] ps[k],
        ) by {
            if i < pd.len() {
                assert(ps[i] == pd[i]);
                assert(is_job(d, pd[i]));
                if k < pd.len() {
                    assert(ps[k] == pd[k]);
                } else {
                    assert(ps[k] == (n, k - pd.len()));
                }
            } else {
                assert(ps[i] == (n, i - pd.len()) && ps[k] == (n, k - pd.len()));
            }
        }
        assert forall|at: (int, int)| #[trigger] is_job(stages, at) implies ps.contains(at) by {
            if at.0 < n {
                assert(is_job(d, at));
                let k = choose|k: int| 0 <= k < pd.len() && pd[k] == at;
                assert(ps[k] == at);
            } else {
                assert(ps[pd.len() + at.1] == at);
            }
        }
    }
}

proof fn lemma_first_watchable(stages: Seq<StageInstanceView>, ps: Seq<(int, int)>, how: int) -> (k:
    int)
    ensures
        match first_watchable(stages, ps, how) {
            Some(at) => {
                &&& 0 <= k < ps.len()
                &&& at == ps[k]
                &&& watchable(stages, ps[k], how)
                &&& forall|i: int| 0 <= i < k ==> !watchable(stages, #[trigger] ps[i], how)
            },
            None => forall|i: int| 0 <= i < ps.len() ==> !watchable(stages, #[trigger] ps[i], how),
        },
    decreases ps.len(),
{
    if ps.len() == 0 {
        0
    } else {
        let d = ps.drop_last();
        let k = lemma_first_watchable(stages, d, how);
        match first_watchable(stages, d, how) {
            Some(_) => {
                assert(ps[k] == d[k]);
                assert forall|i: int| 0 <= i < k implies !watchable(
                    stages,
                    #[trigger] ps[i],
                    how,
                ) by {
                    assert(ps[i] == d[i]);
                }
                k
            },
            None => {
                assert forall|i: int| 0 <= i < ps.len() - 1 implies !watchable(
                    stages,
                    #[trigger] ps[i],
                    how,
                ) by {
                    assert(ps[i] == d[i]);
                }
                assert(ps.last() == ps[ps.len() - 1]);
                ps.len() - 1
            },
        }
    }
}

/// The job whose log is printed where none is named. A job that runs, the first one;
/// else one that failed, the first one; else the last job of the run; and none only
/// where the run has no jobs.
#[verifier::rlimit(40)]
pub proof fn the_right_job_is_watched(stages: Seq<StageInstanceView>)
    ensures
        job_choice(stages) is None ==> forall|at: (int, int)| !#[trigger] is_job(stages, at),
        job_choice(stages) matches Some(at) ==> is_job(stages, at),
        (exists|at: (int, int)| #[trigger] runs_now(stages, at)) ==> (job_choice(stages) matches Some(
            at,
        ) && runs_now(stages, at) && forall|b: (int, int)| #[trigger]
            runs_now(stages, b) ==> !earlier(b, at)),
        (forall|at: (int, int)| !#[trigger] runs_now(stages, at)) && (exists|at: (int, int)| #[trigger]
            has_failed(stages, at)) ==> (job_choice(stages) matches Some(at) && has_failed(
            stages,
            at,
        ) && forall|b: (int, int)| #[trigger] has_failed(stages, b) ==> !earlier(b, at)),
        (forall|at: (int, int)| !#[trigger] runs_now(stages, at)) && (forall|at: (int, int)|
            !#[trigger] has_failed(stages, at)) ==> (job_choice(stages) matches Some(at)
            ==> forall|b: (int, int)| #[trigger] is_job(stages, b) ==> !earlier(at, b)),
{
    let ps = job_places(stages);
    lemma_job_places(stages);
    let k0 = lemma_first_watchable(stages, ps, 0);
    let k1 = lemma_first_watchable(stages, ps, 1);
    assert forall|at: (int, int)| #[trigger] is_job(stages, at) implies exists|i: int|
        0 <= i < ps.len() && ps[i] == at by {
        assert(ps.contains(at));
    }
    assert forall|at: (int, int)| #[trigger] runs_now(stages, at) implies first_watchable(
        stages,
        ps,
        0,
    ) is Some && !earlier(at, ps[k0]) by {
        assert(is_job(stages, at));
        let i = choose|i: int| 0 <= i < ps.len() && ps[i] == at;
        assert(watchable(stages, ps[i], 0));
        assert(i >= k0);
        if i > k0 {
            assert(earlier(ps[k0], ps[i]));
        }
    }
    if first_watchable(stages, ps, 0) is Some {
        assert(is_job(stages, ps[k0]));
        assert(runs_now(stages, ps[k0]));
    }
    assert forall|at: (int, int)| #[trigger] has_failed(stages, at) implies first_watchable(
        stages,
        ps,
        1,
    ) is Some && !earlier(at, ps[k1]) by {
        assert(is_job(stages, at));
        let i = choose|i: int| 0 <= i < ps.len() && ps[i] == at;
        assert(watchable(stages, ps[i], 1));
        assert(i >= k1);
        if i > k1 {
            assert(earlier(ps[k1], ps[i]));
        }
    }
    if first_watchable(stages, ps, 1) is Some {
        assert(is_job(stages, ps[k1]));
        assert(has_failed(stages, ps[k1]));
    }
    if ps.len() > 0 {
        let last = ps[ps.len() - 1];
        assert(ps.last() == last);
        assert(is_job(stages, last));
        assert forall|b: (int, int)| #[trigger] is_job(stages, b) implies !earlier(last, b) by {
            let i = choose|i: int| 0 <= i < ps.len() && ps[i] == b;
            if i < ps.len() - 1 {
                assert(earlier(ps[i], ps[ps.len() - 1]));
            }
        }
    }
}

/// The same word but for the case of ASCII letters, letter by letter.
pub open spec fn reads_the_same(a: Seq<char>, b: Seq<char>) -> bool {
    &&& a.len() == b.len()
    &&& forall|i: int|
        0 <= i < a.len() ==> {
            ||| #[trigger] a[i] == b[i]
            ||| 'A' <= a[i] <= 'Z' && b[i] as int == a[i] as int + 32
            ||| 'A' <= b[i] <= 'Z' && a[i] as int == b[i] as int + 32
        }
}

proof fn lemma_same_word(a: Seq<char>, b: Seq<char>)
    ensures
        crate::inspect::same_word(a, b) == reads_the_same(a, b),
{
    let x = ascii_lowered(a);
    let y = ascii_lowered(b);
    assert(x.len() == a.len() && y.len() == b.len());
    if x == y {
        assert forall|i: int| 0 <= i < a.len() implies {
            ||| #[trigger] a[i] == b[i]
            ||| 'A' <= a[i] <= 'Z' && b[i] as int == a[i] as int + 32
            ||| 'A' <= b[i] <= 'Z' && a[i] as int == b[i] as int + 32
        } by {
            assert(x[i] == text::ascii_lower(a[i]) && y[i] == text::ascii_lower(b[i]));
        }
    }
    if reads_the_same(a, b) {
        assert forall|i: int| 0 <= i < x.len() implies x[i] == y[i] by {
            assert(x[i] == text::ascii_lower(a[i]) && y[i] == text::ascii_lower(b[i]));
            assert(a[i] == a[i]);
        }
        assert(x =~= y);
    }
}

/// Whether a job is one that was named; a name that is not given fits all.
pub open spec fn is_named(
    stages: Seq<StageInstanceView>,
    at: (int, int),
    stage: Option<Seq<char>>,
    job: Option<Seq<char>>,
) -> bool {
    &&& is_job(stages, at)
    &&& stage matches Some(s) ==> reads_the_same(stages[at.0].name, s)
    &&& job matches Some(j) ==> reads_the_same(stages[at.0].jobs[at.1].name, j)
}

proof fn lemma_first_wanted(
    stages: Seq<StageInstanceView>,
    ps: Seq<(int, int)>,
    stage: Option<Seq<char>>,
    job: Option<Seq<char>>,
) -> (k: int)
    ensures
        match first_wanted(stages, ps, stage, job) {
            Some(at) => {
                &&& 0 <= k < ps.len()
                &&& at == ps[k]
                &&& pair_wanted(stages, ps[k], stage, job)
                &&& forall|i: int| 0 <= i < k ==> !pair_wanted(stages, #[trigger] ps[i], stage, job)
            },
            None => forall|i: int|
                0 <= i < ps.len() ==> !pair_wanted(stages, #[trigger] ps[i], stage, job),
        },
    decreases ps.len(),
{
    if ps.len() == 0 {
        0
    } else {
        let d = ps.drop_last();
        let k = lemma_first_wanted(stages, d, stage, job);
        match first_wanted(stages, d, stage, job) {
            Some(_) => {
                assert(ps[k] == d[k]);
                assert forall|i: int| 0 <= i < k implies !pair_wanted(
                    stages,
                    #[trigger] ps[i],
                    stage,
                    job,
                ) by {
                    assert(ps[i] == d[i]);
                }
                k
            },
            None => {
                assert forall|i: int| 0 <= i < ps.len() - 1 implies !pair_wanted(
                    stages,
                    #[trigger] ps[i],
                    stage,
                    job,
                ) by {
                    assert(ps[i] == d[i]);
                }
                assert(ps.last() == ps[ps.len() - 1]);
                ps.len() - 1
            },
        }
    }
}

/// Where a stage or a job is named, the first job that has both names is the one, in
/// either case; none only where no job has them.
pub proof fn the_named_job_is_found(
    stages: Seq<StageInstanceView>,
    stage: Option<Seq<char>>,
    job: Option<Seq<char>>,
)
    requires
        stage is Some || job is Some,
    ensures
        match followed(stages, stage, job) {
            Some(at) => is_named(stages, at, stage, job) && forall|b: (int, int)| #[trigger]
                is_named(stages, b, stage, job) ==> !earlier(b, at),
            None => forall|b: (int, int)| !#[trigger] is_named(stages, b, stage, job),
        },
{
    let ps = job_places(stages);
    lemma_job_places(stages);
    let k = lemma_first_wanted(stages, ps, stage, job);
    assert forall|at: (int, int)| is_job(stages, at) implies #[trigger] is_named(
        stages,
        at,
        stage,
        job,
    ) == pair_wanted(stages, at, stage, job) by {
        if let Some(s) = stage {
            lemma_same_word(stages[at.0].name, s);
        }
        if let Some(j) = job {
            lemma_same_word(stages[at.0].jobs[at.1].name, j);
        }
    }
    if first_wanted(stages, ps, stage, job) is Some {
        assert(is_job(stages, ps[k]));
        assert(is_named(stages, ps[k], stage, job));
    }
    assert forall|b: (int, int)| #[trigger] is_named(stages, b, stage, job) implies first_wanted(
        stages,
        ps,
        stage,
        job,
    ) is Some && !earlier(b, ps[k]) by {
        assert(is_job(stages, b));
        assert(ps.contains(b));
        let i = choose|i: int| 0 <= i < ps.len() && ps[i] == b;
        assert(pair_wanted(stages, ps[i], stage, job));
        assert(i >= k);
        if i > k {
            assert(earlier(ps[k], ps[i]));
        }
    }
}

/// A job is shown by its result; while that is "Unknown" or missing, by its state.
pub proof fn a_running_job_shows_its_state(j: JobInstanceView)
    ensures
        j.result matches Some(r) && r != "Unknown"@ ==> label_of(j) == j.result->0,
        j.result is None || j.result == Some("Unknown"@) ==> label_of(j) == (match j.state {
            Some(s) => s,
            None => "-"@,
        }),
{
}

// ---- logs ----------------------------------------------------------------

/// What is printed is the log of the job that is followed, in its run and its stage
/// run, from its first line on. A stage that was not scheduled has none.
pub proof fn the_log_is_that_of_the_job(
    on: bool,
    name: Seq<char>,
    run: PipelineInstanceView,
    stage: Option<Seq<char>>,
    job: Option<Seq<char>>,
    follow: bool,
)
    ensures
        match followed(run.stages, stage, job) {
            Some(at) => match run.stages[at.0].counter {
                Some(counter) => stream_start(on, name, run, stage, job, follow) matches Ok(s)
                    && s.0.name == name && s.0.counter == run.counter && s.0.stage
                    == run.stages[at.0].name && s.0.stage_counter == counter && s.0.job
                    == run.stages[at.0].jobs[at.1].name && s.0.sent == 0 && s.0.follow == follow,
                None => stream_start(on, name, run, stage, job, follow) is Err,
            },
            None => stream_start(on, name, run, stage, job, follow) is Err,
        },
{
}

/// A chunk of a log is printed line by line, and the next one is read from the line
/// after it. Without following, one chunk is all. With following, a chunk with text
/// means to wait for more, and one without, or an error, to look whether the stage
/// still runs. An error at the start is the end where nothing is followed.
pub proof fn chunks_follow_each_other(s: LogStreamView, on: bool, chunk: Result<&str, &str>)
    requires
        chunk matches Ok(t) ==> s.sent + text::lines_of(t@).len() <= usize::MAX,
    ensures
        match chunk {
            Ok(t) => {
                &&& s.chunk_lines(on, chunk).len() == text::lines_of(t@).len()
                &&& s.after_chunk(chunk).sent == s.sent + text::lines_of(t@).len()
                &&& s.chunk_step(chunk) == if !s.follow {
                    StreamStepView::Exit(0)
                } else if t@.len() > 0 {
                    StreamStepView::Wait
                } else {
                    StreamStepView::CheckRun
                }
            },
            Err(e) => {
                &&& s.chunk_lines(on, chunk).len() == 0
                &&& s.after_chunk(chunk).sent == s.sent
                &&& s.chunk_step(chunk) == if s.follow {
                    StreamStepView::CheckRun
                } else if s.sent == 0 {
                    StreamStepView::Fail(e@)
                } else {
                    StreamStepView::Exit(0)
                }
            },
        },
        s.after_chunk(chunk).job == s.job,
        s.after_chunk(chunk).follow == s.follow,
{
}

proof fn lemma_stage_named(stages: Seq<StageInstanceView>, name: Seq<char>, from: int, k: int)
    requires
        0 <= from <= k < stages.len(),
        stages[k].name == name,
        forall|i: int| from <= i < k ==> (#[trigger] stages[i]).name != name,
    ensures
        stage_named(stages, name, from) == k,
    decreases k - from,
{
    if from < k {
        assert(stages[from].name != name);
        lemma_stage_named(stages, name, from + 1, k);
    }
}

/// Following goes on exactly while the stage is building or scheduled. Its end gives
/// exit code 1 where the stage failed, and else 0.
pub proof fn following_ends_with_the_stage(
    s: LogStreamView,
    on: bool,
    fresh: PipelineInstanceView,
    k: int,
)
    requires
        first_stage(fresh.stages, s.stage, k),
    ensures
        ({
            let status = fresh.stages[k].status;
            if status == Some("Building"@) || status == Some("Scheduled"@) {
                s.ended(on, fresh) is None
            } else {
                s.ended(on, fresh) matches Some(end) && end.1 == if status == Some("Failed"@) {
                    1u8
                } else {
                    0u8
                }
            }
        }),
{
    lemma_stage_named(fresh.stages, s.stage, 0, k);
    reveal_strlit("Failed");
    reveal_strlit("Unknown");
    assert("Failed"@[0] == 'F' && "Unknown"@[0] == 'U');
}

// ---- pipelines -----------------------------------------------------------

proof fn lemma_group_of(groups: Seq<DashboardGroupView>, name: Seq<char>)
    ensures
        match group_of(groups, name) {
            Some(g) => exists|k: int|
                {
                    &&& 0 <= k < groups.len()
                    &&& (#[trigger] groups[k]).name == g
                    &&& groups[k].pipelines.contains(name)
                    &&& forall|i: int|
                        0 <= i < k ==> !(#[trigger] groups[i]).pipelines.contains(name)
                },
            None => forall|i: int|
                0 <= i < groups.len() ==> !(#[trigger] groups[i]).pipelines.contains(name),
        },
    decreases groups.len(),
{
    if groups.len() > 0 && !groups[0].pipelines.contains(name) {
        let t = groups.skip(1);
        lemma_group_of(t, name);
        match group_of(t, name) {
            Some(g) => {
                let k = choose|k: int|
                    {
                        &&& 0 <= k < t.len()
                        &&& (#[trigger] t[k]).name == g
                        &&& t[k].pipelines.contains(name)
                        &&& forall|i: int| 0 <= i < k ==> !(#[trigger] t[i]).pipelines.contains(name)
                    };
                assert(groups[k + 1] == t[k]);
                assert forall|i: int| 0 <= i < k + 1 implies !(
                #[trigger] groups[i]).pipelines.contains(name) by {
                    if i > 0 {
                        assert(groups[i] == t[i - 1]);
                    }
                }
            },
            None => {
                assert forall|i: int| 0 <= i < groups.len() implies !(
                #[trigger] groups[i]).pipelines.contains(name) by {
                    if i > 0 {
                        assert(groups[i] == t[i - 1]);
                    }
                }
            },
        }
    } else if groups.len() > 0 {
        assert(groups[0].pipelines.contains(name));
    }
}

proof fn lemma_paused_of(ps: Seq<DashboardPipelineView>, k: int)
    requires
        0 <= k < ps.len(),
        forall|i: int| 0 <= i < k ==> (#[trigger] ps[i]).name != ps[k].name,
    ensures
        paused_of(ps, ps[k].name) == ps[k].pause_info.paused,
    decreases k,
{
    if k > 0 {
        let t = ps.skip(1);
        assert(ps[0].name != ps[k].name);
        assert(t[k - 1] == ps[k]);
        assert forall|i: int| 0 <= i < k - 1 implies (#[trigger] t[i]).name != t[k - 1].name by {
            assert(t[i] == ps[i + 1]);
        }
        lemma_paused_of(t, k - 1);
    }
}

/// What is found is a pipeline of the dashboard, paused as it is there, and with the
/// first group that lists it.
pub proof fn what_is_found_is_on_the_dashboard(
    dash: DashboardEmbeddedView,
    query: Seq<char>,
    limit: usize,
    k: int,
)
    requires
        0 <= k < dash.pipelines.len(),
        resolution(pipeline_names(dash.pipelines), query) == ResolvedView::One(
            dash.pipelines[k].name,
        ),
        forall|i: int| 0 <= i < k ==> (#[trigger] dash.pipelines[i]).name != dash.pipelines[k].name,
    ensures
        looked_up(dash, query, limit) matches LookupView::Found { name, group, paused } && {
            let gs = dash.pipeline_groups;
            &&& name == dash.pipelines[k].name
            &&& paused == dash.pipelines[k].pause_info.paused
            &&& match group {
                Some(g) => exists|j: int|
                    {
                        &&& 0 <= j < gs.len()
                        &&& (#[trigger] gs[j]).name == g
                        &&& gs[j].pipelines.contains(name)
                        &&& forall|i: int|
                            0 <= i < j ==> !(#[trigger] gs[i]).pipelines.contains(name)
                    },
                None => forall|i: int|
                    0 <= i < gs.len() ==> !(#[trigger] gs[i]).pipelines.contains(name),
            }
        },
{
    lemma_group_of(dash.pipeline_groups, dash.pipelines[k].name);
    lemma_paused_of(dash.pipelines, k);
}

/// Whether a name holds the query in one piece, in either case of ASCII letters.
pub open spec fn holds_query(name: Seq<char>, q: Seq<char>) -> bool {
    exists|i: int|
        0 <= i && i + q.len() <= name.len() && reads_the_same(
            #[trigger] name.subrange(i, i + q.len()),
            q,
        )
}

/// Whether a name holds the letters of the query in order, blanks left out.
pub open spec fn holds_letters(name: Seq<char>, q: Seq<char>) -> bool {
    exists|at: Seq<int>| #[trigger] embeds(name, q, 0, at)
}

/// How close a name comes to a query: 0 is the same word, 1 in one piece, 2 its
/// letters in order, 3 not at all.
pub open spec fn distance(name: Seq<char>, q: Seq<char>) -> int {
    if reads_the_same(name, q) {
        0
    } else if holds_query(name, q) {
        1
    } else if holds_letters(name, q) {
        2
    } else {
        3
    }
}

proof fn lemma_fits(name: Seq<char>, q: Seq<char>)
    ensures
        fits(name, q, 0) == reads_the_same(name, q),
        fits(name, q, 1) == holds_query(name, q),
        fits(name, q, 2) == holds_letters(name, q),
{
    lemma_same_word(name, q);
    let x = ascii_lowered(name);
    let y = ascii_lowered(q);
    assert(x.len() == name.len() && y.len() == q.len());
    assert forall|i: int| 0 <= i && i + q.len() <= name.len() implies #[trigger] text::occurs_at(
        x,
        y,
        i,
    ) == reads_the_same(name.subrange(i, i + q.len()), q) by {
        let part = name.subrange(i, i + q.len());
        lemma_same_word(part, q);
        assert(ascii_lowered(part) =~= x.subrange(i, i + q.len()));
    }
    if text::has(x, y) {
        let i = choose|i: int| #[trigger] text::occurs_at(x, y, i);
        assert(reads_the_same(name.subrange(i, i + q.len()), q));
    }
    if holds_query(name, q) {
        let i = choose|i: int|
            0 <= i && i + q.len() <= name.len() && reads_the_same(
                #[trigger] name.subrange(i, i + q.len()),
                q,
            );
        assert(text::occurs_at(x, y, i));
    }
    if matched(name, q, 0) is Some {
        matches_are_subsequences(name, q, 0);
    }
    if holds_letters(name, q) {
        let at = choose|at: Seq<int>| #[trigger] embeds(name, q, 0, at);
        every_subsequence_matches(name, q, 0, at);
    }
}

/// The names that a query came down to.
pub open spec fn picked(r: ResolvedView, name: Seq<char>) -> bool {
    match r {
        ResolvedView::One(n) => n == name,
        ResolvedView::Many(ns) => ns.contains(name),
        ResolvedView::Missing => false,
    }
}

proof fn lemma_of_tier(t: Seq<Seq<char>>, x: Seq<char>)
    requires
        t.len() > 0,
    ensures
        picked(of_tier(t), x) == t.contains(x),
        !(of_tier(t) is Missing),
{
    crate::inspect::listed_names_are_sorted(t);
    broadcast use vstd::seq_lib::group_to_multiset_ensures;

    assert(sorted(t).to_multiset().count(x) == t.to_multiset().count(x));
    if t.len() == 1 {
        assert(t.contains(t[0]));
        if t.contains(x) {
            let k = choose|k: int| 0 <= k < t.len() && t[k] == x;
            assert(k == 0);
        }
    }
}

/// A query comes down to the names that come closest to it, all of them and no
/// others; to none only where it is blank, or where no name comes close at all.
pub proof fn a_query_names_what_is_closest(names: Seq<Seq<char>>, query: Seq<char>, name: Seq<char>)
    requires
        names.contains(name),
        text::trimmed(query).len() > 0,
    ensures
        picked(resolution(names, query), name) <==> {
            let q = text::trimmed(query);
            &&& distance(name, q) < 3
            &&& forall|x: Seq<char>| #[trigger]
                names.contains(x) ==> distance(name, q) <= distance(x, q)
        },
{
    let q = text::trimmed(query);
    assert forall|x: Seq<char>, how: int| 0 <= how <= 2 implies (#[trigger] tier(names, q, how).contains(
        x,
    ) <==> names.contains(x) && fits(x, q, how)) by {
        crate::inspect::lemma_tier_members(names, q, how, x);
    }
    assert forall|x: Seq<char>| #[trigger] names.contains(x) implies (fits(x, q, 0)
        == reads_the_same(x, q) && fits(x, q, 1) == holds_query(x, q) && fits(x, q, 2)
        == holds_letters(x, q)) by {
        lemma_fits(x, q);
    }
    lemma_fits(name, q);
    let t0 = tier(names, q, 0);
    let t1 = tier(names, q, 1);
    let t2 = tier(names, q, 2);
    if t0.len() > 0 {
        lemma_of_tier(t0, name);
        let y = t0[0];
        assert(t0.contains(y));
        assert(names.contains(y) && distance(y, q) == 0);
    } else {
        lemma_none(names, q, 0);
        if t1.len() > 0 {
            lemma_of_tier(t1, name);
            let y = t1[0];
            assert(t1.contains(y));
            assert(names.contains(y) && distance(y, q) <= 1);
        } else {
            lemma_none(names, q, 1);
            if t2.len() > 0 {
                lemma_of_tier(t2, name);
                let y = t2[0];
                assert(t2.contains(y));
                assert(names.contains(y) && distance(y, q) <= 2);
            } else {
                lemma_none(names, q, 2);
            }
        }
    }
}

proof fn lemma_none(names: Seq<Seq<char>>, q: Seq<char>, how: int)
    requires
        tier(names, q, how).len() == 0,
    ensures
        forall|x: Seq<char>| #[trigger] names.contains(x) ==> !fits(x, q, how),
{
    assert forall|x: Seq<char>| #[trigger] names.contains(x) implies !fits(x, q, how) by {
        crate::inspect::lemma_tier_members(names, q, how, x);
        if fits(x, q, how) {
            assert(tier(names, q, how).contains(x));
        }
    }
}

/// The run that is asked for is the first with its counter; where none is asked for
/// it is the newest.
pub proof fn the_right_run_is_shown(runs: Seq<PipelineInstanceView>, counter: Option<i64>, k: int)
    requires
        0 <= k < runs.len(),
        match counter {
            Some(c) => runs[k].counter == c && forall|i: int|
                0 <= i < k ==> (#[trigger] runs[i]).counter != c,
            None => k == 0,
        },
    ensures
        chosen_run(runs, counter) == Some(runs[k]),
{
    if let Some(c) = counter {
        lemma_run_place(runs, c, k);
    }
}

proof fn lemma_run_place(runs: Seq<PipelineInstanceView>, counter: i64, k: int)
    requires
        0 <= k < runs.len(),
        runs[k].counter == counter,
        forall|i: int| 0 <= i < k ==> (#[trigger] runs[i]).counter != counter,
    ensures
        run_place(runs, counter) == k,
    decreases k,
{
    if k > 0 {
        let t = runs.skip(1);
        assert(runs[0].counter != counter);
        assert(t[k - 1] == runs[k]);
        assert forall|i: int| 0 <= i < k - 1 implies (#[trigger] t[i]).counter != counter by {
            assert(t[i] == runs[i + 1]);
        }
        lemma_run_place(t, counter, k - 1);
    }
}

/// A run that is not there is not shown, and another is not shown in its place.
pub proof fn a_missing_run_is_not_shown(runs: Seq<PipelineInstanceView>, c: i64)
    requires
        forall|i: int| 0 <= i < runs.len() ==> (#[trigger] runs[i]).counter != c,
    ensures
        chosen_run(runs, Some(c)) is None,
    decreases runs.len(),
{
    lemma_no_run_place(runs, c);
}

proof fn lemma_no_run_place(runs: Seq<PipelineInstanceView>, c: i64)
    requires
        forall|i: int| 0 <= i < runs.len() ==> (#[trigger] runs[i]).counter != c,
    ensures
        run_place(runs, c) == runs.len(),
    decreases runs.len(),
{
    if runs.len() > 0 {
        let t = runs.skip(1);
        assert(runs[0].counter != c);
        assert forall|i: int| 0 <= i < t.len() implies (#[trigger] t[i]).counter != c by {
            assert(t[i] == runs[i + 1]);
        }
        lemma_no_run_place(t, c);
    }
}

// ---- reports -------------------------------------------------------------

/// Machine-readable output holds the run that is shown, with each stage and each job
/// and what they are shown as, and the first runs of the history in order.
pub proof fn the_report_holds_the_runs(
    name: Seq<char>,
    group: Option<Seq<char>>,
    paused: bool,
    r: PipelineInstanceView,
    runs: Seq<PipelineInstanceView>,
    limit: nat,
    s: int,
    j: int,
)
    requires
        is_job(r.stages, (s, j)),
    ensures
        ({
            let p = pipeline_summary(name, group, paused, Some(r), runs, limit);
            &&& p.pipeline == name && p.group == group && p.paused == paused
            &&& p.latest matches Some(l) && {
                &&& l.counter == r.counter && l.label == r.label
                &&& l.stages.len() == r.stages.len()
                &&& l.stages[s].name == r.stages[s].name
                &&& l.stages[s].status == r.stages[s].status
                &&& l.stages[s].jobs.len() == r.stages[s].jobs.len()
                &&& l.stages[s].jobs[j].name == r.stages[s].jobs[j].name
                &&& l.stages[s].jobs[j].result == label_of(r.stages[s].jobs[j])
                &&& r.build_cause matches Some(c) ==> l.triggered_by == c.approver && l.cause
                    == c.trigger_message
            }
            &&& p.runs.len() == if limit < runs.len() {
                limit
            } else {
                runs.len()
            }
            &&& forall|i: int|
                0 <= i < p.runs.len() ==> (#[trigger] p.runs[i]).counter == runs[i].counter
        }),
{
}

/// Whether one of the lines holds both texts.
pub open spec fn some_line_holds(ls: Seq<Seq<char>>, a: Seq<char>, b: Seq<char>) -> bool {
    exists|k: int|
        0 <= k < ls.len() && text::has(#[trigger] ls[k], a) && text::has(ls[k], b)
}

proof fn lemma_has_part(a: Seq<char>, b: Seq<char>, c: Seq<char>)
    ensures
        text::has(a + b + c, b),
{
    let s = a + b + c;
    assert(s.subrange(a.len() as int, (a.len() + b.len()) as int) =~= b);
    assert(text::occurs_at(s, b, a.len() as int));
}

pub(crate) proof fn lemma_has_more(s: Seq<char>, a: Seq<char>, b: Seq<char>, part: Seq<char>)
    requires
        text::has(s, part),
    ensures
        text::has(a + s + b, part),
{
    let i = choose|i: int| #[trigger] text::occurs_at(s, part, i);
    let t = a + s + b;
    assert(t.subrange(a.len() + i, a.len() + i + part.len()) =~= s.subrange(i, i + part.len()));
    assert(text::occurs_at(t, part, a.len() + i));
}

pub(crate) proof fn lemma_wrapped_has(on: bool, code: Seq<char>, t: Seq<char>)
    ensures
        text::has(crate::inspect::wrapped(on, code, t), t),
{
    if on {
        lemma_has_part("\x1b["@ + code + "m"@, t, "\x1b[0m"@);
    } else {
        assert(t.subrange(0, t.len() as int) =~= t);
        assert(text::occurs_at(t, t, 0));
    }
}

pub(crate) proof fn lemma_padded_has(s: Seq<char>, width: nat)
    ensures
        text::has(text::padded(s, width), s),
{
    let p = text::padded(s, width);
    assert(p.subrange(0, s.len() as int) =~= s);
    assert(text::occurs_at(p, s, 0));
}

proof fn lemma_two_parts(
    a: Seq<char>,
    p: Seq<char>,
    b: Seq<char>,
    t: Seq<char>,
    c: Seq<char>,
    x: Seq<char>,
    y: Seq<char>,
)
    requires
        text::has(p, x),
        text::has(t, y),
    ensures
        text::has(a + p + b + t + c, x),
        text::has(a + p + b + t + c, y),
{
    lemma_has_more(p, a, b + t + c, x);
    assert(a + p + (b + t + c) =~= a + p + b + t + c);
    lemma_has_more(t, a + p + b, c, y);
}

proof fn lemma_job_line(on: bool, j: JobInstanceView)
    ensures
        text::has(job_line(on, j), j.name),
        text::has(job_line(on, j), label_of(j)),
{
    let p = text::padded(j.name, 26);
    let t = crate::inspect::status_text(on, label_of(j));
    lemma_padded_has(j.name, 26);
    lemma_wrapped_has(on, crate::inspect::status_code(label_of(j)), label_of(j));
    assert(job_line(on, j) == "    "@ + p + " "@ + t);
    lemma_two_parts("    "@, p, " "@, t, Seq::empty(), j.name, label_of(j));
    assert("    "@ + p + " "@ + t + Seq::empty() =~= "    "@ + p + " "@ + t);
}

#[verifier::rlimit(40)]
proof fn lemma_stage_line(on: bool, s: StageInstanceView, status: Seq<char>)
    requires
        status == match s.status {
            Some(t) => t,
            None => "Unknown"@,
        },
    ensures
        text::has(stage_line(on, s), s.name),
        text::has(stage_line(on, s), status),
{
    let p = text::padded(s.name, 28);
    let t = crate::inspect::status_text(on, status);
    let tail = match s.approval_type {
        Some(a) => crate::inspect::report::dimmed(on, "  ("@ + a + ")"@),
        None => Seq::empty(),
    };
    lemma_padded_has(s.name, 28);
    lemma_wrapped_has(on, crate::inspect::status_code(status), status);
    assert(stage_line(on, s) == "  "@ + p + " "@ + t + tail);
    lemma_two_parts("  "@, p, " "@, t, tail, s.name, status);
}

proof fn lemma_stage_lines(on: bool, stages: Seq<StageInstanceView>, s: int)
    requires
        0 <= s < stages.len(),
    ensures
        stage_lines(on, stages).contains(stage_line(on, stages[s])),
        forall|j: int|
            0 <= j < stages[s].jobs.len() ==> stage_lines(on, stages).contains(
                job_line(on, #[trigger] stages[s].jobs[j]),
            ),
    decreases stages.len(),
{
    let d = stages.drop_last();
    let x = stages.last();
    let above = stage_lines(on, d);
    let all = stage_lines(on, stages);
    assert(all == above.push(stage_line(on, x)) + Seq::new(
        x.jobs.len(),
        |i: int| job_line(on, x.jobs[i]),
    ));
    if s < d.len() {
        lemma_stage_lines(on, d, s);
        assert(d[s] == stages[s]);
        let k = choose|k: int| 0 <= k < above.len() && above[k] == stage_line(on, stages[s]);
        assert(all[k] == above[k]);
        assert forall|j: int| 0 <= j < stages[s].jobs.len() implies all.contains(
            job_line(on, #[trigger] stages[s].jobs[j]),
        ) by {
            assert(d[s].jobs[j] == stages[s].jobs[j]);
            let k = choose|k: int|
                0 <= k < above.len() && above[k] == job_line(on, stages[s].jobs[j]);
            assert(all[k] == above[k]);
        }
    } else {
        assert(all[above.len() as int] == stage_line(on, x));
        assert forall|j: int| 0 <= j < stages[s].jobs.len() implies all.contains(
            job_line(on, #[trigger] stages[s].jobs[j]),
        ) by {
            assert(all[above.len() + 1 + j] == job_line(on, x.jobs[j]));
        }
    }
}

proof fn lemma_contains_part(a: Seq<Seq<char>>, b: Seq<Seq<char>>, c: Seq<Seq<char>>, x: Seq<char>)
    requires
        b.contains(x),
    ensures
        (a + b + c).contains(x),
{
    let k = choose|k: int| 0 <= k < b.len() && b[k] == x;
    assert((a + b + c)[a.len() + k] == x);
}

/// The summary of a run says the name of the pipeline, and of every stage and every
/// job the name together with how it went.
#[verifier::rlimit(40)]
pub proof fn the_summary_tells_of_every_job(
    on: bool,
    name: Seq<char>,
    group: Option<Seq<char>>,
    paused: bool,
    r: PipelineInstanceView,
    runs: Seq<PipelineInstanceView>,
    limit: nat,
    now: i64,
    started: Seq<char>,
    url: Option<Seq<char>>,
    s: int,
    j: int,
)
    requires
        is_job(r.stages, (s, j)),
    ensures
        ({
            let ls = human_text(on, name, group, paused, Some(r), runs, limit, now, started, url);
            &&& some_line_holds(ls, r.stages[s].jobs[j].name, label_of(r.stages[s].jobs[j]))
            &&& some_line_holds(
                ls,
                r.stages[s].name,
                match r.stages[s].status {
                    Some(t) => t,
                    None => "Unknown"@,
                },
            )
            &&& ls.len() > 0 && text::has(ls[0], name)
        }),
{
    let ls = human_text(on, name, group, paused, Some(r), runs, limit, now, started, url);
    let st = r.stages[s];
    let status = match st.status {
        Some(t) => t,
        None => "Unknown"@,
    };
    let a = seq![heading(on, name, group, paused)] + run_lines(on, r, started, now) + cause_lines(
        on,
        r,
    ) + commit_lines(on, r);
    let b = stage_lines(on, r.stages);
    let c = recent_block(on, runs, limit, now) + url_block(on, url);
    assert(stages_block(on, r.stages) == seq![Seq::<char>::empty()] + b);
    assert(ls =~= (a + seq![Seq::<char>::empty()]) + b + c);
    lemma_stage_lines(on, r.stages, s);
    lemma_stage_line(on, st, status);
    lemma_job_line(on, st.jobs[j]);
    lemma_contains_part(a + seq![Seq::<char>::empty()], b, c, stage_line(on, st));
    lemma_contains_part(a + seq![Seq::<char>::empty()], b, c, job_line(on, st.jobs[j]));
    let k = choose|k: int| 0 <= k < ls.len() && ls[k] == stage_line(on, st);
    assert(text::has(ls[k], st.name) && text::has(ls[k], status));
    let k = choose|k: int| 0 <= k < ls.len() && ls[k] == job_line(on, st.jobs[j]);
    assert(text::has(ls[k], st.jobs[j].name) && text::has(ls[k], label_of(st.jobs[j])));
    assert(ls[0] == heading(on, name, group, paused));
    lemma_wrapped_has(on, "1"@, name);
    let w = crate::inspect::wrapped(on, "1"@, name);
    let g = match group {
        Some(g) => crate::inspect::report::dimmed(on, "  ("@ + g + ")"@),
        None => Seq::empty(),
    };
    let tail = if paused {
        g + crate::inspect::wrapped(on, "33"@, "  [paused]"@)
    } else {
        g
    };
    lemma_has_more(w, Seq::empty(), tail, name);
    assert(Seq::empty() + w + tail =~= ls[0]);
}

// ---- colours of a log ----------------------------------------------------

/// Whether a line says a word, in either case of ASCII letters.
pub open spec fn says(body: Seq<char>, word: Seq<char>) -> bool {
    text::has(ascii_lowered(body), word)
}

/// A line that says that something failed is red, whatever else it says. One that
/// warns is yellow where it is not red, and one that says that something passed is
/// green where it is neither. The stream that a line came from counts like a word.
pub proof fn lines_are_coloured_by_the_worst_they_say(marker: Seq<char>, body: Seq<char>)
    ensures
        ({
            let red = marker == "!!"@ || says(body, "error"@) || says(body, "failed"@) || says(
                body,
                "failure"@,
            ) || says(body, "exception"@) || says(body, "fatal"@) || says(body, "traceback"@)
                || says(body, "exit code: 1"@);
            let yellow = marker == "&2"@ || says(body, "warn"@) || says(body, "deprecat"@);
            let green = says(body, "passed"@) || says(body, "success"@) || says(
                body,
                "job completed"@,
            );
            &&& red ==> severity_of(marker, body) == Some("31"@)
            &&& !red && yellow ==> severity_of(marker, body) == Some("33"@)
            &&& !red && !yellow && green ==> severity_of(marker, body) == Some("32"@)
            &&& !red && !yellow && !green && marker == "##"@ ==> severity_of(marker, body) == Some(
                "90"@,
            )
            &&& severity_of(marker, body) is None ==> !red && !yellow && !green && marker != "##"@
        }),
{
}

} // verus!
