//! What the command line prints: which form, in which colours, and what it says of
//! what it did not find.

use vstd::prelude::*;
use vstd::string::*;

use crate::inspect::human::{cause_lines, commit_lines, heading, human_text, run_lines, url_block};
use crate::inspect::laws::{
    lemma_has_more, lemma_padded_has, lemma_wrapped_has, some_line_holds,
};
use crate::inspect::lookup::{
    is_further_back, looked_up, pipeline_names, planned, LookupView, Opts, PlanView,
};
use crate::inspect::report::{approver_of, history_text, run_summary};
use crate::inspect::{
    any_stage_wanted, debug_quoted, framed, job_names, missing_name, no_job_text, resolution,
    stage_names, status_code, status_text, wanted, wrapped, ResolvedView,
};
use crate::model::{
    BuildCauseView, DashboardEmbeddedView, ModificationView, PipelineInstanceView,
    StageInstanceView,
};
use crate::text;

verus! {

// ---- colours -------------------------------------------------------------

/// Without colours a text is printed as it is; with them nothing but a colour before
/// it and the end of the colour behind it is added.
pub proof fn colours_change_no_words(code: Seq<char>, t: Seq<char>)
    ensures
        wrapped(false, code, t) == t,
        wrapped(true, code, t) == "\x1b["@ + code + "m"@ + t + "\x1b[0m"@,
        status_text(false, t) == t,
        text::has(status_text(true, t), t),
{
    lemma_wrapped_has(true, status_code(t), t);
}

/// A state is green where it passed, red where it failed, yellow while it runs or is
/// to run, and grey where it was cancelled.
pub proof fn states_have_their_colours()
    ensures
        status_code("Passed"@) == "32"@,
        status_code("Failed"@) == "31"@,
        status_code("Building"@) == "33"@,
        status_code("Scheduled"@) == "33"@,
        status_code("Cancelled"@) == "90"@,
        status_code("Unknown"@) == "0"@,
{
    reveal_strlit("Failed");
    reveal_strlit("Cancelled");
    reveal_strlit("Building");
    reveal_strlit("Scheduled");
    reveal_strlit("Passed");
    reveal_strlit("Unknown");
    assert("Failed"@[0] == 'F');
    assert("Cancelled"@[0] == 'C');
    assert("Building"@[0] == 'B');
    assert("Scheduled"@[0] == 'S');
    assert("Passed"@[0] == 'P');
    assert("Unknown"@[0] == 'U');
}

/// The mark before a line of a log is taken off, be it two plain characters or one
/// of two bytes; a line without a mark is left whole.
pub proof fn marks_are_told_from_the_line(a: char, b: char, line: Seq<char>)
    requires
        line.len() > 0,
    ensures
        text::width_of(a) == 1 && text::width_of(b) == 1 ==> framed(seq![a, b, '|'] + line) == (
            seq![a, b],
            line,
        ),
        text::width_of(a) == 2 ==> framed(seq![a, '|'] + line) == (seq![a], line),
        line.len() < 3 || (line[1] != '|' && line[2] != '|') ==> framed(line) == (
            Seq::<char>::empty(),
            line,
        ),
{
    let two = seq![a, b, '|'] + line;
    assert(two.take(2) =~= seq![a, b]);
    assert(two.skip(3) =~= line);
    let one = seq![a, '|'] + line;
    assert(one.take(1) =~= seq![a]);
    assert(one.skip(2) =~= line);
}

// ---- what is printed -----------------------------------------------------

/// Logs come before JSON, which comes before the history; without any of them the
/// summary is printed. A run that is not there is said to be missing, by its number;
/// a pipeline without runs is no error.
pub proof fn the_form_is_what_was_asked_for(name: Seq<char>, opts: Opts, c: i64)
    ensures
        opts.logs ==> planned(name, opts, true) == PlanView::Logs,
        !opts.logs && opts.json ==> planned(name, opts, true) == PlanView::Json,
        !opts.logs && !opts.json && opts.history ==> planned(name, opts, true)
            == PlanView::History,
        !opts.logs && !opts.json && !opts.history ==> planned(name, opts, true)
            == PlanView::Human,
        opts.run == Some(c) ==> planned(name, opts, false) == PlanView::NoSuchRun(
            name + " has no run #"@ + text::dec_int(c as int) + "."@,
        ),
        opts.run is None && opts.json ==> planned(name, opts, false) == PlanView::Json,
        opts.run is None && !opts.json ==> planned(name, opts, false) is NoRuns,
        planned(name, opts, false).code() == Some(1u8) <==> opts.run is Some,
        planned(name, opts, true).code() != Some(1u8),
{
}

/// A run is asked for by itself exactly where one is named that is not among those
/// that are loaded.
pub proof fn older_runs_are_asked_for(runs: Seq<PipelineInstanceView>, c: i64, k: int)
    ensures
        0 <= k < runs.len() && runs[k].counter == c ==> !is_further_back(runs, Some(c)),
        (forall|i: int| 0 <= i < runs.len() ==> (#[trigger] runs[i]).counter != c)
            ==> is_further_back(runs, Some(c)),
        !is_further_back(runs, None),
    decreases runs.len(),
{
    if runs.len() > 0 && runs[0].counter != c {
        let rest = runs.skip(1);
        older_runs_are_asked_for(rest, c, k - 1);
        if 0 < k < runs.len() {
            assert(rest[k - 1] == runs[k]);
        }
        if forall|i: int| 0 <= i < runs.len() ==> (#[trigger] runs[i]).counter != c {
            assert forall|i: int| 0 <= i < rest.len() implies (#[trigger] rest[i]).counter
                != c by {
                assert(rest[i] == runs[i + 1]);
            }
        }
    }
}

/// Where several pipelines match, their number is said, the first of them are listed,
/// at least one, and the number of the others is said.
pub proof fn matches_are_listed(
    dash: DashboardEmbeddedView,
    query: Seq<char>,
    limit: usize,
    all: Seq<Seq<char>>,
    i: int,
)
    requires
        resolution(pipeline_names(dash.pipelines), query) == ResolvedView::Many(all),
        all.len() > 1,
    ensures
        looked_up(dash, query, limit) matches LookupView::Stop(lines) && {
            let most = if limit == 0 {
                1
            } else {
                limit as int
            };
            &&& lines[0] == text::dec(all.len()) + " pipelines match "@ + debug_quoted(query)
                + ":"@
            &&& 0 <= i < all.len() && i < most ==> lines[1 + i] == "  "@ + all[i]
            &&& most < all.len() ==> lines.len() == most + 3 && lines[1 + most] == "  ... and "@
                + text::dec((all.len() - most) as nat) + " more"@
            &&& all.len() <= most ==> lines.len() == all.len() + 2
        },
{
}

/// That nothing matches is said, and where there is nothing at all to match, that
/// too.
pub proof fn nothing_found_is_said(dash: DashboardEmbeddedView, query: Seq<char>, limit: usize)
    requires
        resolution(pipeline_names(dash.pipelines), query) is Missing,
    ensures
        looked_up(dash, query, limit) matches LookupView::Stop(lines) && {
            &&& lines[0] == "No pipeline matches "@ + debug_quoted(query) + "."@
            &&& lines.len() == 2 <==> dash.pipelines.len() == 0
        },
{
}

/// The joined text has each of its parts.
proof fn lemma_joined_has(parts: Seq<Seq<char>>, sep: Seq<char>, i: int)
    requires
        0 <= i < parts.len(),
    ensures
        text::has(text::joined(parts, sep), parts[i]),
    decreases parts.len(),
{
    let all = text::joined(parts, sep);
    let none = Seq::<char>::empty();
    if parts.len() == 1 {
        assert(all.subrange(0, parts[0].len() as int) =~= parts[0]);
        assert(text::occurs_at(all, parts[0], 0));
    } else if i == parts.len() - 1 {
        let head = text::joined(parts.drop_last(), sep) + sep;
        assert(all.subrange(head.len() as int, (head.len() + parts[i].len()) as int) =~= parts[i]);
        assert(text::occurs_at(all, parts[i], head.len() as int));
    } else {
        let d = parts.drop_last();
        lemma_joined_has(d, sep, i);
        assert(d[i] == parts[i]);
        lemma_has_more(text::joined(d, sep), none, sep + parts.last(), parts[i]);
        assert(none + text::joined(d, sep) + (sep + parts.last()) =~= all);
    }
}

proof fn lemma_job_names(stages: Seq<StageInstanceView>, stage: Option<Seq<char>>, s: int, j: int)
    requires
        0 <= s < stages.len(),
        0 <= j < stages[s].jobs.len(),
        wanted(stages[s].name, stage),
    ensures
        job_names(stages, stage).contains(stages[s].jobs[j].name),
    decreases stages.len(),
{
    let d = stages.drop_last();
    let above = job_names(d, stage);
    let all = job_names(stages, stage);
    let x = stages[s].jobs[j].name;
    if s < d.len() {
        assert(d[s] == stages[s]);
        lemma_job_names(d, stage, s, j);
        let k = choose|k: int| 0 <= k < above.len() && above[k] == x;
        assert(all[k] == x);
    } else {
        assert(stages.last() == stages[s]);
        assert(all[above.len() + j] == x);
    }
}

/// Where the stage is not in the run, its stages are listed; where the job is not in
/// the stage, the jobs there are; and a run without jobs is said to have none.
pub proof fn what_could_be_meant_is_listed(
    run: PipelineInstanceView,
    stage: Option<Seq<char>>,
    job: Option<Seq<char>>,
    s: int,
    j: int,
)
    requires
        stage is Some || job is Some,
        0 <= s < run.stages.len(),
    ensures
        !any_stage_wanted(run.stages, stage) ==> text::has(
            no_job_text(run, stage, job),
            run.stages[s].name,
        ),
        any_stage_wanted(run.stages, stage) && 0 <= j < run.stages[s].jobs.len() && wanted(
            run.stages[s].name,
            stage,
        ) ==> text::has(no_job_text(run, stage, job), run.stages[s].jobs[j].name),
{
    let quoted = debug_quoted(missing_name(run, stage, job));
    let counter = text::dec_int(run.counter as int);
    let none = Seq::<char>::empty();
    let all = no_job_text(run, stage, job);
    if !any_stage_wanted(run.stages, stage) {
        let names = stage_names(run.stages);
        lemma_joined_has(names, ", "@, s);
        let head = "Run #"@ + counter + " has no stage "@ + quoted + ". Stages: "@;
        let tail = text::joined(names, ", "@);
        lemma_has_more(tail, head, none, run.stages[s].name);
        assert(head + tail + none =~= all);
    } else if 0 <= j < run.stages[s].jobs.len() && wanted(run.stages[s].name, stage) {
        let names = job_names(run.stages, stage);
        lemma_job_names(run.stages, stage, s, j);
        let x = run.stages[s].jobs[j].name;
        let k = choose|k: int| 0 <= k < names.len() && names[k] == x;
        lemma_joined_has(names, ", "@, k);
        let head = "No job "@ + quoted + " in run #"@ + counter + ". Jobs: "@;
        let tail = text::joined(names, ", "@);
        lemma_has_more(tail, head, none, x);
        assert(head + tail + none =~= all);
    }
}

// ---- the summary ---------------------------------------------------------

proof fn lemma_run_line(on: bool, r: PipelineInstanceView, started: Seq<char>, now: i64)
    ensures
        run_lines(on, r, started, now).len() >= 2,
        text::has(run_lines(on, r, started, now)[1], r.label),
        text::has(run_lines(on, r, started, now)[1], r.overall()),
{
    let none = Seq::<char>::empty();
    let line = run_lines(on, r, started, now)[1];
    let head = crate::inspect::report::dimmed(on, "Run"@) + " #"@ + text::dec_int(r.counter as int)
        + " "@;
    let state = status_text(on, r.overall());
    lemma_wrapped_has(on, status_code(r.overall()), r.overall());
    lemma_holds(head, r.label, "  "@, state, r.overall(), none);
    assert(head + r.label + "  "@ + state + none =~= line);
}

proof fn lemma_commit_line(
    on: bool,
    r: PipelineInstanceView,
    m: ModificationView,
    sha: Seq<char>,
    short: Seq<char>,
    said: Seq<char>,
)
    requires
        r.modification() == Some(m),
        m.revision == Some(sha),
        short == if sha.len() <= 12 {
            sha
        } else {
            sha.subrange(0, 12)
        },
        said == text::first_line_of(
            match m.comment {
                Some(c) => c,
                None => Seq::empty(),
            },
        ),
    ensures
        commit_lines(on, r).len() >= 1,
        text::has(commit_lines(on, r)[0], short),
        text::has(commit_lines(on, r)[0], said),
        m.user_name is Some ==> commit_lines(on, r).len() == 2 && commit_lines(on, r)[1]
            == crate::inspect::report::dimmed(on, "Author "@) + " "@ + m.user_name->0,
{
    let none = Seq::<char>::empty();
    let line = commit_lines(on, r)[0];
    reveal_strlit("");
    assert(""@ =~= none);
    assert(sha.len() > 12 ==> sha.take(12) =~= sha.subrange(0, 12));
    let front = crate::inspect::report::dimmed(on, "Commit "@) + " "@;
    assert(said.subrange(0, said.len() as int) =~= said);
    assert(text::occurs_at(said, said, 0));
    lemma_holds(front, short, "  "@, said, said, none);
    assert(front + short + "  "@ + said + none =~= line);
}

proof fn lemma_paused_mark(on: bool, name: Seq<char>, group: Option<Seq<char>>)
    ensures
        text::has(heading(on, name, group, true), "[paused]"@),
{
    let none = Seq::<char>::empty();
    let t = crate::inspect::report::title_line(on, name, group);
    let mark = wrapped(on, "33"@, "  [paused]"@);
    lemma_wrapped_has(on, "33"@, "  [paused]"@);
    reveal_strlit("  [paused]");
    reveal_strlit("[paused]");
    let two = "  [paused]"@;
    assert(two.subrange(2, 10) =~= "[paused]"@);
    assert(text::occurs_at(two, "[paused]"@, 2));
    lemma_has_through(mark, two, "[paused]"@);
    lemma_has_more(mark, t, none, "[paused]"@);
    assert(t + mark + none =~= heading(on, name, group, true));
}

/// The blocks of a text in their order: what is in one of them is in the text.
proof fn lemma_blocks(
    a: Seq<Seq<char>>,
    b: Seq<Seq<char>>,
    c: Seq<Seq<char>>,
    d: Seq<Seq<char>>,
    e: Seq<Seq<char>>,
    f: Seq<Seq<char>>,
    g: Seq<Seq<char>>,
)
    ensures
        ({
            let all = a + b + c + d + e + f + g;
            &&& forall|i: int| 0 <= i < a.len() ==> all.contains(#[trigger] a[i])
            &&& forall|i: int| 0 <= i < b.len() ==> all.contains(#[trigger] b[i])
            &&& forall|i: int| 0 <= i < c.len() ==> all.contains(#[trigger] c[i])
            &&& forall|i: int| 0 <= i < d.len() ==> all.contains(#[trigger] d[i])
            &&& forall|i: int| 0 <= i < g.len() ==> all.contains(#[trigger] g[i])
        }),
{
    let all = a + b + c + d + e + f + g;
    assert forall|i: int| 0 <= i < a.len() implies all.contains(#[trigger] a[i]) by {
        assert(all[i] == a[i]);
    }
    assert forall|i: int| 0 <= i < b.len() implies all.contains(#[trigger] b[i]) by {
        assert(all[a.len() + i] == b[i]);
    }
    assert forall|i: int| 0 <= i < c.len() implies all.contains(#[trigger] c[i]) by {
        assert(all[a.len() + b.len() + i] == c[i]);
    }
    assert forall|i: int| 0 <= i < d.len() implies all.contains(#[trigger] d[i]) by {
        assert(all[a.len() + b.len() + c.len() + i] == d[i]);
    }
    assert forall|i: int| 0 <= i < g.len() implies all.contains(#[trigger] g[i]) by {
        assert(all[all.len() - g.len() + i] == g[i]);
    }
}

/// The summary shows the run with its number, label and state; who started it, or
/// else why it ran; the commit with the first line of what was said of it, and its
/// author; and where to open it.
#[verifier::rlimit(40)]
pub proof fn the_summary_tells_of_the_run(
    on: bool,
    name: Seq<char>,
    group: Option<Seq<char>>,
    paused: bool,
    r: PipelineInstanceView,
    runs: Seq<PipelineInstanceView>,
    limit: nat,
    now: i64,
    started: Seq<char>,
    url: Option<Seq<char>>,
    cause: BuildCauseView,
    m: ModificationView,
    sha: Seq<char>,
    author: Seq<char>,
)
    requires
        r.build_cause == Some(cause),
        r.modification() == Some(m),
        m.revision == Some(sha),
        m.user_name == Some(author),
    ensures
        ({
            let ls = human_text(on, name, group, paused, Some(r), runs, limit, now, started, url);
            &&& some_line_holds(ls, r.label, r.overall())
            &&& cause.approver is Some ==> some_line_holds(ls, "By"@, cause.approver->0)
            &&& cause.approver is None && cause.trigger_message is Some ==> some_line_holds(
                ls,
                "Cause"@,
                cause.trigger_message->0,
            )
            &&& some_line_holds(
                ls,
                if sha.len() <= 12 {
                    sha
                } else {
                    sha.subrange(0, 12)
                },
                text::first_line_of(
                    match m.comment {
                        Some(c) => c,
                        None => Seq::empty(),
                    },
                ),
            )
            &&& some_line_holds(ls, "Author"@, author)
            &&& url is Some ==> some_line_holds(ls, "Open"@, url->0)
            &&& paused ==> text::has(ls[0], "[paused]"@)
        }),
{
    let ls = human_text(on, name, group, paused, Some(r), runs, limit, now, started, url);
    let a = seq![heading(on, name, group, paused)];
    let b = run_lines(on, r, started, now);
    let c = cause_lines(on, r);
    let d = commit_lines(on, r);
    let e = crate::inspect::human::stages_block(on, r.stages);
    let f = crate::inspect::human::recent_block(on, runs, limit, now);
    let g = url_block(on, url);
    assert(ls == a + b + c + d + e + f + g);
    lemma_blocks(a, b, c, d, e, f, g);
    lemma_run_line(on, r, started, now);
    lemma_held(ls, b[1], r.label, r.overall());
    if cause.approver is Some {
        lemma_labelled(on, "By     "@, "By"@, cause.approver->0, c[0]);
        lemma_held(ls, c[0], "By"@, cause.approver->0);
    } else if cause.trigger_message is Some {
        lemma_labelled(on, "Cause  "@, "Cause"@, cause.trigger_message->0, c[0]);
        lemma_held(ls, c[0], "Cause"@, cause.trigger_message->0);
    }
    let short = if sha.len() <= 12 {
        sha
    } else {
        sha.subrange(0, 12)
    };
    let said = text::first_line_of(
        match m.comment {
            Some(x) => x,
            None => Seq::empty(),
        },
    );
    lemma_commit_line(on, r, m, sha, short, said);
    lemma_held(ls, d[0], short, said);
    lemma_labelled(on, "Author "@, "Author"@, author, d[1]);
    lemma_held(ls, d[1], "Author"@, author);
    if url is Some {
        lemma_labelled(on, "Open  "@, "Open"@, url->0, g[1]);
        lemma_held(ls, g[1], "Open"@, url->0);
    }
    if paused {
        lemma_paused_mark(on, name, group);
        assert(ls[0] == a[0]);
    }
}

/// What is in a part is in the whole.
proof fn lemma_has_through(s: Seq<char>, part: Seq<char>, word: Seq<char>)
    requires
        text::has(s, part),
        text::has(part, word),
    ensures
        text::has(s, word),
{
    let i = choose|i: int| text::occurs_at(s, part, i);
    let j = choose|j: int| text::occurs_at(part, word, j);
    assert(s.subrange(i, i + part.len()).subrange(j, j + word.len()) =~= s.subrange(
        i + j,
        i + j + word.len(),
    ));
    assert(text::occurs_at(s, word, i + j));
}

proof fn lemma_held(ls: Seq<Seq<char>>, line: Seq<char>, a: Seq<char>, b: Seq<char>)
    requires
        ls.contains(line),
        text::has(line, a),
        text::has(line, b),
    ensures
        some_line_holds(ls, a, b),
{
    let k = choose|k: int| 0 <= k < ls.len() && ls[k] == line;
    assert(text::has(ls[k], a));
}

proof fn lemma_holds(
    head: Seq<char>,
    a: Seq<char>,
    mid: Seq<char>,
    whole: Seq<char>,
    b: Seq<char>,
    tail: Seq<char>,
)
    requires
        text::has(whole, b),
    ensures
        text::has(head + a + mid + whole + tail, a),
        text::has(head + a + mid + whole + tail, b),
{
    let s = head + a + mid + whole + tail;
    assert(s.subrange(head.len() as int, (head.len() + a.len()) as int) =~= a);
    assert(text::occurs_at(s, a, head.len() as int));
    lemma_has_more(whole, head + a + mid, tail, b);
    assert((head + a + mid) + whole + tail =~= s);
}

proof fn lemma_labelled(
    on: bool,
    label: Seq<char>,
    word: Seq<char>,
    value: Seq<char>,
    line: Seq<char>,
)
    requires
        line == crate::inspect::report::dimmed(on, label) + " "@ + value,
        label == "By     "@ && word == "By"@ || label == "Cause  "@ && word == "Cause"@ || label
            == "Author "@ && word == "Author"@ || label == "Open  "@ && word == "Open"@,
    ensures
        text::has(line, word),
        text::has(line, value),
{
    reveal_strlit("By     ");
    reveal_strlit("By");
    reveal_strlit("Cause  ");
    reveal_strlit("Cause");
    reveal_strlit("Author ");
    reveal_strlit("Author");
    reveal_strlit("Open  ");
    reveal_strlit("Open");
    let none = Seq::<char>::empty();
    assert(label.subrange(0, word.len() as int) =~= word);
    assert(text::occurs_at(label, word, 0));
    lemma_wrapped_has(on, "90"@, label);
    let d = crate::inspect::report::dimmed(on, label);
    lemma_has_through(d, label, word);
    lemma_has_more(d, none, " "@ + value, word);
    assert(none + d + (" "@ + value) =~= line);
    let head = d + " "@;
    assert(line.subrange(head.len() as int, (head.len() + value.len()) as int) =~= value);
    assert(text::occurs_at(line, value, head.len() as int));
}

/// The history lists the runs in their order, each with its number, its state, the
/// time it started and who started it, up to the limit.
#[verifier::rlimit(40)]
pub proof fn the_history_lists_the_runs(
    on: bool,
    name: Seq<char>,
    group: Option<Seq<char>>,
    runs: Seq<PipelineInstanceView>,
    limit: nat,
    whens: Seq<Seq<char>>,
    i: int,
)
    requires
        0 <= i < runs.len(),
        i < limit,
    ensures
        ({
            let ls = history_text(on, name, group, runs, limit, whens);
            &&& ls.len() == 2 + if limit < runs.len() {
                limit
            } else {
                runs.len()
            }
            &&& text::has(ls[2 + i], "#"@ + text::dec_int(runs[i].counter as int))
            &&& text::has(ls[2 + i], runs[i].overall())
            &&& text::has(ls[2 + i], whens[i])
            &&& text::has(ls[2 + i], approver_of(runs[i]))
        }),
{
    let ls = history_text(on, name, group, runs, limit, whens);
    let none = Seq::<char>::empty();
    let r = runs[i];
    let number = "#"@ + text::dec_int(r.counter as int);
    let state = status_text(on, r.overall());
    let who = crate::inspect::report::dimmed(on, approver_of(r));
    let a = "  "@;
    let b = a + text::padded(number, 8) + " "@ + text::padded(
        crate::app::open::first_chars(r.label, 12),
        12,
    ) + " "@;
    let c = b + text::padded(state, 10) + " "@;
    let d = c + text::padded(whens[i], 20) + " "@;
    let line = ls[2 + i];
    assert(line =~= d + who);
    lemma_wrapped_has(on, status_code(r.overall()), r.overall());
    lemma_wrapped_has(on, "90"@, approver_of(r));
    lemma_padded_has(number, 8);
    lemma_padded_has(state, 10);
    lemma_padded_has(whens[i], 20);
    lemma_has_through(text::padded(state, 10), state, r.overall());
    lemma_has_more(
        text::padded(number, 8),
        a,
        line.skip((a + text::padded(number, 8)).len() as int),
        number,
    );
    assert(a + text::padded(number, 8) + line.skip((a + text::padded(number, 8)).len() as int)
        =~= line);
    lemma_has_more(
        text::padded(state, 10),
        b,
        line.skip((b + text::padded(state, 10)).len() as int),
        r.overall(),
    );
    assert(b + text::padded(state, 10) + line.skip((b + text::padded(state, 10)).len() as int)
        =~= line);
    lemma_has_more(
        text::padded(whens[i], 20),
        c,
        line.skip((c + text::padded(whens[i], 20)).len() as int),
        whens[i],
    );
    assert(c + text::padded(whens[i], 20) + line.skip(
        (c + text::padded(whens[i], 20)).len() as int,
    ) =~= line);
    lemma_has_more(who, d, none, approver_of(r));
    assert(d + who + none =~= line);
}

/// A run is summed up with its state and the commit that its first repository was
/// deployed from; a run without one has none.
pub proof fn runs_are_summed_up(r: PipelineInstanceView)
    ensures
        run_summary(r).status == r.overall(),
        r.refs().len() > 0 ==> run_summary(r).commit == Some(r.refs()[0].deployed_sha),
        r.refs().len() == 0 ==> run_summary(r).commit is None,
        r.scheduled_date is None ==> run_summary(r).scheduled_at is None,
        r.scheduled_date is Some ==> run_summary(r).scheduled_at is Some,
{
}

} // verus!
