//! What the view of a job is for: its log, live while the stage runs, and searched;
//! its artifacts; its materials.

use vstd::prelude::*;
use vstd::string::*;

use crate::app::console::{lowered, places_with};
use crate::app::ticks::{run_with, stage_named};
use crate::app::{
    ApiEvent, AppView, ConsoleLogStateView, DetailRow, EffectView, Focus, JobRef, JobRefView,
    JobTab, Key, KeyCode, ModalView, MouseKind,
};
use crate::model::{ArtifactNode, PipelineInstanceView, StageInstanceView};
use crate::text;
use crate::unicode::lowercase;

verus! {

/// A key without control.
pub open spec fn plain(code: KeyCode) -> Key {
    Key { code, ctrl: false }
}

/// The view of a job that is open.
pub open spec fn log_of(v: AppView) -> Option<ConsoleLogStateView> {
    match v.modal {
        Some(ModalView::ConsoleLog(s)) => Some(s),
        _ => None,
    }
}

// ---- following -----------------------------------------------------------

/// Whether `r` is the first run with that counter.
pub open spec fn first_run(runs: Seq<PipelineInstanceView>, counter: i64, r: int) -> bool {
    &&& 0 <= r < runs.len()
    &&& runs[r].counter == counter
    &&& forall|i: int| 0 <= i < r ==> (#[trigger] runs[i]).counter != counter
}

/// Whether `k` is the first stage of that name.
pub open spec fn first_stage(stages: Seq<StageInstanceView>, name: Seq<char>, k: int) -> bool {
    &&& 0 <= k < stages.len()
    &&& stages[k].name == name
    &&& forall|i: int| 0 <= i < k ==> (#[trigger] stages[i]).name != name
}

proof fn lemma_run_with(runs: Seq<PipelineInstanceView>, counter: i64, from: int, r: int)
    requires
        0 <= from <= r < runs.len(),
        runs[r].counter == counter,
        forall|i: int| from <= i < r ==> (#[trigger] runs[i]).counter != counter,
    ensures
        run_with(runs, counter, from) == r,
    decreases r - from,
{
    if from < r {
        assert(runs[from].counter != counter);
        lemma_run_with(runs, counter, from + 1, r);
    }
}

proof fn lemma_no_run_with(runs: Seq<PipelineInstanceView>, counter: i64, from: int)
    requires
        0 <= from <= runs.len(),
        forall|i: int| from <= i < runs.len() ==> (#[trigger] runs[i]).counter != counter,
    ensures
        run_with(runs, counter, from) == runs.len(),
    decreases runs.len() - from,
{
    if from < runs.len() {
        assert(runs[from].counter != counter);
        lemma_no_run_with(runs, counter, from + 1);
    }
}

proof fn lemma_stage_named(stages: Seq<StageInstanceView>, name: Seq<char>, from: int, k: int)
    requires
        0 <= from <= k < stages.len(),
        stages[k].name == name,
        forall|i: int| from <= i < k ==> (#[trigger] stages[i]).name != name,
    ensures
        stage_named(stages, name, from) == k,
    decreases k - from,
{
    if from < k {
        assert(stages[from].name != name);
        lemma_stage_named(stages, name, from + 1, k);
    }
}

/// The log of a job is asked for again, from the line after the last, exactly while
/// its stage is building or scheduled as far as the history tells, three seconds
/// after the last time.
pub proof fn logs_grow_while_the_stage_runs(
    v: AppView,
    s: ConsoleLogStateView,
    r: int,
    k: int,
    now: u64,
)
    requires
        v.modal == Some(ModalView::ConsoleLog(s)),
        s.lines.len() <= usize::MAX,
        first_run(v.history, s.job_ref.pipeline_counter, r),
        first_stage(v.history[r].stages, s.job_ref.stage, k),
    ensures
        ({
            let w = v.console_polled(now);
            let status = v.history[r].stages[k].status;
            let runs = status == Some("Building"@) || status == Some("Scheduled"@);
            if runs && !s.loading && now >= v.last_console_poll + 3000 {
                &&& w.outbox.len() == v.outbox.len() + 1
                &&& forall|i: int| 0 <= i < v.outbox.len() ==> #[trigger] w.outbox[i] == v.outbox[i]
                &&& w.outbox[v.outbox.len() as int] matches EffectView::FetchConsole {
                    job,
                    start_line,
                }
                &&& job == s.job_ref
                &&& start_line == s.lines.len()
                &&& w.last_console_poll == now
                &&& w.modal == v.modal
            } else {
                w == v
            }
        }),
{
    lemma_run_with(v.history, s.job_ref.pipeline_counter, 0, r);
    lemma_stage_named(v.history[r].stages, s.job_ref.stage, 0, k);
}

/// Without a job's view, or for a run that is not in the history, no log is asked
/// for.
pub proof fn other_logs_are_left_alone(v: AppView, now: u64)
    requires
        log_of(v) is None || forall|i: int|
            0 <= i < v.history.len() ==> (#[trigger] v.history[i]).counter
                != log_of(v)->0.job_ref.pipeline_counter,
    ensures
        v.console_polled(now) == v,
{
    if log_of(v) is Some {
        lemma_no_run_with(v.history, log_of(v)->0.job_ref.pipeline_counter, 0);
    }
}

/// A log arrives for the job that is open: from line 0 it is the whole log, from the
/// end it is what follows, and from elsewhere it is dropped. While following, the
/// end is shown. What is said of an error goes when a log comes.
pub proof fn a_log_goes_where_it_belongs(
    v: AppView,
    s: ConsoleLogStateView,
    job: JobRef,
    start: usize,
    content: String,
)
    requires
        v.modal == Some(ModalView::ConsoleLog(s)),
        s.job_ref == job.deep_view(),
    ensures
        ({
            let w = v.after_event(ApiEvent::ConsoleLog(job, start, Ok(content)));
            let t = log_of(w);
            let new = text::lines_of(content@);
            &&& t is Some
            &&& t->0.job_ref == s.job_ref
            &&& !t->0.loading
            &&& t->0.lines == if start == 0 {
                new
            } else if start == s.lines.len() {
                s.lines + new
            } else {
                s.lines
            }
            &&& start == 0 || start == s.lines.len() ==> {
                &&& t->0.error is None
                &&& t->0.following == s.following
                &&& t->0.scroll == if s.following {
                    usize::MAX
                } else {
                    s.scroll
                }
            }
            &&& w.outbox == v.outbox
        }),
{
    reveal(AppView::after_event);
    reveal(AppView::log_loaded);
    reveal(ConsoleLogStateView::log_arrived);
    reveal(ConsoleLogStateView::recomputed);
}

/// What comes for another job than the one that is open changes nothing.
pub proof fn answers_for_other_jobs_are_dropped(
    v: AppView,
    job: JobRef,
    start: usize,
    result: Result<String, String>,
    artifacts: Result<Vec<ArtifactNode>, String>,
)
    requires
        log_of(v) matches Some(s) ==> s.job_ref != job.deep_view(),
    ensures
        v.after_event(ApiEvent::ConsoleLog(job, start, result)) == v,
        v.after_event(ApiEvent::Artifacts(job, artifacts)) == v,
{
    reveal(AppView::after_event);
    reveal(AppView::log_loaded);
    reveal(AppView::artifacts_loaded);
}

// ---- opening -------------------------------------------------------------

/// Enter on a job of the selected run opens its log, and asks for all of it.
pub proof fn enter_opens_the_log_of_the_job(
    v: AppView,
    pipeline: Seq<char>,
    si: usize,
    ji: usize,
    counter: Seq<char>,
    now: u64,
)
    requires
        v.modal is None,
        !v.filter_active,
        v.focus == Focus::Detail,
        v.selected_pipeline == Some(pipeline),
        v.history_selected < v.history.len(),
        v.detail_selected < v.detail_rows.len(),
        v.detail_rows[v.detail_selected as int] == DetailRow::Job(si, ji),
        si < v.history[v.history_selected as int].stages.len(),
        ji < v.history[v.history_selected as int].stages[si as int].jobs.len(),
        v.history[v.history_selected as int].stages[si as int].counter == Some(counter),
    ensures
        ({
            let w = v.keyed(plain(KeyCode::Enter), now);
            let run = v.history[v.history_selected as int];
            let stage = run.stages[si as int];
            let job = JobRefView {
                pipeline,
                pipeline_counter: run.counter,
                stage: stage.name,
                stage_counter: counter,
                job: stage.jobs[ji as int].name,
            };
            let shown = stage.jobs[ji as int];
            &&& log_of(w) matches Some(s) && s.job_ref == job && s.tab == JobTab::Console
                && s.following && s.lines.len() == 0 && s.loading && s.materials
                == crate::app::open::material_lines(run)
            &&& shown.result is Some ==> log_of(w)->0.result == shown.result
            &&& shown.result is None ==> log_of(w)->0.result == shown.state
            &&& log_of(w)->0.title == stage.name + "/"@ + counter + " - "@ + shown.name
            &&& w.last_console_poll == now
            &&& w.outbox == v.outbox.push(EffectView::FetchConsole { job, start_line: 0 })
        }),
{
    reveal(AppView::keyed);
    reveal(AppView::pane_keyed);
    reveal(AppView::activated);
    reveal(AppView::console_opened);
}

// ---- searching -----------------------------------------------------------

/// Whether a line holds the words, in either case.
pub open spec fn line_holds(line: Seq<char>, words: Seq<char>) -> bool {
    let l = lowercase(line);
    let q = lowercase(words);
    exists|i: int| 0 <= i && i + q.len() <= l.len() && #[trigger] l.subrange(i, i + q.len()) == q
}

proof fn lemma_places_with(ls: Seq<Seq<char>>, q: Seq<char>)
    requires
        ls.len() <= usize::MAX,
    ensures
        forall|k: int|
            0 <= k < places_with(ls, q).len() ==> (#[trigger] places_with(ls, q)[k]) < ls.len()
                && text::has(ls[places_with(ls, q)[k] as int], q),
        forall|j: int, k: int|
            0 <= j < k < places_with(ls, q).len() ==> (#[trigger] places_with(ls, q)[j])
                < #[trigger] places_with(ls, q)[k],
        forall|i: int|
            0 <= i < ls.len() && text::has(#[trigger] ls[i], q) ==> places_with(ls, q).contains(
                i as usize,
            ),
    decreases ls.len(),
{
    if ls.len() > 0 {
        let d = ls.drop_last();
        lemma_places_with(d, q);
        let p = places_with(ls, q);
        let pd = places_with(d, q);
        assert forall|k: int| 0 <= k < p.len() implies (#[trigger] p[k]) < ls.len() && text::has(
            ls[p[k] as int],
            q,
        ) by {
            if k < pd.len() {
                assert(p[k] == pd[k]);
                assert(d[pd[k] as int] == ls[pd[k] as int]);
            }
        }
        assert forall|j: int, k: int| 0 <= j < k < p.len() implies (#[trigger] p[j])
            < #[trigger] p[k] by {
            assert(p[j] == pd[j]);
            if k < pd.len() {
                assert(p[k] == pd[k]);
            }
        }
        assert forall|i: int| 0 <= i < ls.len() && text::has(#[trigger] ls[i], q) implies p.contains(
            i as usize,
        ) by {
            if i < d.len() {
                assert(d[i] == ls[i]);
                let k = choose|k: int| 0 <= k < pd.len() && pd[k] == i as usize;
                assert(p[k] == i as usize);
            } else {
                assert(p[pd.len() as int] == i as usize);
            }
        }
    }
}

proof fn lemma_holds(line: Seq<char>, words: Seq<char>)
    ensures
        text::has(lowercase(line), lowercase(words)) == line_holds(line, words),
{
    let l = lowercase(line);
    let q = lowercase(words);
    if text::has(l, q) {
        let i = choose|i: int| #[trigger] text::occurs_at(l, q, i);
        assert(l.subrange(i, i + q.len()) == q);
    }
    if line_holds(line, words) {
        let i = choose|i: int|
            0 <= i && i + q.len() <= l.len() && #[trigger] l.subrange(i, i + q.len()) == q;
        assert(text::occurs_at(l, q, i));
    }
}

/// The matches of a search are the lines that hold its words, in order.
pub open spec fn finds_the_lines(s: ConsoleLogStateView) -> bool {
    &&& s.search.len() == 0 ==> s.matches.len() == 0
    &&& s.search.len() > 0 ==> {
        &&& forall|k: int|
            0 <= k < s.matches.len() ==> (#[trigger] s.matches[k]) < s.lines.len() && line_holds(
                s.lines[s.matches[k] as int],
                s.search,
            )
        &&& forall|j: int, k: int|
            0 <= j < k < s.matches.len() ==> (#[trigger] s.matches[j]) < #[trigger] s.matches[k]
        &&& forall|i: int|
            0 <= i < s.lines.len() && line_holds(#[trigger] s.lines[i], s.search)
                ==> s.matches.contains(i as usize)
        &&& s.matches.len() > 0 ==> s.match_idx < s.matches.len()
    }
}

proof fn lemma_recomputed(s: ConsoleLogStateView)
    requires
        s.lines.len() <= usize::MAX,
    ensures
        finds_the_lines(s.recomputed()),
        s.recomputed().lines == s.lines,
        s.recomputed().search == s.search,
{
    reveal(ConsoleLogStateView::recomputed);
    let t = s.recomputed();
    let ls = lowered(s.lines);
    let q = lowercase(s.search);
    lemma_places_with(ls, q);
    assert forall|i: int| 0 <= i < s.lines.len() implies text::has(ls[i], q) == line_holds(
        #[trigger] s.lines[i],
        s.search,
    ) by {
        lemma_holds(s.lines[i], s.search);
    }
    if s.search.len() > 0 {
        assert forall|k: int| 0 <= k < t.matches.len() implies (#[trigger] t.matches[k])
            < t.lines.len() && line_holds(t.lines[t.matches[k] as int], t.search) by {
            assert(s.lines[t.matches[k] as int] == t.lines[t.matches[k] as int]);
        }
        assert forall|i: int| 0 <= i < t.lines.len() && line_holds(
            #[trigger] t.lines[i],
            t.search,
        ) implies t.matches.contains(i as usize) by {
            assert(text::has(ls[i], q));
        }
    }
}

/// Typing into the search adds to its words, and finds the lines that hold them;
/// so does taking a character back, and a log that comes.
#[verifier::rlimit(40)]
pub proof fn a_search_finds_the_lines(
    v: AppView,
    s: ConsoleLogStateView,
    c: char,
    now: u64,
    job: JobRef,
    start: usize,
    content: String,
)
    requires
        v.modal == Some(ModalView::ConsoleLog(s)),
        s.lines.len() <= usize::MAX,
        s.job_ref == job.deep_view(),
        start == 0 || start == s.lines.len(),
        text::lines_of(content@).len() + s.lines.len() <= usize::MAX,
    ensures
        s.search_active ==> {
            let t = log_of(v.keyed(plain(KeyCode::Char(c)), now));
            &&& t is Some
            &&& t->0.search == s.search.push(c)
            &&& t->0.lines == s.lines
            &&& finds_the_lines(t->0)
        },
        s.search_active ==> {
            let t = log_of(v.keyed(plain(KeyCode::Backspace), now));
            &&& t is Some
            &&& t->0.lines == s.lines
            &&& s.search.len() > 0 ==> t->0.search == s.search.take(s.search.len() - 1)
            &&& finds_the_lines(t->0)
        },
        log_of(v.after_event(ApiEvent::ConsoleLog(job, start, Ok(content)))) matches Some(t)
            && finds_the_lines(t),
{
    reveal(AppView::keyed);
    reveal(AppView::modal_keyed);
    reveal(AppView::console_keyed);
    reveal(ConsoleLogStateView::searching);
    reveal(AppView::after_event);
    reveal(AppView::log_loaded);
    reveal(ConsoleLogStateView::log_arrived);
    if s.search_active {
        lemma_recomputed(ConsoleLogStateView { search: s.search.push(c), ..s });
        lemma_recomputed(
            ConsoleLogStateView { search: text::without_last(s.search), ..s },
        );
        if s.search.len() > 0 {
            assert(text::without_last(s.search) =~= s.search.take(s.search.len() - 1));
        }
    }
    let new = text::lines_of(content@);
    lemma_recomputed(
        ConsoleLogStateView {
            lines: if start == 0 {
                new
            } else {
                s.lines + new
            },
            error: None,
            loading: false,
            ..s
        },
    );
}

/// `/` starts a search with no words, and Esc ends it and drops them.
pub proof fn a_search_starts_and_ends_empty(v: AppView, s: ConsoleLogStateView, now: u64)
    requires
        v.modal == Some(ModalView::ConsoleLog(s)),
        s.tab == JobTab::Console,
    ensures
        !s.search_active ==> (log_of(v.keyed(plain(KeyCode::Char('/')), now)) matches Some(t)
            && t.search_active && t.search.len() == 0 && t.matches.len() == 0 && t.lines
            == s.lines),
        s.search_active ==> (log_of(v.keyed(plain(KeyCode::Esc), now)) matches Some(t)
            && !t.search_active && t.search.len() == 0 && t.matches.len() == 0 && t.lines
            == s.lines),
{
    reveal(AppView::keyed);
    reveal(AppView::modal_keyed);
    reveal(AppView::console_keyed);
    reveal(AppView::log_key);
    reveal(ConsoleLogStateView::searching);
}

/// Whether a place is shown near the middle of the screen, and the log is no longer
/// followed.
pub open spec fn shows_place(t: ConsoleLogStateView, place: int, height: u16) -> bool {
    &&& !t.following
    &&& t.scroll <= place
    &&& place - t.scroll == height / 2 || t.scroll == 0 && place < height / 2
}

/// `n` shows the next match and `N` the one before, round the ends. One undoes the
/// other. Enter in the search shows the match at hand.
#[verifier::rlimit(40)]
pub proof fn matches_are_gone_through(v: AppView, s: ConsoleLogStateView, now: u64)
    requires
        v.modal == Some(ModalView::ConsoleLog(s)),
        s.tab == JobTab::Console,
        s.match_idx < s.matches.len() < usize::MAX,
    ensures
        !s.search_active ==> {
            let a = log_of(v.keyed(plain(KeyCode::Char('n')), now));
            let b = log_of(v.keyed(plain(KeyCode::Char('N')), now));
            let n = s.matches.len() as int;
            &&& a is Some && b is Some
            &&& a->0.matches == s.matches && b->0.matches == s.matches
            &&& a->0.match_idx == if s.match_idx + 1 < n {
                s.match_idx + 1
            } else {
                0
            }
            &&& b->0.match_idx == if s.match_idx > 0 {
                s.match_idx - 1
            } else {
                n - 1
            }
            &&& shows_place(
                a->0,
                s.matches[a->0.match_idx as int] as int,
                v.console_view_height,
            )
            &&& shows_place(
                b->0,
                s.matches[b->0.match_idx as int] as int,
                v.console_view_height,
            )
        },
        s.search_active ==> {
            let e = log_of(v.keyed(plain(KeyCode::Enter), now));
            &&& e is Some
            &&& !e->0.search_active
            &&& e->0.search == s.search
            &&& e->0.match_idx == s.match_idx
            &&& shows_place(e->0, s.matches[s.match_idx as int] as int, v.console_view_height)
        },
{
    reveal(AppView::keyed);
    reveal(AppView::modal_keyed);
    reveal(AppView::console_keyed);
    reveal(AppView::log_key);
    reveal(ConsoleLogStateView::searching);
    reveal(ConsoleLogStateView::jumped);
    let n = s.matches.len() as int;
    let i = s.match_idx as int;
    assert((i + 1) % n == if i + 1 < n {
        i + 1
    } else {
        0
    }) by {
        if i + 1 < n {
            vstd::arithmetic::div_mod::lemma_small_mod((i + 1) as nat, n as nat);
        } else {
            vstd::arithmetic::div_mod::lemma_mod_self_0(n);
        }
    }
    assert((i + n - 1) % n == if i > 0 {
        i - 1
    } else {
        n - 1
    }) by {
        if i > 0 {
            vstd::arithmetic::div_mod::lemma_mod_add_multiples_vanish(i - 1, n);
            vstd::arithmetic::div_mod::lemma_small_mod((i - 1) as nat, n as nat);
        } else {
            vstd::arithmetic::div_mod::lemma_small_mod((n - 1) as nat, n as nat);
        }
    }
}

// ---- scrolling -----------------------------------------------------------

/// `G` goes to the end and follows the log; `g` goes to its start and stops. Up goes
/// up by one line from what is on screen, and stops following; down goes down by one.
pub proof fn a_log_is_scrolled(v: AppView, s: ConsoleLogStateView, now: u64)
    requires
        v.modal == Some(ModalView::ConsoleLog(s)),
        !s.search_active,
        s.tab == JobTab::Console,
    ensures
        log_of(v.keyed(plain(KeyCode::Char('G')), now)) == Some(
            ConsoleLogStateView { scroll: usize::MAX, following: true, ..s },
        ),
        log_of(v.keyed(plain(KeyCode::Char('g')), now)) == Some(
            ConsoleLogStateView { scroll: 0, following: false, ..s },
        ),
        log_of(v.keyed(plain(KeyCode::Char('k')), now)) matches Some(t) && {
            let bottom = s.lines.len() - v.console_view_height;
            let shown = if bottom <= 0 {
                0
            } else if s.scroll < bottom {
                s.scroll as int
            } else {
                bottom
            };
            &&& !t.following
            &&& t.lines == s.lines
            &&& t.scroll == if shown > 0 {
                shown - 1
            } else {
                0
            }
        },
        s.scroll < usize::MAX ==> log_of(v.keyed(plain(KeyCode::Char('j')), now)) == Some(
            ConsoleLogStateView { scroll: (s.scroll + 1) as usize, ..s },
        ),
{
    reveal(AppView::keyed);
    reveal(AppView::modal_keyed);
    reveal(AppView::console_keyed);
    reveal(AppView::log_key);
    reveal(AppView::common_key);
    reveal(ConsoleLogStateView::scrolled_up);
    reveal(ConsoleLogStateView::scrolled_down);
}

/// Whether `t` is `s` scrolled up by `n` rows from where the screen shows it.
pub open spec fn is_above(
    s: ConsoleLogStateView,
    t: Option<ConsoleLogStateView>,
    height: u16,
    n: int,
) -> bool {
    let len = if s.tab == JobTab::Materials {
        s.materials.len()
    } else {
        s.lines.len()
    };
    let bottom = len - height;
    let top = if bottom <= 0 {
        0
    } else if s.scroll < bottom {
        s.scroll as int
    } else {
        bottom
    };
    t == Some(
        ConsoleLogStateView {
            following: false,
            scroll: (if top > n {
                top - n
            } else {
                0
            }) as usize,
            ..s
        },
    )
}

/// Paging goes by twenty rows, by the keys for it and with Ctrl-U and Ctrl-D; the
/// wheel goes by three. The materials are gone through the same way.
#[verifier::rlimit(40)]
pub proof fn a_log_is_paged(v: AppView, s: ConsoleLogStateView, x: u16, y: u16, now: u64)
    requires
        v.modal == Some(ModalView::ConsoleLog(s)),
        !s.search_active,
        s.tab != JobTab::Artifacts,
        s.scroll < usize::MAX - 20,
    ensures
        is_above(s, log_of(v.keyed(plain(KeyCode::PageUp), now)), v.console_view_height, 20),
        is_above(
            s,
            log_of(v.keyed((Key { code: KeyCode::Char('u'), ctrl: true }), now)),
            v.console_view_height,
            20,
        ),
        log_of(v.keyed(plain(KeyCode::PageDown), now)) == Some(
            ConsoleLogStateView { scroll: (s.scroll + 20) as usize, ..s },
        ),
        log_of(v.keyed((Key { code: KeyCode::Char('d'), ctrl: true }), now)) == Some(
            ConsoleLogStateView { scroll: (s.scroll + 20) as usize, ..s },
        ),
        is_above(
            s,
            log_of(v.moused(MouseKind::ScrollUp, x, y, now).0),
            v.console_view_height,
            3,
        ),
        log_of(v.moused(MouseKind::ScrollDown, x, y, now).0) == Some(
            ConsoleLogStateView { scroll: (s.scroll + 3) as usize, ..s },
        ),
        v.moused(MouseKind::LeftDown, x, y, now).0 == v,
{
    reveal(AppView::keyed);
    reveal(AppView::modal_keyed);
    reveal(AppView::console_keyed);
    reveal(AppView::log_key);
    reveal(AppView::common_key);
    reveal(AppView::scrolled);
    reveal(AppView::clicked);
    reveal(ConsoleLogStateView::scrolled_up);
    reveal(ConsoleLogStateView::scrolled_down);
}

/// Shift-Tab undoes Tab.
pub proof fn tabs_are_gone_back(v: AppView, s: ConsoleLogStateView, now: u64)
    requires
        v.modal == Some(ModalView::ConsoleLog(s)),
        !s.search_active,
    ensures
        ({
            let w = v.keyed(plain(KeyCode::Tab), now);
            let u = w.keyed(plain(KeyCode::BackTab), now);
            log_of(u) is Some && log_of(u)->0.tab == s.tab && log_of(u)->0.scroll == 0
        }),
{
    reveal(AppView::keyed);
    reveal(AppView::modal_keyed);
    reveal(AppView::console_keyed);
    reveal(AppView::with_artifacts);
}

// ---- tabs, editor, closing -----------------------------------------------

/// The tabs by their numbers, from any tab. The artifacts are asked for the first
/// time that their tab is shown, and only then.
pub proof fn tabs_are_reached_by_number(v: AppView, s: ConsoleLogStateView, now: u64)
    requires
        v.modal == Some(ModalView::ConsoleLog(s)),
        !s.search_active,
    ensures
        log_of(v.keyed(plain(KeyCode::Char('1')), now)) matches Some(t) && t.tab
            == JobTab::Console && t.lines == s.lines,
        log_of(v.keyed(plain(KeyCode::Char('2')), now)) matches Some(t) && t.tab
            == JobTab::Artifacts && t.lines == s.lines,
        log_of(v.keyed(plain(KeyCode::Char('3')), now)) matches Some(t) && t.tab
            == JobTab::Materials && t.lines == s.lines,
        v.keyed(plain(KeyCode::Char('2')), now).outbox == if s.tab != JobTab::Artifacts
            && s.artifacts is None && !s.artifacts_loading {
            v.outbox.push(EffectView::FetchArtifacts(s.job_ref))
        } else {
            v.outbox
        },
        s.tab != JobTab::Artifacts ==> v.keyed(plain(KeyCode::Char('1')), now).outbox == v.outbox,
        s.tab != JobTab::Artifacts ==> v.keyed(plain(KeyCode::Char('3')), now).outbox == v.outbox,
        s.tab == JobTab::Console ==> (log_of(v.keyed(plain(KeyCode::Tab), now)) matches Some(t)
            && t.tab == JobTab::Artifacts),
        s.tab == JobTab::Artifacts ==> (log_of(v.keyed(plain(KeyCode::Tab), now)) matches Some(t)
            && t.tab == JobTab::Materials),
        s.tab == JobTab::Materials ==> (log_of(v.keyed(plain(KeyCode::Tab), now)) matches Some(t)
            && t.tab == JobTab::Console),
{
    reveal(AppView::keyed);
    reveal(AppView::modal_keyed);
    reveal(AppView::console_keyed);
    reveal(AppView::with_artifacts);
    reveal(AppView::artifact_key);
    reveal(AppView::log_key);
    reveal(AppView::common_key);
}

/// `q` and Esc close the view, and ask for nothing. `r` asks for the whole log again.
pub proof fn a_log_is_closed_and_reloaded(v: AppView, s: ConsoleLogStateView, now: u64)
    requires
        v.modal == Some(ModalView::ConsoleLog(s)),
        !s.search_active,
    ensures
        v.keyed(plain(KeyCode::Esc), now).modal is None,
        v.keyed(plain(KeyCode::Char('q')), now).modal is None,
        v.keyed(plain(KeyCode::Esc), now).outbox == v.outbox,
        v.keyed(plain(KeyCode::Char('q')), now).outbox == v.outbox,
        !v.keyed(plain(KeyCode::Char('q')), now).should_quit || v.should_quit,
        s.tab != JobTab::Artifacts ==> v.keyed(plain(KeyCode::Char('r')), now).outbox
            == v.outbox.push(EffectView::FetchConsole { job: s.job_ref, start_line: 0 }),
        log_of(v.keyed(plain(KeyCode::Char('r')), now)) matches Some(t) && t.loading && t.lines
            == s.lines,
{
    reveal(AppView::keyed);
    reveal(AppView::modal_keyed);
    reveal(AppView::console_keyed);
    reveal(AppView::artifact_key);
    reveal(AppView::log_key);
    reveal(AppView::common_key);
    reveal(AppView::console_reloaded);
    reveal(AppView::with_artifacts);
}

/// `e` hands the log to the editor, or the materials on their tab, with the editor
/// of the settings; where there is nothing but blanks, nothing is handed over.
pub proof fn the_editor_gets_what_is_shown(v: AppView, s: ConsoleLogStateView, now: u64)
    requires
        v.modal == Some(ModalView::ConsoleLog(s)),
        !s.search_active,
        v.pending_edit is None,
    ensures
        ({
            let w = v.keyed(plain(KeyCode::Char('e')), now);
            let shown = text::joined(
                if s.tab == JobTab::Materials {
                    s.materials
                } else {
                    s.lines
                },
                "\n"@,
            );
            &&& log_of(w) == Some(s)
            &&& w.outbox == v.outbox
            &&& if text::trimmed(shown).len() == 0 {
                w.pending_edit is None
            } else {
                &&& w.pending_edit is Some
                &&& w.pending_edit->0.contents == shown
                &&& w.pending_edit->0.configured == v.cfg.editor
                &&& text::begins(w.pending_edit->0.file_name, s.job_ref.pipeline + "-"@)
                &&& text::finishes(
                    w.pending_edit->0.file_name,
                    "-"@ + s.job_ref.job + "-"@ + if s.tab == JobTab::Materials {
                        "materials.txt"@
                    } else {
                        "console.log"@
                    },
                )
            }
        }),
{
    reveal(AppView::keyed);
    reveal(AppView::modal_keyed);
    reveal(AppView::console_keyed);
    reveal(AppView::artifact_key);
    reveal(AppView::log_key);
    reveal(AppView::common_key);
    reveal(AppView::edit_asked);
    reveal(ConsoleLogStateView::edit_file);
    let (file, _) = s.edit_file();
    let j = s.job_ref;
    let head = j.pipeline + "-"@;
    let tail = "-"@ + j.job + "-"@ + if s.tab == JobTab::Materials {
        "materials.txt"@
    } else {
        "console.log"@
    };
    assert(file =~= head + (text::dec_int(j.pipeline_counter as int) + "-"@ + j.stage) + tail);
    assert(file.subrange(0, head.len() as int) =~= head);
    assert(file.subrange(file.len() - tail.len(), file.len() - tail.len() + tail.len()) =~= tail);
}

} // verus!
