//! What the screen is for: that what is the case can be read off it.

use vstd::prelude::*;
use vstd::string::*;

use crate::app::{AppView, ConsoleLogStateView, DetailRow, Focus, GithubStateView, JobTab, RowView};
use crate::model::{
    DashboardGroupView, DashboardPipelineView, GitRefView, PipelineInstanceView, StageInstanceView,
};
use crate::text;
use crate::ui::console::{
    artifact_content, artifact_spans, console_content, last_end, log_spans, match_style,
    matched_spans, tab_bar,
};
use crate::ui::detail::{
    check_lines, check_part, checks_lines, cursor_row_of, detail_text, head_part, job_spans,
    stage_part, stage_spans, DetailTimesView,
};
use crate::ui::lists::{
    count_status, group_item, history_item, name_view, pipeline_icon, pipeline_item, runs,
    tree_item,
};
use crate::ui::panes::{header_spans, message_spans};
use crate::ui::{body_style, failure_label, match_places, rows_for, SpanView, Style, Tint};

pub mod dialogs;
pub mod rows;

verus! {

/// The words of a line.
pub open spec fn words_of(line: Seq<SpanView>) -> Seq<char>
    decreases line.len(),
{
    if line.len() == 0 {
        Seq::empty()
    } else {
        words_of(line.drop_last()) + line[line.len() - 1].content
    }
}

/// The first seven characters of a commit.
pub open spec fn seven(sha: Seq<char>) -> Seq<char> {
    if sha.len() <= 7 {
        sha
    } else {
        sha.subrange(0, 7)
    }
}

// ---- deployed commits ----------------------------------------------------

/// Whether a line is about a repository's branch.
pub open spec fn is_about(line: Seq<SpanView>, g: GitRefView) -> bool {
    &&& line.len() == 6
    &&& line[0].content == "GitHub: "@
    &&& line[1].content == (if g.host == "github.com"@ {
        Seq::<char>::empty()
    } else {
        g.host + "/"@
    }) + g.owner + "/"@ + g.repo + "@"@ + g.branch
    &&& line[3].content == seven(g.deployed_sha)
}

proof fn lemma_checks_lines(cs: Seq<(GitRefView, GithubStateView)>, tick: u64, i: int)
    requires
        0 <= i < cs.len(),
    ensures
        checks_lines(cs, tick).contains(check_lines(cs[i].0, cs[i].1, tick)[0]),
    decreases cs.len(),
{
    let d = cs.drop_last();
    let above = checks_lines(d, tick);
    let all = checks_lines(cs, tick);
    let x = check_lines(cs[i].0, cs[i].1, tick)[0];
    if i < d.len() {
        lemma_checks_lines(d, tick, i);
        assert(d[i] == cs[i]);
        let k = choose|k: int| 0 <= k < above.len() && above[k] == x;
        assert(all[k] == x);
    } else {
        assert(cs.last() == cs[i]);
        assert(all[above.len() as int] == x);
    }
}

/// With the newest run selected, each repository that it was built from has a line. Of
/// one whose latest commit was found the line says "up to date", in green, exactly
/// where that is the commit that was deployed; else it warns "not latest", with the
/// latest. One that is not checked yet or could not be is not said to be either.
#[verifier::rlimit(40)]
pub proof fn a_stale_deploy_is_told_from_a_fresh_one(
    v: AppView,
    r: PipelineInstanceView,
    t: DetailTimesView,
    i: int,
)
    requires
        v.history_selected == 0,
        0 <= i < v.github_checks.len(),
    ensures
        exists|k: int|
            {
                let line = #[trigger] detail_text(v, r, t)[k];
                let g = v.github_checks[i].0;
                let verdict = line[5];
                &&& 0 <= k < detail_text(v, r, t).len()
                &&& is_about(line, g)
                &&& match v.github_checks[i].1 {
                    GithubStateView::Found(latest) => if latest == g.deployed_sha {
                        verdict.content == "\u{2713} up to date"@ && verdict.style.fg == Some(
                            Tint::Success,
                        )
                    } else {
                        verdict.content == "\u{26a0} not latest (latest "@ + seven(latest) + ")"@
                            && verdict.style.fg == Some(Tint::Warning)
                    },
                    GithubStateView::Idle => verdict.content == "(not checked)"@
                        && verdict.style.fg == Some(Tint::Muted),
                    GithubStateView::Checking => verdict.style.fg == Some(Tint::Muted),
                    GithubStateView::Failed(_) => verdict.content.len() > 0 && verdict.content[0]
                        == '\u{2717}' && verdict.style.fg == Some(Tint::Warning),
                }
            },
{
    let all = detail_text(v, r, t);
    let g = v.github_checks[i].0;
    let x = check_lines(g, v.github_checks[i].1, v.tick)[0];
    let cl = checks_lines(v.github_checks, v.tick);
    lemma_checks_lines(v.github_checks, v.tick, i);
    let j = choose|j: int| 0 <= j < cl.len() && cl[j] == x;
    let part = check_part(v);
    assert(part[j + 1] == x);
    let head = head_part(r, t) + stage_part(r.stages, t.stages, cursor_row_of(v));
    assert(all == head + part);
    let k = head.len() + j + 1;
    assert(all[k] == x);
    reveal_strlit("\u{2717} ");
    assert("\u{2717} "@[0] == '\u{2717}');
    if let GithubStateView::Found(latest) = v.github_checks[i].1 {
        assert(crate::app::open::first_chars(latest, 7) =~= seven(latest));
    }
    assert(crate::app::open::first_chars(g.deployed_sha, 7) =~= seven(g.deployed_sha));
}

/// "up to date" and "not latest" are said of opposite things: no line says both.
pub proof fn verdicts_exclude_each_other(latest: Seq<char>)
    ensures
        "\u{2713} up to date"@ != "\u{26a0} not latest (latest "@ + seven(latest) + ")"@,
{
    reveal_strlit("\u{2713} up to date");
    reveal_strlit("\u{26a0} not latest (latest ");
    assert("\u{2713} up to date"@[0] == '\u{2713}');
    assert(("\u{26a0} not latest (latest "@ + seven(latest) + ")"@)[0] == '\u{26a0}');
}

/// A commit that came from an upstream run is said to come from there.
pub proof fn inherited_commits_are_labelled(
    g: GitRefView,
    state: GithubStateView,
    tick: u64,
    name: Seq<char>,
    counter: i64,
)
    requires
        g.via == Some((name, counter)),
    ensures
        check_lines(g, state, tick).len() == 2,
        check_lines(g, state, tick)[1].len() == 1,
        check_lines(g, state, tick)[1][0].content == "        via "@ + name + " #"@ + text::dec_int(
            counter as int,
        ),
{
}

/// A check that failed says why, by the likeliest cause.
pub proof fn failed_checks_say_why(why: Seq<char>)
    ensures
        text::has(why, "SSO"@) ==> failure_label(why) == "needs SSO authorization"@,
        !text::has(why, "SSO"@) && text::has(why, "401"@) ==> failure_label(why)
            == "token invalid"@,
        !text::has(why, "SSO"@) && !text::has(why, "401"@) && text::has(why, "404"@)
            ==> failure_label(why) == "repo or branch not found"@,
{
}

// ---- stages and jobs -----------------------------------------------------

/// The colour of a status.
pub open spec fn colour_of(status: Seq<char>) -> Tint {
    if status == "Failed"@ {
        Tint::Danger
    } else if status == "Passed"@ {
        Tint::Success
    } else if status == "Building"@ {
        Tint::Warning
    } else if status == "Cancelled"@ {
        Tint::Info
    } else {
        Tint::Muted
    }
}

proof fn lemma_colours()
    ensures
        forall|s: Seq<char>| #[trigger] colour_of(s) == crate::ui::tint_of(s),
{
    reveal_strlit("Passed");
    reveal_strlit("Failed");
    assert("Passed"@[0] == 'P' && "Failed"@[0] == 'F');
}

/// Where a row of the details stands among the lines of the stages.
pub open spec fn lines_before(stages: Seq<StageInstanceView>, s: int) -> int
    decreases s,
{
    if s <= 0 {
        0
    } else {
        lines_before(stages, s - 1) + 1 + stages[s - 1].jobs.len()
    }
}

proof fn lemma_stage_count(
    stages: Seq<StageInstanceView>,
    times: Seq<Seq<char>>,
    row: Option<DetailRow>,
    n: int,
)
    requires
        0 <= n <= stages.len(),
    ensures
        stage_part(stages.take(n), times, row).len() == lines_before(stages, n),
    decreases n,
{
    if n > 0 {
        lemma_stage_count(stages, times, row, n - 1);
        let t = stages.take(n);
        assert(t.drop_last() =~= stages.take(n - 1));
        assert(t.last() == stages[n - 1]);
    } else {
        assert(stages.take(0).len() == 0);
    }
}

proof fn lemma_stage_at(
    stages: Seq<StageInstanceView>,
    times: Seq<Seq<char>>,
    row: Option<DetailRow>,
    n: int,
    s: int,
    j: int,
)
    requires
        0 <= s < n <= stages.len(),
        stages.len() <= usize::MAX,
        0 <= j < stages[s].jobs.len(),
    ensures
        0 <= lines_before(stages, s),
        lines_before(stages, s) + stages[s].jobs.len() < lines_before(stages, n),
        stage_part(stages.take(n), times, row)[lines_before(stages, s)] == stage_spans(
            stages[s],
            times[s],
            row == Some(DetailRow::Stage(s as usize)),
        ),
        stage_part(stages.take(n), times, row)[lines_before(stages, s) + 1 + j] == job_spans(
            stages[s].jobs[j],
            row == Some(DetailRow::Job(s as usize, j as usize)),
        ),
    decreases n,
{
    let m = n - 1;
    let t = stages.take(n);
    lemma_lines_before(stages, s);
    lemma_stage_count(stages, times, row, m);
    assert(t.drop_last() =~= stages.take(m));
    assert(t.last() == stages[m]);
    let above = stage_part(stages.take(m), times, row);
    let head = stage_spans(stages[m], times[m], row == Some(DetailRow::Stage(m as usize)));
    let inner = Seq::new(
        stages[m].jobs.len(),
        |ji: int| job_spans(stages[m].jobs[ji], row == Some(DetailRow::Job(m as usize, ji as usize))),
    );
    let all = stage_part(t, times, row);
    assert(all == above.push(head) + inner);
    let k = lines_before(stages, s);
    if s < m {
        lemma_stage_at(stages, times, row, m, s, j);
        assert(all[k] == above[k]);
        assert(all[k + 1 + j] == above[k + 1 + j]);
    } else {
        assert(all[above.len() as int] == head);
        assert(all[above.len() + 1 + j] == inner[j]);
    }
}

proof fn lemma_lines_before(stages: Seq<StageInstanceView>, s: int)
    requires
        0 <= s <= stages.len(),
    ensures
        lines_before(stages, s) >= 0,
    decreases s,
{
    if s > 0 {
        lemma_lines_before(stages, s - 1);
    }
}

/// The details list every stage of the run with its status, in the colour of that,
/// and below it each of its jobs, in order. The row under the cursor is marked, and no
/// other.
#[verifier::rlimit(40)]
pub proof fn every_stage_and_job_is_listed(
    v: AppView,
    r: PipelineInstanceView,
    t: DetailTimesView,
    s: int,
    j: int,
)
    requires
        0 <= s < r.stages.len() <= usize::MAX,
        0 <= j < r.stages[s].jobs.len() <= usize::MAX,
    ensures
        ({
            let head = head_part(r, t).len();
            let all = detail_text(v, r, t);
            let a = all[head + lines_before(r.stages, s)];
            let b = all[head + lines_before(r.stages, s) + 1 + j];
            let stage = r.stages[s];
            let job = stage.jobs[j];
            let status = match stage.status {
                Some(x) => x,
                None => "Unknown"@,
            };
            let result = match job.result {
                Some(x) => x,
                None => match job.state {
                    Some(x) => x,
                    None => "-"@,
                },
            };
            let at = if v.focus == Focus::Detail && v.detail_selected < v.detail_rows.len() {
                Some(v.detail_rows[v.detail_selected as int])
            } else {
                None
            };
            &&& head + lines_before(r.stages, s) + 1 + j < all.len()
            &&& a.len() >= 4 && b.len() >= 4
            &&& a[1].content == stage.name
            &&& a[3].content == status && a[3].style.fg == Some(colour_of(status))
            &&& b[1].content == job.name
            &&& b[3].content == result && b[3].style.fg == Some(colour_of(result))
            &&& (a[0].content == "\u{25b6} "@) == (at == Some(DetailRow::Stage(s as usize)))
            &&& (b[0].content == "\u{25b6} "@) == (at == Some(
                DetailRow::Job(s as usize, j as usize),
            ))
        }),
{
    let row = cursor_row_of(v);
    lemma_stage_at(r.stages, t.stages, row, r.stages.len() as int, s, j);
    lemma_stage_count(r.stages, t.stages, row, r.stages.len() as int);
    assert(r.stages.take(r.stages.len() as int) =~= r.stages);
    let part = stage_part(r.stages, t.stages, row);
    let head = head_part(r, t);
    let all = detail_text(v, r, t);
    lemma_lines_before(r.stages, s);
    lemma_colours();
    let k = lines_before(r.stages, s);
    assert(part[k] == stage_spans(
        r.stages[s],
        t.stages[s],
        row == Some(DetailRow::Stage(s as usize)),
    ));
    assert(part[k + 1 + j] == job_spans(
        r.stages[s].jobs[j],
        row == Some(DetailRow::Job(s as usize, j as usize)),
    ));
    assert(all =~= head + part + check_part(v));
    assert(all[head.len() + k] == part[k]);
    assert(all[head.len() + k + 1 + j] == part[k + 1 + j]);
    reveal_strlit("\u{25b6} ");
    reveal_strlit("\u{25b8} ");
    reveal_strlit("    ");
    assert("\u{25b6} "@[0] == '\u{25b6}' && "\u{25b8} "@[0] == '\u{25b8}' && "    "@[0] == ' ');
}

// ---- the tree ------------------------------------------------------------

proof fn lemma_words_push(line: Seq<SpanView>, x: SpanView)
    ensures
        words_of(line.push(x)) == words_of(line) + x.content,
{
    assert(line.push(x).drop_last() =~= line);
}

proof fn lemma_words_add(a: Seq<SpanView>, b: Seq<SpanView>)
    ensures
        words_of(a + b) == words_of(a) + words_of(b),
    decreases b.len(),
{
    if b.len() == 0 {
        assert(a + b =~= a);
        assert(words_of(a) + words_of(b) =~= words_of(a));
    } else {
        lemma_words_add(a, b.drop_last());
        assert((a + b).drop_last() =~= a + b.drop_last());
        assert(words_of(a + b) =~= words_of(a) + words_of(b));
    }
}

proof fn lemma_runs_spell(name: Seq<char>, hits: Seq<int>, n: int)
    requires
        0 <= n <= name.len(),
    ensures
        words_of(runs(name, hits, n)) == name.take(n),
        n > 0 ==> runs(name, hits, n).len() > 0,
    decreases n,
{
    if n > 0 {
        let before = runs(name, hits, n - 1);
        lemma_runs_spell(name, hits, n - 1);
        assert(name.take(n) =~= name.take(n - 1).push(name[n - 1]));
        let hit = hits.contains(n - 1);
        let all = runs(name, hits, n);
        if n > 1 && hits.contains(n - 2) == hit {
            assert(all.drop_last() =~= before.drop_last());
            assert(words_of(before) == words_of(before.drop_last()) + before[before.len()
                - 1].content);
            assert(words_of(all) =~= name.take(n));
        } else {
            assert(all.drop_last() =~= before);
            assert(words_of(all) =~= name.take(n));
        }
    } else {
        assert(name.take(0) =~= Seq::empty());
    }
}

/// A name is shown as it is, whatever of it the filter matched.
pub proof fn highlighting_changes_no_name(name: Seq<char>, filter: Seq<char>)
    ensures
        words_of(name_view(name, filter)) == name,
{
    lemma_words_push(Seq::empty(), crate::ui::raw_sp(name));
    assert(Seq::<SpanView>::empty().push(crate::ui::raw_sp(name)) =~= seq![crate::ui::raw_sp(name)]);
    assert(Seq::<char>::empty() + name =~= name);
    if let Some(hits) = crate::app::matching::matched(name, filter, 0) {
        lemma_runs_spell(name, hits, name.len() as int);
        assert(name.take(name.len() as int) =~= name);
    }
}

/// A pipeline's sign tells its state: paused before all else, and then by the colour of
/// its latest run; one of which nothing is known is told apart.
pub proof fn signs_tell_the_state(v: AppView, name: Seq<char>)
    ensures
        ({
            let icon = pipeline_icon(v, name);
            if !v.pipeline_info.dom().contains(name) {
                icon.content == "\u{2022}"@ && icon.style.fg == Some(Tint::Muted)
            } else if v.pipeline_info[name].pause_info.paused {
                icon.content == "\u{23f8}"@ && icon.style.fg == Some(Tint::Warning)
            } else {
                icon.style.fg == Some(colour_of(v.pipeline_info[name].latest()))
            }
        }),
        pipeline_item(v, name, true).len() > 2,
        pipeline_item(v, name, true)[1] == pipeline_icon(v, name),
        pipeline_item(v, name, false)[1] == pipeline_icon(v, name),
        v.favorites.contains(name) ==> pipeline_item(v, name, true)[3].content == "\u{2605} "@,
{
    lemma_colours();
    highlighting_changes_no_name(name, v.filter);
    if v.favorites.contains(name) {
        assert(pipeline_item(v, name, true)[3].content == "\u{2605} "@);
    }
}

/// The number of names of `names`, among the first `n`, whose latest run has a status.
pub open spec fn with_status(
    info: Map<Seq<char>, DashboardPipelineView>,
    names: Seq<Seq<char>>,
    status: Seq<char>,
    n: int,
) -> int
    decreases n,
{
    if n <= 0 {
        0
    } else {
        with_status(info, names, status, n - 1) + if info.dom().contains(names[n - 1])
            && info[names[n - 1]].latest() == status {
            1int
        } else {
            0
        }
    }
}

proof fn lemma_count(v: AppView, names: Seq<Seq<char>>, status: Seq<char>, n: int)
    requires
        0 <= n <= names.len(),
    ensures
        count_status(v, names.take(n), status) == with_status(
            v.pipeline_info,
            names,
            status,
            n,
        ),
    decreases n,
{
    if n > 0 {
        lemma_count(v, names, status, n - 1);
        assert(names.take(n).drop_last() =~= names.take(n - 1));
        assert(names.take(n).last() == names[n - 1]);
    } else {
        assert(names.take(0).len() == 0);
    }
}

/// A group is shown with the number of its pipelines, and with how many of them
/// failed, in red, and build, in yellow, where there are any.
pub proof fn groups_count_their_pipelines(v: AppView, g: DashboardGroupView)
    ensures
        ({
            let line = group_item(v, g);
            let n = g.pipelines.len() as int;
            let failed = with_status(v.pipeline_info, g.pipelines, "Failed"@, n);
            let building = with_status(v.pipeline_info, g.pipelines, "Building"@, n);
            &&& line[0].content == (if v.expanded.contains(g.name) || v.filter.len() > 0 {
                "\u{25be}"@
            } else {
                "\u{25b8}"@
            }) + " "@ + g.name
            &&& line[1].content == " ("@ + text::dec(g.pipelines.len()) + ")"@
            &&& line.len() == 2 + (if failed > 0 {
                1int
            } else {
                0
            }) + (if building > 0 {
                1int
            } else {
                0
            })
            &&& failed > 0 ==> line[2].content == " \u{25cf}"@ + text::dec(failed as nat)
                && line[2].style.fg == Some(Tint::Danger)
            &&& building > 0 ==> line[line.len() - 1].content == " \u{25d0}"@ + text::dec(
                building as nat,
            ) && line[line.len() - 1].style.fg == Some(Tint::Warning)
        }),
{
    let n = g.pipelines.len() as int;
    lemma_count(v, g.pipelines, "Failed"@, n);
    lemma_count(v, g.pipelines, "Building"@, n);
    assert(g.pipelines.take(n) =~= g.pipelines);
}

/// Each row of the tree shows what it stands for.
pub proof fn rows_show_what_they_stand_for(v: AppView, row: RowView)
    ensures
        match row {
            RowView::FavoritePipeline(name) => tree_item(v, row) == pipeline_item(v, name, false),
            RowView::Pipeline { group_idx, pipeline_idx } => group_idx < v.groups.len()
                && pipeline_idx < v.groups[group_idx as int].pipelines.len() ==> tree_item(v, row)
                == pipeline_item(
                v,
                v.groups[group_idx as int].pipelines[pipeline_idx as int],
                true,
            ),
            RowView::Group { idx } => idx < v.groups.len() ==> tree_item(v, row) == group_item(
                v,
                v.groups[idx as int],
            ),
            RowView::FavoritesHeader => tree_item(v, row).len() == 2,
        },
{
}

// ---- history, header, messages -------------------------------------------

/// A run in the history shows its number and its label, when it was scheduled, and how
/// it went in the colour of that.
pub proof fn runs_show_how_they_went(r: PipelineInstanceView, when: Seq<char>)
    ensures
        ({
            let row = history_item(r, when);
            &&& row.run == "#"@ + text::dec_int(r.counter as int) + " "@ + r.label
            &&& row.when == when
            &&& row.status == r.overall()
            &&& row.tint == colour_of(r.overall())
            &&& r.build_cause is Some && r.build_cause->0.trigger_message is Some ==> row.cause
                == r.build_cause->0.trigger_message->0
        }),
{
    lemma_colours();
}

/// The light in the header is red while there is an error, yellow while the dashboard
/// loads, and else green. An error is shown, in red, in place of anything else that is
/// said.
pub proof fn errors_are_seen(v: AppView, with_groups: bool)
    ensures
        header_spans(v, with_groups)[2].style.fg == Some(
            if v.error_line is Some {
                Tint::Danger
            } else if v.loading_groups {
                Tint::Warning
            } else {
                Tint::Success
            },
        ),
        v.error_line matches Some(e) ==> {
            let line = message_spans(v);
            line.len() == 2 && line[1].content == e && line[1].style.fg == Some(Tint::Danger)
        },
        v.error_line is None && v.status_line.len() > 0 ==> {
            let line = message_spans(v);
            line.len() == 1 && line[0].content == v.status_line && line[0].style.fg == Some(
                Tint::Success,
            )
        },
{
}

/// An error that does not fit one row gets two, and every other message one.
pub proof fn long_errors_get_two_rows(len: nat, width: u16)
    ensures
        rows_for(len, width) == if len + 2 > width && len > 0 {
            2u16
        } else {
            1u16
        },
{
}

// ---- logs ----------------------------------------------------------------

#[verifier::rlimit(40)]
proof fn lemma_matched_spell(body: Seq<char>, ms: Seq<(int, int)>, style: Style, current: bool)
    requires
        forall|k: int|
            0 <= k < ms.len() ==> 0 <= (#[trigger] ms[k]).0 <= ms[k].1 <= body.len(),
        forall|j: int, k: int|
            0 <= j < k < ms.len() ==> (#[trigger] ms[j]).1 <= (#[trigger] ms[k]).0,
    ensures
        words_of(matched_spans(body, ms, style, current)) == body.take(last_end(ms)),
        0 <= last_end(ms) <= body.len(),
    decreases ms.len(),
{
    if ms.len() == 0 {
        assert(body.take(0) =~= Seq::empty());
    } else {
        let d = ms.drop_last();
        let m = ms.last();
        assert(m == ms[ms.len() - 1]);
        assert forall|k: int| 0 <= k < d.len() implies 0 <= (#[trigger] d[k]).0 <= d[k].1
            <= body.len() by {
            assert(d[k] == ms[k]);
        }
        assert forall|j: int, k: int| 0 <= j < k < d.len() implies (#[trigger] d[j]).1 <= (
        #[trigger] d[k]).0 by {
            assert(d[j] == ms[j] && d[k] == ms[k]);
        }
        lemma_matched_spell(body, d, style, current);
        let from = last_end(d);
        if d.len() > 0 {
            assert(d.last() == ms[ms.len() - 2]);
        }
        let a = matched_spans(body, d, style, current);
        let x = crate::ui::sp(body.subrange(from, m.0), style);
        let y = crate::ui::sp(body.subrange(m.0, m.1), match_style(current));
        lemma_words_push(a, x);
        lemma_words_push(a.push(x), y);
        lemma_three_parts(body, from, m.0, m.1);
    }
}

proof fn lemma_three_parts(s: Seq<char>, a: int, b: int, c: int)
    requires
        0 <= a <= b <= c <= s.len(),
    ensures
        s.take(c) == s.take(a) + s.subrange(a, b) + s.subrange(b, c),
{
    assert(s.take(c) =~= s.take(a) + s.subrange(a, b) + s.subrange(b, c));
}

#[verifier::rlimit(40)]
proof fn lemma_places_inside(body: Seq<char>, q: Seq<char>)
    ensures
        forall|k: int|
            0 <= k < match_places(body, q).len() ==> 0 <= (#[trigger] match_places(body, q)[k]).0
                <= match_places(body, q)[k].1 <= body.len(),
{
    crate::ui::matches_are_sound_and_complete(body, q);
    let ms = match_places(body, q);
    assert forall|k: int| 0 <= k < ms.len() implies 0 <= (#[trigger] ms[k]).0 <= ms[k].1
        <= body.len() by {
        let (a, b) = ms[k];
    }
}

#[verifier::rlimit(40)]
proof fn lemma_rest_whole(body: Seq<char>, ms: Seq<(int, int)>, style: Style, current: bool)
    requires
        forall|k: int|
            0 <= k < ms.len() ==> 0 <= (#[trigger] ms[k]).0 <= ms[k].1 <= body.len(),
        forall|j: int, k: int|
            0 <= j < k < ms.len() ==> (#[trigger] ms[j]).1 <= (#[trigger] ms[k]).0,
    ensures
        words_of(
            matched_spans(body, ms, style, current).push(
                crate::ui::sp(body.skip(last_end(ms)), style),
            ),
        ) == body,
{
    lemma_matched_spell(body, ms, style, current);
    let e = last_end(ms);
    lemma_words_push(
        matched_spans(body, ms, style, current),
        crate::ui::sp(body.skip(e), style),
    );
    assert(body.take(e) + body.skip(e) =~= body);
}

proof fn lemma_body_whole(body: Seq<char>, query: Option<Seq<char>>, style: Style, current: bool)
    ensures
        words_of(crate::ui::console::body_spans(body, query, style, current)) == body,
{
    match query {
        Some(q) => {
            lemma_places_inside(body, q);
            lemma_places_in_order(body, q);
            lemma_rest_whole(body, match_places(body, q), style, current);
        },
        None => {
            lemma_words_one(crate::ui::sp(body, style));
        },
    }
}

proof fn lemma_words_one(x: SpanView)
    ensures
        words_of(seq![x]) == x.content,
{
    lemma_words_push(Seq::empty(), x);
    assert(Seq::<SpanView>::empty().push(x) =~= seq![x]);
    assert(Seq::<char>::empty() + x.content =~= x.content);
}

/// A line of a log is shown whole but for the mark of its stream: what is searched for
/// is highlighted, and nothing is added or lost. The first span is the time.
#[verifier::rlimit(40)]
pub proof fn log_lines_are_shown_whole(raw: Seq<char>, query: Option<Seq<char>>, current: bool)
    ensures
        words_of(log_spans(raw, query, current)) == crate::inspect::framed(raw).1,
{
    let (marker, rest) = crate::inspect::framed(raw);
    let (time, body) = crate::ui::timed(rest);
    let style = body_style(marker, body);
    let t = crate::ui::sp(time, crate::ui::tinted(Tint::Muted));
    let spans = crate::ui::console::body_spans(body, query, style, current);
    lemma_timed(rest);
    lemma_body_whole(body, query, style, current);
    lemma_words_add(seq![t], spans);
    lemma_words_one(t);
}

proof fn lemma_places_in_order(body: Seq<char>, q: Seq<char>)
    ensures
        forall|j: int, k: int|
            0 <= j < k < match_places(body, q).len() ==> (#[trigger] match_places(body, q)[j]).1
                <= (#[trigger] match_places(body, q)[k]).0,
{
    if crate::ui::spelled(q).len() > 0 {
        crate::ui::matches_do_not_overlap(
            crate::ui::lowered_chars(body),
            crate::ui::spelled(q),
            0,
        );
    }
}

proof fn lemma_at_byte(s: Seq<char>, n: int)
    requires
        text::at_byte(s, n) is Some,
    ensures
        0 <= text::at_byte(s, n)->0 <= s.len(),
    decreases s.len(),
{
    if n != 0 {
        lemma_at_byte(s.skip(1), n - text::width_of(s[0]));
    }
}

proof fn lemma_timed(rest: Seq<char>)
    ensures
        crate::ui::timed(rest).0 + crate::ui::timed(rest).1 == rest,
{
    if let Some(k) = text::at_byte(rest, 13) {
        lemma_at_byte(rest, 13);
        assert(rest.take(k) + rest.skip(k) =~= rest);
    }
    assert(Seq::<char>::empty() + rest =~= rest);
}

/// The part of a log that is on screen: the lines from the scroll on, at most so far
/// down that the last ones fill the screen, each in its place.
pub proof fn the_log_on_screen_is_the_scrolled_part(
    s: ConsoleLogStateView,
    height: u16,
    tick: u64,
    i: int,
)
    requires
        s.lines.len() > 0,
        0 <= i < console_content(s, height, tick).len(),
    ensures
        ({
            let bottom = if s.lines.len() > height {
                s.lines.len() - height
            } else {
                0
            };
            let from = if s.scroll < bottom {
                s.scroll as int
            } else {
                bottom
            };
            let q = if s.search.len() > 0 {
                Some(crate::unicode::lowercase(s.search))
            } else {
                None
            };
            let current = s.match_idx < s.matches.len() && s.matches[s.match_idx as int] == from
                + i;
            &&& from + i < s.lines.len()
            &&& console_content(s, height, tick)[i] == log_spans(s.lines[from + i], q, current)
            &&& console_content(s, height, tick).len() == if s.lines.len() < height {
                s.lines.len() as int
            } else {
                height as int
            }
        }),
{
}

/// A line that says that something failed is red, whatever else it says; one that warns
/// is yellow where it is not red, and one that says that something passed is green where
/// it is neither.
pub proof fn failures_in_a_log_are_red(marker: Seq<char>, body: Seq<char>)
    ensures
        ({
            let red = marker == "!!"@ || crate::inspect::laws::says(body, "error"@)
                || crate::inspect::laws::says(body, "failed"@) || crate::inspect::laws::says(
                body,
                "failure"@,
            ) || crate::inspect::laws::says(body, "exception"@) || crate::inspect::laws::says(
                body,
                "fatal"@,
            ) || crate::inspect::laws::says(body, "traceback"@) || crate::inspect::laws::says(
                body,
                "exit code: 1"@,
            );
            let yellow = marker == "&2"@ || crate::inspect::laws::says(body, "warn"@)
                || crate::inspect::laws::says(body, "deprecat"@);
            let green = crate::inspect::laws::says(body, "passed"@) || crate::inspect::laws::says(
                body,
                "success"@,
            ) || crate::inspect::laws::says(body, "job completed"@);
            &&& red ==> body_style(marker, body).fg == Some(Tint::Danger)
            &&& !red && yellow ==> body_style(marker, body).fg == Some(Tint::Warning)
            &&& !red && !yellow && green ==> body_style(marker, body).fg == Some(Tint::Success)
            &&& body_style(marker, body).fg is None ==> !red && !yellow && !green
        }),
{
}

/// The artifacts on screen: the selected one is among them, alone is marked, and an open
/// folder has another sign than a closed one and than a file.
pub proof fn the_selected_artifact_is_on_screen(
    s: ConsoleLogStateView,
    height: u16,
    tick: u64,
)
    requires
        s.artifacts is Some,
        s.artifact_selected < s.artifacts->0.len(),
        height > 0,
    ensures
        ({
            let rows = s.artifacts->0;
            let all = artifact_content(s, height, tick);
            exists|k: int|
                {
                    &&& 0 <= k < all.len()
                    &&& (#[trigger] all[k]) == artifact_spans(
                        rows[s.artifact_selected as int],
                        true,
                    )
                }
        }),
{
    let rows = s.artifacts->0;
    let all = artifact_content(s, height, tick);
    let from = crate::ui::console::artifact_scroll(s, height);
    let k = s.artifact_selected - from;
    assert(all[k] == artifact_spans(rows[from + k], true));
}

/// The tab that is open stands out, and the others do not.
pub proof fn the_open_tab_stands_out(tab: JobTab)
    ensures
        tab_bar(tab).len() == 5,
        tab_bar(tab)[0].style.bold == (tab == JobTab::Console),
        tab_bar(tab)[2].style.bold == (tab == JobTab::Artifacts),
        tab_bar(tab)[4].style.bold == (tab == JobTab::Materials),
        tab_bar(tab)[0].content == "1 Console"@,
        tab_bar(tab)[2].content == "2 Artifacts"@,
        tab_bar(tab)[4].content == "3 Materials"@,
{
}

} // verus!
