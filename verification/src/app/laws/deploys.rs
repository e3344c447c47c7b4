//! What the check of deployed commits is for: which commit a run was built from, directly
//! or through the runs before it, and what is known of its branch.

use vstd::prelude::*;
use vstd::string::*;

use crate::app::results::check_place;
use crate::app::trace::{TraceView, MAX_HOPS};
use crate::app::{ApiEvent, AppView, EffectView, GithubStateView, HistoryPage};
use crate::github::CommitCheck;
use crate::model::{git_refs_of, GitRef, GitRefView, MaterialRevisionView, PipelineInstanceView};
use crate::text;

verus! {

// ---- materials -----------------------------------------------------------

/// The commit that a material revision was at: that of its first modification.
pub open spec fn commit_at(mr: MaterialRevisionView) -> Option<Seq<char>> {
    if mr.modifications.len() > 0 {
        mr.modifications[0].revision
    } else {
        None
    }
}

/// A repository comes from a Git material, at the commit of its first modification, on
/// the branch that its description names, or else on `main`.
pub proof fn repositories_come_from_git_materials(mr: MaterialRevisionView)
    ensures
        mr.git_ref() matches Some(g) ==> {
            &&& mr.material.kind == Some("Git"@)
            &&& commit_at(mr) == Some(g.deployed_sha)
            &&& mr.material.description is Some
            &&& crate::model::repository_of(mr.material.description->0) == Some(
                (g.host, g.owner, g.repo),
            )
            &&& g.branch == match crate::model::branch_of(mr.material.description->0) {
                Some(b) => b,
                None => "main"@,
            }
            &&& g.via is None
        },
        mr.material.kind != Some("Git"@) ==> mr.git_ref() is None,
        mr.material.kind == Some("Git"@) && commit_at(mr) is Some && mr.material.description is Some
            && crate::model::repository_of(mr.material.description->0) is Some
            ==> mr.git_ref() is Some,
        mr.material.kind != Some("Pipeline"@) ==> mr.upstream() is None,
{
}

/// Whether a repository comes from one of the first `n` revisions.
pub open spec fn comes_from(revs: Seq<MaterialRevisionView>, n: int, g: GitRefView) -> bool {
    exists|i: int| 0 <= i < n && (#[trigger] revs[i]).git_ref() == Some(g)
}

proof fn lemma_refs(revs: Seq<MaterialRevisionView>, n: int)
    requires
        0 <= n <= revs.len(),
    ensures
        forall|i: int|
            0 <= i < n && (#[trigger] revs[i]).git_ref() is Some ==> git_refs_of(
                revs.take(n),
            ).contains(revs[i].git_ref()->0),
        forall|k: int|
            0 <= k < git_refs_of(revs.take(n)).len() ==> comes_from(
                revs,
                n,
                #[trigger] git_refs_of(revs.take(n))[k],
            ),
    decreases n,
{
    let all = git_refs_of(revs.take(n));
    if n > 0 {
        let m = n - 1;
        lemma_refs(revs, m);
        let above = git_refs_of(revs.take(m));
        assert(revs.take(n).drop_last() =~= revs.take(m));
        assert(revs.take(n).last() == revs[m]);
        assert forall|i: int| 0 <= i < n && (#[trigger] revs[i]).git_ref() is Some implies all.contains(
            revs[i].git_ref()->0,
        ) by {
            if i < m {
                let k = choose|k: int| 0 <= k < above.len() && above[k] == revs[i].git_ref()->0;
                assert(all[k] == above[k]);
            } else {
                assert(all[above.len() as int] == revs[m].git_ref()->0);
            }
        }
        assert forall|k: int| 0 <= k < all.len() implies comes_from(revs, n, #[trigger] all[k]) by {
            if k < above.len() {
                assert(all[k] == above[k]);
                let i = choose|i: int| 0 <= i < m && (#[trigger] revs[i]).git_ref() == Some(above[k]);
                assert(revs[i].git_ref() == Some(all[k]));
            } else {
                assert(revs[m].git_ref() == Some(all[k]));
            }
        }
    } else {
        assert(revs.take(0).len() == 0);
    }
}

/// Every Git material of a run that can be read is one of its repositories, and there are
/// no others.
pub proof fn every_git_material_is_checked(run: PipelineInstanceView, i: int, k: int)
    requires
        run.build_cause is Some,
        0 <= i < run.build_cause->0.material_revisions.len(),
    ensures
        run.build_cause->0.material_revisions[i].git_ref() matches Some(g) ==> run.refs().contains(
            g,
        ),
        0 <= k < run.refs().len() ==> comes_from(
            run.build_cause->0.material_revisions,
            run.build_cause->0.material_revisions.len() as int,
            run.refs()[k],
        ),
{
    let revs = run.build_cause->0.material_revisions;
    lemma_refs(revs, revs.len() as int);
    assert(revs.take(revs.len() as int) =~= revs);
    if revs[i].git_ref() is Some {
        assert(run.refs().contains(revs[i].git_ref()->0));
    }
}

// ---- asking --------------------------------------------------------------

/// When the runs of the open pipeline come, each repository of the newest run is checked:
/// it is asked for by its own owner, name and branch, and shown as being checked. Where
/// that run has none, the runs that triggered it are traced instead.
pub proof fn the_newest_run_is_checked(
    v: AppView,
    name: String,
    page: HistoryPage,
    i: int,
)
    requires
        v.selected_pipeline == Some(name@),
        page.0@.len() > 0,
    ensures
        ({
            let w = v.after_event(ApiEvent::History(name, Ok(page)));
            let run = page.0.deep_view()[0];
            let n = v.outbox.len() as int;
            &&& 0 <= i < run.refs().len() ==> {
                let g = run.refs()[i];
                &&& w.outbox.len() == n + run.refs().len()
                &&& w.outbox[n + i] matches EffectView::CheckGithub {
                    pipeline,
                    key,
                    owner,
                    repo,
                    branch,
                }
                &&& pipeline == name@ && owner == g.owner && repo == g.repo && branch == g.branch
                &&& key == g.host + "/"@ + g.owner + "/"@ + g.repo + "@"@ + g.branch
                &&& w.github_checks.len() == run.refs().len()
                &&& w.github_checks[i] == (g, GithubStateView::Checking)
            }
            &&& run.refs().len() == 0 && run.upstreams().len() > 0 ==> w.outbox == v.outbox.push(
                EffectView::TraceUpstream { pipeline: name@, deps: run.upstreams() },
            ) && w.github_checks.len() == 0
            &&& run.refs().len() == 0 && run.upstreams().len() == 0 ==> w.outbox == v.outbox
                && w.github_checks.len() == 0
        }),
{
    reveal(AppView::after_event);
    reveal(AppView::history_answered);
    reveal(AppView::history_loaded);
    reveal(AppView::runs_stored);
    reveal(AppView::runs_shown);
    reveal(AppView::runs_placed);
    reveal(AppView::detailed);
    reveal(AppView::checks_started);
    let fresh = page.0.deep_view();
    let merged = crate::app::snapshots::merged_runs(fresh, v.cached_runs(name@));
    assert(fresh.len() == page.0@.len());
    assert(merged[0] == fresh[0]);
}

// ---- answers -------------------------------------------------------------

proof fn lemma_check_place(
    checks: Seq<(GitRefView, GithubStateView)>,
    key: Seq<char>,
    from: int,
    k: int,
)
    requires
        0 <= from <= k < checks.len(),
        checks[k].0.identity() == key,
        forall|i: int| from <= i < k ==> (#[trigger] checks[i]).0.identity() != key,
    ensures
        check_place(checks, key, from) == k,
    decreases k - from,
{
    if from < k {
        assert(checks[from].0.identity() != key);
        lemma_check_place(checks, key, from + 1, k);
    }
}

/// The answer of a check goes to the repository that it is for: the latest commit that was
/// found, or why none was. No other changes. Where the token of `gh` had to be used in
/// place of the configured one, that is said. An answer for a pipeline that is no longer
/// open changes nothing.
pub proof fn an_answer_goes_to_its_repository(
    v: AppView,
    pipeline: String,
    key: String,
    result: Result<CommitCheck, String>,
    k: int,
)
    requires
        0 <= k < v.github_checks.len(),
        v.github_checks[k].0.identity() == key@,
        forall|i: int| 0 <= i < k ==> (#[trigger] v.github_checks[i]).0.identity() != key@,
    ensures
        ({
            let w = v.after_event(ApiEvent::GithubLatest(pipeline, key, result));
            if v.selected_pipeline == Some(pipeline@) {
                &&& w.github_checks.len() == v.github_checks.len()
                &&& w.github_checks[k].0 == v.github_checks[k].0
                &&& w.github_checks[k].1 == match result {
                    Ok(check) => GithubStateView::Found(check.sha@),
                    Err(e) => GithubStateView::Failed(e@),
                }
                &&& forall|i: int|
                    0 <= i < v.github_checks.len() && i != k ==> #[trigger] w.github_checks[i]
                        == v.github_checks[i]
                &&& w.github_state == if k == 0 {
                    w.github_checks[0].1
                } else {
                    v.github_state
                }
                &&& result is Ok && result->Ok_0.fell_back ==> text::has(
                    w.status_line,
                    "`gh auth token` was used"@,
                )
                &&& result is Ok && !result->Ok_0.fell_back ==> w.status_line == v.status_line
            } else {
                w == v
            }
        }),
{
    reveal(AppView::after_event);
    reveal(AppView::check_done);
    lemma_check_place(v.github_checks, key@, 0, k);
    let s = "GitHub refused the configured token; `gh auth token` was used instead"@;
    reveal_strlit("GitHub refused the configured token; `gh auth token` was used instead");
    reveal_strlit("`gh auth token` was used");
    assert(s.subrange(37, 61) =~= "`gh auth token` was used"@);
    assert(text::occurs_at(s, "`gh auth token` was used"@, 37));
}

/// What a trace found is checked like repositories of the run itself, for the pipeline that
/// it was for, and only while that is open.
pub proof fn traced_repositories_are_checked(
    v: AppView,
    pipeline: String,
    refs: Vec<GitRef>,
    i: int,
)
    requires
        0 <= i < refs@.len(),
    ensures
        ({
            let w = v.after_event(ApiEvent::UpstreamRefs(pipeline, refs));
            let g = refs.deep_view()[i];
            let n = v.outbox.len() as int;
            if v.selected_pipeline == Some(pipeline@) {
                &&& w.outbox.len() == n + refs@.len()
                &&& w.outbox[n + i] matches EffectView::CheckGithub {
                    pipeline: p,
                    owner,
                    repo,
                    branch,
                    ..
                }
                &&& p == pipeline@ && owner == g.owner && repo == g.repo && branch == g.branch
                &&& w.github_checks[i] == (g, GithubStateView::Checking)
            } else {
                w == v
            }
        }),
{
    reveal(AppView::after_event);
    reveal(AppView::refs_traced);
    assert(refs.deep_view().len() == refs@.len());
}

// ---- tracing -------------------------------------------------------------

/// A trace looks at four runs at most. It ends with the first that has repositories, and
/// has then found those, each labelled with that run; a run that has none leads on to those
/// that triggered it; one that cannot be read leads nowhere.
pub proof fn a_trace_ends_at_the_first_commit(
    t: TraceView,
    name: Seq<char>,
    counter: i64,
    run: PipelineInstanceView,
    i: int,
)
    ensures
        MAX_HOPS == 4,
        t.hops >= 4 || t.found.len() > 0 || t.queue.len() == 0 ==> t.advanced().1 is None,
        run.refs().len() > 0 ==> {
            let u = t.fed(name, counter, Some(run));
            &&& u.found.len() == run.refs().len()
            &&& u.advanced().1 is None
            &&& 0 <= i < run.refs().len() ==> u.found[i].deployed_sha == run.refs()[i].deployed_sha
                && u.found[i].owner == run.refs()[i].owner && u.found[i].repo == run.refs()[i].repo
                && u.found[i].branch == run.refs()[i].branch && u.found[i].host
                == run.refs()[i].host && u.found[i].via == Some((name, counter))
        },
        run.refs().len() == 0 ==> t.fed(name, counter, Some(run)).queue == t.queue
            + run.upstreams() && t.fed(name, counter, Some(run)).found == t.found,
        t.fed(name, counter, None) == t,
        t.hops < 4 && t.found.len() == 0 && t.queue.len() > 0 && !t.seen.contains(
            t.queue[t.queue.len() - 1],
        ) ==> t.advanced().1 == Some(t.queue[t.queue.len() - 1]),
{
}

/// A trace that finds nothing ends the wait for it.
pub proof fn nothing_traced_ends_the_wait(v: AppView, pipeline: String, refs: Vec<GitRef>)
    requires
        refs@.len() == 0,
        v.selected_pipeline == Some(pipeline@),
    ensures
        ({
            let w = v.after_event(ApiEvent::UpstreamRefs(pipeline, refs));
            &&& w.github_state is Idle
            &&& w.outbox == v.outbox
            &&& w.github_checks == v.github_checks
        }),
{
    reveal(AppView::after_event);
    reveal(AppView::refs_traced);
    assert(refs.deep_view().len() == refs@.len());
}

} // verus!
