//! What paging through the history of a pipeline is for: runs newest first, none
//! twice, none lost, also over refreshes in the background.

use vstd::prelude::*;
use vstd::string::*;

use crate::app::snapshots::{keeps_tail, merged_runs, merging_keeps_the_order, older_than};
use crate::app::{ApiEvent, AppView, EffectView, Focus, HistoryPage};
use crate::model::PipelineInstanceView;

verus! {

/// The runs of a pipeline that are loaded.
pub open spec fn runs_of(v: AppView, name: Seq<char>) -> Seq<PipelineInstanceView> {
    if v.history_cache.dom().contains(name) {
        v.history_cache[name]
    } else {
        Seq::empty()
    }
}

/// The cursor of the page after those that are loaded.
pub open spec fn cursor_of(v: AppView, name: Seq<char>) -> Option<u64> {
    if v.history_next.dom().contains(name) {
        Some(v.history_next[name])
    } else {
        None
    }
}

/// Counters that go down from run to run.
pub open spec fn goes_down(runs: Seq<PipelineInstanceView>) -> bool {
    forall|i: int, j: int|
        0 <= i < j < runs.len() ==> (#[trigger] runs[i]).counter > (#[trigger] runs[j]).counter
}

/// A cursor that asks only for runs older than all of these.
pub open spec fn lies_below(cursor: Option<u64>, runs: Seq<PipelineInstanceView>) -> bool {
    match cursor {
        Some(c) => runs.len() > 0 && c as int <= runs[runs.len() - 1].counter as int,
        None => true,
    }
}

/// A page as a server sends it: newest first, and with the cursor of what is older.
pub open spec fn is_page(runs: Seq<PipelineInstanceView>, next: Option<u64>) -> bool {
    goes_down(runs) && lies_below(next, runs)
}

/// What is loaded of a pipeline can be paged on from: the runs go down, and the
/// cursor lies below them.
pub open spec fn can_page_on(v: AppView, name: Seq<char>) -> bool {
    is_page(runs_of(v, name), cursor_of(v, name))
}

/// A first page that reaches back into more than its own number of runs.
pub open spec fn reaches_back(
    fresh: Seq<PipelineInstanceView>,
    loaded: Seq<PipelineInstanceView>,
) -> bool {
    &&& fresh.len() > 0
    &&& loaded.len() > fresh.len()
    &&& fresh[fresh.len() - 1].counter <= loaded[0].counter
}

proof fn lemma_first_page(
    v: AppView,
    name: Seq<char>,
    fresh: Seq<PipelineInstanceView>,
    next: Option<u64>,
)
    ensures
        ({
            let w = v.history_loaded(name, fresh, next);
            let loaded = runs_of(v, name);
            &&& w.history_cache == v.history_cache.insert(name, merged_runs(fresh, loaded))
            &&& w.history_next == if keeps_tail(fresh, loaded) {
                v.history_next
            } else {
                match next {
                    Some(c) => v.history_next.insert(name, c),
                    None => v.history_next.remove(name),
                }
            }
            &&& w.history_more_inflight == v.history_more_inflight
            &&& w.selected_pipeline == v.selected_pipeline
            &&& w.history == if v.selected_pipeline == Some(name) {
                merged_runs(fresh, loaded)
            } else {
                v.history
            }
        }),
{
    reveal(AppView::history_loaded);
    reveal(AppView::runs_stored);
    reveal(AppView::runs_shown);
    reveal(AppView::runs_placed);
    reveal(AppView::detailed);
    reveal(AppView::checks_started);
}

proof fn lemma_older_last(runs: Seq<PipelineInstanceView>, cut: i64)
    requires
        goes_down(runs),
        runs.len() > 0,
        runs[runs.len() - 1].counter < cut,
    ensures
        older_than(runs, cut).len() > 0,
        older_than(runs, cut)[older_than(runs, cut).len() - 1] == runs[runs.len() - 1],
{
    reveal(Seq::filter);
    assert(runs.last() == runs[runs.len() - 1]);
}

proof fn lemma_older_from(runs: Seq<PipelineInstanceView>, cut: i64, i: int)
    requires
        0 <= i < older_than(runs, cut).len(),
    ensures
        runs.contains(older_than(runs, cut)[i]),
        older_than(runs, cut)[i].counter < cut,
    decreases runs.len(),
{
    reveal(Seq::filter);
    if runs.len() > 0 {
        let d = runs.drop_last();
        let o = older_than(runs, cut);
        let od = older_than(d, cut);
        if i < od.len() {
            assert(o[i] == od[i]);
            lemma_older_from(d, cut, i);
            let k = choose|k: int| 0 <= k < d.len() && d[k] == od[i];
            assert(runs[k] == o[i]);
        } else {
            assert(o[i] == runs[runs.len() - 1]);
        }
    }
}

proof fn lemma_older_holds(runs: Seq<PipelineInstanceView>, cut: i64, i: int)
    requires
        0 <= i < runs.len(),
        runs[i].counter < cut,
    ensures
        older_than(runs, cut).contains(runs[i]),
    decreases runs.len(),
{
    reveal(Seq::filter);
    let d = runs.drop_last();
    let o = older_than(runs, cut);
    let od = older_than(d, cut);
    if i < d.len() {
        assert(d[i] == runs[i]);
        lemma_older_holds(d, cut, i);
        let k = choose|k: int| 0 <= k < od.len() && od[k] == d[i];
        assert(o[k] == runs[i]);
    } else {
        assert(o[od.len() as int] == runs[i]);
    }
}

/// A first page arrives for a pipeline. It is what is loaded then, at its start.
/// Where it reaches back into the pages that were loaded before, the runs of those
/// that are older than it follow, all of them and nothing else, and the cursor below
/// them stays. Where it does not, it is all, and its own cursor counts.
pub proof fn a_refresh_keeps_the_tail_and_its_cursor(
    v: AppView,
    name: String,
    page: HistoryPage,
)
    ensures
        ({
            let fresh = page.0.deep_view();
            let loaded = runs_of(v, name@);
            let w = v.after_event(ApiEvent::History(name, Ok(page)));
            let now = runs_of(w, name@);
            &&& now.len() >= fresh.len()
            &&& forall|i: int| 0 <= i < fresh.len() ==> #[trigger] now[i] == fresh[i]
            &&& if reaches_back(fresh, loaded) {
                let cut = fresh[fresh.len() - 1].counter;
                &&& forall|i: int|
                    fresh.len() <= i < now.len() ==> loaded.contains(#[trigger] now[i])
                        && now[i].counter < cut
                &&& forall|i: int|
                    0 <= i < loaded.len() && (#[trigger] loaded[i]).counter < cut ==> exists|k: int|
                        fresh.len() <= k < now.len() && now[k] == loaded[i]
                &&& cursor_of(w, name@) == cursor_of(v, name@)
            } else {
                &&& now.len() == fresh.len()
                &&& cursor_of(w, name@) == page.1
            }
        }),
{
    reveal(AppView::after_event);
    reveal(AppView::history_answered);
    let fresh = page.0.deep_view();
    let loaded = runs_of(v, name@);
    lemma_first_page(v, name@, fresh, page.1);
    let now = merged_runs(fresh, loaded);
    if reaches_back(fresh, loaded) {
        let cut = fresh[fresh.len() - 1].counter;
        let o = older_than(loaded, cut);
        assert(fresh.last() == fresh[fresh.len() - 1]);
        assert(now == fresh + o);
        assert forall|i: int| fresh.len() <= i < now.len() implies loaded.contains(#[trigger] now[i])
            && now[i].counter < cut by {
            lemma_older_from(loaded, cut, i - fresh.len());
            assert(now[i] == o[i - fresh.len()]);
        }
        assert forall|i: int| 0 <= i < loaded.len() && (#[trigger] loaded[i]).counter
            < cut implies exists|k: int| fresh.len() <= k < now.len() && now[k] == loaded[i] by {
            lemma_older_holds(loaded, cut, i);
            let k = choose|k: int| 0 <= k < o.len() && o[k] == loaded[i];
            assert(now[fresh.len() + k] == loaded[i]);
        }
    }
}

/// A first page for one pipeline leaves the others alone, and is shown exactly where
/// its pipeline is open.
pub proof fn a_refresh_is_for_its_pipeline(
    v: AppView,
    name: String,
    page: HistoryPage,
    other: Seq<char>,
)
    requires
        other != name@,
    ensures
        ({
            let w = v.after_event(ApiEvent::History(name, Ok(page)));
            &&& runs_of(w, other) == runs_of(v, other)
            &&& cursor_of(w, other) == cursor_of(v, other)
            &&& w.selected_pipeline == v.selected_pipeline
            &&& v.selected_pipeline == Some(name@) ==> w.history == runs_of(w, name@)
            &&& v.selected_pipeline != Some(name@) ==> w.history == v.history
        }),
{
    reveal(AppView::after_event);
    reveal(AppView::history_answered);
    lemma_first_page(v, name@, page.0.deep_view(), page.1);
}

/// Over any first page, what is loaded of a pipeline can be paged on from. Left out
/// is a page that reaches back into what is loaded and is older than all of it.
pub proof fn a_refresh_can_be_paged_on_from(v: AppView, name: String, page: HistoryPage)
    requires
        can_page_on(v, name@),
        is_page(page.0.deep_view(), page.1),
        reaches_back(page.0.deep_view(), runs_of(v, name@)) ==> {
            let fresh = page.0.deep_view();
            let loaded = runs_of(v, name@);
            loaded[loaded.len() - 1].counter < fresh[fresh.len() - 1].counter
        },
    ensures
        can_page_on(v.after_event(ApiEvent::History(name, Ok(page))), name@),
{
    reveal(AppView::after_event);
    reveal(AppView::history_answered);
    let fresh = page.0.deep_view();
    let loaded = runs_of(v, name@);
    lemma_first_page(v, name@, fresh, page.1);
    merging_keeps_the_order(fresh, loaded);
    if reaches_back(fresh, loaded) {
        lemma_older_last(loaded, fresh[fresh.len() - 1].counter);
        assert(fresh.last() == fresh[fresh.len() - 1]);
    }
}

/// A later page arrives that was asked for, with runs older than the last that was
/// loaded when it was asked for. It goes below what is loaded, unless the end of that
/// moved meanwhile; its cursor then counts. So runs never show twice or out of order.
pub proof fn a_later_page_goes_below(
    v: AppView,
    name: String,
    after: u64,
    asked_below: i64,
    page: HistoryPage,
)
    requires
        can_page_on(v, name@),
        goes_down(page.0.deep_view()),
        lies_below(page.1, page.0.deep_view()),
        forall|i: int|
            0 <= i < page.0@.len() ==> (#[trigger] page.0.deep_view()[i]).counter < asked_below,
        v.selected_pipeline == Some(name@) ==> v.history == runs_of(v, name@),
    ensures
        ({
            let w = v.after_event(
                ApiEvent::HistoryMore {
                    name,
                    after,
                    issued_last_counter: asked_below,
                    result: Ok(page),
                },
            );
            let loaded = runs_of(v, name@);
            &&& can_page_on(w, name@)
            &&& w.selected_pipeline == Some(name@) ==> w.history == runs_of(w, name@)
            &&& if v.history_more_inflight == Some((name@, after)) && loaded.len() > 0
                && loaded[loaded.len() - 1].counter == asked_below {
                &&& runs_of(w, name@) == loaded + page.0.deep_view()
                &&& cursor_of(w, name@) == page.1
            } else {
                &&& runs_of(w, name@) == loaded
                &&& cursor_of(w, name@) == cursor_of(v, name@)
                &&& w.history == v.history
            }
            &&& w.history_more_inflight != Some((name@, after))
        }),
{
    reveal(AppView::after_event);
    reveal(AppView::more_answered);
    reveal(AppView::more_loaded);
    let loaded = runs_of(v, name@);
    let runs = page.0.deep_view();
    let all = loaded + runs;
    assert(runs.len() == page.0@.len());
    if loaded.len() > 0 && loaded[loaded.len() - 1].counter == asked_below {
        assert forall|i: int, j: int| 0 <= i < j < all.len() implies (#[trigger] all[i]).counter > (
        #[trigger] all[j]).counter by {
            if j >= loaded.len() {
                assert(all[j] == runs[j - loaded.len()]);
                assert(runs[j - loaded.len()].counter < asked_below);
                if i < loaded.len() {
                    assert(all[i] == loaded[i]);
                    if i < loaded.len() - 1 {
                        assert(loaded[i].counter > loaded[loaded.len() - 1].counter);
                    }
                } else {
                    assert(all[i] == runs[i - loaded.len()]);
                }
            } else {
                assert(all[i] == loaded[i] && all[j] == loaded[j]);
            }
        }
        if page.1 is Some {
            assert(all[all.len() - 1] == runs[runs.len() - 1]);
        }
    }
}

/// At the last run on screen the next page is asked for, once, by the cursor that is
/// stored and with the counter of that run; above it, without a cursor, or while a
/// page is awaited, nothing is.
pub proof fn the_bottom_asks_for_what_is_below(v: AppView, name: Seq<char>, to: usize, now: u64)
    requires
        v.selected_pipeline == Some(name),
        to < v.history.len(),
    ensures
        ({
            let w = v.at_row(Focus::History, to, now);
            &&& w.history_selected == to
            &&& w.history == v.history
            &&& if to == v.history.len() - 1 && v.history_more_inflight is None && cursor_of(
                v,
                name,
            ) is Some {
                &&& w.outbox == v.outbox.push(
                    EffectView::LoadMoreHistory {
                        name,
                        after: cursor_of(v, name)->0,
                        last_counter: v.history[v.history.len() - 1].counter,
                    },
                )
                &&& w.history_more_inflight == Some((name, cursor_of(v, name)->0))
            } else {
                &&& w.outbox == v.outbox
                &&& w.history_more_inflight == v.history_more_inflight
            }
        }),
{
    reveal(AppView::at_row);
    reveal(AppView::detailed);
    reveal(AppView::loading_more);
}

} // verus!
