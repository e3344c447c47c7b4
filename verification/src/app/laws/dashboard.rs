//! What the dashboard is for: that it shows what the server says, at once from the last
//! time and then again and again, and tells of what turned red.

use vstd::prelude::*;
use vstd::string::*;

use crate::app::events::{by_name, failure_note, failure_notes};
use crate::app::laws::acting::{in_panes, target_of};
use crate::app::laws::console::plain;
use crate::app::snapshots::{failures, failures_are_edges};
use crate::app::start::{blank, DashboardCacheView};
use crate::app::{
    ApiEvent, AppView, DashboardPayload, EffectView, Focus, KeyCode, ModalView, ReauthMode,
    ReauthStep, RowView, SelectionKeyView,
};
use crate::config::ConfigView;
use crate::model::{DashboardGroupView, DashboardPipelineView};
use crate::names::{before, before_irreflexive, ordered};
use crate::text;

verus! {

// ---- a dashboard comes ---------------------------------------------------

proof fn lemma_by_name(ps: Seq<DashboardPipelineView>, n: int, name: Seq<char>)
    requires
        0 <= n <= ps.len(),
    ensures
        by_name(ps.take(n)).dom().contains(name) <==> exists|i: int|
            0 <= i < n && (#[trigger] ps[i]).name == name,
        forall|i: int|
            0 <= i < n && (#[trigger] ps[i]).name == name && (forall|j: int|
                i < j < n ==> (#[trigger] ps[j]).name != name) ==> by_name(ps.take(n))[name] == ps[i],
    decreases n,
{
    if n > 0 {
        lemma_by_name(ps, n - 1, name);
        assert(ps.take(n).drop_last() =~= ps.take(n - 1));
        assert(ps.take(n).last() == ps[n - 1]);
        assert forall|i: int|
            0 <= i < n && (#[trigger] ps[i]).name == name && (forall|j: int|
                i < j < n ==> (#[trigger] ps[j]).name != name) implies by_name(ps.take(n))[name]
            == ps[i] by {
            if i < n - 1 {
                assert(ps[n - 1].name != name);
                assert(forall|j: int| i < j < n - 1 ==> (#[trigger] ps[j]).name != name);
            }
        }
        if by_name(ps.take(n)).dom().contains(name) && ps[n - 1].name != name {
            let i = choose|i: int| 0 <= i < n - 1 && (#[trigger] ps[i]).name == name;
            assert(0 <= i < n && ps[i].name == name);
        }
    } else {
        assert(ps.take(0).len() == 0);
    }
}

proof fn lemma_loaded(
    v: AppView,
    groups: Seq<DashboardGroupView>,
    pipelines: Seq<DashboardPipelineView>,
    etag: Option<Seq<char>>,
)
    ensures
        ({
            let w = v.dashboard_loaded(groups, pipelines, etag);
            let a = if v.views.len() == 0 {
                v.outbox.push(EffectView::LoadViews(v.server_gen))
            } else {
                v.outbox
            };
            let b = if v.demo {
                a
            } else {
                a.push(EffectView::SaveCache { groups, info: pipelines })
            };
            let c = if v.cfg.notifications {
                b + failure_notes(failures(v.pipeline_info, by_name(pipelines), v.favorites))
            } else {
                b
            };
            &&& w.groups == groups
            &&& w.pipeline_info == by_name(pipelines)
            &&& w.dashboard_etag == etag
            &&& !w.loading_groups
            &&& w.error_line is None
            &&& w.outbox == c
            &&& w.selected_pipeline == v.selected_pipeline
            &&& w.history == v.history
            &&& w.favorites == v.favorites
        }),
{
    reveal(AppView::dashboard_loaded);
    reveal(AppView::dashboard_noted);
    reveal(AppView::caching);
    reveal(AppView::notified);
    reveal(AppView::exchanged);
    reveal(AppView::rebuilt);
    reveal(AppView::reselected);
}

/// A dashboard that comes for this connection is what is then known: its groups, and of
/// each name the last pipeline of that name; its tag is kept for the next time. An error
/// that was said goes.
pub proof fn a_dashboard_is_what_is_known(v: AppView, payload: DashboardPayload, k: int)
    requires
        0 <= k < payload.1@.len(),
        forall|j: int|
            k < j < payload.1@.len() ==> (#[trigger] payload.1.deep_view()[j]).name
                != payload.1.deep_view()[k].name,
    ensures
        ({
            let w = v.after_event(ApiEvent::Dashboard(v.server_gen, Ok(Some(payload))));
            let p = payload.1.deep_view()[k];
            &&& w.groups == payload.0.deep_view()
            &&& w.pipeline_info.dom().contains(p.name)
            &&& w.pipeline_info[p.name] == p
            &&& w.dashboard_etag == payload.2.deep_view()
            &&& !w.loading_groups
            &&& w.error_line is None
        }),
{
    reveal(AppView::after_event);
    reveal(AppView::dashboard_answered);
    let ps = payload.1.deep_view();
    lemma_loaded(v, payload.0.deep_view(), ps, payload.2.deep_view());
    lemma_by_name(ps, ps.len() as int, ps[k].name);
    assert(ps.take(ps.len() as int) =~= ps);
}

/// What is not on the dashboard is not known any more.
pub proof fn what_is_gone_is_forgotten(v: AppView, payload: DashboardPayload, name: Seq<char>)
    requires
        forall|j: int|
            0 <= j < payload.1@.len() ==> (#[trigger] payload.1.deep_view()[j]).name != name,
    ensures
        !v.after_event(
            ApiEvent::Dashboard(v.server_gen, Ok(Some(payload))),
        ).pipeline_info.dom().contains(name),
{
    reveal(AppView::after_event);
    reveal(AppView::dashboard_answered);
    let ps = payload.1.deep_view();
    lemma_loaded(v, payload.0.deep_view(), ps, payload.2.deep_view());
    lemma_by_name(ps, ps.len() as int, name);
    assert(ps.take(ps.len() as int) =~= ps);
    assert(ps.len() == payload.1@.len());
}

/// Where nothing changed on the server, all stays as it is. Where the dashboard could not
/// be loaded, that is said with the reason, and what was known stays.
pub proof fn no_news_changes_nothing(v: AppView, e: String)
    ensures
        v.after_event(ApiEvent::Dashboard(v.server_gen, Ok(None))) == (AppView {
            loading_groups: false,
            ..v
        }),
        ({
            let w = v.after_event(ApiEvent::Dashboard(v.server_gen, Err(e)));
            &&& w.error_line is Some && text::has(w.error_line->0, e@)
            &&& w.groups == v.groups && w.pipeline_info == v.pipeline_info && w.rows == v.rows
            &&& w.dashboard_etag == v.dashboard_etag
            &&& w.outbox == v.outbox
            &&& !w.loading_groups
        }),
{
    reveal(AppView::after_event);
    reveal(AppView::dashboard_answered);
    let w = v.after_event(ApiEvent::Dashboard(v.server_gen, Err(e)));
    let head = "Failed to load dashboard: "@;
    let line = w.error_line->0;
    assert(line.subrange(head.len() as int, (head.len() + e@.len()) as int) =~= e@);
    assert(text::occurs_at(line, e@, head.len() as int));
}

/// A favorite whose latest run turned to Failed is told of, by its name, where that is
/// wanted. One that was red before, that was not known before, that did not fail, or that
/// is no favorite is not.
pub proof fn a_favorite_that_turns_red_is_told_of(
    v: AppView,
    payload: DashboardPayload,
    name: Seq<char>,
)
    requires
        v.favorites.finite(),
    ensures
        ({
            let w = v.after_event(ApiEvent::Dashboard(v.server_gen, Ok(Some(payload))));
            let old = v.pipeline_info;
            let new = w.pipeline_info;
            let news = v.cfg.notifications && v.favorites.contains(name) && old.dom().contains(name)
                && new.dom().contains(name) && old[name].latest() != "Failed"@
                && new[name].latest() == "Failed"@;
            let note = EffectView::Notify {
                title: "lazygocd"@,
                body: "Pipeline "@ + name + " failed"@,
            };
            &&& forall|i: int| 0 <= i < v.outbox.len() ==> #[trigger] w.outbox[i] == v.outbox[i]
            &&& news <==> exists|i: int|
                v.outbox.len() <= i < w.outbox.len() && #[trigger] w.outbox[i] == note
        }),
{
    reveal(AppView::after_event);
    reveal(AppView::dashboard_answered);
    let ps = payload.1.deep_view();
    lemma_loaded(v, payload.0.deep_view(), ps, payload.2.deep_view());
    let w = v.after_event(ApiEvent::Dashboard(v.server_gen, Ok(Some(payload))));
    let fs = failures(v.pipeline_info, by_name(ps), v.favorites);
    let note = failure_note(name);
    failures_are_edges(v.pipeline_info, by_name(ps), v.favorites, name);
    let n = w.outbox.len() - failure_notes(fs).len();
    if v.cfg.notifications && fs.contains(name) {
        let k = choose|k: int| 0 <= k < fs.len() && fs[k] == name;
        assert(w.outbox[n + k] == note);
    }
    if exists|i: int| v.outbox.len() <= i < w.outbox.len() && #[trigger] w.outbox[i] == note {
        let i = choose|i: int| v.outbox.len() <= i < w.outbox.len() && #[trigger] w.outbox[i] == note;
        if v.cfg.notifications {
            assert(i >= n);
            assert(w.outbox[i] == failure_note(fs[i - n]));
            lemma_notes_differ(fs[i - n], name);
            assert(fs.contains(name));
        }
    }
}

proof fn lemma_notes_differ(a: Seq<char>, b: Seq<char>)
    requires
        failure_note(a) == failure_note(b),
    ensures
        a == b,
{
    let h = "Pipeline "@;
    let t = " failed"@;
    let x = h + a + t;
    let y = h + b + t;
    assert(x == y);
    assert(x.len() == y.len());
    assert(x.subrange(h.len() as int, (h.len() + a.len()) as int) =~= a);
    assert(y.subrange(h.len() as int, (h.len() + b.len()) as int) =~= b);
}

proof fn lemma_row_of(v: AppView, k: SelectionKeyView, from: int, i: int)
    requires
        0 <= from <= i < v.rows.len(),
        v.row_is(v.rows[i], k),
    ensures
        from <= v.row_of(k, from) <= i,
        v.row_is(v.rows[v.row_of(k, from)], k),
    decreases i - from,
{
    if !v.row_is(v.rows[from], k) {
        lemma_row_of(v, k, from + 1, i);
    }
}

/// The cursor stays on its pipeline when a dashboard comes, wherever its row went, as long
/// as there is one.
pub proof fn the_cursor_stays_on_its_pipeline(
    v: AppView,
    payload: DashboardPayload,
    name: Seq<char>,
    i: int,
    g: usize,
    p: usize,
)
    requires
        v.focus == Focus::Groups,
        target_of(v) == Some(name),
        v.rows[v.selected as int] is Pipeline,
        ({
            let w = v.after_event(ApiEvent::Dashboard(v.server_gen, Ok(Some(payload))));
            &&& w.rows.len() <= usize::MAX
            &&& 0 <= i < w.rows.len()
            &&& w.rows[i] == (RowView::Pipeline { group_idx: g, pipeline_idx: p })
            &&& g < w.groups.len() && p < w.groups[g as int].pipelines.len()
            &&& w.groups[g as int].pipelines[p as int] == name
        }),
    ensures
        target_of(v.after_event(ApiEvent::Dashboard(v.server_gen, Ok(Some(payload))))) == Some(
            name,
        ),
{
    reveal(AppView::after_event);
    reveal(AppView::dashboard_answered);
    reveal(AppView::dashboard_loaded);
    reveal(AppView::dashboard_noted);
    reveal(AppView::caching);
    reveal(AppView::notified);
    reveal(AppView::exchanged);
    reveal(AppView::rebuilt);
    reveal(AppView::reselected);
    let ps = payload.1.deep_view();
    let gs = payload.0.deep_view();
    let u = v.dashboard_noted(gs.len(), ps.len(), payload.2.deep_view()).caching(gs, ps).notified(
        by_name(ps),
    );
    assert(u.rows == v.rows && u.selected == v.selected && u.groups == v.groups);
    let key = SelectionKeyView::Pipeline(name);
    assert(u.cursor_key() == Some(key));
    let x = AppView { groups: gs, pipeline_info: by_name(ps), loading_groups: false, ..u }.rebuilt();
    assert(x.row_is(x.rows[i], key));
    lemma_row_of(x, key, 0, i);
}

// ---- asking --------------------------------------------------------------

/// The dashboard as it is asked for now: with the tag of the last one, and through the
/// view that is active.
pub open spec fn dashboard_request(v: AppView) -> EffectView {
    EffectView::LoadDashboard {
        generation: v.server_gen,
        etag: v.dashboard_etag,
        view: if v.active_view is Some && (v.active_view->0) < v.views.len() {
            Some(v.views[v.active_view->0 as int].name)
        } else {
            None
        },
    }
}

/// What a refresh asks for: the dashboard, and the history of the open pipeline.
pub open spec fn refresh_of(v: AppView) -> Seq<EffectView> {
    match v.selected_pipeline {
        Some(name) => seq![dashboard_request(v), EffectView::LoadHistory(name)],
        None => seq![dashboard_request(v)],
    }
}

/// `r` refreshes at once. A poll refreshes when the interval of the settings has passed
/// since the last one, at least five seconds, and only where there is a server.
pub proof fn refreshing_asks_for_all_that_is_shown(v: AppView, now: u64)
    ensures
        in_panes(v) ==> v.keyed(plain(KeyCode::Char('r')), now).outbox == v.outbox + refresh_of(v),
        ({
            let secs = if v.cfg.poll_interval_secs > 5 {
                v.cfg.poll_interval_secs as int
            } else {
                5
            };
            let w = v.polled(now);
            if now >= v.last_poll + secs * 1000 && text::trimmed(v.server_url).len() > 0 {
                w.outbox == v.outbox + refresh_of(v) && w.last_poll == now
            } else {
                w == v
            }
        }),
{
    reveal(AppView::keyed);
    reveal(AppView::pane_keyed);
    reveal(AppView::refreshed);
    assert(v.outbox.push(dashboard_request(v)) =~= v.outbox + seq![dashboard_request(v)]);
    if let Some(name) = v.selected_pipeline {
        assert(v.outbox.push(dashboard_request(v)).push(EffectView::LoadHistory(name))
            =~= v.outbox + refresh_of(v));
    }
}

/// The history of the pipeline that the cursor rests on for 300 ms is asked for ahead,
/// once, unless it is loaded.
pub proof fn a_history_is_asked_for_ahead(v: AppView, name: Seq<char>, since: u64, now: u64)
    requires
        v.hover_target == Some((name, since)),
    ensures
        now < since + 300 ==> v.prefetched(now) == v,
        now >= since + 300 ==> {
            &&& v.prefetched(now).hover_target is None
            &&& v.prefetched(now).outbox == if v.history_cache.dom().contains(name) {
                v.outbox
            } else {
                v.outbox.push(EffectView::LoadHistory(name))
            }
            &&& v.prefetched(now).selected_pipeline == v.selected_pipeline
        },
{
}

// ---- the start -----------------------------------------------------------

/// Without a server the form for it is shown, and nothing is asked for. With one the
/// dashboard is asked for, and that of the last time is shown meanwhile, with its age;
/// not in the demo.
pub proof fn the_start_shows_the_last_dashboard(
    cfg: ConfigView,
    client: crate::api::GoCdClientView,
    demo: bool,
    favorites: Set<Seq<char>>,
    gh: Option<Seq<char>>,
    now: u64,
    cached: Option<DashboardCacheView>,
    wall: i64,
)
    ensures
        ({
            let w = blank(cfg, client, demo, favorites, gh, now).started(cached, wall);
            &&& w.favorites == favorites && w.demo == demo && w.cfg == cfg && w.client == client
            &&& w.selected_pipeline is None && w.focus == Focus::Groups && !w.should_quit
            &&& if text::trimmed(cfg.server_url).len() == 0 {
                &&& w.modal matches Some(ModalView::Reauth(f)) && f.mode == ReauthMode::Connect
                    && f.step == ReauthStep::ServerUrl
                &&& w.outbox.len() == 0
                &&& w.groups.len() == 0
            } else {
                &&& w.modal is None
                &&& w.outbox == seq![
                    EffectView::LoadDashboard { generation: 0, etag: None, view: None },
                ]
                &&& match cached {
                    Some(c) => if demo {
                        w.groups.len() == 0
                    } else {
                        w.groups == c.groups && w.pipeline_info == by_name(c.pipelines)
                    },
                    None => w.groups.len() == 0,
                }
                &&& w.loading_groups == (w.groups.len() == 0)
            }
        }),
{
    reveal(blank);
    reveal(AppView::started);
    reveal(AppView::from_cache);
    reveal(AppView::rebuilt);
    let w = blank(cfg, client, demo, favorites, gh, now).started(cached, wall);
    if text::trimmed(cfg.server_url).len() > 0 {
        assert(w.outbox =~= seq![
            EffectView::LoadDashboard { generation: 0, etag: None, view: None },
        ]);
    }
}

// ---- counts --------------------------------------------------------------

/// The counts of the fleet: how many pipelines are paused, and how many have a latest run
/// with a status, each pipeline once.
pub proof fn the_fleet_is_counted(v: AppView, status: Seq<char>)
    requires
        v.pipeline_info.dom().finite(),
    ensures
        v.fleet().len() == v.pipeline_info.dom().len(),
        v.fleet_paused() == v.pipeline_info.dom().filter(
            |n: Seq<char>| v.pipeline_info[n].pause_info.paused,
        ).len(),
        v.fleet_with(status) == v.pipeline_info.dom().filter(
            |n: Seq<char>| v.pipeline_info[n].latest() == status,
        ).len(),
{
    let names = ordered(v.pipeline_info.dom());
    crate::names::lemma_ordered_finite(v.pipeline_info.dom());
    assert(names.no_duplicates()) by {
        assert forall|i: int, j: int| 0 <= i < names.len() && 0 <= j < names.len() && i != j implies names[i]
            != names[j] by {
            let (a, b) = if i < j {
                (i, j)
            } else {
                (j, i)
            };
            assert(before(names[a], names[b]));
            before_irreflexive(names[a]);
        }
    }
    names.unique_seq_to_set();
    lemma_filter_len(names, |n: Seq<char>| v.pipeline_info[n].pause_info.paused);
    lemma_filter_len(names, |n: Seq<char>| v.pipeline_info[n].latest() == status);
}

proof fn lemma_filter_len(s: Seq<Seq<char>>, p: spec_fn(Seq<char>) -> bool)
    requires
        s.no_duplicates(),
    ensures
        s.filter(p).len() == s.to_set().filter(p).len(),
    decreases s.len(),
{
    reveal(Seq::filter);
    s.unique_seq_to_set();
    if s.len() > 0 {
        let d = s.drop_last();
        assert(d.no_duplicates()) by {
            assert forall|i: int, j: int| 0 <= i < d.len() && 0 <= j < d.len() && i != j implies d[i]
                != d[j] by {
                assert(s[i] != s[j]);
            }
        }
        lemma_filter_len(d, p);
        let x = s.last();
        assert(!d.to_set().contains(x)) by {
            if d.contains(x) {
                let k = choose|k: int| 0 <= k < d.len() && d[k] == x;
                assert(s[k] != s[s.len() - 1]);
            }
        }
        assert(s.to_set() =~= d.to_set().insert(x)) by {
            assert forall|y: Seq<char>| s.to_set().contains(y) <==> d.to_set().insert(x).contains(
                y,
            ) by {
                if s.contains(y) {
                    let k = choose|k: int| 0 <= k < s.len() && s[k] == y;
                    if k < d.len() {
                        assert(d[k] == y);
                        assert(d.contains(y));
                    }
                }
                if d.contains(y) {
                    let k = choose|k: int| 0 <= k < d.len() && d[k] == y;
                    assert(s[k] == y);
                }
                assert(s[s.len() - 1] == x);
            }
        }
        d.unique_seq_to_set();
        let ds = d.to_set().filter(p);
        assert(ds.finite());
        if p(x) {
            assert(s.to_set().filter(p) =~= ds.insert(x));
        } else {
            assert(s.to_set().filter(p) =~= ds);
        }
    } else {
        assert(s.to_set().filter(p) =~= Set::empty());
    }
}

} // verus!
