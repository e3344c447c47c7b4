//! What holds of the interface in every state and after every event.

use vstd::prelude::*;

use crate::app::console::{next_tab, previous_tab};
use crate::app::events::failure_notes;
use crate::app::forms::reconnect_config;
use crate::app::hints::is_plain_url;
use crate::app::keys::{group_place, header_place};
use crate::app::open::checks_of;
use crate::app::snapshots::failures;
use crate::app::start::{blank, DashboardCacheView};
use crate::app::tree::clamped;
use crate::app::{
    ApiEvent, AppView, ConsoleLogStateView, DashboardPayload, EffectView, Focus, GithubStateView,
    HistoryPage, JobTab, Key, KeyCode, ModalView, MouseKind, ReauthFormView, RowView,
    SelectionKeyView,
};
use crate::config::ConfigView;
use crate::model::{DashboardPipelineView, GitRefView, PipelineInstanceView};
use crate::text;

pub mod acting;
pub mod artifacts;
pub mod browsing;
pub mod connecting;
pub mod console;
pub mod dashboard;
pub mod deploys;
pub mod history;
pub mod moving;
pub mod telling;

verus! {

// ---- steps ---------------------------------------------------------------

/// Each cursor is on a row of its pane, or at the top where there are none.
pub open spec fn in_range(v: AppView) -> bool {
    &&& v.selected == clamped(v.selected, v.rows.len())
    &&& v.history_selected == clamped(v.history_selected, v.history.len())
    &&& v.detail_selected == clamped(v.detail_selected, v.detail_rows.len())
}

/// Work that writes to the directory of the settings.
pub open spec fn writes(e: EffectView) -> bool {
    match e {
        EffectView::SaveCache { .. } => true,
        EffectView::SaveFavorites(_) => true,
        EffectView::Reconnect { save, .. } => save,
        EffectView::ConnectGithub { save, .. } => save,
        _ => false,
    }
}

/// Work that may be asked for: writing not in the demo, an action on a pipeline
/// only after it was confirmed, and the browser only for a plain URL.
pub open spec fn allowed(e: EffectView, demo: bool, confirmed: bool) -> bool {
    &&& demo ==> !writes(e)
    &&& e is RunAction ==> confirmed
    &&& e matches EffectView::OpenUrl { url, .. } ==> is_plain_url(url)
}

/// Work is only added, after what was asked for before.
pub open spec fn adds(a: Seq<EffectView>, b: Seq<EffectView>, demo: bool, confirmed: bool) -> bool {
    &&& a.len() <= b.len()
    &&& forall|i: int| 0 <= i < a.len() ==> #[trigger] b[i] == a[i]
    &&& forall|i: int| a.len() <= i < b.len() ==> allowed(#[trigger] b[i], demo, confirmed)
}

/// A step from one state to the next keeps the cursors on rows, stays in the
/// demo or out of it, and asks only for what may be asked for.
pub open spec fn sound_step(v: AppView, w: AppView, confirmed: bool) -> bool {
    &&& in_range(v) ==> in_range(w)
    &&& w.demo == v.demo
    &&& adds(v.outbox, w.outbox, v.demo, confirmed)
}

proof fn chain(u: AppView, v: AppView, w: AppView, confirmed: bool)
    requires
        sound_step(u, v, confirmed),
        sound_step(v, w, confirmed),
    ensures
        sound_step(u, w, confirmed),
{
    assert forall|i: int| u.outbox.len() <= i < w.outbox.len() implies allowed(
        #[trigger] w.outbox[i],
        u.demo,
        confirmed,
    ) by {
        if i < v.outbox.len() {
            assert(w.outbox[i] == v.outbox[i]);
        }
    }
    assert forall|i: int| 0 <= i < u.outbox.len() implies #[trigger] w.outbox[i] == u.outbox[i] by {
        assert(v.outbox[i] == u.outbox[i]);
    }
}

// ---- parts of steps ------------------------------------------------------

proof fn step_rebuilt(v: AppView)
    ensures
        sound_step(v, v.rebuilt(), false),
{
    reveal(AppView::rebuilt);
}

proof fn step_detailed(v: AppView)
    ensures
        sound_step(v, v.detailed(), false),
{
    reveal(AppView::detailed);
}

proof fn step_reselected(v: AppView, key: Option<SelectionKeyView>)
    ensures
        sound_step(v, v.reselected(key), false),
{
    reveal(AppView::reselected);
    if let Some(k) = key {
        lemma_row_of(v, k, 0);
    }
}

proof fn lemma_row_of(v: AppView, k: SelectionKeyView, from: int)
    requires
        0 <= from,
    ensures
        from <= v.row_of(k, from),
    decreases v.rows.len() - from,
{
    if from < v.rows.len() && !v.row_is(v.rows[from], k) {
        lemma_row_of(v, k, from + 1);
    }
}

proof fn step_loading_more(v: AppView)
    ensures
        sound_step(v, v.loading_more(), false),
{
    reveal(AppView::loading_more);
}

proof fn step_at_row(v: AppView, pane: Focus, idx: usize, now: u64)
    requires
        idx < v.pane_len(pane),
    ensures
        sound_step(v, v.at_row(pane, idx, now), false),
{
    reveal(AppView::at_row);
    reveal(AppView::hovering);
    let u = AppView { history_selected: idx, ..v };
    step_detailed(u);
    step_loading_more(u.detailed());
    if pane == Focus::History {
        assert(sound_step(v, u, false));
        chain(v, u, u.detailed(), false);
        chain(v, u.detailed(), u.detailed().loading_more(), false);
    }
}

proof fn step_moved(v: AppView, pane: Focus, delta: int, now: u64)
    ensures
        sound_step(v, v.moved(pane, delta, now), false),
{
    reveal(AppView::moved);
    let len = v.pane_len(pane);
    let to = v.pane_cursor(pane) + delta;
    if len > 0 {
        let idx = if to < 0 {
            0usize
        } else if to >= len {
            (len - 1) as usize
        } else {
            to as usize
        };
        step_at_row(v, pane, idx, now);
    }
}

proof fn step_checking(v: AppView, pipeline: Seq<char>, refs: Seq<GitRefView>)
    ensures
        sound_step(v, v.checking(pipeline, refs), false),
{
    let cs = checks_of(pipeline, refs);
    assert forall|i: int| v.outbox.len() <= i < v.checking(pipeline, refs).outbox.len() implies allowed(
        #[trigger] v.checking(pipeline, refs).outbox[i],
        v.demo,
        false,
    ) by {
        assert(v.checking(pipeline, refs).outbox[i] == cs[i - v.outbox.len()]);
    }
}

proof fn step_checks_started(v: AppView, pipeline: Seq<char>)
    ensures
        sound_step(v, v.checks_started(pipeline), false),
{
    reveal(AppView::checks_started);
    step_checking(v, pipeline, v.latest_refs());
}

proof fn step_opened(v: AppView, name: Seq<char>)
    ensures
        sound_step(v, v.opened(name), false),
{
    reveal(AppView::opened);
    let base = AppView {
        selected_pipeline: Some(name),
        history_selected: 0,
        focus: Focus::History,
        ..v
    };
    let shown = if v.history_cache.contains_key(name) {
        AppView {
            history: v.history_cache[name],
            history_loading: false,
            status_line: name + " (cached, refreshing...)"@,
            ..base
        }.checks_started(name)
    } else {
        AppView {
            history: Seq::empty(),
            github_checks: Seq::empty(),
            github_state: GithubStateView::Idle,
            status_line: "Loading history for "@ + name + "..."@,
            ..base
        }
    };
    if v.history_cache.contains_key(name) {
        let u = AppView {
            history: v.history_cache[name],
            history_loading: false,
            status_line: name + " (cached, refreshing...)"@,
            ..base
        };
        step_checks_started(u, name);
        chain(v, u, shown, false);
    }
    assert(sound_step(v, shown, false));
    step_detailed(shown);
    chain(v, shown, shown.detailed(), false);
    let w = AppView { detail_selected: 0, ..shown.detailed() };
    assert(sound_step(shown.detailed(), w, false));
    chain(v, shown.detailed(), w, false);
    chain(v, w, w.loading_history(name), false);
}

proof fn step_console_opened(v: AppView, si: usize, ji: usize, now: u64)
    ensures
        sound_step(v, v.console_opened(si, ji, now), false),
{
    reveal(AppView::console_opened);
}

proof fn step_activated(v: AppView, now: u64)
    ensures
        sound_step(v, v.activated(now), false),
{
    reveal(AppView::activated);
    match v.focus {
        Focus::Groups => match v.cursor_row() {
            Some(RowView::Group { idx }) => {
                if idx < v.groups.len() {
                    let name = v.groups[idx as int].name;
                    let u = AppView {
                        expanded: if v.expanded.contains(name) {
                            v.expanded.remove(name)
                        } else {
                            v.expanded.insert(name)
                        },
                        ..v
                    };
                    step_rebuilt(u);
                    chain(v, u, u.rebuilt(), false);
                }
            },
            Some(RowView::Pipeline { group_idx, pipeline_idx }) => {
                if let Some(name) = v.pipeline_at(group_idx, pipeline_idx) {
                    step_opened(v, name);
                }
            },
            Some(RowView::FavoritesHeader) => {
                let u = AppView { favorites_expanded: !v.favorites_expanded, ..v };
                step_rebuilt(u);
                chain(v, u, u.rebuilt(), false);
            },
            Some(RowView::FavoritePipeline(name)) => {
                step_opened(v, name);
            },
            None => {},
        },
        Focus::History => {},
        Focus::Detail => {
            if v.detail_selected < v.detail_rows.len() {
                if let crate::app::DetailRow::Job(si, ji) = v.detail_rows[v.detail_selected as int] {
                    step_console_opened(v, si, ji, now);
                }
            }
        },
    }
}

proof fn lemma_group_place(rows: Seq<RowView>, gi: usize, from: int)
    requires
        0 <= from,
    ensures
        from <= group_place(rows, gi, from),
    decreases rows.len() - from,
{
    if from < rows.len() && rows[from] != (RowView::Group { idx: gi }) {
        lemma_group_place(rows, gi, from + 1);
    }
}

proof fn lemma_header_place(rows: Seq<RowView>, from: int)
    requires
        0 <= from,
    ensures
        from <= header_place(rows, from),
    decreases rows.len() - from,
{
    if from < rows.len() && rows[from] != RowView::FavoritesHeader {
        lemma_header_place(rows, from + 1);
    }
}

proof fn step_collapsed(v: AppView)
    ensures
        sound_step(v, v.collapsed(), false),
{
    reveal(AppView::collapsed);
    match v.cursor_row() {
        Some(RowView::Group { idx }) => {
            let u = AppView { expanded: v.expanded.remove(v.groups[idx as int].name), ..v };
            step_rebuilt(u);
            chain(v, u, u.rebuilt(), false);
        },
        Some(RowView::Pipeline { group_idx, .. }) => {
            let u = AppView { expanded: v.expanded.remove(v.groups[group_idx as int].name), ..v };
            step_rebuilt(u);
            chain(v, u, u.rebuilt(), false);
            lemma_group_place(u.rebuilt().rows, group_idx, 0);
        },
        Some(RowView::FavoritePipeline(_)) => {
            let u = AppView { favorites_expanded: false, ..v };
            step_rebuilt(u);
            chain(v, u, u.rebuilt(), false);
            lemma_header_place(u.rebuilt().rows, 0);
        },
        _ => {},
    }
}

proof fn step_gone_back(v: AppView)
    ensures
        sound_step(v, v.gone_back(), false),
{
    reveal(AppView::gone_back);
    let u = AppView { filter: Seq::empty(), ..v };
    step_rebuilt(u);
    chain(v, u, u.rebuilt(), false);
}

proof fn step_filter_keyed(v: AppView, key: Key)
    ensures
        sound_step(v, v.filter_keyed(key), false),
{
    reveal(AppView::filter_keyed);
    let a = AppView { filter_active: false, filter: Seq::empty(), ..v };
    step_rebuilt(a);
    chain(v, a, a.rebuilt(), false);
    let b = AppView { filter: text::without_last(v.filter), ..v };
    step_rebuilt(b);
    chain(v, b, b.rebuilt(), false);
    if let KeyCode::Char(c) = key.code {
        let d = AppView { filter: v.filter.push(c), ..v };
        step_rebuilt(d);
        chain(v, d, d.rebuilt(), false);
    }
}

proof fn step_tabbed(v: AppView)
    ensures
        sound_step(v, v.tabbed(), false),
{
    reveal(AppView::tabbed);
    let u = AppView { focus: Focus::Detail, ..v };
    step_detailed(u);
    chain(v, u, u.detailed(), false);
}

proof fn step_refreshed(v: AppView)
    ensures
        sound_step(v, v.refreshed(), false),
{
    reveal(AppView::refreshed);
}

proof fn step_favorite_toggled(v: AppView)
    ensures
        sound_step(v, v.favorite_toggled(), false),
{
    reveal(AppView::favorite_toggled);
    if let Some(name) = v.current_pipeline() {
        let u = if v.favorites.contains(name) {
            AppView {
                favorites: v.favorites.remove(name),
                status_line: "Removed "@ + name + " from favorites"@,
                ..v
            }
        } else {
            AppView {
                favorites: v.favorites.insert(name),
                status_line: "Added "@ + name + " to favorites"@,
                ..v
            }
        };
        let w = u.saving_favorites();
        assert(sound_step(v, w, false));
        step_rebuilt(w);
        chain(v, w, w.rebuilt(), false);
    }
}

proof fn step_action_keyed(v: AppView, code: KeyCode)
    ensures
        v.action_keyed(code) matches Some(w) ==> sound_step(v, w, false),
{
    reveal(AppView::action_keyed);
    reveal(AppView::trigger_asked);
    reveal(AppView::trigger_vars_asked);
    reveal(AppView::pause_asked);
    reveal(AppView::cancel_asked);
    reveal(AppView::rerun_asked);
    reveal(AppView::commit_browsed);
    reveal(AppView::browsing);
    reveal(AppView::copying);
    reveal(AppView::save_view_asked);
    reveal(AppView::views_asked);
    step_favorite_toggled(v);
}

proof fn step_form_keyed(v: AppView, code: KeyCode)
    ensures
        v.form_keyed(code) matches Some(w) ==> sound_step(v, w, false),
{
    reveal(AppView::form_keyed);
}

proof fn step_pane_keyed(v: AppView, key: Key, now: u64)
    ensures
        sound_step(v, v.pane_keyed(key, now), false),
{
    reveal(AppView::pane_keyed);
    step_tabbed(v);
    step_refreshed(v);
    step_activated(v, now);
    step_collapsed(v);
    step_gone_back(v);
    if let Some(delta) = v.motion(key) {
        step_moved(v, v.focus, delta, now);
    }
    step_action_keyed(v, key.code);
    step_form_keyed(v, key.code);
}

// ---- keys in what is open over the panes ---------------------------------

/// Whether something waits for confirmation.
pub open spec fn awaits_confirmation(m: Option<ModalView>) -> bool {
    match m {
        Some(ModalView::Confirm { .. }) => true,
        Some(ModalView::TriggerVars(form)) => form.confirming,
        _ => false,
    }
}

proof fn step_console_keyed(v: AppView, key: Key, s: ConsoleLogStateView)
    ensures
        sound_step(v, v.console_keyed(key, s), false),
{
    reveal(AppView::console_keyed);
    reveal(AppView::with_artifacts);
    step_artifact_key(v, key, s);
    step_log_key(v, key, s);
    step_common_key(v, key, s);
}

proof fn step_artifact_key(v: AppView, key: Key, s: ConsoleLogStateView)
    ensures
        v.artifact_key(key, s) matches Some(w) ==> sound_step(v, w, false),
{
    reveal(AppView::artifact_key);
    reveal(AppView::artifact_copied);
    reveal(AppView::artifact_entered);
    reveal(AppView::artifact_left);
    reveal(AppView::browsing);
}

proof fn step_log_key(v: AppView, key: Key, s: ConsoleLogStateView)
    ensures
        v.log_key(key, s) matches Some(w) ==> sound_step(v, w, false),
{
    reveal(AppView::log_key);
}

proof fn step_common_key(v: AppView, key: Key, s: ConsoleLogStateView)
    ensures
        sound_step(v, v.common_key(key, s), false),
{
    reveal(AppView::common_key);
    reveal(AppView::console_reloaded);
    reveal(AppView::with_artifacts);
    reveal(AppView::edit_asked);
}

proof fn step_forms(v: AppView, key: Key, m: ModalView)
    requires
        !(m is ConsoleLog),
    ensures
        sound_step(v, v.modal_keyed(key, m), awaits_confirmation(Some(m))),
{
    reveal(AppView::modal_keyed);
    match m {
        ModalView::Help => {},
        ModalView::Confirm { .. } => {
            reveal(AppView::confirm_keyed);
            reveal(AppView::acting);
        },
        ModalView::Reauth(_) => {
            reveal(AppView::reauth_keyed);
            reveal(AppView::reauth_applied);
        },
        ModalView::GithubConnect { .. } => {
            reveal(AppView::github_keyed);
        },
        ModalView::TriggerVars(_) => {
            reveal(AppView::vars_keyed);
            reveal(AppView::acting);
        },
        ModalView::ViewPicker { .. } => {
            reveal(AppView::picker_keyed);
            reveal(AppView::view_picked);
        },
        ModalView::SaveView { .. } => {
            reveal(AppView::save_view_keyed);
        },
        ModalView::ConsoleLog(_) => {},
    }
}

/// A key keeps the cursors on rows, writes nothing in the demo, loses no work
/// that was asked for, and starts an action only where one waits for
/// confirmation.
pub proof fn keys_are_sound(v: AppView, key: Key, now: u64)
    ensures
        sound_step(v, v.keyed(key, now), awaits_confirmation(v.modal)),
{
    reveal(AppView::keyed);
    let u = AppView { error_line: None, modal: None, ..v };
    match v.modal {
        Some(m) => {
            if m is ConsoleLog {
                reveal(AppView::modal_keyed);
                step_console_keyed(u, key, m->ConsoleLog_0);
            } else {
                step_forms(u, key, m);
            }
        },
        None => {
            step_filter_keyed(u, key);
            step_pane_keyed(u, key, now);
        },
    }
}

/// The same holds of the mouse, which confirms nothing.
pub proof fn the_mouse_is_sound(v: AppView, kind: MouseKind, x: u16, y: u16, now: u64)
    ensures
        sound_step(v, v.moused(kind, x, y, now).0, false),
{
    reveal(AppView::scrolled);
    reveal(AppView::clicked);
    reveal(AppView::pane_clicked);
    reveal(AppView::row_clicked);
    if let Some(pane) = v.pane_under(x, y) {
        step_moved(v, pane, -1, now);
        step_moved(v, pane, 1, now);
        let f = AppView { filter_active: false, focus: pane, ..v };
        step_detailed(f);
        chain(v, f, f.detailed(), false);
        let c = v.pane_clicked(pane);
        assert(sound_step(v, c, false));
        if let Some(idx) = c.row_under(pane, y) {
            step_activated(c, now);
            chain(v, c, c.activated(now), false);
            if 0 <= idx < c.pane_len(pane) && pane != Focus::Detail {
                step_at_row(c, pane, idx as usize, now);
                chain(v, c, c.at_row(pane, idx as usize, now), false);
            }
        }
    }
}

/// The same holds of what happens as time passes.
pub proof fn time_is_sound(v: AppView, now: u64)
    ensures
        sound_step(v, v.prefetched(now), false),
        sound_step(v, v.polled(now), false),
        sound_step(v, v.console_polled(now), false),
{
}

// ---- events --------------------------------------------------------------

proof fn step_notified(v: AppView, info: Map<Seq<char>, DashboardPipelineView>)
    ensures
        sound_step(v, v.notified(info), false),
{
    reveal(AppView::notified);
    let notes = failure_notes(failures(v.pipeline_info, info, v.favorites));
    let w = v.notified(info);
    assert forall|i: int| v.outbox.len() <= i < w.outbox.len() implies allowed(
        #[trigger] w.outbox[i],
        v.demo,
        false,
    ) by {
        assert(w.outbox[i] == notes[i - v.outbox.len()]);
    }
}

proof fn step_dashboard_answered(
    v: AppView,
    generation: u64,
    result: Result<Option<DashboardPayload>, String>,
)
    ensures
        sound_step(v, v.dashboard_answered(generation, result), false),
{
    reveal(AppView::dashboard_answered);
    if let Ok(Some(p)) = result {
        reveal(AppView::dashboard_loaded);
        reveal(AppView::dashboard_noted);
        reveal(AppView::caching);
        reveal(AppView::exchanged);
        let (groups, pipelines, etag) = (p.0.deep_view(), p.1.deep_view(), p.2.deep_view());
        let info = crate::app::events::by_name(pipelines);
        let a = v.dashboard_noted(groups.len(), pipelines.len(), etag);
        let b = a.caching(groups, pipelines);
        assert(sound_step(v, a, false));
        assert(sound_step(a, b, false));
        chain(v, a, b, false);
        step_notified(b, info);
        let c = b.notified(info);
        chain(v, b, c, false);
        let d = AppView { groups, pipeline_info: info, loading_groups: false, ..c };
        assert(sound_step(c, d, false));
        chain(v, c, d, false);
        step_rebuilt(d);
        chain(v, d, d.rebuilt(), false);
        step_reselected(d.rebuilt(), c.cursor_key());
        chain(v, d.rebuilt(), d.rebuilt().reselected(c.cursor_key()), false);
    }
}

proof fn step_history_answered(v: AppView, name: Seq<char>, result: Result<HistoryPage, String>)
    ensures
        sound_step(v, v.history_answered(name, result), false),
{
    reveal(AppView::history_answered);
    if let Ok(page) = result {
        reveal(AppView::history_loaded);
        reveal(AppView::runs_stored);
        reveal(AppView::runs_shown);
        reveal(AppView::runs_placed);
        let fresh = page.0.deep_view();
        let runs = crate::app::snapshots::merged_runs(fresh, v.cached_runs(name));
        let a = v.runs_stored(name, fresh, page.1);
        assert(sound_step(v, a, false));
        let b = AppView {
            history: runs,
            history_selected: if a.history_selected < runs.len() {
                a.history_selected
            } else {
                0
            },
            history_loading: false,
            ..a
        };
        assert(sound_step(a, b, false));
        chain(v, a, b, false);
        step_detailed(b);
        let c = a.runs_placed(runs);
        chain(v, b, c, false);
        let d = c.saying("Loaded history for "@ + name);
        chain(v, c, d, false);
        step_checks_started(d, name);
        chain(v, d, d.checks_started(name), false);
    }
}

proof fn step_more_answered(
    v: AppView,
    name: Seq<char>,
    after: u64,
    last_counter: i64,
    result: Result<HistoryPage, String>,
)
    ensures
        sound_step(v, v.more_answered(name, after, last_counter, result), false),
{
    reveal(AppView::more_answered);
    reveal(AppView::more_loaded);
}

proof fn step_refs_traced(v: AppView, pipeline: Seq<char>, refs: Seq<GitRefView>)
    ensures
        sound_step(v, v.refs_traced(pipeline, refs), false),
{
    reveal(AppView::refs_traced);
    let u = AppView { github_checks: crate::app::open::all_checking(refs), ..v };
    step_checking(u, pipeline, refs);
    chain(v, u, u.checking(pipeline, refs), false);
}

/// What comes back from elsewhere keeps the cursors on rows, writes nothing in
/// the demo, loses no work that was asked for and starts no action.
pub proof fn events_are_sound(v: AppView, ev: ApiEvent)
    ensures
        sound_step(v, v.after_event(ev), false),
{
    reveal(AppView::after_event);
    match ev {
        ApiEvent::Dashboard(generation, result) => {
            step_dashboard_answered(v, generation, result);
        },
        ApiEvent::History(name, result) => {
            step_history_answered(v, name@, result);
        },
        ApiEvent::HistoryMore { name, after, issued_last_counter, result } => {
            step_more_answered(v, name@, after, issued_last_counter, result);
        },
        ApiEvent::ActionDone(_, _) => {
            reveal(AppView::action_done);
        },
        ApiEvent::GithubLatest(_, _, _) => {
            reveal(AppView::check_done);
        },
        ApiEvent::ConsoleLog(_, _, _) => {
            reveal(AppView::log_loaded);
        },
        ApiEvent::Artifacts(_, _) => {
            reveal(AppView::artifacts_loaded);
        },
        ApiEvent::Views(_, _) => {
            reveal(AppView::views_loaded);
        },
        ApiEvent::UpstreamRefs(pipeline, refs) => {
            step_refs_traced(v, pipeline@, refs.deep_view());
        },
        ApiEvent::ViewSaved(_, _) => {
            reveal(AppView::view_saved);
        },
    }
}

/// At the start, too, the cursors are on rows, and nothing is written in the
/// demo.
pub proof fn the_start_is_sound(
    cfg: ConfigView,
    client: crate::api::GoCdClientView,
    demo: bool,
    favorites: Set<Seq<char>>,
    gh: Option<Seq<char>>,
    now: u64,
    cached: Option<DashboardCacheView>,
    wall: i64,
)
    ensures
        in_range(blank(cfg, client, demo, favorites, gh, now)),
        sound_step(
            blank(cfg, client, demo, favorites, gh, now),
            blank(cfg, client, demo, favorites, gh, now).started(cached, wall),
            false,
        ),
{
    reveal(blank);
    reveal(AppView::started);
    reveal(AppView::from_cache);
    let b = blank(cfg, client, demo, favorites, gh, now);
    if let Some(c) = cached {
        let u = AppView {
            groups: c.groups,
            pipeline_info: crate::app::events::by_name(c.pipelines),
            status_line: "Showing cached data ("@ + crate::app::hints::age_text(
                c.saved_at_ms as int,
                wall as int,
            ) + "), refreshing..."@,
            ..b
        };
        step_rebuilt(u);
        chain(b, u, u.rebuilt(), false);
        let f = b.from_cache(c, wall);
        assert(sound_step(b, f, false));
        chain(b, f, f.loading_dashboard(), false);
    }
}

// ---- connections ---------------------------------------------------------

/// A new connection puts the cursors at the top and stays in the demo or out of
/// it.
pub proof fn reconnecting_is_sound(v: AppView, cfg: ConfigView, save_error: Option<Seq<char>>)
    ensures
        sound_step(v, v.reconnected(cfg, save_error), false),
{
    reveal(AppView::reconnected);
}

/// Connecting GitHub keeps what every step keeps.
pub proof fn connecting_github_is_sound(
    v: AppView,
    gh: Option<Seq<char>>,
    save_error: Option<Seq<char>>,
)
    ensures
        sound_step(v, v.github_connected(gh, save_error), false),
{
    reveal(AppView::github_connected);
    let ready = AppView {
        github: v.github_connected(gh, save_error).github,
        status_line: v.github_connected(gh, save_error).status_line,
        error_line: v.github_connected(gh, save_error).error_line,
        ..v
    };
    reveal(AppView::checks_started);
    if let Some(name) = v.selected_pipeline {
        step_checking(ready, name, ready.latest_refs());
        step_checks_started(ready, name);
        chain(v, ready, ready.checks_started(name), false);
    }
}

/// An answer that was asked for over an earlier connection changes nothing.
pub proof fn answers_of_earlier_connections_are_dropped(v: AppView, ev: ApiEvent)
    requires
        match ev {
            ApiEvent::Dashboard(generation, _) => generation != v.server_gen,
            ApiEvent::Views(generation, _) => generation != v.server_gen,
            ApiEvent::ViewSaved(generation, _) => generation != v.server_gen,
            _ => false,
        },
    ensures
        v.after_event(ev) == v,
{
    reveal(AppView::after_event);
    reveal(AppView::dashboard_answered);
    reveal(AppView::views_loaded);
    reveal(AppView::view_saved);
}

/// After a reconnect nothing that the old server sent is shown, and what it still
/// sends of its dashboard is dropped.
pub proof fn nothing_is_left_of_the_old_server(
    v: AppView,
    cfg: ConfigView,
    save_error: Option<Seq<char>>,
    result: Result<Option<DashboardPayload>, String>,
)
    requires
        v.server_gen < u64::MAX,
    ensures
        ({
            let w = v.reconnected(cfg, save_error);
            &&& w.groups.len() == 0 && w.rows.len() == 0 && w.history.len() == 0
            &&& w.pipeline_info == Map::<Seq<char>, DashboardPipelineView>::empty()
            &&& w.history_cache == Map::<Seq<char>, Seq<PipelineInstanceView>>::empty()
            &&& w.selected_pipeline is None && w.dashboard_etag is None && w.views.len() == 0
            &&& w.after_event(ApiEvent::Dashboard(v.server_gen, result)) == w
        }),
{
    reveal(AppView::reconnected);
    answers_of_earlier_connections_are_dropped(
        v.reconnected(cfg, save_error),
        ApiEvent::Dashboard(v.server_gen, result),
    );
}

/// Reconnecting changes the server and the credential only: whether certificates
/// are checked, above all, stays as it was set by hand.
pub proof fn reconnecting_keeps_the_other_settings(cfg: ConfigView, form: ReauthFormView)
    ensures
        reconnect_config(cfg, form) == (ConfigView {
            server_url: form.server_url,
            username: reconnect_config(cfg, form).username,
            password: reconnect_config(cfg, form).password,
            auth_token: reconnect_config(cfg, form).auth_token,
            ..cfg
        }),
        reconnect_config(cfg, form).insecure_skip_verify == cfg.insecure_skip_verify,
{
}

/// A token and a password are never both set by the form.
pub proof fn one_credential_at_a_time(cfg: ConfigView, form: ReauthFormView)
    ensures
        ({
            let c = reconnect_config(cfg, form);
            c.auth_token is Some ==> c.username is None && c.password is None
        }),
{
}

// ---- single keys ---------------------------------------------------------

/// Ctrl-c quits, whatever is open and whatever is typed.
pub proof fn ctrl_c_always_quits(v: AppView, now: u64)
    ensures
        v.keyed(Key { code: KeyCode::Char('c'), ctrl: true }, now) == (AppView {
            should_quit: true,
            ..v
        }),
{
    reveal(AppView::keyed);
}

/// Three times Tab leads back to the same pane.
pub proof fn tab_goes_round(v: AppView)
    ensures
        v.tabbed().tabbed().tabbed().focus == v.focus,
{
    reveal(AppView::tabbed);
    reveal(AppView::detailed);
}

/// Three tabs on is the same tab, and back undoes on.
pub proof fn job_tabs_go_round(tab: JobTab)
    ensures
        next_tab(next_tab(next_tab(tab))) == tab,
        previous_tab(next_tab(tab)) == tab,
        next_tab(previous_tab(tab)) == tab,
{
}

/// Starring the open pipeline and starring it again leaves the favorites as they
/// were.
pub proof fn starring_twice_changes_nothing(v: AppView)
    requires
        v.focus != Focus::Groups,
    ensures
        v.favorite_toggled().favorite_toggled().favorites == v.favorites,
{
    reveal(AppView::favorite_toggled);
    reveal(AppView::rebuilt);
    if let Some(name) = v.current_pipeline() {
        if v.favorites.contains(name) {
            assert(v.favorites.remove(name).insert(name) =~= v.favorites);
        } else {
            assert(v.favorites.insert(name).remove(name) =~= v.favorites);
        }
    }
}

/// Esc leads from the details to the history, from there to the tree, and there
/// it clears the filter: three times Esc ends at the whole tree.
pub proof fn esc_leads_back_to_the_tree(v: AppView)
    ensures
        v.gone_back().gone_back().focus == Focus::Groups,
        v.gone_back().gone_back().gone_back().filter.len() == 0,
{
    reveal(AppView::gone_back);
    reveal(AppView::rebuilt);
}

/// A URL that is not plain is not handed to the browser, and that is said.
pub proof fn only_plain_urls_are_opened(v: AppView, url: Seq<char>, done: Seq<char>)
    requires
        !is_plain_url(url),
    ensures
        v.browsing(url, done).outbox == v.outbox,
        v.browsing(url, done).error_line is Some,
{
    reveal(AppView::browsing);
}

/// A question on an action leads with the pipeline that it is about.
pub proof fn questions_lead_with_their_target(v: AppView, code: KeyCode)
    requires
        v.modal is None,
    ensures
        v.action_keyed(code) matches Some(w) ==> (w.modal matches Some(
            ModalView::Confirm { action, message },
        ) ==> text::begins(message, action.pipeline())),
{
    reveal(AppView::action_keyed);
    reveal(AppView::trigger_asked);
    reveal(AppView::trigger_vars_asked);
    reveal(AppView::pause_asked);
    reveal(AppView::cancel_asked);
    reveal(AppView::rerun_asked);
    reveal(AppView::favorite_toggled);
    reveal(AppView::rebuilt);
    reveal(AppView::commit_browsed);
    reveal(AppView::browsing);
    reveal(AppView::copying);
    reveal(AppView::save_view_asked);
    reveal(AppView::views_asked);
    if let Some(w) = v.action_keyed(code) {
        if let Some(ModalView::Confirm { action, message }) = w.modal {
            let n = action.pipeline().len() as int;
            assert(message.take(n) =~= action.pipeline());
        }
    }
}

/// What is read of a log from its end is added to it. What was read from another
/// place than the end is dropped.
pub proof fn tails_are_added(s: ConsoleLogStateView, start: usize, content: String)
    requires
        start > 0,
    ensures
        s.log_arrived(start, Ok(content)).lines == if start == s.lines.len() {
            s.lines + text::lines_of(content@)
        } else {
            s.lines
        },
{
    reveal(ConsoleLogStateView::log_arrived);
    reveal(ConsoleLogStateView::recomputed);
}

/// The same page of history lands once: when it came, it is no longer awaited,
/// and a second copy changes nothing.
pub proof fn a_page_lands_once(
    v: AppView,
    name: Seq<char>,
    after: u64,
    last_counter: i64,
    result: Result<HistoryPage, String>,
    again: Result<HistoryPage, String>,
)
    ensures
        v.more_answered(name, after, last_counter, result).more_answered(
            name,
            after,
            last_counter,
            again,
        ) == v.more_answered(name, after, last_counter, result),
{
    reveal(AppView::more_answered);
    reveal(AppView::more_loaded);
}

} // verus!
