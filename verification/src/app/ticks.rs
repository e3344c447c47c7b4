//! What the mouse does, and what happens by itself as time passes.

use vstd::prelude::*;
use vstd::string::*;

use crate::app::console::console_scroll_up;
use crate::app::{
    App, AppView, Effect, EffectView, Focus, GithubState, GithubStateView, JobRef, JobRefView,
    Modal, ModalView, MouseKind,
};
use crate::dup::Dup;
use crate::model::{PipelineInstanceView, StageInstanceView};
use crate::names::ordered;
use crate::text;

verus! {

// ---- the mouse -----------------------------------------------------------

impl AppView {
    /// The wheel: it scrolls an open log, and else moves the cursor of the pane
    /// under it. Tells also whether anything can have changed.
    #[verifier::opaque]
    pub open spec fn scrolled(self, x: u16, y: u16, up: bool, now: u64) -> (AppView, bool) {
        match self.modal {
            Some(ModalView::ConsoleLog(s)) => (
                self.with_console(
                    if up {
                        s.scrolled_up(self.console_view_height, 3)
                    } else {
                        s.scrolled_down(3)
                    },
                ),
                true,
            ),
            Some(_) => (self, false),
            None => match self.pane_under(x, y) {
                Some(pane) => (
                    self.moved(
                        pane,
                        if up {
                            -1
                        } else {
                            1
                        },
                        now,
                    ),
                    true,
                ),
                None => (self, false),
            },
        }
    }

    /// A click commits the filter and focuses the pane under it.
    #[verifier::opaque]
    pub open spec fn pane_clicked(self, pane: Focus) -> AppView {
        let v = AppView { filter_active: false, focus: pane, ..self };
        if self.focus != pane && pane == Focus::Detail {
            v.detailed()
        } else {
            v
        }
    }

    /// A click on row `idx` of a pane: the second on a row of the focused tree
    /// is Enter.
    #[verifier::opaque]
    pub open spec fn row_clicked(self, pane: Focus, idx: usize, refocused: bool, now: u64) -> AppView {
        match pane {
            Focus::Groups => if !refocused && self.selected == idx {
                self.activated(now)
            } else {
                self.at_row(Focus::Groups, idx, now)
            },
            Focus::History => if self.history_selected != idx {
                self.at_row(Focus::History, idx, now)
            } else {
                self
            },
            Focus::Detail => self,
        }
    }

    #[verifier::opaque]
    pub open spec fn clicked(self, x: u16, y: u16, now: u64) -> (AppView, bool) {
        match (self.modal, self.pane_under(x, y)) {
            (None, Some(pane)) => {
                let v = self.pane_clicked(pane);
                match v.row_under(pane, y) {
                    Some(idx) => (
                        v.row_clicked(pane, idx as usize, self.focus != pane, now),
                        true,
                    ),
                    None => (v, true),
                }
            },
            _ => (self, false),
        }
    }

    pub open spec fn moused(self, kind: MouseKind, x: u16, y: u16, now: u64) -> (AppView, bool) {
        match kind {
            MouseKind::ScrollUp => self.scrolled(x, y, true, now),
            MouseKind::ScrollDown => self.scrolled(x, y, false, now),
            MouseKind::LeftDown => self.clicked(x, y, now),
            MouseKind::Other => (self, false),
        }
    }
}

impl App {
    fn mouse_scroll(&mut self, x: u16, y: u16, up: bool, now: u64) -> (r: bool)
        ensures
            (final(self).deep_view(), r) == old(self).deep_view().scrolled(x, y, up, now),
    {
        proof {
            reveal(AppView::scrolled);
        }
        let h: u16 = self.console_view_height;
        match self.modal.take() {
            Some(Modal::ConsoleLog(boxed)) => {
                let mut state = *boxed;
                if up {
                    console_scroll_up(&mut state, h, 3);
                } else {
                    state.scroll_down(3);
                }
                self.modal = Some(Modal::ConsoleLog(Box::new(state)));
                return true;
            },
            Some(other) => {
                self.modal = Some(other);
                return false;
            },
            None => {},
        }
        match self.pane_at(x, y) {
            Some(pane) => {
                self.move_selection_in(pane, if up { -1 } else { 1 }, now);
                true
            },
            None => false,
        }
    }

    fn click_pane(&mut self, pane: Focus)
        ensures
            final(self).deep_view() == old(self).deep_view().pane_clicked(pane),
    {
        proof {
            reveal(AppView::pane_clicked);
        }
        self.filter_active = false;
        if self.focus != pane {
            self.focus = pane;
            if pane == Focus::Detail {
                self.rebuild_detail_rows();
            }
        }
    }

    fn click_row(&mut self, pane: Focus, idx: usize, refocused: bool, now: u64)
        ensures
            final(self).deep_view() == old(self).deep_view().row_clicked(pane, idx, refocused, now),
    {
        proof {
            reveal(AppView::row_clicked);
        }
        match pane {
            Focus::Groups => {
                if !refocused && self.selected == idx {
                    self.activate_selected(now);
                } else {
                    self.go_to_row(Focus::Groups, idx, now);
                }
            },
            Focus::History => {
                if self.history_selected != idx {
                    self.go_to_row(Focus::History, idx, now);
                }
            },
            Focus::Detail => {},
        }
    }

    fn mouse_click(&mut self, x: u16, y: u16, now: u64) -> (r: bool)
        ensures
            (final(self).deep_view(), r) == old(self).deep_view().clicked(x, y, now),
    {
        proof {
            reveal(AppView::clicked);
        }
        if self.modal.is_some() {
            return false;
        }
        let pane = match self.pane_at(x, y) {
            Some(p) => p,
            None => {
                return false;
            },
        };
        let refocused = self.focus != pane;
        self.click_pane(pane);
        if let Some(idx) = self.row_at(pane, y) {
            self.click_row(pane, idx, refocused, now);
        }
        true
    }

    /// Handles a mouse event at a cell; tells whether anything is to be redrawn.
    pub fn handle_mouse(&mut self, kind: MouseKind, x: u16, y: u16, now: u64) -> (r: bool)
        ensures
            (final(self).deep_view(), r) == old(self).deep_view().moused(kind, x, y, now),
    {
        match kind {
            MouseKind::ScrollUp => self.mouse_scroll(x, y, true, now),
            MouseKind::ScrollDown => self.mouse_scroll(x, y, false, now),
            MouseKind::LeftDown => self.mouse_click(x, y, now),
            MouseKind::Other => false,
        }
    }
}

// ---- time ----------------------------------------------------------------

/// The millis from `since` to `now`, none where it lies ahead.
pub open spec fn elapsed(since: u64, now: u64) -> int {
    if now > since {
        now - since
    } else {
        0
    }
}

fn passed(since: u64, now: u64) -> (r: u64)
    ensures
        r == elapsed(since, now),
{
    if now > since {
        now - since
    } else {
        0
    }
}

/// The first place of the run with that counter; the number of runs where there
/// is none.
pub open spec fn run_with(runs: Seq<PipelineInstanceView>, counter: i64, from: int) -> int
    decreases runs.len() - from,
{
    if from >= runs.len() || runs[from].counter == counter {
        from
    } else {
        run_with(runs, counter, from + 1)
    }
}

/// The first place of the stage of that name; the number of stages where there
/// is none.
pub open spec fn stage_named(stages: Seq<StageInstanceView>, name: Seq<char>, from: int) -> int
    decreases stages.len() - from,
{
    if from >= stages.len() || stages[from].name == name {
        from
    } else {
        stage_named(stages, name, from + 1)
    }
}

impl AppView {
    /// The history of the pipeline that the cursor rests on is fetched ahead,
    /// unless it is there.
    pub open spec fn prefetched(self, now: u64) -> AppView {
        match self.hover_target {
            Some((name, since)) => if elapsed(since, now) < 300 {
                self
            } else {
                let v = AppView { hover_target: None, ..self };
                if self.history_cache.contains_key(name) {
                    v
                } else {
                    v.emitting(EffectView::LoadHistory(name))
                }
            },
            None => self,
        }
    }

    /// The millis between two polls: what the settings say, at least 5 seconds.
    pub open spec fn poll_interval(self) -> int {
        if self.cfg.poll_interval_secs < 5 {
            5000
        } else {
            self.cfg.poll_interval_secs * 1000
        }
    }

    /// The dashboard and the open history refreshed when it is time.
    pub open spec fn polled(self, now: u64) -> AppView {
        if text::trimmed(self.server_url).len() == 0 || elapsed(self.last_poll, now)
            < self.poll_interval() {
            self
        } else {
            let v = AppView { last_poll: now, ..self }.loading_dashboard();
            match self.selected_pipeline {
                Some(name) => v.loading_history(name),
                None => v,
            }
        }
    }

    /// Whether the stage of a job is still running, as far as the history tells.
    pub open spec fn still_active(self, job: JobRefView) -> bool {
        let r = run_with(self.history, job.pipeline_counter, 0);
        if r < self.history.len() {
            let stages = self.history[r].stages;
            let s = stage_named(stages, job.stage, 0);
            s < stages.len() && stages[s].active()
        } else {
            false
        }
    }

    /// The log of a running job followed: its new lines are fetched every three
    /// seconds, and no more once the stage is over.
    pub open spec fn console_polled(self, now: u64) -> AppView {
        match self.modal {
            Some(ModalView::ConsoleLog(s)) => if !s.loading && self.still_active(s.job_ref)
                && elapsed(self.last_console_poll, now) >= 3000 {
                AppView { last_console_poll: now, ..self }.emitting(
                    EffectView::FetchConsole { job: s.job_ref, start_line: s.lines.len() as usize },
                )
            } else {
                self
            },
            _ => self,
        }
    }

    /// Whether a spinner is on screen.
    pub open spec fn animating(self) -> bool {
        ||| self.loading_groups
        ||| self.history_loading
        ||| exists|i: int|
            0 <= i < self.github_checks.len() && (#[trigger] self.github_checks[i]).1
                == GithubStateView::Checking
        ||| (self.modal matches Some(ModalView::ConsoleLog(s)) && (s.loading
            || s.artifacts_loading))
    }
}

impl App {
    /// Called at every turn of the main loop.
    pub fn maybe_prefetch(&mut self, now: u64)
        ensures
            final(self).deep_view() == old(self).deep_view().prefetched(now),
    {
        let (name, since): (String, u64) = match &self.hover_target {
            Some((n, t)) => (n.clone(), *t),
            None => {
                return;
            },
        };
        if passed(since, now) < 300 {
            return;
        }
        self.hover_target = None;
        if self.history_cache.get(name.as_str()).is_none() {
            self.emit(Effect::LoadHistory(name));
        }
    }

    /// Called at every turn of the main loop.
    pub fn maybe_poll(&mut self, now: u64)
        ensures
            final(self).deep_view() == old(self).deep_view().polled(now),
    {
        if text::trim(self.server_url.as_str()).unicode_len() == 0 {
            return;
        }
        let interval: u128 = if self.cfg.poll_interval_secs < 5 {
            5000
        } else {
            self.cfg.poll_interval_secs as u128 * 1000
        };
        if (passed(self.last_poll, now) as u128) < interval {
            return;
        }
        self.last_poll = now;
        self.spawn_load_dashboard();
        if let Some(name) = self.selected_pipeline.dup() {
            self.spawn_load_history(name);
        }
    }

    fn stage_is_active(&self, job: &JobRef) -> (r: bool)
        ensures
            r == self.deep_view().still_active(job.deep_view()),
    {
        let ghost runs = self.deep_view().history;
        let n: usize = self.history.len();
        let mut i: usize = 0;
        while i < n && self.history[i].counter != job.pipeline_counter
            invariant
                runs == self.history.deep_view(),
                n == self.history@.len(),
                i <= n,
                run_with(runs, job.pipeline_counter, 0) == run_with(
                    runs,
                    job.pipeline_counter,
                    i as int,
                ),
            decreases n - i,
        {
            assert(runs[i as int] == self.history@[i as int].deep_view());
            i = i + 1;
        }
        if i == n {
            return false;
        }
        assert(runs[i as int] == self.history@[i as int].deep_view());
        let stages = &self.history[i].stages;
        let ghost all = stages.deep_view();
        let m: usize = stages.len();
        let mut k: usize = 0;
        while k < m && !text::same(stages[k].name.as_str(), job.stage.as_str())
            invariant
                all == stages.deep_view(),
                m == stages@.len(),
                k <= m,
                stage_named(all, job.stage@, 0) == stage_named(all, job.stage@, k as int),
            decreases m - k,
        {
            assert(all[k as int] == stages@[k as int].deep_view());
            k = k + 1;
        }
        if k == m {
            return false;
        }
        assert(all[k as int] == stages@[k as int].deep_view());
        stages[k].is_active()
    }

    /// Called at every turn of the main loop.
    pub fn maybe_poll_console(&mut self, now: u64)
        ensures
            final(self).deep_view() == old(self).deep_view().console_polled(now),
    {
        let (job, start_line): (JobRef, usize) = match &self.modal {
            Some(Modal::ConsoleLog(s)) => {
                if s.loading {
                    return;
                }
                (s.job_ref.dup(), s.lines.len())
            },
            _ => {
                return;
            },
        };
        if !self.stage_is_active(&job) || passed(self.last_console_poll, now) < 3000 {
            return;
        }
        self.last_console_poll = now;
        self.emit(Effect::FetchConsole { job, start_line });
    }

    /// Whether a spinner is on screen: only then frames are drawn unprompted.
    pub fn needs_animation(&self) -> (r: bool)
        ensures
            r == self.deep_view().animating(),
    {
        if self.loading_groups || self.history_loading {
            return true;
        }
        let mut i: usize = 0;
        let ghost all = self.github_checks.deep_view();
        while i < self.github_checks.len()
            invariant
                all == self.github_checks.deep_view(),
                i <= self.github_checks@.len(),
                forall|k: int|
                    0 <= k < i ==> (#[trigger] all[k]).1 != GithubStateView::Checking,
            decreases self.github_checks@.len() - i,
        {
            assert(all[i as int] == self.github_checks@[i as int].deep_view());
            if let GithubState::Checking = &self.github_checks[i].1 {
                return true;
            }
            i = i + 1;
        }
        match &self.modal {
            Some(Modal::ConsoleLog(s)) => s.loading || s.artifacts_loading,
            _ => false,
        }
    }
}

// ---- counts --------------------------------------------------------------

impl AppView {
    /// The names of all pipelines, in order.
    pub open spec fn fleet(self) -> Seq<Seq<char>> {
        ordered(self.pipeline_info.dom())
    }

    pub open spec fn fleet_paused(self) -> nat {
        self.fleet().filter(
            |n: Seq<char>| self.pipeline_info[n].pause_info.paused,
        ).len()
    }

    pub open spec fn fleet_with(self, status: Seq<char>) -> nat {
        self.fleet().filter(|n: Seq<char>| self.pipeline_info[n].latest() == status).len()
    }
}

proof fn lemma_filter_step(s: Seq<Seq<char>>, p: spec_fn(Seq<char>) -> bool, i: int)
    requires
        0 <= i < s.len(),
    ensures
        s.take(i + 1).filter(p).len() == s.take(i).filter(p).len() + if p(s[i]) {
            1int
        } else {
            0
        },
        s.take(i + 1).filter(p).len() <= i + 1,
{
    reveal(Seq::filter);
    assert(s.take(i + 1).drop_last() =~= s.take(i));
    assert(s.take(i + 1).last() == s[i]);
    broadcast use vstd::seq_lib::group_seq_lib_default;
    s.take(i + 1).lemma_filter_len(p);
}

impl App {
    /// How many pipelines are paused, building and failed.
    pub fn fleet_counts(&self) -> (r: (u32, u32, u32))
        requires
            self.deep_view().fleet().len() <= u32::MAX,
        ensures
            r.0 == self.deep_view().fleet_paused(),
            r.1 == self.deep_view().fleet_with("Building"@),
            r.2 == self.deep_view().fleet_with("Failed"@),
    {
        let names = self.pipeline_info.names();
        let ghost info = self.deep_view().pipeline_info;
        let ghost all = names.deep_view();
        assert(info.dom() =~= self.pipeline_info@.dom());
        let ghost is_paused = |n: Seq<char>| info[n].pause_info.paused;
        let ghost is_building = |n: Seq<char>| info[n].latest() == "Building"@;
        let ghost is_failed = |n: Seq<char>| info[n].latest() == "Failed"@;
        let mut paused: u32 = 0;
        let mut building: u32 = 0;
        let mut failed: u32 = 0;
        let mut i: usize = 0;
        proof {
            reveal(Seq::filter);
        }
        while i < names.len()
            invariant
                all == names.deep_view(),
                names@.len() <= u32::MAX,
                i <= names@.len(),
                info == self.pipeline_info.deep_view(),
                all.to_set() == self.pipeline_info@.dom(),
                is_paused == |n: Seq<char>| info[n].pause_info.paused,
                is_building == |n: Seq<char>| info[n].latest() == "Building"@,
                is_failed == |n: Seq<char>| info[n].latest() == "Failed"@,
                paused == all.take(i as int).filter(is_paused).len(),
                building == all.take(i as int).filter(is_building).len(),
                failed == all.take(i as int).filter(is_failed).len(),
                paused <= i,
                building <= i,
                failed <= i,
            decreases names@.len() - i,
        {
            proof {
                lemma_filter_step(all, is_paused, i as int);
                lemma_filter_step(all, is_building, i as int);
                lemma_filter_step(all, is_failed, i as int);
                assert(all[i as int] == names@[i as int]@);
                assert(all.to_set().contains(all[i as int]));
            }
            if let Some(p) = self.pipeline_info.get(names[i].as_str()) {
                assert(info[names@[i as int]@] == p.deep_view());
                if p.pause_info.paused {
                    paused = paused + 1;
                }
                let status = p.latest_status();
                if text::same(status, "Building") {
                    building = building + 1;
                }
                if text::same(status, "Failed") {
                    failed = failed + 1;
                }
            }
            i = i + 1;
        }
        assert(all.take(i as int) =~= all);
        (paused, building, failed)
    }
}

} // verus!
