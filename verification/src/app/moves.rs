//! Moving the cursor: in the tree, the history and the details, by key and by
//! mouse.

use vstd::prelude::*;
use vstd::string::*;

use crate::app::tree::clamped;
use crate::app::{App, AppView, DetailRow, Effect, EffectView, Focus, Rect, Row};
use crate::model::{PipelineInstance, PipelineInstanceView, StageInstanceView};
use crate::text;

verus! {

// ---- details -------------------------------------------------------------

/// The rows of a run: each stage, and after it its jobs.
pub open spec fn rows_of_stages(stages: Seq<StageInstanceView>) -> Seq<DetailRow>
    decreases stages.len(),
{
    if stages.len() == 0 {
        Seq::empty()
    } else {
        let si = (stages.len() - 1) as usize;
        rows_of_stages(stages.drop_last()).push(DetailRow::Stage(si)) + Seq::new(
            stages.last().jobs.len(),
            |ji: int| DetailRow::Job(si, ji as usize),
        )
    }
}

impl AppView {
    /// The run that is selected in the history.
    pub open spec fn current_run(self) -> Option<PipelineInstanceView> {
        if self.history_selected < self.history.len() {
            Some(self.history[self.history_selected as int])
        } else {
            None
        }
    }

    pub open spec fn run_rows(self) -> Seq<DetailRow> {
        match self.current_run() {
            Some(inst) => rows_of_stages(inst.stages),
            None => Seq::empty(),
        }
    }

    /// The state with the rows of the details made anew.
    #[verifier::opaque]
    pub open spec fn detailed(self) -> AppView {
        AppView {
            detail_rows: self.run_rows(),
            detail_selected: clamped(self.detail_selected, self.run_rows().len()),
            ..self
        }
    }

    // ---- hovering ----

    /// The pipeline under the cursor is noted with the time at which the cursor
    /// came to it.
    #[verifier::opaque]
    pub open spec fn hovering(self, now: u64) -> AppView {
        match self.row_pipeline(self.cursor_row()) {
            Some(name) => if self.hover_target matches Some((n, _)) && n == name {
                self
            } else {
                AppView { hover_target: Some((name, now)), ..self }
            },
            None => AppView { hover_target: None, ..self },
        }
    }

    // ---- pages of history ----

    /// Whether the next page is to be fetched: the cursor is on the last loaded
    /// run, there is a next page, and none is on its way.
    pub open spec fn wants_more(self) -> bool {
        &&& self.history_more_inflight is None
        &&& self.history.len() > 0
        &&& self.history_selected + 1 >= self.history.len()
        &&& self.selected_pipeline is Some
        &&& self.history_next.contains_key(self.selected_pipeline->Some_0)
    }

    #[verifier::opaque]
    pub open spec fn loading_more(self) -> AppView {
        if self.wants_more() {
            let name = self.selected_pipeline->Some_0;
            let after = self.history_next[name];
            AppView {
                history_more_inflight: Some((name, after)),
                status_line: "\u{2026}loading more runs of "@ + name,
                ..self.emitting(
                    EffectView::LoadMoreHistory {
                        name,
                        after,
                        last_counter: self.history.last().counter,
                    },
                )
            }
        } else {
            self
        }
    }

    // ---- moving ----

    pub open spec fn pane_cursor(self, pane: Focus) -> usize {
        match pane {
            Focus::Groups => self.selected,
            Focus::History => self.history_selected,
            Focus::Detail => self.detail_selected,
        }
    }

    pub open spec fn pane_len(self, pane: Focus) -> nat {
        match pane {
            Focus::Groups => self.rows.len(),
            Focus::History => self.history.len(),
            Focus::Detail => self.detail_rows.len(),
        }
    }

    /// The cursor of a pane put on row `idx`.
    #[verifier::opaque]
    pub open spec fn at_row(self, pane: Focus, idx: usize, now: u64) -> AppView {
        match pane {
            Focus::Groups => AppView { selected: idx, ..self }.hovering(now),
            Focus::History => AppView {
                history_selected: idx,
                ..self
            }.detailed().loading_more(),
            Focus::Detail => AppView { detail_selected: idx, ..self },
        }
    }

    /// The cursor of a pane moved by `delta` rows, as far as there are rows.
    #[verifier::opaque]
    pub open spec fn moved(self, pane: Focus, delta: int, now: u64) -> AppView {
        let len = self.pane_len(pane);
        let to = self.pane_cursor(pane) + delta;
        if len == 0 {
            self
        } else if to < 0 {
            self.at_row(pane, 0, now)
        } else if to >= len {
            self.at_row(pane, (len - 1) as usize, now)
        } else {
            self.at_row(pane, to as usize, now)
        }
    }

    /// Half of the visible rows of the focused pane, at least one.
    pub open spec fn half_page_rows(self) -> int {
        let height = match self.focus {
            Focus::Groups => self.tree_area.height as int,
            Focus::History => self.history_area.height - 1,
            Focus::Detail => self.detail_area.height as int,
        };
        if height < 4 {
            1
        } else {
            (height - 2) / 2
        }
    }
}

impl App {
    pub(crate) fn run(&self) -> (r: Option<&PipelineInstance>)
        ensures
            r.deep_view() == self.deep_view().current_run(),
    {
        assert(self.history.deep_view().len() == self.history@.len());
        if self.history_selected < self.history.len() {
            assert(self.history.deep_view()[self.history_selected as int]
                == self.history@[self.history_selected as int].deep_view());
            Some(&self.history[self.history_selected])
        } else {
            None
        }
    }

    fn detail_rows_of(inst: &PipelineInstance) -> (r: Vec<DetailRow>)
        ensures
            r@ == rows_of_stages(inst.deep_view().stages),
    {
        let ghost all = inst.stages.deep_view();
        let mut rows: Vec<DetailRow> = Vec::new();
        let mut si: usize = 0;
        while si < inst.stages.len()
            invariant
                all == inst.stages.deep_view(),
                si <= inst.stages@.len(),
                rows@ == rows_of_stages(all.take(si as int)),
            decreases inst.stages@.len() - si,
        {
            let jobs = &inst.stages[si].jobs;
            let ghost before = rows@;
            assert(all.take(si + 1).drop_last() =~= all.take(si as int));
            assert(all.take(si + 1).last() == inst.stages@[si as int].deep_view());
            assert(all.take(si + 1).last().jobs.len() == jobs@.len());
            rows.push(DetailRow::Stage(si));
            let mut ji: usize = 0;
            assert(rows@ =~= before.push(DetailRow::Stage(si)) + Seq::new(
                0,
                |j: int| DetailRow::Job(si, j as usize),
            ));
            while ji < jobs.len()
                invariant
                    ji <= jobs@.len(),
                    rows@ == before.push(DetailRow::Stage(si)) + Seq::new(
                        ji as nat,
                        |j: int| DetailRow::Job(si, j as usize),
                    ),
                decreases jobs@.len() - ji,
            {
                rows.push(DetailRow::Job(si, ji));
                ji = ji + 1;
                assert(rows@ =~= before.push(DetailRow::Stage(si)) + Seq::new(
                    ji as nat,
                    |j: int| DetailRow::Job(si, j as usize),
                ));
            }
            assert(rows@ =~= rows_of_stages(all.take(si + 1)));
            si = si + 1;
        }
        assert(all.take(si as int) =~= all);
        rows
    }

    pub(crate) fn rebuild_detail_rows(&mut self)
        ensures
            final(self).deep_view() == old(self).deep_view().detailed(),
    {
        proof {
            reveal(AppView::detailed);
        }
        let rows = match self.run() {
            Some(inst) => Self::detail_rows_of(inst),
            None => Vec::new(),
        };
        assert(rows@ =~= self.deep_view().run_rows());
        let n: usize = rows.len();
        self.detail_rows = rows;
        if self.detail_selected >= n {
            self.detail_selected = if n == 0 { 0 } else { n - 1 };
        }
    }

    pub(crate) fn update_hover_target(&mut self, now: u64)
        ensures
            final(self).deep_view() == old(self).deep_view().hovering(now),
    {
        proof {
            reveal(AppView::hovering);
        }
        let name = match self.selected_row() {
            Some(Row::Pipeline { group_idx, pipeline_idx }) => match self.pipeline_name_at(
                *group_idx,
                *pipeline_idx,
            ) {
                Some(n) => Some(n.clone()),
                None => None,
            },
            Some(Row::FavoritePipeline(n)) => Some(n.clone()),
            _ => None,
        };
        match name {
            Some(n) => {
                let hovering = match &self.hover_target {
                    Some((m, _)) => text::same(m.as_str(), n.as_str()),
                    None => false,
                };
                if !hovering {
                    self.hover_target = Some((n, now));
                }
            },
            None => {
                self.hover_target = None;
            },
        }
    }

    /// Fetches the next page of history where the cursor is on the last loaded
    /// run.
    pub(crate) fn maybe_load_more_history(&mut self)
        ensures
            final(self).deep_view() == old(self).deep_view().loading_more(),
    {
        proof {
            reveal(AppView::loading_more);
        }
        let n: usize = self.history.len();
        if self.history_more_inflight.is_some() || n == 0 {
            return;
        }
        if self.history_selected < n - 1 {
            return;
        }
        let name = match &self.selected_pipeline {
            Some(x) => x.clone(),
            None => {
                return;
            },
        };
        let after: u64 = match self.history_next.get(name.as_str()) {
            Some(c) => *c,
            None => {
                return;
            },
        };
        let last_counter: i64 = self.history[n - 1].counter;
        assert(self.deep_view().history.last() == self.history@[n - 1].deep_view());
        self.history_more_inflight = Some((name.clone(), after));
        self.say(text::cat2("\u{2026}loading more runs of ", name.as_str()));
        self.emit(Effect::LoadMoreHistory { name, after, last_counter });
        assert(self.deep_view() =~= old(self).deep_view().loading_more());
    }

    pub(crate) fn go_to_row(&mut self, pane: Focus, idx: usize, now: u64)
        ensures
            final(self).deep_view() == old(self).deep_view().at_row(pane, idx, now),
    {
        proof {
            reveal(AppView::at_row);
        }
        match pane {
            Focus::Groups => {
                self.selected = idx;
                self.update_hover_target(now);
            },
            Focus::History => {
                self.history_selected = idx;
                self.rebuild_detail_rows();
                self.maybe_load_more_history();
            },
            Focus::Detail => {
                self.detail_selected = idx;
            },
        }
    }

    pub(crate) fn move_selection_in(&mut self, pane: Focus, delta: i128, now: u64)
        requires
            -0x1_0000_0000_0000_0000 <= delta <= 0x1_0000_0000_0000_0000,
        ensures
            final(self).deep_view() == old(self).deep_view().moved(pane, delta as int, now),
    {
        proof {
            reveal(AppView::moved);
        }
        let (current, len): (usize, usize) = match pane {
            Focus::Groups => (self.selected, self.rows.len()),
            Focus::History => (self.history_selected, self.history.len()),
            Focus::Detail => (self.detail_selected, self.detail_rows.len()),
        };
        assert(len == self.deep_view().pane_len(pane));
        if len == 0 {
            return;
        }
        let to: i128 = current as i128 + delta;
        let idx: usize = if to < 0 {
            0
        } else if to >= len as i128 {
            len - 1
        } else {
            to as usize
        };
        self.go_to_row(pane, idx, now);
    }

    pub(crate) fn focused_len(&self) -> (r: usize)
        ensures
            r == self.deep_view().pane_len(self.focus),
    {
        match self.focus {
            Focus::Groups => self.rows.len(),
            Focus::History => self.history.len(),
            Focus::Detail => self.detail_rows.len(),
        }
    }

    pub(crate) fn half_page(&self) -> (r: i128)
        ensures
            r == self.deep_view().half_page_rows(),
            1 <= r <= 65535,
    {
        let height: i128 = match self.focus {
            Focus::Groups => self.tree_area.height as i128,
            Focus::History => self.history_area.height as i128 - 1,
            Focus::Detail => self.detail_area.height as i128,
        };
        if height < 4 {
            1
        } else {
            (height - 2) / 2
        }
    }
}

// ---- the mouse -----------------------------------------------------------

/// Whether a cell lies in a part of the screen.
pub open spec fn inside(r: Rect, x: u16, y: u16) -> bool {
    r.x <= x < r.x + r.width && r.y <= y < r.y + r.height
}

pub fn hit(r: Rect, x: u16, y: u16) -> (b: bool)
    ensures
        b == inside(r, x, y),
{
    r.x <= x && (x as u32) < r.x as u32 + r.width as u32 && r.y <= y && (y as u32) < r.y as u32
        + r.height as u32
}

impl AppView {
    /// The pane at a cell.
    pub open spec fn pane_under(self, x: u16, y: u16) -> Option<Focus> {
        if inside(self.tree_area, x, y) {
            Some(Focus::Groups)
        } else if inside(self.history_area, x, y) {
            Some(Focus::History)
        } else if inside(self.detail_area, x, y) {
            Some(Focus::Detail)
        } else {
            None
        }
    }

    /// The row of a pane at a line of the screen: below the border, and in the
    /// history below the header too, counted from the first visible row.
    pub open spec fn row_under(self, pane: Focus, y: u16) -> Option<int> {
        let (area, first, offset) = match pane {
            Focus::Groups => (self.tree_area, self.tree_area.y + 1, self.tree_offset),
            _ => (self.history_area, self.history_area.y + 2, self.history_offset),
        };
        let last = if area.height == 0 {
            area.y as int
        } else {
            area.y + area.height - 1
        };
        let idx = offset + (y - first);
        if pane == Focus::Detail || y < first || y >= last || idx >= self.pane_len(pane) {
            None
        } else {
            Some(idx)
        }
    }
}

impl App {
    pub(crate) fn pane_at(&self, x: u16, y: u16) -> (r: Option<Focus>)
        ensures
            r == self.deep_view().pane_under(x, y),
    {
        if hit(self.tree_area, x, y) {
            Some(Focus::Groups)
        } else if hit(self.history_area, x, y) {
            Some(Focus::History)
        } else if hit(self.detail_area, x, y) {
            Some(Focus::Detail)
        } else {
            None
        }
    }

    pub(crate) fn row_at(&self, pane: Focus, y: u16) -> (r: Option<usize>)
        ensures
            match r {
                Some(i) => self.deep_view().row_under(pane, y) == Some(i as int),
                None => self.deep_view().row_under(pane, y) is None,
            },
    {
        let (area, skip, offset, len): (Rect, u32, usize, usize) = match pane {
            Focus::Groups => (self.tree_area, 1, self.tree_offset, self.rows.len()),
            Focus::History => (self.history_area, 2, self.history_offset, self.history.len()),
            Focus::Detail => {
                return None;
            },
        };
        let first: u32 = area.y as u32 + skip;
        let last: u32 = if area.height == 0 {
            area.y as u32
        } else {
            area.y as u32 + area.height as u32 - 1
        };
        let line: u32 = y as u32;
        if line < first || line >= last {
            return None;
        }
        let idx: u128 = offset as u128 + (line - first) as u128;
        if idx < len as u128 {
            Some(idx as usize)
        } else {
            None
        }
    }
}

} // verus!
