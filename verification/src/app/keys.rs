//! What each key and each mouse event does.

use vstd::prelude::*;
use vstd::string::*;

use crate::app::forms::fresh_reauth;
use crate::app::matching::{fuzzy_match, matched};
use crate::app::{
    App, AppView, DetailRow, Focus, Key, KeyCode, Modal, ModalView, ReauthForm, ReauthMode, Row,
    RowView,
};
use crate::dup::Dup;
use crate::model::{DashboardGroup, DashboardGroupView};
use crate::text;

verus! {

// ---- the tree ------------------------------------------------------------

/// The first row at or after `from` that heads group `gi`; the number of rows
/// where there is none.
pub open spec fn group_place(rows: Seq<RowView>, gi: usize, from: int) -> int
    decreases rows.len() - from,
{
    if from >= rows.len() || rows[from] == (RowView::Group { idx: gi }) {
        from
    } else {
        group_place(rows, gi, from + 1)
    }
}

/// The first row at or after `from` that heads the favorites.
pub open spec fn header_place(rows: Seq<RowView>, from: int) -> int
    decreases rows.len() - from,
{
    if from >= rows.len() || rows[from] == RowView::FavoritesHeader {
        from
    } else {
        header_place(rows, from + 1)
    }
}

impl AppView {
    /// Enter: a group opens or closes, a pipeline opens, a job shows its log.
    #[verifier::opaque]
    pub open spec fn activated(self, now: u64) -> AppView {
        match self.focus {
            Focus::Groups => match self.cursor_row() {
                Some(RowView::Group { idx }) => if idx < self.groups.len() {
                    let name = self.groups[idx as int].name;
                    AppView {
                        expanded: if self.expanded.contains(name) {
                            self.expanded.remove(name)
                        } else {
                            self.expanded.insert(name)
                        },
                        ..self
                    }.rebuilt()
                } else {
                    self
                },
                Some(RowView::Pipeline { group_idx, pipeline_idx }) => match self.pipeline_at(
                    group_idx,
                    pipeline_idx,
                ) {
                    Some(name) => self.opened(name),
                    None => self,
                },
                Some(RowView::FavoritesHeader) => AppView {
                    favorites_expanded: !self.favorites_expanded,
                    ..self
                }.rebuilt(),
                Some(RowView::FavoritePipeline(name)) => self.opened(name),
                None => self,
            },
            Focus::History => self,
            Focus::Detail => if self.detail_selected < self.detail_rows.len() {
                match self.detail_rows[self.detail_selected as int] {
                    DetailRow::Job(si, ji) => self.console_opened(si, ji, now),
                    DetailRow::Stage(_) => self,
                }
            } else {
                self
            },
        }
    }

    /// Left in the tree: the group closes, and the cursor goes to it.
    #[verifier::opaque]
    pub open spec fn collapsed(self) -> AppView {
        if self.focus != Focus::Groups {
            self
        } else {
            match self.cursor_row() {
                Some(RowView::Group { idx }) => if idx < self.groups.len() {
                    AppView {
                        expanded: self.expanded.remove(self.groups[idx as int].name),
                        ..self
                    }.rebuilt()
                } else {
                    self
                },
                Some(RowView::Pipeline { group_idx, .. }) => if group_idx < self.groups.len() {
                    let v = AppView {
                        expanded: self.expanded.remove(self.groups[group_idx as int].name),
                        ..self
                    }.rebuilt();
                    let p = group_place(v.rows, group_idx, 0);
                    if p < v.rows.len() {
                        AppView { selected: p as usize, ..v }
                    } else {
                        v
                    }
                } else {
                    self
                },
                Some(RowView::FavoritePipeline(_)) => {
                    let v = AppView { favorites_expanded: false, ..self }.rebuilt();
                    let p = header_place(v.rows, 0);
                    if p < v.rows.len() {
                        AppView { selected: p as usize, ..v }
                    } else {
                        v
                    }
                },
                _ => self,
            }
        }
    }

    /// Esc: one pane back, and in the tree the filter goes.
    #[verifier::opaque]
    pub open spec fn gone_back(self) -> AppView {
        match self.focus {
            Focus::Detail => AppView { focus: Focus::History, ..self },
            Focus::History => AppView { focus: Focus::Groups, ..self },
            Focus::Groups => if self.filter.len() > 0 {
                AppView { filter: Seq::empty(), ..self }.rebuilt()
            } else {
                self
            },
        }
    }

    /// 'r': the dashboard and the open history fetched again.
    #[verifier::opaque]
    pub open spec fn refreshed(self) -> AppView {
        let v = AppView {
            loading_groups: true,
            status_line: "Refreshing..."@,
            ..self
        }.loading_dashboard();
        match self.selected_pipeline {
            Some(name) => v.loading_history(name),
            None => v,
        }
    }

    /// A key while the filter is typed.
    #[verifier::opaque]
    pub open spec fn filter_keyed(self, key: Key) -> AppView {
        match key.code {
            KeyCode::Esc => AppView { filter_active: false, filter: Seq::empty(), ..self }.rebuilt(),
            KeyCode::Enter => AppView { filter_active: false, ..self },
            KeyCode::Backspace => AppView {
                filter: text::without_last(self.filter),
                ..self
            }.rebuilt(),
            KeyCode::Char(c) => AppView { filter: self.filter.push(c), ..self }.rebuilt(),
            _ => self,
        }
    }

    /// Tab: the next pane.
    #[verifier::opaque]
    pub open spec fn tabbed(self) -> AppView {
        match self.focus {
            Focus::Groups => AppView { focus: Focus::History, ..self },
            Focus::History => AppView { focus: Focus::Detail, ..self }.detailed(),
            Focus::Detail => AppView { focus: Focus::Groups, ..self },
        }
    }
}

impl App {
    pub(crate) fn activate_selected(&mut self, now: u64)
        ensures
            final(self).deep_view() == old(self).deep_view().activated(now),
    {
        proof {
            reveal(AppView::activated);
        }
        let ghost start = self.deep_view();
        match self.focus {
            Focus::Groups => {
                let row = match self.selected_row() {
                    Some(r) => r.dup(),
                    None => {
                        return;
                    },
                };
                match row {
                    Row::Group { idx } => {
                        if idx < self.groups.len() {
                            assert(start.groups[idx as int].name == self.groups@[idx as int].name@);
                            let name = self.groups[idx].name.clone();
                            if self.expanded.contains(name.as_str()) {
                                self.expanded.remove(name.as_str());
                            } else {
                                self.expanded.insert(name.as_str());
                            }
                            self.rebuild_rows();
                        }
                    },
                    Row::Pipeline { group_idx, pipeline_idx } => {
                        let name = match self.pipeline_name_at(group_idx, pipeline_idx) {
                            Some(n) => n.clone(),
                            None => {
                                return;
                            },
                        };
                        self.open_pipeline(name);
                    },
                    Row::FavoritesHeader => {
                        self.favorites_expanded = !self.favorites_expanded;
                        self.rebuild_rows();
                    },
                    Row::FavoritePipeline(name) => {
                        self.open_pipeline(name);
                    },
                }
            },
            Focus::History => {},
            Focus::Detail => {
                if self.detail_selected < self.detail_rows.len() {
                    match self.detail_rows[self.detail_selected] {
                        DetailRow::Job(si, ji) => {
                            self.open_console_log_for(si, ji, now);
                        },
                        DetailRow::Stage(_) => {},
                    }
                }
            },
        }
    }

    fn select_group(&mut self, gi: usize)
        ensures
            final(self).deep_view() == {
                let v = old(self).deep_view();
                let p = group_place(v.rows, gi, 0);
                if p < v.rows.len() {
                    AppView { selected: p as usize, ..v }
                } else {
                    v
                }
            },
    {
        let ghost all = self.deep_view().rows;
        let n: usize = self.rows.len();
        let mut i: usize = 0;
        while i < n
            invariant
                all == self.rows.deep_view(),
                self.deep_view() == old(self).deep_view(),
                n == all.len(),
                i <= n,
                group_place(all, gi, 0) == group_place(all, gi, i as int),
            decreases n - i,
        {
            assert(all[i as int] == self.rows@[i as int].deep_view());
            if let Row::Group { idx } = &self.rows[i] {
                if *idx == gi {
                    self.selected = i;
                    return;
                }
            }
            i = i + 1;
        }
    }

    fn select_favorites(&mut self)
        ensures
            final(self).deep_view() == {
                let v = old(self).deep_view();
                let p = header_place(v.rows, 0);
                if p < v.rows.len() {
                    AppView { selected: p as usize, ..v }
                } else {
                    v
                }
            },
    {
        let ghost all = self.deep_view().rows;
        let n: usize = self.rows.len();
        let mut i: usize = 0;
        while i < n
            invariant
                all == self.rows.deep_view(),
                self.deep_view() == old(self).deep_view(),
                n == all.len(),
                i <= n,
                header_place(all, 0) == header_place(all, i as int),
            decreases n - i,
        {
            assert(all[i as int] == self.rows@[i as int].deep_view());
            if let Row::FavoritesHeader = &self.rows[i] {
                self.selected = i;
                return;
            }
            i = i + 1;
        }
    }

    pub(crate) fn collapse_selected(&mut self)
        ensures
            final(self).deep_view() == old(self).deep_view().collapsed(),
    {
        proof {
            reveal(AppView::collapsed);
        }
        let ghost start = self.deep_view();
        if self.focus != Focus::Groups {
            return;
        }
        let row = match self.selected_row() {
            Some(r) => r.dup(),
            None => {
                return;
            },
        };
        match row {
            Row::Group { idx } => {
                if idx < self.groups.len() {
                    assert(start.groups[idx as int].name == self.groups@[idx as int].name@);
                    let name = self.groups[idx].name.clone();
                    self.expanded.remove(name.as_str());
                    self.rebuild_rows();
                }
            },
            Row::Pipeline { group_idx, .. } => {
                if group_idx < self.groups.len() {
                    assert(start.groups[group_idx as int].name
                        == self.groups@[group_idx as int].name@);
                    let name = self.groups[group_idx].name.clone();
                    self.expanded.remove(name.as_str());
                    self.rebuild_rows();
                    self.select_group(group_idx);
                }
            },
            Row::FavoritePipeline(_) => {
                self.favorites_expanded = false;
                self.rebuild_rows();
                self.select_favorites();
            },
            Row::FavoritesHeader => {},
        }
    }

    fn go_back(&mut self)
        ensures
            final(self).deep_view() == old(self).deep_view().gone_back(),
    {
        proof {
            reveal(AppView::gone_back);
        }
        match self.focus {
            Focus::Detail => {
                self.focus = Focus::History;
            },
            Focus::History => {
                self.focus = Focus::Groups;
            },
            Focus::Groups => {
                if self.filter.as_str().unicode_len() > 0 {
                    self.filter = text::empty();
                    self.rebuild_rows();
                }
            },
        }
    }

    fn refresh(&mut self)
        ensures
            final(self).deep_view() == old(self).deep_view().refreshed(),
    {
        proof {
            reveal(AppView::refreshed);
        }
        self.loading_groups = true;
        self.say(text::owned("Refreshing..."));
        self.spawn_load_dashboard();
        if let Some(name) = self.selected_pipeline.dup() {
            self.spawn_load_history(name);
        }
    }

    fn handle_filter_key(&mut self, key: Key)
        ensures
            final(self).deep_view() == old(self).deep_view().filter_keyed(key),
    {
        proof {
            reveal(AppView::filter_keyed);
        }
        match key.code {
            KeyCode::Esc => {
                self.filter_active = false;
                self.filter = text::empty();
                self.rebuild_rows();
            },
            KeyCode::Enter => {
                self.filter_active = false;
            },
            KeyCode::Backspace => {
                self.filter = text::pop_last(self.filter.as_str());
                self.rebuild_rows();
            },
            KeyCode::Char(c) => {
                self.filter.push(c);
                self.rebuild_rows();
            },
            _ => {},
        }
    }

    fn next_pane(&mut self)
        ensures
            final(self).deep_view() == old(self).deep_view().tabbed(),
    {
        proof {
            reveal(AppView::tabbed);
        }
        match self.focus {
            Focus::Groups => {
                self.focus = Focus::History;
            },
            Focus::History => {
                self.focus = Focus::Detail;
                self.rebuild_detail_rows();
            },
            Focus::Detail => {
                self.focus = Focus::Groups;
            },
        }
    }
}

// ---- views ---------------------------------------------------------------

/// The names of `names` that a filter matches.
pub open spec fn names_matching(names: Seq<Seq<char>>, filter: Seq<char>) -> Seq<Seq<char>>
    decreases names.len(),
{
    if names.len() == 0 {
        Seq::empty()
    } else {
        let above = names_matching(names.drop_last(), filter);
        if matched(names.last(), filter, 0) is Some {
            above.push(names.last())
        } else {
            above
        }
    }
}

/// The pipelines of all groups that a filter matches.
pub open spec fn pipelines_matching(groups: Seq<DashboardGroupView>, filter: Seq<char>) -> Seq<
    Seq<char>,
>
    decreases groups.len(),
{
    if groups.len() == 0 {
        Seq::empty()
    } else {
        pipelines_matching(groups.drop_last(), filter) + names_matching(
            groups.last().pipelines,
            filter,
        )
    }
}

impl AppView {
    /// 'V': the pipelines that the filter matches, to be saved as a view.
    #[verifier::opaque]
    pub open spec fn save_view_asked(self) -> AppView {
        let pipelines = pipelines_matching(self.groups, self.filter);
        if self.filter.len() == 0 {
            self.saying("Filter first (/), then V saves the matches as a GoCD view"@)
        } else if pipelines.len() == 0 {
            self.saying("No pipelines match the current filter"@)
        } else {
            self.showing(ModalView::SaveView { input: Seq::empty(), pipelines })
        }
    }

    /// 'v': the views to pick from. That there are none is said in other words
    /// than that they could not be loaded.
    #[verifier::opaque]
    pub open spec fn views_asked(self) -> AppView {
        if self.views.len() > 0 {
            self.showing(
                ModalView::ViewPicker {
                    selected: match self.active_view {
                        Some(i) => if i == usize::MAX {
                            usize::MAX
                        } else {
                            (i + 1) as usize
                        },
                        None => 0,
                    },
                },
            )
        } else {
            match self.views_error {
                Some(e) => self.failing("Could not load views: "@ + e),
                None => self.saying(
                    "No personalized views on this server (create them in the GoCD dashboard)"@,
                ),
            }
        }
    }
}

fn names_into(names: &Vec<String>, filter: &str, out: &mut Vec<String>)
    ensures
        final(out).deep_view() == old(out).deep_view() + names_matching(
            names.deep_view(),
            filter@,
        ),
{
    let ghost start = out.deep_view();
    let ghost all = names.deep_view();
    let mut i: usize = 0;
    assert(start + names_matching(all.take(0), filter@) =~= start);
    while i < names.len()
        invariant
            all == names.deep_view(),
            i <= names@.len(),
            out.deep_view() == start + names_matching(all.take(i as int), filter@),
        decreases names@.len() - i,
    {
        let ghost before = out.deep_view();
        assert(all.take(i + 1).drop_last() =~= all.take(i as int));
        assert(all.take(i + 1).last() == names@[i as int]@);
        if fuzzy_match(names[i].as_str(), filter).is_some() {
            out.push(names[i].clone());
            assert(out.deep_view() =~= before.push(names@[i as int]@));
        }
        assert(out.deep_view() =~= start + names_matching(all.take(i + 1), filter@));
        i = i + 1;
    }
    assert(all.take(i as int) =~= all);
}

fn all_matching(groups: &Vec<DashboardGroup>, filter: &str) -> (r: Vec<String>)
    ensures
        r.deep_view() == pipelines_matching(groups.deep_view(), filter@),
{
    let ghost all = groups.deep_view();
    let mut out: Vec<String> = Vec::new();
    let mut i: usize = 0;
    assert(out.deep_view() =~= Seq::<Seq<char>>::empty());
    while i < groups.len()
        invariant
            all == groups.deep_view(),
            i <= groups@.len(),
            out.deep_view() == pipelines_matching(all.take(i as int), filter@),
        decreases groups@.len() - i,
    {
        assert(all.take(i + 1).drop_last() =~= all.take(i as int));
        assert(all.take(i + 1).last() == groups@[i as int].deep_view());
        names_into(&groups[i].pipelines, filter, &mut out);
        i = i + 1;
    }
    assert(all.take(i as int) =~= all);
    out
}

impl App {
    fn request_save_view(&mut self)
        ensures
            final(self).deep_view() == old(self).deep_view().save_view_asked(),
    {
        proof {
            reveal(AppView::save_view_asked);
        }
        if self.filter.as_str().unicode_len() == 0 {
            self.say(text::owned("Filter first (/), then V saves the matches as a GoCD view"));
            return;
        }
        let pipelines = all_matching(&self.groups, self.filter.as_str());
        assert(pipelines.deep_view().len() == pipelines@.len());
        if pipelines.len() == 0 {
            self.say(text::owned("No pipelines match the current filter"));
        } else {
            self.modal = Some(Modal::SaveView { input: text::empty(), pipelines });
        }
    }

    fn request_views(&mut self)
        ensures
            final(self).deep_view() == old(self).deep_view().views_asked(),
    {
        proof {
            reveal(AppView::views_asked);
        }
        assert(self.deep_view().views.len() == self.views@.len());
        if self.views.len() > 0 {
            let selected: usize = match self.active_view {
                Some(i) => if i == usize::MAX {
                    usize::MAX
                } else {
                    i + 1
                },
                None => 0,
            };
            self.modal = Some(Modal::ViewPicker { selected });
            return;
        }
        match &self.views_error {
            Some(e) => {
                let words = text::cat2("Could not load views: ", e.as_str());
                self.fail(words);
            },
            None => {
                self.say(
                    text::owned(
                        "No personalized views on this server (create them in the GoCD dashboard)",
                    ),
                );
            },
        }
    }
}

// ---- keys ----------------------------------------------------------------

impl AppView {
    /// A key in what is open over the panes.
    #[verifier::opaque]
    pub open spec fn modal_keyed(self, key: Key, m: ModalView) -> AppView {
        match m {
            ModalView::Help => self.closed(),
            ModalView::Confirm { action, message } => self.confirm_keyed(key, action, message),
            ModalView::Reauth(form) => self.reauth_keyed(key, form),
            ModalView::GithubConnect { input } => self.github_keyed(key, input),
            ModalView::TriggerVars(form) => self.vars_keyed(key, form),
            ModalView::ViewPicker { selected } => self.picker_keyed(key, selected),
            ModalView::SaveView { input, pipelines } => self.save_view_keyed(key, input, pipelines),
            ModalView::ConsoleLog(s) => self.console_keyed(key, s),
        }
    }

    /// A key that asks for something on what is selected; `None` for any other.
    #[verifier::opaque]
    pub open spec fn action_keyed(self, code: KeyCode) -> Option<AppView> {
        match code {
            KeyCode::Char('t') => Some(self.trigger_asked()),
            KeyCode::Char('T') => Some(self.trigger_vars_asked()),
            KeyCode::Char('p') => Some(self.pause_asked()),
            KeyCode::Char('X') => Some(self.cancel_asked()),
            KeyCode::Char('R') => Some(self.rerun_asked()),
            KeyCode::Char('f') => Some(self.favorite_toggled()),
            KeyCode::Char('o') => Some(self.commit_browsed()),
            KeyCode::Char('y') => Some(self.copying()),
            KeyCode::Char('V') => Some(self.save_view_asked()),
            KeyCode::Char('v') => Some(self.views_asked()),
            _ => None,
        }
    }

    /// A key that opens a form or the help; `None` for any other.
    #[verifier::opaque]
    pub open spec fn form_keyed(self, code: KeyCode) -> Option<AppView> {
        match code {
            KeyCode::Char('?') => Some(self.showing(ModalView::Help)),
            KeyCode::Char('/') => Some(AppView { filter_active: true, ..self }),
            KeyCode::Char('A') => Some(
                self.showing(
                    ModalView::Reauth(fresh_reauth(ReauthMode::Reconnect, self.server_url)),
                ),
            ),
            KeyCode::Char('@') => Some(
                self.showing(
                    ModalView::GithubConnect {
                        input: match self.cfg.github_token {
                            Some(t) => t,
                            None => Seq::empty(),
                        },
                    },
                ),
            ),
            _ => None,
        }
    }

    /// How many rows a key moves the cursor by; `None` for a key that does not.
    #[verifier::opaque]
    pub open spec fn motion(self, key: Key) -> Option<int> {
        match key.code {
            KeyCode::Char('d') => if key.ctrl {
                Some(self.half_page_rows())
            } else {
                None
            },
            KeyCode::Char('u') => if key.ctrl {
                Some(-self.half_page_rows())
            } else {
                None
            },
            KeyCode::PageDown => Some(self.half_page_rows()),
            KeyCode::PageUp => Some(-self.half_page_rows()),
            KeyCode::Char('g') => Some(-(self.pane_len(self.focus) as int)),
            KeyCode::Char('G') => Some(self.pane_len(self.focus) as int),
            KeyCode::Down | KeyCode::Char('j') => Some(1),
            KeyCode::Up | KeyCode::Char('k') => Some(-1),
            _ => None,
        }
    }

    /// A key in the panes.
    #[verifier::opaque]
    pub open spec fn pane_keyed(self, key: Key, now: u64) -> AppView {
        match key.code {
            KeyCode::Char('q') => AppView { should_quit: true, ..self },
            KeyCode::Tab => self.tabbed(),
            KeyCode::Char('r') => self.refreshed(),
            KeyCode::Right | KeyCode::Char('l') | KeyCode::Enter => self.activated(now),
            KeyCode::Left | KeyCode::Char('h') => self.collapsed(),
            KeyCode::Esc => self.gone_back(),
            _ => match self.motion(key) {
                Some(delta) => self.moved(self.focus, delta, now),
                None => match self.action_keyed(key.code) {
                    Some(v) => v,
                    None => match self.form_keyed(key.code) {
                        Some(v) => v,
                        None => self,
                    },
                },
            },
        }
    }

    /// A key. Ctrl-c quits whatever is open; any other key clears the error.
    #[verifier::opaque]
    pub open spec fn keyed(self, key: Key, now: u64) -> AppView {
        if key.code == KeyCode::Char('c') && key.ctrl {
            AppView { should_quit: true, ..self }
        } else {
            let v = AppView { error_line: None, modal: None, ..self };
            match self.modal {
                Some(m) => v.modal_keyed(key, m),
                None => if self.filter_active {
                    v.filter_keyed(key)
                } else {
                    v.pane_keyed(key, now)
                },
            }
        }
    }

    /// Enter in the picker of views takes one that is there.
    pub open spec fn takes_key(self, key: Key) -> bool {
        match self.modal {
            Some(ModalView::ViewPicker { selected }) => key.code == KeyCode::Enter ==> selected
                <= self.views.len(),
            _ => true,
        }
    }
}

impl App {
    /// Whether a key can be handled: not Enter in the picker of views where the
    /// picked one is gone meanwhile.
    pub fn accepts_key(&self, key: Key) -> (r: bool)
        ensures
            r == self.deep_view().takes_key(key),
    {
        assert(self.deep_view().views.len() == self.views@.len());
        match &self.modal {
            Some(Modal::ViewPicker { selected }) => key.code != KeyCode::Enter || *selected
                <= self.views.len(),
            _ => true,
        }
    }

    fn handle_modal_key(&mut self, key: Key, modal: Modal)
        requires
            modal.deep_view() matches ModalView::ViewPicker { selected } ==> key.code
                == KeyCode::Enter ==> selected <= old(self).views@.len(),
        ensures
            final(self).deep_view() == old(self).deep_view().modal_keyed(key, modal.deep_view()),
    {
        proof {
            reveal(AppView::modal_keyed);
        }
        match modal {
            Modal::Help => {
                self.modal = None;
            },
            Modal::Confirm { action, message } => {
                self.handle_confirm_key(key, action, message);
            },
            Modal::Reauth(form) => {
                self.handle_reauth_key(key, form);
            },
            Modal::GithubConnect { input } => {
                self.handle_github_connect_key(key, input);
            },
            Modal::TriggerVars(form) => {
                self.handle_trigger_vars_key(key, form);
            },
            Modal::ViewPicker { selected } => {
                self.handle_view_picker_key(key, selected);
            },
            Modal::SaveView { input, pipelines } => {
                self.handle_save_view_key(key, input, pipelines);
            },
            Modal::ConsoleLog(state) => {
                self.handle_console_log_key(key, *state);
            },
        }
    }

    /// Tells whether the key asked for something on what is selected.
    fn handle_action_key(&mut self, code: KeyCode) -> (r: bool)
        ensures
            match old(self).deep_view().action_keyed(code) {
                Some(v) => r && final(self).deep_view() == v,
                None => !r && final(self).deep_view() == old(self).deep_view(),
            },
    {
        proof {
            reveal(AppView::action_keyed);
        }
        match code {
            KeyCode::Char('t') => {
                self.request_trigger();
            },
            KeyCode::Char('T') => {
                self.request_trigger_with_vars();
            },
            KeyCode::Char('p') => {
                self.request_pause_toggle();
            },
            KeyCode::Char('X') => {
                self.request_cancel();
            },
            KeyCode::Char('R') => {
                self.request_rerun();
            },
            KeyCode::Char('f') => {
                self.toggle_favorite();
            },
            KeyCode::Char('o') => {
                self.open_in_browser();
            },
            KeyCode::Char('y') => {
                self.copy_selected();
            },
            KeyCode::Char('V') => {
                self.request_save_view();
            },
            KeyCode::Char('v') => {
                self.request_views();
            },
            _ => {
                return false;
            },
        }
        true
    }

    /// Tells whether the key opened a form or the help.
    fn handle_form_key(&mut self, code: KeyCode) -> (r: bool)
        ensures
            match old(self).deep_view().form_keyed(code) {
                Some(v) => r && final(self).deep_view() == v,
                None => !r && final(self).deep_view() == old(self).deep_view(),
            },
    {
        proof {
            reveal(AppView::form_keyed);
        }
        match code {
            KeyCode::Char('?') => {
                self.modal = Some(Modal::Help);
            },
            KeyCode::Char('/') => {
                self.filter_active = true;
            },
            KeyCode::Char('A') => {
                let form = ReauthForm::new(ReauthMode::Reconnect, self.server_url.as_str());
                self.modal = Some(Modal::Reauth(form));
            },
            KeyCode::Char('@') => {
                let input = match &self.cfg.github_token {
                    Some(t) => t.clone(),
                    None => text::empty(),
                };
                self.modal = Some(Modal::GithubConnect { input });
            },
            _ => {
                return false;
            },
        }
        true
    }

    fn motion_of(&self, key: Key) -> (r: Option<i128>)
        ensures
            match r {
                Some(d) => self.deep_view().motion(key) == Some(d as int)
                    && -0x1_0000_0000_0000_0000 <= d <= 0x1_0000_0000_0000_0000,
                None => self.deep_view().motion(key) is None,
            },
    {
        proof {
            reveal(AppView::motion);
        }
        match key.code {
            KeyCode::Char('d') => if key.ctrl {
                Some(self.half_page())
            } else {
                None
            },
            KeyCode::Char('u') => if key.ctrl {
                Some(-self.half_page())
            } else {
                None
            },
            KeyCode::PageDown => Some(self.half_page()),
            KeyCode::PageUp => Some(-self.half_page()),
            KeyCode::Char('g') => Some(-(self.focused_len() as i128)),
            KeyCode::Char('G') => Some(self.focused_len() as i128),
            KeyCode::Down | KeyCode::Char('j') => Some(1),
            KeyCode::Up | KeyCode::Char('k') => Some(-1),
            _ => None,
        }
    }

    fn handle_pane_key(&mut self, key: Key, now: u64)
        ensures
            final(self).deep_view() == old(self).deep_view().pane_keyed(key, now),
    {
        proof {
            reveal(AppView::pane_keyed);
        }
        match key.code {
            KeyCode::Char('q') => {
                self.should_quit = true;
            },
            KeyCode::Tab => {
                self.next_pane();
            },
            KeyCode::Char('r') => {
                self.refresh();
            },
            KeyCode::Right | KeyCode::Char('l') | KeyCode::Enter => {
                self.activate_selected(now);
            },
            KeyCode::Left | KeyCode::Char('h') => {
                self.collapse_selected();
            },
            KeyCode::Esc => {
                self.go_back();
            },
            _ => match self.motion_of(key) {
                Some(delta) => {
                    let pane = self.focus;
                    self.move_selection_in(pane, delta, now);
                },
                None => {
                    if !self.handle_action_key(key.code) {
                        self.handle_form_key(key.code);
                    }
                },
            },
        }
    }

    /// Handles a key; `now` is the time in millis.
    pub fn handle_key(&mut self, key: Key, now: u64)
        requires
            old(self).deep_view().takes_key(key),
        ensures
            final(self).deep_view() == old(self).deep_view().keyed(key, now),
    {
        proof {
            reveal(AppView::keyed);
        }
        if key.code == KeyCode::Char('c') && key.ctrl {
            self.should_quit = true;
            return;
        }
        self.error_line = None;
        let modal = self.modal.take();
        match modal {
            Some(m) => {
                assert(self.deep_view().views.len() == self.views@.len());
                self.handle_modal_key(key, m);
            },
            None => {
                if self.filter_active {
                    self.handle_filter_key(key);
                } else {
                    self.handle_pane_key(key, now);
                }
            },
        }
    }
}

} // verus!
