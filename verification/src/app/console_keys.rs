//! What each key does in the view of a job.

use vstd::prelude::*;
use vstd::string::*;

use crate::app::console::{
    console_scroll_up, last_index, less, next_tab, previous_tab, reflow_artifacts,
};
use crate::app::hints::{is_plain_url, open_url};
use crate::app::{
    App, AppView, ConsoleLogState, ConsoleLogStateView, Effect, EffectView, JobTab, Key, KeyCode,
    Modal, ModalView,
};
use crate::dup::Dup;
use crate::editor::{EditRequest, EditRequestView};
use crate::model::ArtifactRowView;
use crate::text;

verus! {

/// The first row at or after `from` with that path; the number of rows where
/// there is none.
pub open spec fn path_place(rows: Seq<ArtifactRowView>, path: Seq<char>, from: int) -> int
    decreases rows.len() - from,
{
    if from >= rows.len() || rows[from].path == path {
        from
    } else {
        path_place(rows, path, from + 1)
    }
}

/// What stands before the last slash of a path.
pub open spec fn parent_path(path: Seq<char>) -> Option<Seq<char>> {
    let k = text::tail_start(path, '/');
    if k > 0 {
        Some(path.take(k - 1))
    } else {
        None
    }
}

impl ConsoleLogStateView {
    /// A folder opened or closed; `open_only` never closes one.
    #[verifier::opaque]
    pub open spec fn folder_toggled(self, path: Seq<char>, open_only: bool) -> ConsoleLogStateView {
        ConsoleLogStateView {
            artifacts_expanded: if self.artifacts_expanded.contains(path) && !open_only {
                self.artifacts_expanded.remove(path)
            } else {
                self.artifacts_expanded.insert(path)
            },
            ..self
        }.reflowed()
    }

    /// The folder that 'h' closes: the row itself where it is an open one, and
    /// else the one that it stands in.
    pub open spec fn closing(self, row: ArtifactRowView) -> Option<Seq<char>> {
        if row.is_folder && self.artifacts_expanded.contains(row.path) {
            Some(row.path)
        } else {
            parent_path(row.path)
        }
    }

    /// A folder closed, and the cursor on it.
    #[verifier::opaque]
    pub open spec fn folder_closed(self, path: Seq<char>) -> ConsoleLogStateView {
        let closed = ConsoleLogStateView {
            artifacts_expanded: self.artifacts_expanded.remove(path),
            ..self
        }.reflowed();
        match closed.artifacts {
            Some(rows) => if path_place(rows, path, 0) < rows.len() {
                ConsoleLogStateView {
                    artifact_selected: path_place(rows, path, 0) as usize,
                    ..closed
                }
            } else {
                closed
            },
            None => closed,
        }
    }

    /// The cursor of the artifacts one row down.
    #[verifier::opaque]
    pub open spec fn artifact_down(self) -> ConsoleLogStateView {
        let max = match self.artifacts {
            Some(rows) => last_index(rows.len()),
            None => 0,
        };
        ConsoleLogStateView {
            artifact_selected: if self.artifact_selected >= max {
                max as usize
            } else {
                (self.artifact_selected + 1) as usize
            },
            ..self
        }
    }

    /// The name and the contents of the file for an editor.
    #[verifier::opaque]
    pub open spec fn edit_file(self) -> (Seq<char>, Seq<char>) {
        let j = self.job_ref;
        let head = j.pipeline + "-"@ + text::dec_int(j.pipeline_counter as int) + "-"@ + j.stage
            + "-"@ + j.job;
        if self.tab == JobTab::Materials {
            (head + "-"@ + "materials.txt"@, text::joined(self.materials, "\n"@))
        } else {
            (head + "-"@ + "console.log"@, text::joined(self.lines, "\n"@))
        }
    }
}

impl AppView {
    pub open spec fn with_console(self, s: ConsoleLogStateView) -> AppView {
        AppView { modal: Some(ModalView::ConsoleLog(s)), ..self }
    }

    /// The view of the job, with its artifacts fetched where they are wanted.
    #[verifier::opaque]
    pub open spec fn with_artifacts(self, s: ConsoleLogStateView) -> AppView {
        if s.wants_artifacts() {
            self.emitting(EffectView::FetchArtifacts(s.job_ref)).with_console(
                ConsoleLogStateView { artifacts_loading: true, ..s },
            )
        } else {
            self.with_console(s)
        }
    }

    /// 'r': the log fetched again, and on their tab the artifacts.
    #[verifier::opaque]
    pub open spec fn console_reloaded(self, s: ConsoleLogStateView) -> AppView {
        let fetching = self.emitting(EffectView::FetchConsole { job: s.job_ref, start_line: 0 });
        let loading = ConsoleLogStateView { loading: true, ..s };
        if s.tab == JobTab::Artifacts {
            fetching.with_artifacts(ConsoleLogStateView { artifacts: None, ..loading })
        } else {
            fetching.with_console(loading)
        }
    }

    /// 'e': what the tab shows, handed to an editor.
    #[verifier::opaque]
    pub open spec fn edit_asked(self, s: ConsoleLogStateView) -> AppView {
        let (file_name, contents) = s.edit_file();
        if text::trimmed(contents).len() == 0 {
            self.saying("Nothing to open yet"@)
        } else {
            AppView {
                pending_edit: Some(
                    EditRequestView { file_name, contents, configured: self.cfg.editor },
                ),
                ..self
            }
        }
    }

    /// A URL handed to the browser, unless it holds something unexpected.
    #[verifier::opaque]
    pub open spec fn browsing(self, url: Seq<char>, done: Seq<char>) -> AppView {
        if is_plain_url(url) {
            self.emitting(EffectView::OpenUrl { url, done })
        } else {
            self.failing(
                "Couldn't open browser: "@
                    + "refusing to open a URL containing unexpected characters"@,
            )
        }
    }

    /// 'y' on an artifact: its URL copied, where it has one.
    #[verifier::opaque]
    pub open spec fn artifact_copied(self, s: ConsoleLogStateView) -> AppView {
        match s.artifact() {
            Some(row) => match row.url {
                Some(url) => self.emitting(
                    EffectView::Copy { content: url, done: "Copied url for "@ + row.name },
                ),
                None => self,
            },
            None => self,
        }.with_console(s)
    }

    /// Enter on an artifact: a folder opens or closes, a file goes to the
    /// browser.
    #[verifier::opaque]
    pub open spec fn artifact_entered(self, s: ConsoleLogStateView, open_only: bool) -> AppView {
        match s.artifact() {
            Some(row) => if row.is_folder {
                self.with_console(s.folder_toggled(row.path, open_only))
            } else {
                match row.url {
                    Some(url) => self.browsing(url, "Opened "@ + row.name).with_console(s),
                    None => self.with_console(s),
                }
            },
            None => self.with_console(s),
        }
    }

    /// 'h' on an artifact: a folder closed.
    #[verifier::opaque]
    pub open spec fn artifact_left(self, s: ConsoleLogStateView) -> AppView {
        match s.artifact() {
            Some(row) => match s.closing(row) {
                Some(path) => self.with_console(s.folder_closed(path)),
                None => self.with_console(s),
            },
            None => self.with_console(s),
        }
    }

    /// A key on the tab that shows the artifacts; `None` where it means nothing
    /// special there.
    #[verifier::opaque]
    pub open spec fn artifact_key(self, key: Key, s: ConsoleLogStateView) -> Option<AppView> {
        match key.code {
            KeyCode::Char('y') => Some(self.artifact_copied(s)),
            KeyCode::Enter | KeyCode::Char('o') => Some(self.artifact_entered(s, false)),
            KeyCode::Char('l') | KeyCode::Right => Some(self.artifact_entered(s, true)),
            KeyCode::Char('h') | KeyCode::Left => Some(self.artifact_left(s)),
            KeyCode::Up | KeyCode::Char('k') => Some(
                self.with_console(
                    ConsoleLogStateView {
                        artifact_selected: less(s.artifact_selected as int, 1) as usize,
                        ..s
                    },
                ),
            ),
            KeyCode::Down | KeyCode::Char('j') => Some(self.with_console(s.artifact_down())),
            _ => None,
        }
    }

    /// A key on the tab that shows the log; `None` where it means nothing
    /// special there.
    #[verifier::opaque]
    pub open spec fn log_key(self, key: Key, s: ConsoleLogStateView) -> Option<AppView> {
        let n = s.matches.len() as int;
        match key.code {
            KeyCode::Char('/') => Some(
                self.with_console(
                    ConsoleLogStateView {
                        search_active: true,
                        search: Seq::empty(),
                        matches: Seq::empty(),
                        ..s
                    },
                ),
            ),
            KeyCode::Char('n') => if n > 0 {
                Some(
                    self.with_console(
                        ConsoleLogStateView {
                            match_idx: ((s.match_idx + 1) % n) as usize,
                            ..s
                        }.jumped(self.console_view_height),
                    ),
                )
            } else {
                None
            },
            KeyCode::Char('N') => if n > 0 {
                Some(
                    self.with_console(
                        ConsoleLogStateView {
                            match_idx: ((s.match_idx + n - 1) % n) as usize,
                            ..s
                        }.jumped(self.console_view_height),
                    ),
                )
            } else {
                None
            },
            _ => None,
        }
    }

    /// A key that means the same on every tab, apart from closing.
    #[verifier::opaque]
    pub open spec fn common_key(self, key: Key, s: ConsoleLogStateView) -> AppView {
        let h = self.console_view_height;
        match key.code {
            KeyCode::Char('r') => self.console_reloaded(s),
            KeyCode::Up | KeyCode::Char('k') => self.with_console(s.scrolled_up(h, 1)),
            KeyCode::Down | KeyCode::Char('j') => self.with_console(s.scrolled_down(1)),
            KeyCode::Char('e') => self.edit_asked(s).with_console(s),
            KeyCode::PageUp => self.with_console(s.scrolled_up(h, 20)),
            KeyCode::PageDown => self.with_console(s.scrolled_down(20)),
            KeyCode::Char('u') => if key.ctrl {
                self.with_console(s.scrolled_up(h, 20))
            } else {
                self.with_console(s)
            },
            KeyCode::Char('d') => if key.ctrl {
                self.with_console(s.scrolled_down(20))
            } else {
                self.with_console(s)
            },
            KeyCode::Char('G') => self.with_console(
                ConsoleLogStateView { scroll: usize::MAX, following: true, ..s },
            ),
            KeyCode::Char('g') => self.with_console(
                ConsoleLogStateView { scroll: 0, following: false, ..s },
            ),
            _ => self.with_console(s),
        }
    }

    /// The tab that a key leads to.
    pub open spec fn tab_for(self, key: Key, tab: JobTab) -> Option<JobTab> {
        match key.code {
            KeyCode::Tab | KeyCode::Char(']') => Some(next_tab(tab)),
            KeyCode::BackTab | KeyCode::Char('[') => Some(previous_tab(tab)),
            KeyCode::Char('1') => if tab != JobTab::Console {
                Some(JobTab::Console)
            } else {
                None
            },
            KeyCode::Char('2') => if tab != JobTab::Artifacts {
                Some(JobTab::Artifacts)
            } else {
                None
            },
            KeyCode::Char('3') => if tab != JobTab::Materials {
                Some(JobTab::Materials)
            } else {
                None
            },
            _ => None,
        }
    }

    /// A key in the view of a job.
    #[verifier::opaque]
    pub open spec fn console_keyed(self, key: Key, s: ConsoleLogStateView) -> AppView {
        if s.search_active {
            self.with_console(s.searching(key.code, self.console_view_height))
        } else if key.code == KeyCode::Esc || key.code == KeyCode::Char('q') {
            AppView { modal: None, ..self }
        } else {
            match self.tab_for(key, s.tab) {
                Some(tab) => self.with_artifacts(s.on_tab(tab)),
                None => {
                    let special = if s.tab == JobTab::Artifacts {
                        self.artifact_key(key, s)
                    } else if s.tab == JobTab::Console {
                        self.log_key(key, s)
                    } else {
                        None
                    };
                    match special {
                        Some(v) => v,
                        None => self.common_key(key, s),
                    }
                },
            }
        }
    }
}

fn parent_of(path: &str) -> (r: Option<String>)
    ensures
        r.deep_view() == parent_path(path@),
{
    let cs = text::chars_of(path);
    let k: usize = text::rscan(&cs, '/');
    if k > 0 {
        let r = text::text_of(&cs, 0, k - 1);
        assert(r@ =~= path@.take(k - 1));
        Some(r)
    } else {
        None
    }
}

impl ConsoleLogState {
    fn toggle_folder(&mut self, path: &str, open_only: bool)
        ensures
            final(self).deep_view() == old(self).deep_view().folder_toggled(path@, open_only),
    {
        proof {
            reveal(ConsoleLogStateView::folder_toggled);
        }
        if self.artifacts_expanded.contains(path) && !open_only {
            self.artifacts_expanded.remove(path);
        } else {
            self.artifacts_expanded.insert(path);
        }
        reflow_artifacts(self);
    }

    fn close_folder(&mut self, path: &str)
        ensures
            final(self).deep_view() == old(self).deep_view().folder_closed(path@),
    {
        proof {
            reveal(ConsoleLogStateView::folder_closed);
        }
        self.artifacts_expanded.remove(path);
        reflow_artifacts(self);
        let mut at: Option<usize> = None;
        if let Some(rows) = &self.artifacts {
            let ghost all = rows.deep_view();
            let n: usize = rows.len();
            let mut i: usize = 0;
            while i < n && !text::same(rows[i].path.as_str(), path)
                invariant
                    all == rows.deep_view(),
                    n == rows@.len(),
                    i <= n,
                    path_place(all, path@, 0) == path_place(all, path@, i as int),
                decreases n - i,
            {
                assert(all[i as int] == rows@[i as int].deep_view());
                i = i + 1;
            }
            if i < n {
                assert(all[i as int] == rows@[i as int].deep_view());
                at = Some(i);
            }
        }
        if let Some(i) = at {
            self.artifact_selected = i;
        }
    }

    fn move_artifact_down(&mut self)
        ensures
            final(self).deep_view() == old(self).deep_view().artifact_down(),
    {
        proof {
            reveal(ConsoleLogStateView::artifact_down);
        }
        let max: usize = match &self.artifacts {
            Some(rows) => if rows.len() == 0 {
                0
            } else {
                rows.len() - 1
            },
            None => 0,
        };
        self.artifact_selected = if self.artifact_selected >= max {
            max
        } else {
            self.artifact_selected + 1
        };
    }

    fn file_for_editor(&self) -> (r: (String, String))
        ensures
            r.deep_view() == self.deep_view().edit_file(),
    {
        proof {
            reveal(ConsoleLogStateView::edit_file);
        }
        let j = &self.job_ref;
        let counter = text::decimal_i(j.pipeline_counter);
        let head = text::cat7(
            j.pipeline.as_str(),
            "-",
            counter.as_str(),
            "-",
            j.stage.as_str(),
            "-",
            j.job.as_str(),
        );
        if self.tab == JobTab::Materials {
            (
                text::cat3(head.as_str(), "-", "materials.txt"),
                text::join(&self.materials, "\n"),
            )
        } else {
            (text::cat3(head.as_str(), "-", "console.log"), text::join(&self.lines, "\n"))
        }
    }
}

impl App {
    fn show_console(&mut self, s: ConsoleLogState)
        ensures
            final(self).deep_view() == old(self).deep_view().with_console(s.deep_view()),
    {
        self.modal = Some(Modal::ConsoleLog(Box::new(s)));
    }

    fn ensure_artifacts(&mut self, s: ConsoleLogState)
        ensures
            final(self).deep_view() == old(self).deep_view().with_artifacts(s.deep_view()),
    {
        proof {
            reveal(AppView::with_artifacts);
        }
        let mut s = s;
        if s.tab == JobTab::Artifacts && s.artifacts.is_none() && !s.artifacts_loading {
            s.artifacts_loading = true;
            self.emit(Effect::FetchArtifacts(s.job_ref.dup()));
        }
        self.show_console(s);
    }

    fn reload_console(&mut self, s: ConsoleLogState)
        ensures
            final(self).deep_view() == old(self).deep_view().console_reloaded(s.deep_view()),
    {
        proof {
            reveal(AppView::console_reloaded);
        }
        let mut s = s;
        s.loading = true;
        self.emit(Effect::FetchConsole { job: s.job_ref.dup(), start_line: 0 });
        if s.tab == JobTab::Artifacts {
            s.artifacts = None;
            self.ensure_artifacts(s);
        } else {
            self.show_console(s);
        }
    }

    fn ask_edit(&mut self, s: &ConsoleLogState)
        ensures
            final(self).deep_view() == old(self).deep_view().edit_asked(s.deep_view()),
    {
        proof {
            reveal(AppView::edit_asked);
        }
        let (file_name, contents) = s.file_for_editor();
        if text::trim(contents.as_str()).unicode_len() == 0 {
            self.say(text::owned("Nothing to open yet"));
        } else {
            let configured = self.cfg.editor.dup();
            self.pending_edit = Some(EditRequest { file_name, contents, configured });
        }
    }

    pub(crate) fn browse(&mut self, url: &str, done: String)
        ensures
            final(self).deep_view() == old(self).deep_view().browsing(url@, done@),
    {
        proof {
            reveal(AppView::browsing);
        }
        match open_url(url) {
            Ok(_) => {
                self.emit(Effect::OpenUrl { url: text::owned(url), done });
            },
            Err(e) => {
                self.fail(text::cat2("Couldn't open browser: ", e.as_str()));
            },
        }
    }

    fn copy_artifact(&mut self, s: ConsoleLogState)
        ensures
            final(self).deep_view() == old(self).deep_view().artifact_copied(s.deep_view()),
    {
        proof {
            reveal(AppView::artifact_copied);
        }
        if let Some(row) = s.current_artifact() {
            if let Some(url) = &row.url {
                let done = text::cat2("Copied url for ", row.name.as_str());
                self.emit(Effect::Copy { content: url.clone(), done });
            }
        }
        self.show_console(s);
    }

    fn enter_artifact(&mut self, s: ConsoleLogState, open_only: bool)
        ensures
            final(self).deep_view() == old(self).deep_view().artifact_entered(
                s.deep_view(),
                open_only,
            ),
    {
        proof {
            reveal(AppView::artifact_entered);
        }
        let mut s = s;
        let mut toggled: Option<String> = None;
        if let Some(row) = s.current_artifact() {
            if row.is_folder {
                toggled = Some(row.path.clone());
            } else if let Some(url) = &row.url {
                self.browse(url.as_str(), text::cat2("Opened ", row.name.as_str()));
            }
        }
        if let Some(path) = toggled {
            s.toggle_folder(path.as_str(), open_only);
        }
        self.show_console(s);
    }

    fn leave_artifact(&mut self, s: ConsoleLogState)
        ensures
            final(self).deep_view() == old(self).deep_view().artifact_left(s.deep_view()),
    {
        proof {
            reveal(AppView::artifact_left);
        }
        let mut s = s;
        let mut target: Option<String> = None;
        if let Some(row) = s.current_artifact() {
            target = if row.is_folder && s.artifacts_expanded.contains(row.path.as_str()) {
                Some(row.path.clone())
            } else {
                parent_of(row.path.as_str())
            };
        }
        if let Some(path) = target {
            s.close_folder(path.as_str());
        }
        self.show_console(s);
    }

    /// Tells whether the key was for the artifacts.
    fn handle_artifact_key(&mut self, key: Key, s: ConsoleLogState) -> (r: Option<ConsoleLogState>)
        ensures
            match old(self).deep_view().artifact_key(key, s.deep_view()) {
                Some(v) => r is None && final(self).deep_view() == v,
                None => r.deep_view() == Some(s.deep_view()) && final(self).deep_view() == old(
                    self,
                ).deep_view(),
            },
    {
        proof {
            reveal(AppView::artifact_key);
        }
        let mut s = s;
        match key.code {
            KeyCode::Char('y') => {
                self.copy_artifact(s);
            },
            KeyCode::Enter | KeyCode::Char('o') => {
                self.enter_artifact(s, false);
            },
            KeyCode::Char('l') | KeyCode::Right => {
                self.enter_artifact(s, true);
            },
            KeyCode::Char('h') | KeyCode::Left => {
                self.leave_artifact(s);
            },
            KeyCode::Up | KeyCode::Char('k') => {
                s.artifact_selected = if s.artifact_selected > 0 { s.artifact_selected - 1 } else { 0 };
                self.show_console(s);
            },
            KeyCode::Down | KeyCode::Char('j') => {
                s.move_artifact_down();
                self.show_console(s);
            },
            _ => {
                return Some(s);
            },
        }
        None
    }

    /// Tells whether the key was for the log.
    fn handle_log_key(&mut self, key: Key, s: ConsoleLogState) -> (r: Option<ConsoleLogState>)
        ensures
            match old(self).deep_view().log_key(key, s.deep_view()) {
                Some(v) => r is None && final(self).deep_view() == v,
                None => r.deep_view() == Some(s.deep_view()) && final(self).deep_view() == old(
                    self,
                ).deep_view(),
            },
    {
        proof {
            reveal(AppView::log_key);
        }
        let mut s = s;
        let n: usize = s.matches.len();
        match key.code {
            KeyCode::Char('/') => {
                s.search_active = true;
                s.search = text::empty();
                s.matches = Vec::new();
                self.show_console(s);
            },
            KeyCode::Char('n') => {
                if n == 0 {
                    return Some(s);
                }
                s.match_idx = ((s.match_idx as u128 + 1) % (n as u128)) as usize;
                s.jump_to_match(self.console_view_height);
                self.show_console(s);
            },
            KeyCode::Char('N') => {
                if n == 0 {
                    return Some(s);
                }
                s.match_idx = ((s.match_idx as u128 + n as u128 - 1) % (n as u128)) as usize;
                s.jump_to_match(self.console_view_height);
                self.show_console(s);
            },
            _ => {
                return Some(s);
            },
        }
        None
    }

    fn handle_common_key(&mut self, key: Key, s: ConsoleLogState)
        ensures
            final(self).deep_view() == old(self).deep_view().common_key(key, s.deep_view()),
    {
        proof {
            reveal(AppView::common_key);
        }
        let mut s = s;
        let h: u16 = self.console_view_height;
        match key.code {
            KeyCode::Char('r') => {
                self.reload_console(s);
                return;
            },
            KeyCode::Up | KeyCode::Char('k') => {
                console_scroll_up(&mut s, h, 1);
            },
            KeyCode::Down | KeyCode::Char('j') => {
                s.scroll_down(1);
            },
            KeyCode::Char('e') => {
                self.ask_edit(&s);
            },
            KeyCode::PageUp => {
                console_scroll_up(&mut s, h, 20);
            },
            KeyCode::PageDown => {
                s.scroll_down(20);
            },
            KeyCode::Char('u') => {
                if key.ctrl {
                    console_scroll_up(&mut s, h, 20);
                }
            },
            KeyCode::Char('d') => {
                if key.ctrl {
                    s.scroll_down(20);
                }
            },
            KeyCode::Char('G') => {
                s.scroll = usize::MAX;
                s.following = true;
            },
            KeyCode::Char('g') => {
                s.scroll = 0;
                s.following = false;
            },
            _ => {},
        }
        self.show_console(s);
    }

    pub(crate) fn handle_console_log_key(&mut self, key: Key, state: ConsoleLogState)
        ensures
            final(self).deep_view() == old(self).deep_view().console_keyed(
                key,
                state.deep_view(),
            ),
    {
        proof {
            reveal(AppView::console_keyed);
        }
        let mut s = state;
        if s.search_active {
            s.search_key(key.code, self.console_view_height);
            self.show_console(s);
            return;
        }
        let tab = match key.code {
            KeyCode::Esc | KeyCode::Char('q') => {
                self.modal = None;
                return;
            },
            KeyCode::Tab | KeyCode::Char(']') => match s.tab {
                JobTab::Console => Some(JobTab::Artifacts),
                JobTab::Artifacts => Some(JobTab::Materials),
                JobTab::Materials => Some(JobTab::Console),
            },
            KeyCode::BackTab | KeyCode::Char('[') => match s.tab {
                JobTab::Console => Some(JobTab::Materials),
                JobTab::Artifacts => Some(JobTab::Console),
                JobTab::Materials => Some(JobTab::Artifacts),
            },
            KeyCode::Char('1') => if s.tab != JobTab::Console {
                Some(JobTab::Console)
            } else {
                None
            },
            KeyCode::Char('2') => if s.tab != JobTab::Artifacts {
                Some(JobTab::Artifacts)
            } else {
                None
            },
            KeyCode::Char('3') => if s.tab != JobTab::Materials {
                Some(JobTab::Materials)
            } else {
                None
            },
            _ => None,
        };
        if let Some(t) = tab {
            s.tab = t;
            s.scroll = 0;
            self.ensure_artifacts(s);
            return;
        }
        let rest = match s.tab {
            JobTab::Artifacts => self.handle_artifact_key(key, s),
            JobTab::Console => self.handle_log_key(key, s),
            JobTab::Materials => Some(s),
        };
        if let Some(s) = rest {
            self.handle_common_key(key, s);
        }
    }
}

} // verus!
