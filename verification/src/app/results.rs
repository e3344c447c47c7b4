//! The outcomes of single requests, and the event that carries each.

use vstd::prelude::*;
use vstd::string::*;

use crate::app::hints::{auth_hint, hint_for};
use crate::app::open::all_checking;
use crate::app::{
    ApiEvent, App, AppView, ConsoleLogState, ConsoleLogStateView, DashboardPayload, GithubState,
    GithubStateView, HistoryPage, JobRef, JobRefView, Modal, ModalView, PendingAction,
    PendingActionView,
};
use crate::dup::Dup;
use crate::github::CommitCheck;
use crate::model::{
    flatten_artifacts, visible_rows, ArtifactNode, DashboardPipelineView, GitRef, GitRefView,
    PauseInfoView, ViewFilter, ViewFilterView,
};
use crate::text;

verus! {

// ---- views ---------------------------------------------------------------

/// The views that can be picked: "Default" is the one that shows everything.
pub open spec fn named_views(views: Seq<ViewFilterView>) -> Seq<ViewFilterView>
    decreases views.len(),
{
    if views.len() == 0 {
        Seq::empty()
    } else if views.last().name == "Default"@ {
        named_views(views.drop_last())
    } else {
        named_views(views.drop_last()).push(views.last())
    }
}

impl AppView {
    #[verifier::opaque]
    pub open spec fn views_loaded(self, generation: u64, result: Result<Vec<ViewFilter>, String>) -> AppView {
        if generation != self.server_gen {
            self
        } else {
            match result {
                Ok(views) => AppView {
                    views: named_views(views.deep_view()),
                    views_error: None,
                    ..self
                },
                Err(e) => AppView { views_error: Some(e@), ..self },
            }
        }
    }

    #[verifier::opaque]
    pub open spec fn view_saved(self, generation: u64, result: Result<String, String>) -> AppView {
        if generation != self.server_gen {
            self
        } else {
            match result {
                Ok(name) => self.saying(
                    "Saved view '"@ + name@ + "' (visible in the GoCD web UI too)"@,
                ).loading_views(),
                Err(e) => self.failing("Saving view failed: "@ + e@),
            }
        }
    }
}

fn without_default(views: Vec<ViewFilter>) -> (r: Vec<ViewFilter>)
    ensures
        r.deep_view() == named_views(views.deep_view()),
{
    let ghost all = views.deep_view();
    let mut r: Vec<ViewFilter> = Vec::new();
    let mut i: usize = 0;
    assert(r.deep_view() =~= Seq::<ViewFilterView>::empty());
    while i < views.len()
        invariant
            all == views.deep_view(),
            i <= views@.len(),
            r.deep_view() == named_views(all.take(i as int)),
        decreases views@.len() - i,
    {
        let ghost before = r.deep_view();
        assert(all.take(i + 1).drop_last() =~= all.take(i as int));
        assert(all.take(i + 1).last() == views@[i as int].deep_view());
        if !text::same(views[i].name.as_str(), "Default") {
            r.push(views[i].dup());
            assert(r.deep_view() =~= before.push(views@[i as int].deep_view()));
        }
        i = i + 1;
    }
    assert(all.take(i as int) =~= all);
    r
}

impl App {
    fn views_arrived(&mut self, generation: u64, result: Result<Vec<ViewFilter>, String>)
        ensures
            final(self).deep_view() == old(self).deep_view().views_loaded(generation, result),
    {
        proof {
            reveal(AppView::views_loaded);
        }
        if generation != self.server_gen {
            return;
        }
        match result {
            Ok(views) => {
                self.views = without_default(views);
                self.views_error = None;
            },
            Err(e) => {
                self.views_error = Some(e);
            },
        }
    }

    fn view_was_saved(&mut self, generation: u64, result: Result<String, String>)
        ensures
            final(self).deep_view() == old(self).deep_view().view_saved(generation, result),
    {
        proof {
            reveal(AppView::view_saved);
        }
        if generation != self.server_gen {
            return;
        }
        match result {
            Ok(name) => {
                self.say(
                    text::cat3("Saved view '", name.as_str(), "' (visible in the GoCD web UI too)"),
                );
                self.spawn_load_views();
            },
            Err(e) => {
                self.fail(text::cat2("Saving view failed: ", e.as_str()));
            },
        }
    }
}

// ---- actions -------------------------------------------------------------

impl AppView {
    /// The pause state of a pipeline noted.
    pub open spec fn pause_noted(self, name: Seq<char>, paused: bool) -> AppView {
        if self.pipeline_info.contains_key(name) {
            let p = self.pipeline_info[name];
            AppView {
                pipeline_info: self.pipeline_info.insert(
                    name,
                    DashboardPipelineView {
                        pause_info: PauseInfoView { paused, ..p.pause_info },
                        ..p
                    },
                ),
                ..self
            }
        } else {
            self
        }
    }

    /// The history of an open pipeline fetched again.
    pub open spec fn reloading(self, name: Seq<char>) -> AppView {
        if self.is_open(name) {
            self.loading_history(name)
        } else {
            self
        }
    }

    #[verifier::opaque]
    pub open spec fn action_done(
        self,
        action: PendingActionView,
        result: Result<String, String>,
    ) -> AppView {
        match result {
            Ok(msg) => {
                let v = self.saying(msg@);
                match action {
                    PendingActionView::Pause(name) => v.pause_noted(name, true),
                    PendingActionView::Unpause(name) => v.pause_noted(name, false),
                    _ => v.reloading(action.pipeline()),
                }
            },
            Err(e) => self.failing(
                "Action on "@ + action.pipeline() + " failed: "@ + e@ + hint_for(e@),
            ),
        }
    }
}

impl App {
    fn note_pause(&mut self, name: &str, paused: bool)
        ensures
            final(self).deep_view() == old(self).deep_view().pause_noted(name@, paused),
    {
        let found = match self.pipeline_info.get(name) {
            Some(p) => Some(p.dup()),
            None => None,
        };
        if let Some(mut p) = found {
            assert(self.deep_view().pipeline_info[name@] == p.deep_view());
            p.pause_info.paused = paused;
            self.pipeline_info.put(name, p);
        }
    }

    fn reload_history(&mut self, name: &str)
        ensures
            final(self).deep_view() == old(self).deep_view().reloading(name@),
    {
        if self.has_open(name) {
            self.spawn_load_history(text::owned(name));
        }
    }

    fn action_ended(&mut self, action: PendingAction, result: Result<String, String>)
        ensures
            final(self).deep_view() == old(self).deep_view().action_done(
                action.deep_view(),
                result,
            ),
    {
        proof {
            reveal(AppView::action_done);
        }
        match result {
            Ok(msg) => {
                self.say(msg);
                match &action {
                    PendingAction::Pause(name) => {
                        self.note_pause(name.as_str(), true);
                    },
                    PendingAction::Unpause(name) => {
                        self.note_pause(name.as_str(), false);
                    },
                    _ => {
                        self.reload_history(action.name());
                    },
                }
            },
            Err(e) => {
                self.fail(
                    text::cat5(
                        "Action on ",
                        action.name(),
                        " failed: ",
                        e.as_str(),
                        auth_hint(e.as_str()),
                    ),
                );
            },
        }
    }
}

// ---- checks --------------------------------------------------------------

/// The first check at or after `from` of the material with that key; the number
/// of checks where there is none.
pub open spec fn check_place(
    checks: Seq<(GitRefView, GithubStateView)>,
    key: Seq<char>,
    from: int,
) -> int
    decreases checks.len() - from,
{
    if from >= checks.len() || checks[from].0.identity() == key {
        from
    } else {
        check_place(checks, key, from + 1)
    }
}

/// What a check gave.
pub open spec fn state_of(result: Result<CommitCheck, String>) -> GithubStateView {
    match result {
        Ok(check) => GithubStateView::Found(check.sha@),
        Err(e) => GithubStateView::Failed(e@),
    }
}

impl AppView {
    /// A check noted where its material is among those of the open run. The
    /// first one also drives what 'o' opens.
    pub open spec fn check_noted(self, key: Seq<char>, state: GithubStateView) -> AppView {
        let p = check_place(self.github_checks, key, 0);
        if p < self.github_checks.len() {
            AppView {
                github_checks: self.github_checks.update(p, (self.github_checks[p].0, state)),
                github_state: if p == 0 {
                    state
                } else {
                    self.github_state
                },
                ..self
            }
        } else {
            self
        }
    }

    /// The outcome of a check. That another token than the configured one was
    /// needed is said.
    #[verifier::opaque]
    pub open spec fn check_done(
        self,
        pipeline: Seq<char>,
        key: Seq<char>,
        result: Result<CommitCheck, String>,
    ) -> AppView {
        if !self.is_open(pipeline) {
            self
        } else {
            let v = self.check_noted(key, state_of(result));
            if result matches Ok(check) && check.fell_back {
                v.saying("GitHub refused the configured token; `gh auth token` was used instead"@)
            } else {
                v
            }
        }
    }

    /// The references found upstream, each to be checked.
    #[verifier::opaque]
    pub open spec fn refs_traced(self, pipeline: Seq<char>, refs: Seq<GitRefView>) -> AppView {
        if !self.is_open(pipeline) {
            self
        } else if refs.len() == 0 {
            AppView { github_state: GithubStateView::Idle, ..self }
        } else {
            AppView { github_checks: all_checking(refs), ..self }.checking(pipeline, refs)
        }
    }
}

impl App {
    fn note_check(&mut self, key: &str, state: GithubState)
        ensures
            final(self).deep_view() == old(self).deep_view().check_noted(key@, state.deep_view()),
    {
        let ghost all = self.deep_view().github_checks;
        let n: usize = self.github_checks.len();
        let mut i: usize = 0;
        while i < n && !text::same(self.github_checks[i].0.key().as_str(), key)
            invariant
                all == self.github_checks.deep_view(),
                n == self.github_checks@.len(),
                i <= n,
                check_place(all, key@, 0) == check_place(all, key@, i as int),
            decreases n - i,
        {
            assert(all[i as int] == self.github_checks@[i as int].deep_view());
            i = i + 1;
        }
        if i == n {
            return;
        }
        assert(all[i as int] == self.github_checks@[i as int].deep_view());
        if i == 0 {
            self.github_state = state.dup();
        }
        let git_ref = self.github_checks[i].0.dup();
        let entry = (git_ref, state);
        let ghost ev = entry.deep_view();
        self.github_checks.set(i, entry);
        assert(self.github_checks.deep_view() =~= all.update(i as int, ev));
    }

    fn check_ended(&mut self, pipeline: &str, key: &str, result: Result<CommitCheck, String>)
        ensures
            final(self).deep_view() == old(self).deep_view().check_done(pipeline@, key@, result),
    {
        proof {
            reveal(AppView::check_done);
        }
        if !self.has_open(pipeline) {
            return;
        }
        match result {
            Ok(check) => {
                let fell_back = check.fell_back;
                self.note_check(key, GithubState::Found(check.sha));
                if fell_back {
                    self.say(
                        text::owned(
                            "GitHub refused the configured token; `gh auth token` was used instead",
                        ),
                    );
                }
            },
            Err(e) => {
                self.note_check(key, GithubState::Failed(e));
            },
        }
    }

    fn refs_arrived(&mut self, pipeline: String, refs: Vec<GitRef>)
        ensures
            final(self).deep_view() == old(self).deep_view().refs_traced(
                pipeline@,
                refs.deep_view(),
            ),
    {
        proof {
            reveal(AppView::refs_traced);
        }
        if !self.has_open(pipeline.as_str()) {
            return;
        }
        assert(refs.deep_view().len() == refs@.len());
        if refs.len() == 0 {
            self.github_state = GithubState::Idle;
        } else {
            self.github_checks = Self::checking_all(&refs);
            self.spawn_check_github(&pipeline, &refs);
        }
    }
}

// ---- the view of a job ---------------------------------------------------

impl ConsoleLogStateView {
    /// A log, or what was added to it since line `start`. An addition that does
    /// not start where the log ends is dropped.
    #[verifier::opaque]
    pub open spec fn log_arrived(self, start: usize, result: Result<String, String>) -> ConsoleLogStateView {
        let s = ConsoleLogStateView { loading: false, ..self };
        match result {
            Ok(content) => if start != 0 && start != self.lines.len() {
                s
            } else {
                let found = ConsoleLogStateView {
                    lines: if start == 0 {
                        text::lines_of(content@)
                    } else {
                        self.lines + text::lines_of(content@)
                    },
                    error: None,
                    ..s
                }.recomputed();
                if found.following {
                    ConsoleLogStateView { scroll: usize::MAX, ..found }
                } else {
                    found
                }
            },
            Err(e) => ConsoleLogStateView { error: Some(e@), ..s },
        }
    }

    /// The artifacts, with the cursor on the first.
    #[verifier::opaque]
    pub open spec fn artifacts_arrived(self, result: Result<Vec<ArtifactNode>, String>) -> ConsoleLogStateView {
        let s = ConsoleLogStateView { artifacts_loading: false, ..self };
        match result {
            Ok(nodes) => ConsoleLogStateView {
                artifacts: Some(
                    visible_rows(nodes@, 0, Seq::empty(), self.artifacts_expanded),
                ),
                artifact_tree: Some(nodes@),
                artifact_selected: 0,
                ..s
            },
            Err(e) => ConsoleLogStateView { error: Some(e@), ..s },
        }
    }
}

impl AppView {
    /// The open view of that job, if it is the one that is open.
    pub open spec fn console_of(self, job: JobRefView) -> Option<ConsoleLogStateView> {
        match self.modal {
            Some(ModalView::ConsoleLog(s)) => if s.job_ref == job {
                Some(s)
            } else {
                None
            },
            _ => None,
        }
    }

    #[verifier::opaque]
    pub open spec fn log_loaded(self, job: JobRefView, start: usize, result: Result<String, String>) -> AppView {
        match self.console_of(job) {
            Some(s) => self.with_console(s.log_arrived(start, result)),
            None => self,
        }
    }

    #[verifier::opaque]
    pub open spec fn artifacts_loaded(self, job: JobRefView, result: Result<Vec<ArtifactNode>, String>) -> AppView {
        match self.console_of(job) {
            Some(s) => self.with_console(s.artifacts_arrived(result)),
            None => self,
        }
    }
}

fn owned_lines(content: &str) -> (r: Vec<String>)
    ensures
        r.deep_view() == text::lines_of(content@),
{
    let ls = text::lines(content);
    let ghost all = ls.deep_view();
    let mut r: Vec<String> = Vec::new();
    let mut i: usize = 0;
    while i < ls.len()
        invariant
            all == ls.deep_view(),
            i <= ls@.len(),
            r@.len() == i,
            forall|k: int| 0 <= k < i ==> (#[trigger] r@[k])@ == all[k],
        decreases ls@.len() - i,
    {
        r.push(text::owned(ls[i]));
        assert(all[i as int] == ls@[i as int]@);
        i = i + 1;
    }
    assert(r.deep_view() =~= all);
    r
}

fn append_lines(to: &mut Vec<String>, more: Vec<String>)
    ensures
        final(to).deep_view() == old(to).deep_view() + more.deep_view(),
{
    let mut more = more;
    let ghost a = to.deep_view();
    let ghost b = more.deep_view();
    to.append(&mut more);
    assert(to.deep_view() =~= a + b);
}

fn same_job(a: &JobRef, b: &JobRef) -> (r: bool)
    ensures
        r == (a.deep_view() == b.deep_view()),
{
    let r = a.pipeline_counter == b.pipeline_counter && text::same(
        a.pipeline.as_str(),
        b.pipeline.as_str(),
    ) && text::same(a.stage.as_str(), b.stage.as_str()) && text::same(
        a.stage_counter.as_str(),
        b.stage_counter.as_str(),
    ) && text::same(a.job.as_str(), b.job.as_str());
    assert(r ==> a.deep_view() =~= b.deep_view());
    r
}

impl ConsoleLogState {
    fn take_log(&mut self, start: usize, result: Result<String, String>)
        ensures
            final(self).deep_view() == old(self).deep_view().log_arrived(start, result),
    {
        proof {
            reveal(ConsoleLogStateView::log_arrived);
        }
        self.loading = false;
        match result {
            Ok(content) => {
                assert(self.deep_view().lines.len() == self.lines@.len());
                if start != 0 && start != self.lines.len() {
                    return;
                }
                let fresh = owned_lines(content.as_str());
                if start == 0 {
                    self.lines = fresh;
                } else {
                    append_lines(&mut self.lines, fresh);
                }
                self.error = None;
                self.recompute_matches();
                if self.following {
                    self.scroll = usize::MAX;
                }
            },
            Err(e) => {
                self.error = Some(e);
            },
        }
    }

    fn take_artifacts(&mut self, result: Result<Vec<ArtifactNode>, String>)
        ensures
            final(self).deep_view() == old(self).deep_view().artifacts_arrived(result),
    {
        proof {
            reveal(ConsoleLogStateView::artifacts_arrived);
        }
        self.artifacts_loading = false;
        match result {
            Ok(nodes) => {
                assert(nodes.deep_view() =~= nodes@);
                let rows = flatten_artifacts(&nodes, &self.artifacts_expanded);
                self.artifacts = Some(rows);
                self.artifact_tree = Some(nodes);
                self.artifact_selected = 0;
            },
            Err(e) => {
                self.error = Some(e);
            },
        }
    }
}

impl App {
    fn log_came(&mut self, job: &JobRef, start: usize, result: Result<String, String>)
        ensures
            final(self).deep_view() == old(self).deep_view().log_loaded(
                job.deep_view(),
                start,
                result,
            ),
    {
        proof {
            reveal(AppView::log_loaded);
        }
        match self.modal.take() {
            Some(Modal::ConsoleLog(boxed)) => {
                let mut state = *boxed;
                if same_job(&state.job_ref, job) {
                    state.take_log(start, result);
                }
                self.modal = Some(Modal::ConsoleLog(Box::new(state)));
            },
            other => {
                self.modal = other;
            },
        }
    }

    fn artifacts_came(&mut self, job: &JobRef, result: Result<Vec<ArtifactNode>, String>)
        ensures
            final(self).deep_view() == old(self).deep_view().artifacts_loaded(
                job.deep_view(),
                result,
            ),
    {
        proof {
            reveal(AppView::artifacts_loaded);
        }
        match self.modal.take() {
            Some(Modal::ConsoleLog(boxed)) => {
                let mut state = *boxed;
                if same_job(&state.job_ref, job) {
                    state.take_artifacts(result);
                }
                self.modal = Some(Modal::ConsoleLog(Box::new(state)));
            },
            other => {
                self.modal = other;
            },
        }
    }
}

// ---- events --------------------------------------------------------------

impl AppView {
    /// The answer for the dashboard. One for an earlier connection is dropped.
    #[verifier::opaque]
    pub open spec fn dashboard_answered(
        self,
        generation: u64,
        result: Result<Option<DashboardPayload>, String>,
    ) -> AppView {
        if generation != self.server_gen {
            self
        } else {
            match result {
                Ok(None) => AppView { loading_groups: false, ..self },
                Ok(Some(p)) => self.dashboard_loaded(
                    p.0.deep_view(),
                    p.1.deep_view(),
                    p.2.deep_view(),
                ),
                Err(e) => AppView { loading_groups: false, ..self }.failing(
                    "Failed to load dashboard: "@ + e@ + hint_for(e@),
                ),
            }
        }
    }

    #[verifier::opaque]
    pub open spec fn history_answered(
        self,
        name: Seq<char>,
        result: Result<HistoryPage, String>,
    ) -> AppView {
        match result {
            Ok(page) => self.history_loaded(name, page.0.deep_view(), page.1),
            Err(e) => if self.is_open(name) {
                AppView { history_loading: false, ..self }.failing_on(
                    name,
                    "Failed to load history for "@,
                    e@,
                )
            } else {
                self
            },
        }
    }

    /// The answer for a later page. One that was not asked for is dropped.
    #[verifier::opaque]
    pub open spec fn more_answered(
        self,
        name: Seq<char>,
        after: u64,
        last_counter: i64,
        result: Result<HistoryPage, String>,
    ) -> AppView {
        if self.history_more_inflight != Some((name, after)) {
            self
        } else {
            let v = AppView { history_more_inflight: None, ..self };
            match result {
                Ok(page) => v.more_loaded(name, last_counter, page.0.deep_view(), page.1),
                Err(e) => v.failing_on(name, "Failed to load more history for "@, e@),
            }
        }
    }

    /// What an event does.
    #[verifier::opaque]
    pub open spec fn after_event(self, ev: ApiEvent) -> AppView {
        match ev {
            ApiEvent::Dashboard(generation, result) => self.dashboard_answered(generation, result),
            ApiEvent::History(name, result) => self.history_answered(name@, result),
            ApiEvent::HistoryMore { name, after, issued_last_counter, result } => self.more_answered(
                name@,
                after,
                issued_last_counter,
                result,
            ),
            ApiEvent::ActionDone(action, result) => self.action_done(action.deep_view(), result),
            ApiEvent::GithubLatest(name, key, result) => self.check_done(name@, key@, result),
            ApiEvent::ConsoleLog(job, start, result) => self.log_loaded(
                job.deep_view(),
                start,
                result,
            ),
            ApiEvent::Artifacts(job, result) => self.artifacts_loaded(job.deep_view(), result),
            ApiEvent::Views(generation, result) => self.views_loaded(generation, result),
            ApiEvent::UpstreamRefs(pipeline, refs) => self.refs_traced(pipeline@, refs.deep_view()),
            ApiEvent::ViewSaved(generation, result) => self.view_saved(generation, result),
        }
    }
}

impl App {
    fn dashboard_answer(
        &mut self,
        generation: u64,
        result: Result<Option<DashboardPayload>, String>,
    )
        ensures
            final(self).deep_view() == old(self).deep_view().dashboard_answered(
                generation,
                result,
            ),
    {
        proof {
            reveal(AppView::dashboard_answered);
        }
        if generation != self.server_gen {
            return;
        }
        match result {
            Ok(None) => {
                self.loading_groups = false;
            },
            Ok(Some((groups, pipelines, etag))) => {
                self.dashboard_arrived(groups, pipelines, etag);
            },
            Err(e) => {
                self.loading_groups = false;
                self.fail(
                    text::cat3("Failed to load dashboard: ", e.as_str(), auth_hint(e.as_str())),
                );
            },
        }
    }

    fn history_answer(&mut self, name: String, result: Result<HistoryPage, String>)
        ensures
            final(self).deep_view() == old(self).deep_view().history_answered(name@, result),
    {
        proof {
            reveal(AppView::history_answered);
        }
        match result {
            Ok((runs, next)) => {
                self.history_arrived(name, runs, next);
            },
            Err(e) => {
                if self.has_open(name.as_str()) {
                    self.history_loading = false;
                    self.fail_on(name.as_str(), "Failed to load history for ", e.as_str());
                }
            },
        }
    }

    fn more_answer(
        &mut self,
        name: String,
        after: u64,
        last_counter: i64,
        result: Result<HistoryPage, String>,
    )
        ensures
            final(self).deep_view() == old(self).deep_view().more_answered(
                name@,
                after,
                last_counter,
                result,
            ),
    {
        proof {
            reveal(AppView::more_answered);
        }
        let issued = match &self.history_more_inflight {
            Some((n, a)) => *a == after && text::same(n.as_str(), name.as_str()),
            None => false,
        };
        if !issued {
            return;
        }
        self.history_more_inflight = None;
        match result {
            Ok((runs, next)) => {
                self.more_arrived(name, last_counter, runs, next);
            },
            Err(e) => {
                self.fail_on(name.as_str(), "Failed to load more history for ", e.as_str());
            },
        }
    }

    /// Handles what came back from work done elsewhere.
    pub fn handle_api_event(&mut self, ev: ApiEvent)
        ensures
            final(self).deep_view() == old(self).deep_view().after_event(ev),
    {
        proof {
            reveal(AppView::after_event);
        }
        match ev {
            ApiEvent::Dashboard(generation, result) => {
                self.dashboard_answer(generation, result);
            },
            ApiEvent::History(name, result) => {
                self.history_answer(name, result);
            },
            ApiEvent::HistoryMore { name, after, issued_last_counter, result } => {
                self.more_answer(name, after, issued_last_counter, result);
            },
            ApiEvent::ActionDone(action, result) => {
                self.action_ended(action, result);
            },
            ApiEvent::GithubLatest(name, key, result) => {
                self.check_ended(name.as_str(), key.as_str(), result);
            },
            ApiEvent::ConsoleLog(job, start, result) => {
                self.log_came(&job, start, result);
            },
            ApiEvent::Artifacts(job, result) => {
                self.artifacts_came(&job, result);
            },
            ApiEvent::Views(generation, result) => {
                self.views_arrived(generation, result);
            },
            ApiEvent::UpstreamRefs(pipeline, refs) => {
                self.refs_arrived(pipeline, refs);
            },
            ApiEvent::ViewSaved(generation, result) => {
                self.view_was_saved(generation, result);
            },
        }
    }
}

} // verus!
