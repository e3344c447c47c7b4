//! What keys ask for on a pipeline or a run: trigger, pause, cancel, rerun,
//! favorites, copying and browsing.

use vstd::prelude::*;
use vstd::string::*;

use crate::api::{
    cancel_call, pause_call, rerun_call, trigger_call, trigger_vars_call, unpause_call, Call,
    CallView, GoCdClient, GoCdClientView,
};
use crate::app::{
    App, AppView, DetailRow, Effect, EffectView, Focus, GithubState, GithubStateView, Modal,
    ModalView, PendingAction, PendingActionView, Row, RowView, TriggerVarsForm,
    TriggerVarsFormView,
};
use crate::dup::Dup;
use crate::model::{
    reads, GitRef, GitRefView, PipelineInstanceView, StageInstance, StageInstanceView,
};
use crate::names::ordered;
use crate::text;

verus! {

// ---- words ---------------------------------------------------------------

impl PendingActionView {
    /// The pipeline that an action is on.
    pub open spec fn pipeline(self) -> Seq<char> {
        match self {
            PendingActionView::Trigger(n) => n,
            PendingActionView::Pause(n) => n,
            PendingActionView::Unpause(n) => n,
            PendingActionView::TriggerWithVars { pipeline, .. } => pipeline,
            PendingActionView::CancelStage { pipeline, .. } => pipeline,
            PendingActionView::RerunFailedJobs { pipeline, .. } => pipeline,
            PendingActionView::RerunStage { pipeline, .. } => pipeline,
        }
    }

    /// What is said while it is under way.
    pub open spec fn underway(self) -> Seq<char> {
        match self {
            PendingActionView::Trigger(n) => "Triggering "@ + n + "..."@,
            PendingActionView::TriggerWithVars { pipeline, .. } => "Triggering "@ + pipeline
                + "..."@,
            PendingActionView::Pause(n) => "Pausing "@ + n + "..."@,
            PendingActionView::Unpause(n) => "Unpausing "@ + n + "..."@,
            PendingActionView::CancelStage { pipeline, stage, .. } => "Cancelling "@ + stage
                + " on "@ + pipeline + "..."@,
            PendingActionView::RerunFailedJobs {
                pipeline,
                stage,
                ..
            } => "Rerunning failed jobs of "@ + stage + " on "@ + pipeline + "..."@,
            PendingActionView::RerunStage { pipeline, stage, .. } => "Rerunning stage "@ + stage
                + " on "@ + pipeline + "..."@,
        }
    }

    /// What is said when it is done.
    pub open spec fn completed(self) -> Seq<char> {
        match self {
            PendingActionView::Trigger(n) => "Triggered "@ + n,
            PendingActionView::TriggerWithVars { pipeline, vars } => "Triggered "@ + pipeline
                + " with "@ + text::dec(vars.len()) + " variable(s)"@,
            PendingActionView::Pause(n) => "Paused "@ + n,
            PendingActionView::Unpause(n) => "Unpaused "@ + n,
            PendingActionView::CancelStage { pipeline, stage, .. } => "Cancelled "@ + stage
                + " on "@ + pipeline,
            PendingActionView::RerunFailedJobs {
                pipeline,
                stage,
                ..
            } => "Rerunning failed jobs of "@ + stage + " on "@ + pipeline,
            PendingActionView::RerunStage { pipeline, stage, .. } => "Rerunning stage "@ + stage
                + " on "@ + pipeline,
        }
    }
}

impl PendingActionView {
    /// The call that carries the action out.
    pub open spec fn call(self, c: GoCdClientView) -> CallView {
        match self {
            PendingActionView::Trigger(n) => trigger_call(c, n),
            PendingActionView::TriggerWithVars { pipeline, vars } => trigger_vars_call(
                c,
                pipeline,
                vars,
            ),
            PendingActionView::Pause(n) => pause_call(c, n, "paused via lazygocd"@),
            PendingActionView::Unpause(n) => unpause_call(c, n),
            PendingActionView::CancelStage {
                pipeline,
                pipeline_counter,
                stage,
                stage_counter,
            } => cancel_call(c, pipeline, pipeline_counter, stage, stage_counter),
            PendingActionView::RerunFailedJobs {
                pipeline,
                pipeline_counter,
                stage,
                stage_counter,
            } => rerun_call(
                c,
                pipeline,
                pipeline_counter,
                stage,
                stage_counter,
                "run-failed-jobs"@,
            ),
            PendingActionView::RerunStage {
                pipeline,
                pipeline_counter,
                stage,
                stage_counter,
            } => rerun_call(c, pipeline, pipeline_counter, stage, stage_counter, "run"@),
        }
    }
}

impl PendingAction {
    /// The call that carries the action out.
    pub fn call(&self, client: &GoCdClient) -> (r: Call)
        ensures
            r.deep_view() == self.deep_view().call(client.deep_view()),
    {
        match self {
            PendingAction::Trigger(n) => client.trigger_pipeline(n.as_str()),
            PendingAction::TriggerWithVars { pipeline, vars } => client.trigger_pipeline_with_vars(
                pipeline.as_str(),
                vars,
            ),
            PendingAction::Pause(n) => client.pause_pipeline(n.as_str(), "paused via lazygocd"),
            PendingAction::Unpause(n) => client.unpause_pipeline(n.as_str()),
            PendingAction::CancelStage { pipeline, pipeline_counter, stage, stage_counter } => {
                client.cancel_stage(
                    pipeline.as_str(),
                    *pipeline_counter,
                    stage.as_str(),
                    stage_counter.as_str(),
                )
            },
            PendingAction::RerunFailedJobs { pipeline, pipeline_counter, stage, stage_counter } => {
                client.rerun_failed_jobs(
                    pipeline.as_str(),
                    *pipeline_counter,
                    stage.as_str(),
                    stage_counter.as_str(),
                )
            },
            PendingAction::RerunStage { pipeline, pipeline_counter, stage, stage_counter } => {
                client.rerun_stage(
                    pipeline.as_str(),
                    *pipeline_counter,
                    stage.as_str(),
                    stage_counter.as_str(),
                )
            },
        }
    }

    /// The pipeline that the action is on.
    pub fn name(&self) -> (r: &str)
        ensures
            r@ == self.deep_view().pipeline(),
    {
        match self {
            PendingAction::Trigger(n) => n.as_str(),
            PendingAction::Pause(n) => n.as_str(),
            PendingAction::Unpause(n) => n.as_str(),
            PendingAction::TriggerWithVars { pipeline, .. } => pipeline.as_str(),
            PendingAction::CancelStage { pipeline, .. } => pipeline.as_str(),
            PendingAction::RerunFailedJobs { pipeline, .. } => pipeline.as_str(),
            PendingAction::RerunStage { pipeline, .. } => pipeline.as_str(),
        }
    }

    pub(crate) fn underway(&self) -> (r: String)
        ensures
            r@ == self.deep_view().underway(),
    {
        match self {
            PendingAction::Trigger(n) => text::cat3("Triggering ", n.as_str(), "..."),
            PendingAction::TriggerWithVars { pipeline, .. } => text::cat3(
                "Triggering ",
                pipeline.as_str(),
                "...",
            ),
            PendingAction::Pause(n) => text::cat3("Pausing ", n.as_str(), "..."),
            PendingAction::Unpause(n) => text::cat3("Unpausing ", n.as_str(), "..."),
            PendingAction::CancelStage { pipeline, stage, .. } => text::cat5(
                "Cancelling ",
                stage.as_str(),
                " on ",
                pipeline.as_str(),
                "...",
            ),
            PendingAction::RerunFailedJobs { pipeline, stage, .. } => text::cat5(
                "Rerunning failed jobs of ",
                stage.as_str(),
                " on ",
                pipeline.as_str(),
                "...",
            ),
            PendingAction::RerunStage { pipeline, stage, .. } => text::cat5(
                "Rerunning stage ",
                stage.as_str(),
                " on ",
                pipeline.as_str(),
                "...",
            ),
        }
    }

    /// What is said when the action is done.
    pub fn completed(&self) -> (r: String)
        ensures
            r@ == self.deep_view().completed(),
    {
        match self {
            PendingAction::Trigger(n) => text::cat2("Triggered ", n.as_str()),
            PendingAction::TriggerWithVars { pipeline, vars } => {
                let n = text::decimal_n(vars.len());
                text::cat5("Triggered ", pipeline.as_str(), " with ", n.as_str(), " variable(s)")
            },
            PendingAction::Pause(n) => text::cat2("Paused ", n.as_str()),
            PendingAction::Unpause(n) => text::cat2("Unpaused ", n.as_str()),
            PendingAction::CancelStage { pipeline, stage, .. } => text::cat4(
                "Cancelled ",
                stage.as_str(),
                " on ",
                pipeline.as_str(),
            ),
            PendingAction::RerunFailedJobs { pipeline, stage, .. } => text::cat4(
                "Rerunning failed jobs of ",
                stage.as_str(),
                " on ",
                pipeline.as_str(),
            ),
            PendingAction::RerunStage { pipeline, stage, .. } => text::cat4(
                "Rerunning stage ",
                stage.as_str(),
                " on ",
                pipeline.as_str(),
            ),
        }
    }
}

// ---- trigger and pause ---------------------------------------------------

impl AppView {
    pub open spec fn confirming(self, action: PendingActionView, message: Seq<char>) -> AppView {
        AppView { modal: Some(ModalView::Confirm { action, message }), ..self }
    }

    /// 't': a new run of the current pipeline, to be confirmed.
    #[verifier::opaque]
    pub open spec fn trigger_asked(self) -> AppView {
        match self.current_pipeline() {
            Some(name) => self.confirming(
                PendingActionView::Trigger(name),
                name + "\nTrigger a new run?"@,
            ),
            None => self,
        }
    }

    /// 'T': a run with variables.
    #[verifier::opaque]
    pub open spec fn trigger_vars_asked(self) -> AppView {
        match self.current_pipeline() {
            Some(pipeline) => AppView {
                modal: Some(
                    ModalView::TriggerVars(
                        TriggerVarsFormView {
                            pipeline,
                            vars: Seq::empty(),
                            input: Seq::empty(),
                            confirming: false,
                            error: None,
                        },
                    ),
                ),
                ..self
            },
            None => self,
        }
    }

    pub open spec fn is_paused(self, name: Seq<char>) -> bool {
        self.pipeline_info.contains_key(name) && self.pipeline_info[name].pause_info.paused
    }

    /// 'p': pause, or unpause where the pipeline is paused.
    #[verifier::opaque]
    pub open spec fn pause_asked(self) -> AppView {
        match self.current_pipeline() {
            Some(name) => if self.is_paused(name) {
                self.confirming(
                    PendingActionView::Unpause(name),
                    name + "\nUnpause this pipeline?"@,
                )
            } else {
                self.confirming(PendingActionView::Pause(name), name + "\nPause this pipeline?"@)
            },
            None => self,
        }
    }
}

impl App {
    fn confirm(&mut self, action: PendingAction, message: String)
        ensures
            final(self).deep_view() == old(self).deep_view().confirming(
                action.deep_view(),
                message@,
            ),
    {
        self.modal = Some(Modal::Confirm { action, message });
    }

    pub(crate) fn request_trigger(&mut self)
        ensures
            final(self).deep_view() == old(self).deep_view().trigger_asked(),
    {
        proof {
            reveal(AppView::trigger_asked);
        }
        if let Some(name) = self.current_row_pipeline_name() {
            let message = text::cat2(name.as_str(), "\nTrigger a new run?");
            self.confirm(PendingAction::Trigger(name), message);
        }
    }

    pub(crate) fn request_trigger_with_vars(&mut self)
        ensures
            final(self).deep_view() == old(self).deep_view().trigger_vars_asked(),
    {
        proof {
            reveal(AppView::trigger_vars_asked);
        }
        if let Some(pipeline) = self.current_row_pipeline_name() {
            let vars: Vec<(String, String)> = Vec::new();
            assert(vars.deep_view() =~= Seq::<(Seq<char>, Seq<char>)>::empty());
            self.modal = Some(
                Modal::TriggerVars(
                    TriggerVarsForm {
                        pipeline,
                        vars,
                        input: text::empty(),
                        confirming: false,
                        error: None,
                    },
                ),
            );
        }
    }

    pub(crate) fn request_pause_toggle(&mut self)
        ensures
            final(self).deep_view() == old(self).deep_view().pause_asked(),
    {
        proof {
            reveal(AppView::pause_asked);
        }
        if let Some(name) = self.current_row_pipeline_name() {
            let paused = match self.pipeline_info.get(name.as_str()) {
                Some(p) => p.pause_info.paused,
                None => false,
            };
            assert(paused == self.deep_view().is_paused(name@));
            if paused {
                let message = text::cat2(name.as_str(), "\nUnpause this pipeline?");
                self.confirm(PendingAction::Unpause(name), message);
            } else {
                let message = text::cat2(name.as_str(), "\nPause this pipeline?");
                self.confirm(PendingAction::Pause(name), message);
            }
        }
    }
}

// ---- cancel and rerun ----------------------------------------------------

/// The first stage at or after `from` that is active; the number of stages where
/// there is none.
pub open spec fn active_place(stages: Seq<StageInstanceView>, from: int) -> int
    decreases stages.len() - from,
{
    if from >= stages.len() || stages[from].active() {
        from
    } else {
        active_place(stages, from + 1)
    }
}

pub open spec fn has_failed(s: StageInstanceView) -> bool {
    s.status == Some("Failed"@)
}

/// The first stage at or after `from` that failed; the number of stages where
/// there is none.
pub open spec fn failed_place(stages: Seq<StageInstanceView>, from: int) -> int
    decreases stages.len() - from,
{
    if from >= stages.len() || has_failed(stages[from]) {
        from
    } else {
        failed_place(stages, from + 1)
    }
}

impl AppView {
    /// 'X': cancel the running stage of the latest run. Pausing cannot: it
    /// affects later scheduling only.
    #[verifier::opaque]
    pub open spec fn cancel_asked(self) -> AppView {
        match self.selected_pipeline {
            None => self.saying("Open a pipeline first (enter) to cancel a running build"@),
            Some(pipeline) => if self.history.len() == 0 {
                self
            } else {
                let inst = self.history[0];
                let p = active_place(inst.stages, 0);
                if p >= inst.stages.len() {
                    self.saying("Nothing currently running in "@ + pipeline)
                } else {
                    let stage = inst.stages[p];
                    match stage.counter {
                        None => self.failing("Stage counter unavailable, can't cancel"@),
                        Some(stage_counter) => self.confirming(
                            PendingActionView::CancelStage {
                                pipeline,
                                pipeline_counter: inst.counter,
                                stage: stage.name,
                                stage_counter,
                            },
                            pipeline + "  run #"@ + text::dec_int(inst.counter as int)
                                + "\nCancel the running '"@ + stage.name + "' stage?"@,
                        ),
                    }
                }
            },
        }
    }

    /// The stage of the row under the cursor of the details.
    pub open spec fn cursor_stage(self) -> Option<usize> {
        if self.focus == Focus::Detail && self.detail_selected < self.detail_rows.len() {
            match self.detail_rows[self.detail_selected as int] {
                DetailRow::Stage(si) => Some(si),
                DetailRow::Job(si, _) => Some(si),
            }
        } else {
            None
        }
    }

    /// The failed stage that a rerun is for: the one under the cursor where it
    /// failed, and else the first of the run.
    pub open spec fn rerun_place(self, stages: Seq<StageInstanceView>) -> int {
        match self.cursor_stage() {
            Some(si) => if si < stages.len() && has_failed(stages[si as int]) {
                si as int
            } else {
                failed_place(stages, 0)
            },
            None => failed_place(stages, 0),
        }
    }

    /// 'R': run the failed jobs of a failed stage again.
    #[verifier::opaque]
    pub open spec fn rerun_asked(self) -> AppView {
        if self.focus == Focus::Groups {
            self.saying("Open a pipeline first (enter) to rerun a failed stage"@)
        } else {
            match (self.selected_pipeline, self.current_run()) {
                (Some(pipeline), Some(inst)) => {
                    let counter = text::dec_int(inst.counter as int);
                    let p = self.rerun_place(inst.stages);
                    if inst.overall() == "Passed"@ {
                        self.saying("Run #"@ + counter + " passed - nothing failed to rerun"@)
                    } else if p >= inst.stages.len() {
                        self.saying("No failed stage in run #"@ + counter)
                    } else {
                        let stage = inst.stages[p];
                        match stage.counter {
                            None => self.failing("Stage counter unavailable, can't rerun"@),
                            Some(stage_counter) => self.confirming(
                                PendingActionView::RerunFailedJobs {
                                    pipeline,
                                    pipeline_counter: inst.counter,
                                    stage: stage.name,
                                    stage_counter,
                                },
                                pipeline + "  run #"@ + counter
                                    + "\nRerun the failed jobs of stage '"@ + stage.name
                                    + "'?\n('a' reruns the whole stage instead)"@,
                            ),
                        }
                    }
                },
                _ => self,
            }
        }
    }
}

fn first_active(stages: &Vec<StageInstance>) -> (r: usize)
    ensures
        r == active_place(stages.deep_view(), 0),
        r <= stages@.len(),
{
    let ghost all = stages.deep_view();
    let n: usize = stages.len();
    let mut i: usize = 0;
    while i < n && !stages[i].is_active()
        invariant
            all == stages.deep_view(),
            n == stages@.len(),
            i <= n,
            active_place(all, 0) == active_place(all, i as int),
        decreases n - i,
    {
        assert(all[i as int] == stages@[i as int].deep_view());
        i = i + 1;
    }
    proof {
        if i < n {
            assert(all[i as int] == stages@[i as int].deep_view());
        }
    }
    i
}

fn first_failed(stages: &Vec<StageInstance>) -> (r: usize)
    ensures
        r == failed_place(stages.deep_view(), 0),
        r <= stages@.len(),
{
    let ghost all = stages.deep_view();
    let n: usize = stages.len();
    let mut i: usize = 0;
    while i < n && !reads(&stages[i].status, "Failed")
        invariant
            all == stages.deep_view(),
            n == stages@.len(),
            i <= n,
            failed_place(all, 0) == failed_place(all, i as int),
        decreases n - i,
    {
        assert(all[i as int] == stages@[i as int].deep_view());
        i = i + 1;
    }
    proof {
        if i < n {
            assert(all[i as int] == stages@[i as int].deep_view());
        }
    }
    i
}

impl App {
    pub(crate) fn request_cancel(&mut self)
        ensures
            final(self).deep_view() == old(self).deep_view().cancel_asked(),
    {
        proof {
            reveal(AppView::cancel_asked);
        }
        let pipeline = match &self.selected_pipeline {
            Some(p) => p.clone(),
            None => {
                self.say(text::owned("Open a pipeline first (enter) to cancel a running build"));
                return;
            },
        };
        assert(self.deep_view().history.len() == self.history@.len());
        if self.history.len() == 0 {
            return;
        }
        let inst = &self.history[0];
        assert(self.deep_view().history[0] == inst.deep_view());
        let p: usize = first_active(&inst.stages);
        assert(inst.deep_view().stages.len() == inst.stages@.len());
        if p >= inst.stages.len() {
            self.say(text::cat2("Nothing currently running in ", pipeline.as_str()));
            return;
        }
        let stage = &inst.stages[p];
        assert(inst.deep_view().stages[p as int] == stage.deep_view());
        let stage_counter = match &stage.counter {
            Some(c) => c.clone(),
            None => {
                self.fail(text::owned("Stage counter unavailable, can't cancel"));
                return;
            },
        };
        let counter: i64 = inst.counter;
        let number = text::decimal_i(counter);
        let stage_name = stage.name.clone();
        let message = text::cat6(
            pipeline.as_str(),
            "  run #",
            number.as_str(),
            "\nCancel the running '",
            stage_name.as_str(),
            "' stage?",
        );
        self.confirm(
            PendingAction::CancelStage {
                pipeline,
                pipeline_counter: counter,
                stage: stage_name,
                stage_counter,
            },
            message,
        );
    }

    fn stage_under_cursor(&self) -> (r: Option<usize>)
        ensures
            r == self.deep_view().cursor_stage(),
    {
        if self.focus == Focus::Detail && self.detail_selected < self.detail_rows.len() {
            match self.detail_rows[self.detail_selected] {
                DetailRow::Stage(si) => Some(si),
                DetailRow::Job(si, _) => Some(si),
            }
        } else {
            None
        }
    }

    fn stage_to_rerun(&self, stages: &Vec<StageInstance>) -> (r: usize)
        ensures
            r == self.deep_view().rerun_place(stages.deep_view()),
            r <= stages@.len(),
    {
        if let Some(si) = self.stage_under_cursor() {
            if si < stages.len() {
                assert(stages.deep_view()[si as int] == stages@[si as int].deep_view());
                if reads(&stages[si].status, "Failed") {
                    return si;
                }
            }
        }
        first_failed(stages)
    }

    pub(crate) fn request_rerun(&mut self)
        ensures
            final(self).deep_view() == old(self).deep_view().rerun_asked(),
    {
        proof {
            reveal(AppView::rerun_asked);
        }
        if self.focus == Focus::Groups {
            self.say(text::owned("Open a pipeline first (enter) to rerun a failed stage"));
            return;
        }
        let pipeline = match &self.selected_pipeline {
            Some(p) => p.clone(),
            None => {
                return;
            },
        };
        let inst = match self.run() {
            Some(i) => i,
            None => {
                return;
            },
        };
        let counter: i64 = inst.counter;
        let number = text::decimal_i(counter);
        if text::same(inst.overall_status(), "Passed") {
            self.say(text::cat3("Run #", number.as_str(), " passed - nothing failed to rerun"));
            return;
        }
        let p: usize = self.stage_to_rerun(&inst.stages);
        assert(inst.deep_view().stages.len() == inst.stages@.len());
        if p >= inst.stages.len() {
            self.say(text::cat2("No failed stage in run #", number.as_str()));
            return;
        }
        let stage = &inst.stages[p];
        assert(inst.deep_view().stages[p as int] == stage.deep_view());
        let stage_counter = match &stage.counter {
            Some(c) => c.clone(),
            None => {
                self.fail(text::owned("Stage counter unavailable, can't rerun"));
                return;
            },
        };
        let stage_name = stage.name.clone();
        let message = text::cat6(
            pipeline.as_str(),
            "  run #",
            number.as_str(),
            "\nRerun the failed jobs of stage '",
            stage_name.as_str(),
            "'?\n('a' reruns the whole stage instead)",
        );
        self.confirm(
            PendingAction::RerunFailedJobs {
                pipeline,
                pipeline_counter: counter,
                stage: stage_name,
                stage_counter,
            },
            message,
        );
    }
}

// ---- favorites -----------------------------------------------------------

impl AppView {
    /// The favorites written, but not in the demo.
    pub open spec fn saving_favorites(self) -> AppView {
        if self.demo {
            self
        } else {
            self.emitting(EffectView::SaveFavorites(ordered(self.favorites)))
        }
    }

    /// 'f': the current pipeline starred, or no longer.
    #[verifier::opaque]
    pub open spec fn favorite_toggled(self) -> AppView {
        match self.current_pipeline() {
            Some(name) => (if self.favorites.contains(name) {
                AppView {
                    favorites: self.favorites.remove(name),
                    status_line: "Removed "@ + name + " from favorites"@,
                    ..self
                }
            } else {
                AppView {
                    favorites: self.favorites.insert(name),
                    status_line: "Added "@ + name + " to favorites"@,
                    ..self
                }
            }).saving_favorites().rebuilt(),
            None => self,
        }
    }
}

impl App {
    pub(crate) fn toggle_favorite(&mut self)
        ensures
            final(self).deep_view() == old(self).deep_view().favorite_toggled(),
    {
        proof {
            reveal(AppView::favorite_toggled);
        }
        let name = match self.current_row_pipeline_name() {
            Some(n) => n,
            None => {
                return;
            },
        };
        if self.favorites.contains(name.as_str()) {
            self.favorites.remove(name.as_str());
            self.say(text::cat3("Removed ", name.as_str(), " from favorites"));
        } else {
            self.favorites.insert(name.as_str());
            self.say(text::cat3("Added ", name.as_str(), " to favorites"));
        }
        if !self.demo {
            let names = self.favorites.names().dup();
            self.emit(Effect::SaveFavorites(names));
        }
        self.rebuild_rows();
    }
}

// ---- copying and browsing ------------------------------------------------

impl AppView {
    /// What was copied is said, or why nothing was.
    pub open spec fn copy_noted(self, done: Seq<char>, result: Result<(), String>) -> AppView {
        match result {
            Ok(_) => self.saying(done),
            Err(e) => self.failing("Copy failed: "@ + e@),
        }
    }

    /// What was opened is said, or why nothing was.
    pub open spec fn browse_noted(self, done: Seq<char>, result: Result<(), String>) -> AppView {
        match result {
            Ok(_) => self.saying(done),
            Err(e) => self.failing("Couldn't open browser: "@ + e@),
        }
    }

    /// That the editor was left is said, with the file where it is kept, or why there
    /// was none.
    pub open spec fn edit_noted(self, result: Result<Option<String>, String>) -> AppView {
        match result {
            Ok(Some(path)) => self.saying("Opened in editor: "@ + path@),
            Ok(None) => self.saying("Opened in editor"@),
            Err(e) => self.failing(e@),
        }
    }

    /// What 'y' copies, with the word for it: the commit of a run (or its label)
    /// in the history and the details, a name in the tree.
    pub open spec fn copy_choice(self) -> Option<(Seq<char>, Seq<char>)> {
        if self.focus != Focus::Groups {
            match self.current_run() {
                Some(inst) => match inst.modification() {
                    Some(m) => match m.revision {
                        Some(sha) => Some(("commit sha"@, sha)),
                        None => Some(("run label"@, inst.label)),
                    },
                    None => Some(("run label"@, inst.label)),
                },
                None => None,
            }
        } else {
            match self.cursor_row() {
                Some(RowView::Group { idx }) => if idx < self.groups.len() {
                    Some(("group name"@, self.groups[idx as int].name))
                } else {
                    None
                },
                row => match self.row_pipeline(row) {
                    Some(name) => Some(("pipeline name"@, name)),
                    None => None,
                },
            }
        }
    }

    #[verifier::opaque]
    pub open spec fn copying(self) -> AppView {
        match self.copy_choice() {
            Some((what, content)) => self.emitting(
                EffectView::Copy { content, done: "Copied "@ + what + ": "@ + content },
            ),
            None => self,
        }
    }

    /// The run that 'o' opens the commit of.
    pub open spec fn browse_run(self) -> Option<PipelineInstanceView> {
        if self.focus != Focus::Groups {
            self.current_run()
        } else {
            match self.current_pipeline() {
                Some(name) => if self.history_cache.contains_key(name)
                    && self.history_cache[name].len() > 0 {
                    Some(self.history_cache[name][0])
                } else {
                    None
                },
                None => None,
            }
        }
    }

    /// The page for a reference: what is not deployed yet, where the latest run
    /// is known to be behind, and else the commit of the run.
    pub open spec fn commit_page(self, g: GitRefView) -> Seq<char> {
        let site = "https://"@ + g.host + "/"@ + g.owner + "/"@ + g.repo;
        let latest_run = self.history_selected == 0 && self.focus != Focus::Groups;
        match self.github_state {
            GithubStateView::Found(latest) => if latest_run && latest != g.deployed_sha {
                site + "/compare/"@ + g.deployed_sha + "..."@ + latest
            } else {
                site + "/commit/"@ + g.deployed_sha
            },
            _ => site + "/commit/"@ + g.deployed_sha,
        }
    }

    /// 'o': the page of the commit opened.
    #[verifier::opaque]
    pub open spec fn commit_browsed(self) -> AppView {
        match self.browse_run() {
            None => self.saying("Open a pipeline first to jump to its commit"@),
            Some(inst) => if inst.refs().len() == 0 {
                self.saying("This run has no direct git material to open"@)
            } else {
                let url = self.commit_page(inst.refs()[0]);
                self.browsing(url, "Opened "@ + url)
            },
        }
    }
}

impl App {
    fn chosen_copy(&self) -> (r: Option<(&'static str, String)>)
        ensures
            r.deep_view() == self.deep_view().copy_choice(),
    {
        if self.focus != Focus::Groups {
            match self.run() {
                Some(inst) => {
                    if let Some(m) = inst.git_modification() {
                        if let Some(sha) = &m.revision {
                            return Some(("commit sha", sha.clone()));
                        }
                    }
                    Some(("run label", inst.label.clone()))
                },
                None => None,
            }
        } else {
            match self.selected_row() {
                Some(Row::Group { idx }) => if *idx < self.groups.len() {
                    assert(self.groups.deep_view()[*idx as int].name
                        == self.groups@[*idx as int].name@);
                    Some(("group name", self.groups[*idx].name.clone()))
                } else {
                    None
                },
                _ => match self.current_row_pipeline_name() {
                    Some(name) => Some(("pipeline name", name)),
                    None => None,
                },
            }
        }
    }

    pub(crate) fn copy_selected(&mut self)
        ensures
            final(self).deep_view() == old(self).deep_view().copying(),
    {
        proof {
            reveal(AppView::copying);
        }
        if let Some((what, content)) = self.chosen_copy() {
            let done = text::cat4("Copied ", what, ": ", content.as_str());
            self.emit(Effect::Copy { content, done });
        }
    }

    fn first_ref(&self) -> (r: (bool, Option<GitRef>))
        ensures
            r.0 == self.deep_view().browse_run() is Some,
            r.1.deep_view() == match self.deep_view().browse_run() {
                Some(inst) => if inst.refs().len() > 0 {
                    Some(inst.refs()[0])
                } else {
                    None
                },
                None => None,
            },
    {
        if self.focus != Focus::Groups {
            match self.run() {
                Some(inst) => (true, inst.git_ref()),
                None => (false, None),
            }
        } else {
            let name = match self.current_row_pipeline_name() {
                Some(n) => n,
                None => {
                    return (false, None);
                },
            };
            match self.history_cache.get(name.as_str()) {
                Some(runs) => {
                    assert(self.deep_view().history_cache[name@] == runs.deep_view());
                    assert(runs.deep_view().len() == runs@.len());
                    if runs.len() > 0 {
                        assert(runs.deep_view()[0] == runs@[0].deep_view());
                        (true, runs[0].git_ref())
                    } else {
                        (false, None)
                    }
                },
                None => (false, None),
            }
        }
    }

    fn page_of(&self, g: &GitRef) -> (r: String)
        ensures
            r@ == self.deep_view().commit_page(g.deep_view()),
    {
        let site = text::cat6(
            "https://",
            g.host.as_str(),
            "/",
            g.owner.as_str(),
            "/",
            g.repo.as_str(),
        );
        if self.history_selected == 0 && self.focus != Focus::Groups {
            if let GithubState::Found(latest) = &self.github_state {
                if !text::same(latest.as_str(), g.deployed_sha.as_str()) {
                    return text::cat5(
                        site.as_str(),
                        "/compare/",
                        g.deployed_sha.as_str(),
                        "...",
                        latest.as_str(),
                    );
                }
            }
        }
        text::cat3(site.as_str(), "/commit/", g.deployed_sha.as_str())
    }

    pub(crate) fn open_in_browser(&mut self)
        ensures
            final(self).deep_view() == old(self).deep_view().commit_browsed(),
    {
        proof {
            reveal(AppView::commit_browsed);
        }
        let (any, git_ref) = self.first_ref();
        if !any {
            self.say(text::owned("Open a pipeline first to jump to its commit"));
            return;
        }
        match git_ref {
            Some(g) => {
                let url = self.page_of(&g);
                self.browse(url.as_str(), text::cat2("Opened ", url.as_str()));
            },
            None => {
                self.say(text::owned("This run has no direct git material to open"));
            },
        }
    }

    /// The clipboard was set, or could not be.
    pub fn copied(&mut self, done: String, result: Result<(), String>)
        ensures
            final(self).deep_view() == old(self).deep_view().copy_noted(done@, result),
    {
        match result {
            Ok(_) => {
                self.say(done);
            },
            Err(e) => {
                self.fail(text::cat2("Copy failed: ", e.as_str()));
            },
        }
    }

    /// The editor came back, with the file that it was given where that is known,
    /// or could not be started.
    pub fn edited(&mut self, result: Result<Option<String>, String>)
        ensures
            final(self).deep_view() == old(self).deep_view().edit_noted(result),
    {
        match result {
            Ok(Some(path)) => {
                self.say(text::cat2("Opened in editor: ", path.as_str()));
            },
            Ok(None) => {
                self.say(text::owned("Opened in editor"));
            },
            Err(e) => {
                self.fail(e);
            },
        }
    }

    /// The browser was started, or could not be.
    pub fn browsed(&mut self, done: String, result: Result<(), String>)
        ensures
            final(self).deep_view() == old(self).deep_view().browse_noted(done@, result),
    {
        match result {
            Ok(_) => {
                self.say(done);
            },
            Err(e) => {
                self.fail(text::cat2("Couldn't open browser: ", e.as_str()));
            },
        }
    }
}

} // verus!
