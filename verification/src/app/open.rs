//! Opening a pipeline or a job, and the checks of its commits.

use vstd::prelude::*;
use vstd::string::*;

use crate::app::{
    App, AppView, ConsoleLogState, ConsoleLogStateView, Effect, EffectView, Focus, GithubState,
    GithubStateView, JobRef, JobRefView, JobTab, Modal, ModalView,
};
use crate::dup::Dup;
use crate::model::{
    upstream_deps, GitRef, GitRefView, JobInstance, JobInstanceView, MaterialRevision,
    MaterialRevisionView, Modification, ModificationView, PipelineInstance, PipelineInstanceView,
};
use crate::names::NameSet;
use crate::text;

verus! {

// ---- checks --------------------------------------------------------------

/// The check of one material.
pub open spec fn check_of(pipeline: Seq<char>, r: GitRefView) -> EffectView {
    EffectView::CheckGithub {
        pipeline,
        key: r.identity(),
        owner: r.owner,
        repo: r.repo,
        branch: r.branch,
    }
}

pub open spec fn checks_of(pipeline: Seq<char>, refs: Seq<GitRefView>) -> Seq<EffectView> {
    Seq::new(refs.len(), |i: int| check_of(pipeline, refs[i]))
}

pub open spec fn all_checking(refs: Seq<GitRefView>) -> Seq<(GitRefView, GithubStateView)> {
    Seq::new(refs.len(), |i: int| (refs[i], GithubStateView::Checking))
}

impl AppView {
    pub open spec fn loading_views(self) -> AppView {
        self.emitting(EffectView::LoadViews(self.server_gen))
    }

    /// The dashboard asked for: only what changed, and with the active view.
    pub open spec fn loading_dashboard(self) -> AppView {
        self.emitting(
            EffectView::LoadDashboard {
                generation: self.server_gen,
                etag: self.dashboard_etag,
                view: match self.active_view {
                    Some(i) => if i < self.views.len() {
                        Some(self.views[i as int].name)
                    } else {
                        None
                    },
                    None => None,
                },
            },
        )
    }
    pub open spec fn loading_history(self, name: Seq<char>) -> AppView {
        AppView { history_loading: true, ..self }.emitting(EffectView::LoadHistory(name))
    }
    pub open spec fn checking(self, pipeline: Seq<char>, refs: Seq<GitRefView>) -> AppView {
        AppView { outbox: self.outbox + checks_of(pipeline, refs), ..self }
    }

    /// The references of the latest run.
    pub open spec fn latest_refs(self) -> Seq<GitRefView> {
        if self.history.len() > 0 {
            self.history[0].refs()
        } else {
            Seq::empty()
        }
    }

    pub open spec fn latest_upstreams(self) -> Seq<(Seq<char>, i64)> {
        if self.history.len() > 0 {
            self.history[0].upstreams()
        } else {
            Seq::empty()
        }
    }

    /// One check for each material of the latest run. Where it has none, its
    /// commit is traced through the runs that triggered it, if there are any.
    #[verifier::opaque]
    pub open spec fn checks_started(self, pipeline: Seq<char>) -> AppView {
        let refs = self.latest_refs();
        let deps = self.latest_upstreams();
        if refs.len() > 0 {
            AppView {
                github_checks: all_checking(refs),
                github_state: GithubStateView::Checking,
                ..self.checking(pipeline, refs)
            }
        } else if deps.len() > 0 {
            AppView {
                github_checks: Seq::empty(),
                github_state: GithubStateView::Checking,
                ..self.emitting(EffectView::TraceUpstream { pipeline, deps })
            }
        } else {
            AppView { github_checks: Seq::empty(), github_state: GithubStateView::Idle, ..self }
        }
    }

    /// A pipeline opened: from the cache at once where it was looked at before,
    /// and refreshed in any case.
    #[verifier::opaque]
    pub open spec fn opened(self, name: Seq<char>) -> AppView {
        let base = AppView {
            selected_pipeline: Some(name),
            history_selected: 0,
            focus: Focus::History,
            ..self
        };
        let shown = if self.history_cache.contains_key(name) {
            AppView {
                history: self.history_cache[name],
                history_loading: false,
                status_line: name + " (cached, refreshing...)"@,
                ..base
            }.checks_started(name)
        } else {
            AppView {
                history: Seq::empty(),
                github_checks: Seq::empty(),
                github_state: GithubStateView::Idle,
                status_line: "Loading history for "@ + name + "..."@,
                ..base
            }
        };
        AppView { detail_selected: 0, ..shown.detailed() }.loading_history(name)
    }
}

impl App {
    pub(crate) fn spawn_load_views(&mut self)
        ensures
            final(self).deep_view() == old(self).deep_view().loading_views(),
    {
        let generation: u64 = self.server_gen;
        self.emit(Effect::LoadViews(generation));
    }

    pub(crate) fn spawn_load_dashboard(&mut self)
        ensures
            final(self).deep_view() == old(self).deep_view().loading_dashboard(),
    {
        let view = match self.active_view {
            Some(i) => if i < self.views.len() {
                assert(self.views.deep_view()[i as int].name == self.views@[i as int].name@);
                Some(self.views[i].name.clone())
            } else {
                None
            },
            None => None,
        };
        let etag = self.dashboard_etag.dup();
        let generation: u64 = self.server_gen;
        self.emit(Effect::LoadDashboard { generation, etag, view });
    }

    pub(crate) fn spawn_load_history(&mut self, name: String)
        ensures
            final(self).deep_view() == old(self).deep_view().loading_history(name@),
    {
        self.history_loading = true;
        self.emit(Effect::LoadHistory(name));
    }

    pub(crate) fn spawn_check_github(&mut self, pipeline: &String, refs: &Vec<GitRef>)
        ensures
            final(self).deep_view() == old(self).deep_view().checking(
                pipeline@,
                refs.deep_view(),
            ),
    {
        let ghost start = self.deep_view();
        let ghost all = refs.deep_view();
        let mut i: usize = 0;
        assert(start.outbox + checks_of(pipeline@, all.take(0)) =~= start.outbox);
        while i < refs.len()
            invariant
                all == refs.deep_view(),
                i <= refs@.len(),
                self.deep_view() == start.checking(pipeline@, all.take(i as int)),
            decreases refs@.len() - i,
        {
            let r = &refs[i];
            let e = Effect::CheckGithub {
                pipeline: pipeline.clone(),
                key: r.key(),
                owner: r.owner.clone(),
                repo: r.repo.clone(),
                branch: r.branch.clone(),
            };
            assert(e.deep_view() == check_of(pipeline@, all[i as int]));
            self.emit(e);
            assert(checks_of(pipeline@, all.take(i + 1)) =~= checks_of(
                pipeline@,
                all.take(i as int),
            ).push(check_of(pipeline@, all[i as int])));
            assert(start.outbox + checks_of(pipeline@, all.take(i + 1)) =~= (start.outbox
                + checks_of(pipeline@, all.take(i as int))).push(
                check_of(pipeline@, all[i as int]),
            ));
            i = i + 1;
        }
        assert(all.take(i as int) =~= all);
    }

    pub(crate) fn checking_all(refs: &Vec<GitRef>) -> (r: Vec<(GitRef, GithubState)>)
        ensures
            r.deep_view() == all_checking(refs.deep_view()),
    {
        let mut out: Vec<(GitRef, GithubState)> = Vec::new();
        let mut i: usize = 0;
        while i < refs.len()
            invariant
                i <= refs@.len(),
                out@.len() == i,
                forall|k: int|
                    0 <= k < i ==> (#[trigger] out@[k]).deep_view() == (
                        refs@[k].deep_view(),
                        GithubStateView::Checking,
                    ),
            decreases refs@.len() - i,
        {
            out.push((refs[i].dup(), GithubState::Checking));
            i = i + 1;
        }
        assert(out.deep_view() =~= all_checking(refs.deep_view()));
        out
    }

    pub(crate) fn start_github_checks(&mut self, pipeline: String)
        ensures
            final(self).deep_view() == old(self).deep_view().checks_started(pipeline@),
    {
        proof {
            reveal(AppView::checks_started);
        }
        let ghost start = self.deep_view();
        assert(start.history.len() == self.history@.len());
        let (refs, deps): (Vec<GitRef>, Vec<(String, i64)>) = if self.history.len() > 0 {
            assert(start.history[0] == self.history@[0].deep_view());
            (self.history[0].git_refs(), upstream_deps(&self.history[0]))
        } else {
            (Vec::new(), Vec::new())
        };
        assert(refs.deep_view() =~= start.latest_refs());
        assert(deps.deep_view() =~= start.latest_upstreams());
        assert(refs.deep_view().len() == refs@.len());
        assert(deps.deep_view().len() == deps@.len());
        if refs.len() == 0 {
            self.github_checks = Vec::new();
            assert(self.github_checks.deep_view() =~= Seq::<(
                GitRefView,
                GithubStateView,
            )>::empty());
            if deps.len() == 0 {
                self.github_state = GithubState::Idle;
            } else {
                self.github_state = GithubState::Checking;
                self.emit(Effect::TraceUpstream { pipeline, deps });
            }
        } else {
            self.github_checks = Self::checking_all(&refs);
            self.github_state = GithubState::Checking;
            self.spawn_check_github(&pipeline, &refs);
        }
        assert(self.deep_view() =~= start.checks_started(pipeline@));
    }

    pub(crate) fn open_pipeline(&mut self, name: String)
        ensures
            final(self).deep_view() == old(self).deep_view().opened(name@),
    {
        proof {
            reveal(AppView::opened);
        }
        let ghost start = self.deep_view();
        self.selected_pipeline = Some(name.clone());
        self.history_selected = 0;
        self.focus = Focus::History;
        let cached = match self.history_cache.get(name.as_str()) {
            Some(runs) => Some(runs.dup()),
            None => None,
        };
        match cached {
            Some(runs) => {
                assert(start.history_cache[name@] == runs.deep_view());
                self.history = runs;
                self.history_loading = false;
                self.say(text::cat2(name.as_str(), " (cached, refreshing...)"));
                self.start_github_checks(name.clone());
            },
            None => {
                self.history = Vec::new();
                self.github_checks = Vec::new();
                assert(self.history.deep_view() =~= Seq::<PipelineInstanceView>::empty());
                assert(self.github_checks.deep_view() =~= Seq::<(
                    GitRefView,
                    GithubStateView,
                )>::empty());
                self.github_state = GithubState::Idle;
                self.say(text::cat3("Loading history for ", name.as_str(), "..."));
            },
        }
        self.rebuild_detail_rows();
        self.detail_selected = 0;
        self.spawn_load_history(name);
    }
}

// ---- materials -----------------------------------------------------------

/// The first `n` characters of a text.
pub open spec fn first_chars(s: Seq<char>, n: int) -> Seq<char> {
    if s.len() > n {
        s.take(n)
    } else {
        s
    }
}

pub fn take_chars(s: &str, n: usize) -> (r: &str)
    ensures
        r@ == first_chars(s@, n as int),
{
    let len: usize = s.unicode_len();
    if len > n {
        let r = s.substring_char(0, n);
        assert(r@ =~= s@.take(n as int));
        r
    } else {
        s
    }
}

pub open spec fn or_dash(s: Option<Seq<char>>) -> Seq<char> {
    match s {
        Some(t) => t,
        None => "-"@,
    }
}

pub fn text_or_dash(s: &Option<String>) -> (r: &str)
    ensures
        r@ == or_dash(s.deep_view()),
{
    match s {
        Some(t) => t.as_str(),
        None => "-",
    }
}

/// The first three lines of a comment, indented.
pub open spec fn comment_lines(comment: Option<Seq<char>>) -> Seq<Seq<char>> {
    match comment {
        Some(c) => {
            let ls = text::lines_of(c);
            Seq::new(
                if ls.len() > 3 {
                    3
                } else {
                    ls.len()
                },
                |i: int| "    "@ + ls[i],
            )
        },
        None => Seq::empty(),
    }
}

/// A commit: its revision shortened, by whom, and its comment.
pub open spec fn modification_lines(m: ModificationView) -> Seq<Seq<char>> {
    seq!["  "@ + first_chars(or_dash(m.revision), 12) + " by "@ + or_dash(m.user_name)]
        + comment_lines(m.comment)
}

pub open spec fn modifications_lines(ms: Seq<ModificationView>) -> Seq<Seq<char>>
    decreases ms.len(),
{
    if ms.len() == 0 {
        Seq::empty()
    } else {
        modifications_lines(ms.drop_last()) + modification_lines(ms.last())
    }
}

/// A material: an empty line, its description, and its commits.
pub open spec fn revision_lines(mr: MaterialRevisionView) -> Seq<Seq<char>> {
    (match mr.material.description {
        Some(d) => seq![Seq::<char>::empty(), d],
        None => Seq::empty(),
    }) + modifications_lines(mr.modifications)
}

pub open spec fn revisions_lines(revs: Seq<MaterialRevisionView>) -> Seq<Seq<char>>
    decreases revs.len(),
{
    if revs.len() == 0 {
        Seq::empty()
    } else {
        revisions_lines(revs.drop_last()) + revision_lines(revs.last())
    }
}

/// What a run was built from, in lines.
pub open spec fn material_lines(inst: PipelineInstanceView) -> Seq<Seq<char>> {
    match inst.build_cause {
        Some(cause) => (match cause.trigger_message {
            Some(msg) => seq!["Trigger: "@ + msg],
            None => Seq::empty(),
        }) + revisions_lines(cause.material_revisions),
        None => Seq::empty(),
    }
}

fn modification_into(m: &Modification, out: &mut Vec<String>)
    ensures
        final(out).deep_view() == old(out).deep_view() + modification_lines(m.deep_view()),
{
    let ghost start = out.deep_view();
    let head = text::cat4(
        "  ",
        take_chars(text_or_dash(&m.revision), 12),
        " by ",
        text_or_dash(&m.user_name),
    );
    let ghost hv = head@;
    text::push_line(out, head);
    if let Some(c) = &m.comment {
        let ls = text::lines(c.as_str());
        let ghost all = ls.deep_view();
        let ghost want = comment_lines(m.comment.deep_view());
        let n: usize = if ls.len() > 3 { 3 } else { ls.len() };
        assert(all.len() == ls@.len());
        let mut i: usize = 0;
        assert(out.deep_view() =~= start + (seq![hv] + want.take(0)));
        while i < n
            invariant
                all == ls.deep_view(),
                n <= ls@.len(),
                want.len() == n,
                forall|k: int| 0 <= k < n ==> #[trigger] want[k] == "    "@ + all[k],
                i <= n,
                out.deep_view() == start + (seq![hv] + want.take(i as int)),
            decreases n - i,
        {
            assert(all[i as int] == ls@[i as int]@);
            let line = text::cat2("    ", ls[i]);
            assert(line@ == want[i as int]);
            text::push_line(out, line);
            assert(start + (seq![hv] + want.take(i + 1)) =~= (start + (seq![hv] + want.take(
                i as int,
            ))).push(want[i as int]));
            i = i + 1;
        }
        assert(want.take(n as int) =~= want);
    }
    assert(out.deep_view() =~= start + modification_lines(m.deep_view()));
}

fn revision_into(mr: &MaterialRevision, out: &mut Vec<String>)
    ensures
        final(out).deep_view() == old(out).deep_view() + revision_lines(mr.deep_view()),
{
    let ghost start = out.deep_view();
    if let Some(d) = &mr.material.description {
        let blank = String::new();
        assert(blank@ =~= Seq::<char>::empty());
        text::push_line(out, blank);
        text::push_line(out, d.clone());
    }
    let ghost mid = out.deep_view();
    let ghost all = mr.modifications.deep_view();
    let mut i: usize = 0;
    assert(mid + modifications_lines(all.take(0)) =~= mid);
    while i < mr.modifications.len()
        invariant
            all == mr.modifications.deep_view(),
            i <= mr.modifications@.len(),
            out.deep_view() == mid + modifications_lines(all.take(i as int)),
        decreases mr.modifications@.len() - i,
    {
        assert(all.take(i + 1).drop_last() =~= all.take(i as int));
        assert(all.take(i + 1).last() == mr.modifications@[i as int].deep_view());
        modification_into(&mr.modifications[i], out);
        assert(out.deep_view() =~= mid + modifications_lines(all.take(i + 1)));
        i = i + 1;
    }
    assert(all.take(i as int) =~= all);
    assert(out.deep_view() =~= start + revision_lines(mr.deep_view()));
}

pub(crate) fn materials_of(inst: &PipelineInstance) -> (r: Vec<String>)
    ensures
        r.deep_view() == material_lines(inst.deep_view()),
{
    let mut out: Vec<String> = Vec::new();
    assert(out.deep_view() =~= Seq::<Seq<char>>::empty());
    if let Some(cause) = &inst.build_cause {
        if let Some(msg) = &cause.trigger_message {
            text::push_line(&mut out, text::cat2("Trigger: ", msg.as_str()));
        }
        let ghost mid = out.deep_view();
        let ghost all = cause.material_revisions.deep_view();
        let mut i: usize = 0;
        assert(mid + revisions_lines(all.take(0)) =~= mid);
        while i < cause.material_revisions.len()
            invariant
                all == cause.material_revisions.deep_view(),
                i <= cause.material_revisions@.len(),
                out.deep_view() == mid + revisions_lines(all.take(i as int)),
            decreases cause.material_revisions@.len() - i,
        {
            assert(all.take(i + 1).drop_last() =~= all.take(i as int));
            assert(all.take(i + 1).last() == cause.material_revisions@[i as int].deep_view());
            revision_into(&cause.material_revisions[i], &mut out);
            assert(out.deep_view() =~= mid + revisions_lines(all.take(i + 1)));
            i = i + 1;
        }
        assert(all.take(i as int) =~= all);
        assert(out.deep_view() =~= material_lines(inst.deep_view()));
    }
    out
}

// ---- jobs ----------------------------------------------------------------

/// The view of a job as it opens: its log is being fetched and will be followed.
pub open spec fn fresh_console(
    job_ref: JobRefView,
    job: JobInstanceView,
    materials: Seq<Seq<char>>,
) -> ConsoleLogStateView {
    ConsoleLogStateView {
        job_ref,
        title: job_ref.stage + "/"@ + job_ref.stage_counter + " - "@ + job_ref.job,
        result: if job.result is Some {
            job.result
        } else {
            job.state
        },
        tab: JobTab::Console,
        lines: Seq::empty(),
        scroll: 0,
        following: true,
        loading: true,
        error: None,
        search: Seq::empty(),
        search_active: false,
        matches: Seq::empty(),
        match_idx: 0,
        artifact_tree: None,
        artifacts: None,
        artifacts_expanded: Set::empty(),
        artifacts_loading: false,
        artifact_selected: 0,
        materials,
    }
}

impl AppView {
    /// The log of a job of the selected run opened.
    #[verifier::opaque]
    pub open spec fn console_opened(self, si: usize, ji: usize, now: u64) -> AppView {
        match (self.selected_pipeline, self.current_run()) {
            (Some(pipeline), Some(inst)) => if si < inst.stages.len() && ji
                < inst.stages[si as int].jobs.len() {
                let stage = inst.stages[si as int];
                let job = stage.jobs[ji as int];
                match stage.counter {
                    None => self.failing("Stage counter unavailable, can't fetch console log"@),
                    Some(stage_counter) => {
                        let job_ref = JobRefView {
                            pipeline,
                            pipeline_counter: inst.counter,
                            stage: stage.name,
                            stage_counter,
                            job: job.name,
                        };
                        AppView {
                            modal: Some(
                                ModalView::ConsoleLog(
                                    fresh_console(job_ref, job, material_lines(inst)),
                                ),
                            ),
                            last_console_poll: now,
                            ..self
                        }.emitting(EffectView::FetchConsole { job: job_ref, start_line: 0 })
                    },
                }
            } else {
                self
            },
            _ => self,
        }
    }
}

fn new_console(job_ref: JobRef, job: &JobInstance, materials: Vec<String>) -> (r: ConsoleLogState)
    ensures
        r.deep_view() == fresh_console(
            job_ref.deep_view(),
            job.deep_view(),
            materials.deep_view(),
        ),
{
    let title = text::cat5(
        job_ref.stage.as_str(),
        "/",
        job_ref.stage_counter.as_str(),
        " - ",
        job_ref.job.as_str(),
    );
    let result = if job.result.is_some() {
        job.result.dup()
    } else {
        job.state.dup()
    };
    let r = ConsoleLogState {
        job_ref,
        title,
        result,
        tab: JobTab::Console,
        lines: Vec::new(),
        scroll: 0,
        following: true,
        loading: true,
        error: None,
        search: String::new(),
        search_active: false,
        matches: Vec::new(),
        match_idx: 0,
        artifact_tree: None,
        artifacts: None,
        artifacts_expanded: NameSet::new(),
        artifacts_loading: false,
        artifact_selected: 0,
        materials,
    };
    assert(r.lines.deep_view() =~= Seq::<Seq<char>>::empty());
    assert(r.search@ =~= Seq::<char>::empty());
    r
}

impl App {
    pub(crate) fn open_console_log_for(&mut self, stage_idx: usize, job_idx: usize, now: u64)
        ensures
            final(self).deep_view() == old(self).deep_view().console_opened(
                stage_idx,
                job_idx,
                now,
            ),
    {
        proof {
            reveal(AppView::console_opened);
        }
        let ghost start = self.deep_view();
        let pipeline = match &self.selected_pipeline {
            Some(p) => p.clone(),
            None => {
                return;
            },
        };
        let inst = match self.run() {
            Some(i) => i,
            None => {
                return;
            },
        };
        let ghost iv = inst.deep_view();
        assert(iv.stages.len() == inst.stages@.len());
        if stage_idx >= inst.stages.len() {
            return;
        }
        let stage = &inst.stages[stage_idx];
        assert(iv.stages[stage_idx as int] == stage.deep_view());
        assert(stage.deep_view().jobs.len() == stage.jobs@.len());
        if job_idx >= stage.jobs.len() {
            return;
        }
        let job = &stage.jobs[job_idx];
        assert(stage.deep_view().jobs[job_idx as int] == job.deep_view());
        let stage_counter = match &stage.counter {
            Some(c) => c.clone(),
            None => {
                self.fail(text::owned("Stage counter unavailable, can't fetch console log"));
                return;
            },
        };
        let job_ref = JobRef {
            pipeline,
            pipeline_counter: inst.counter,
            stage: stage.name.clone(),
            stage_counter,
            job: job.name.clone(),
        };
        let target = job_ref.dup();
        let state = new_console(job_ref, job, materials_of(inst));
        self.modal = Some(Modal::ConsoleLog(Box::new(state)));
        self.last_console_poll = now;
        self.emit(Effect::FetchConsole { job: target, start_line: 0 });
        assert(self.deep_view() =~= start.console_opened(stage_idx, job_idx, now));
    }
}

} // verus!
