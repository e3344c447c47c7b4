//! The state of the interface and what each event does to it.

use vstd::prelude::*;

use crate::api::{GoCdClient, GoCdClientView};
use crate::config::{Config, ConfigView};
use crate::dup::Dup;
use crate::editor::{EditRequest, EditRequestView};
use crate::github::{CommitCheck, GitHubClient, GitHubClientView};
use crate::model::{
    ArtifactNode, ArtifactRow, ArtifactRowView, DashboardGroup, DashboardGroupView,
    DashboardPipeline, DashboardPipelineView, GitRef, GitRefView, PipelineInstance,
    PipelineInstanceView, ViewFilter, ViewFilterView,
};
use crate::names::{NameMap, NameSet};

pub use crate::app::clipboard::{base64, clipboard_sequence};
pub use crate::app::hints::{auth_hint, format_age, open_url, parse_env_var};
pub use crate::app::matching::fuzzy_match;
pub use crate::app::snapshots::{merge_history_pages, new_failures};

pub mod actions;
pub mod clipboard;
pub mod console;
pub mod console_keys;
pub mod events;
pub mod favorites;
pub mod forms;
pub mod hints;
pub mod keys;
pub mod laws;
pub mod matching;
pub mod moves;
pub mod open;
pub mod results;
pub mod snapshots;
pub mod start;
pub mod ticks;
pub mod trace;
pub mod tree;

verus! {

/// The pane that keys go to.
#[derive(Debug, Clone, Copy, PartialEq, Eq, Structural)]
pub enum Focus {
    Groups,
    History,
    Detail,
}

/// A row of the details: a stage, or a job of one.
#[derive(Debug, Clone, Copy, PartialEq, Eq, Structural)]
pub enum DetailRow {
    Stage(usize),
    Job(usize, usize),
}

#[derive(Debug, Clone, Copy, PartialEq, Eq, Structural)]
pub enum JobTab {
    Console,
    Artifacts,
    Materials,
}

#[derive(Debug, Clone, Copy, PartialEq, Eq, Structural)]
pub enum ReauthMode {
    Connect,
    Reconnect,
}

/// The steps of the connect form, which ends at the credential.
#[derive(Debug, Clone, Copy, PartialEq, Eq, Structural)]
pub enum ReauthStep {
    ServerUrl,
    ChooseAuthMethod,
    Username,
    Secret,
}

#[derive(Debug, Clone, Copy, PartialEq, Eq, Structural)]
pub enum KeyCode {
    Char(char),
    Enter,
    Esc,
    Tab,
    BackTab,
    Backspace,
    Up,
    Down,
    Left,
    Right,
    PageUp,
    PageDown,
    Home,
    End,
    Other,
}

/// A key press.
#[derive(Debug, Clone, Copy, PartialEq, Eq, Structural)]
pub struct Key {
    pub code: KeyCode,
    /// The control key was held.
    pub ctrl: bool,
}

#[derive(Debug, Clone, Copy, PartialEq, Eq, Structural)]
pub enum MouseKind {
    ScrollUp,
    ScrollDown,
    LeftDown,
    Other,
}

/// A part of the screen, in cells.
#[derive(Debug, Clone, Copy, PartialEq, Eq, Structural)]
pub struct Rect {
    pub x: u16,
    pub y: u16,
    pub width: u16,
    pub height: u16,
}

/// Something that changes a pipeline.
#[derive(Debug)]
pub enum PendingAction {
    Trigger(String),
    TriggerWithVars { pipeline: String, vars: Vec<(String, String)> },
    Pause(String),
    Unpause(String),
    CancelStage { pipeline: String, pipeline_counter: i64, stage: String, stage_counter: String },
    RerunFailedJobs { pipeline: String, pipeline_counter: i64, stage: String, stage_counter: String },
    RerunStage { pipeline: String, pipeline_counter: i64, stage: String, stage_counter: String },
}

#[verifier::ext_equal]
pub enum PendingActionView {
    Trigger(Seq<char>),
    TriggerWithVars { pipeline: Seq<char>, vars: Seq<(Seq<char>, Seq<char>)> },
    Pause(Seq<char>),
    Unpause(Seq<char>),
    CancelStage { pipeline: Seq<char>, pipeline_counter: i64, stage: Seq<char>, stage_counter: Seq<char> },
    RerunFailedJobs { pipeline: Seq<char>, pipeline_counter: i64, stage: Seq<char>, stage_counter: Seq<char> },
    RerunStage { pipeline: Seq<char>, pipeline_counter: i64, stage: Seq<char>, stage_counter: Seq<char> },
}

impl DeepView for PendingAction {
    type V = PendingActionView;

    open spec fn deep_view(&self) -> PendingActionView {
        match self {
            PendingAction::Trigger(x) => PendingActionView::Trigger(x@),
            PendingAction::TriggerWithVars { pipeline, vars } => PendingActionView::TriggerWithVars { pipeline: pipeline@, vars: vars.deep_view() },
            PendingAction::Pause(x) => PendingActionView::Pause(x@),
            PendingAction::Unpause(x) => PendingActionView::Unpause(x@),
            PendingAction::CancelStage { pipeline, pipeline_counter, stage, stage_counter } => PendingActionView::CancelStage { pipeline: pipeline@, pipeline_counter: *pipeline_counter, stage: stage@, stage_counter: stage_counter@ },
            PendingAction::RerunFailedJobs { pipeline, pipeline_counter, stage, stage_counter } => PendingActionView::RerunFailedJobs { pipeline: pipeline@, pipeline_counter: *pipeline_counter, stage: stage@, stage_counter: stage_counter@ },
            PendingAction::RerunStage { pipeline, pipeline_counter, stage, stage_counter } => PendingActionView::RerunStage { pipeline: pipeline@, pipeline_counter: *pipeline_counter, stage: stage@, stage_counter: stage_counter@ },
        }
    }
}

impl Dup for PendingAction {
    fn dup(&self) -> (r: Self) {
        match self {
            PendingAction::Trigger(x) => PendingAction::Trigger(x.dup()),
            PendingAction::TriggerWithVars { pipeline, vars } => PendingAction::TriggerWithVars { pipeline: pipeline.dup(), vars: vars.dup() },
            PendingAction::Pause(x) => PendingAction::Pause(x.dup()),
            PendingAction::Unpause(x) => PendingAction::Unpause(x.dup()),
            PendingAction::CancelStage { pipeline, pipeline_counter, stage, stage_counter } => PendingAction::CancelStage { pipeline: pipeline.dup(), pipeline_counter: *pipeline_counter, stage: stage.dup(), stage_counter: stage_counter.dup() },
            PendingAction::RerunFailedJobs { pipeline, pipeline_counter, stage, stage_counter } => PendingAction::RerunFailedJobs { pipeline: pipeline.dup(), pipeline_counter: *pipeline_counter, stage: stage.dup(), stage_counter: stage_counter.dup() },
            PendingAction::RerunStage { pipeline, pipeline_counter, stage, stage_counter } => PendingAction::RerunStage { pipeline: pipeline.dup(), pipeline_counter: *pipeline_counter, stage: stage.dup(), stage_counter: stage_counter.dup() },
        }
    }
}

/// Addresses one job run.
#[derive(Debug, PartialEq, Eq)]
pub struct JobRef {
    pub pipeline: String,
    pub pipeline_counter: i64,
    pub stage: String,
    pub stage_counter: String,
    pub job: String,
}

#[verifier::ext_equal]
pub struct JobRefView {
    pub pipeline: Seq<char>,
    pub pipeline_counter: i64,
    pub stage: Seq<char>,
    pub stage_counter: Seq<char>,
    pub job: Seq<char>,
}

impl DeepView for JobRef {
    type V = JobRefView;

    open spec fn deep_view(&self) -> JobRefView {
        JobRefView {
            pipeline: self.pipeline@,
            pipeline_counter: self.pipeline_counter,
            stage: self.stage@,
            stage_counter: self.stage_counter@,
            job: self.job@,
        }
    }
}

impl Dup for JobRef {
    fn dup(&self) -> (r: Self) {
        JobRef {
            pipeline: self.pipeline.dup(),
            pipeline_counter: self.pipeline_counter,
            stage: self.stage.dup(),
            stage_counter: self.stage_counter.dup(),
            job: self.job.dup(),
        }
    }
}

/// The view of one job: its log, artifacts and materials.
#[derive(Debug)]
pub struct ConsoleLogState {
    pub job_ref: JobRef,
    pub title: String,
    /// The result of the job when the view was opened.
    pub result: Option<String>,
    pub tab: JobTab,
    pub lines: Vec<String>,
    pub scroll: usize,
    /// Follow the tail; scrolling up turns it off, jumping to the end on.
    pub following: bool,
    pub loading: bool,
    pub error: Option<String>,
    pub search: String,
    pub search_active: bool,
    /// The lines that hold the search text.
    pub matches: Vec<usize>,
    pub match_idx: usize,
    /// The whole tree, so that folders can be opened on demand.
    pub artifact_tree: Option<Vec<ArtifactNode>>,
    /// The visible rows, by the tree and the open folders.
    pub artifacts: Option<Vec<ArtifactRow>>,
    /// The paths of the open folders; none at first.
    pub artifacts_expanded: NameSet,
    pub artifacts_loading: bool,
    pub artifact_selected: usize,
    /// The lines of the materials of the run.
    pub materials: Vec<String>,
}

#[verifier::ext_equal]
pub struct ConsoleLogStateView {
    pub job_ref: JobRefView,
    pub title: Seq<char>,
    pub result: Option<Seq<char>>,
    pub tab: JobTab,
    pub lines: Seq<Seq<char>>,
    pub scroll: usize,
    pub following: bool,
    pub loading: bool,
    pub error: Option<Seq<char>>,
    pub search: Seq<char>,
    pub search_active: bool,
    pub matches: Seq<usize>,
    pub match_idx: usize,
    pub artifact_tree: Option<Seq<ArtifactNode>>,
    pub artifacts: Option<Seq<ArtifactRowView>>,
    pub artifacts_expanded: Set<Seq<char>>,
    pub artifacts_loading: bool,
    pub artifact_selected: usize,
    pub materials: Seq<Seq<char>>,
}

impl DeepView for ConsoleLogState {
    type V = ConsoleLogStateView;

    open spec fn deep_view(&self) -> ConsoleLogStateView {
        ConsoleLogStateView {
            job_ref: self.job_ref.deep_view(),
            title: self.title@,
            result: self.result.deep_view(),
            tab: self.tab,
            lines: self.lines.deep_view(),
            scroll: self.scroll,
            following: self.following,
            loading: self.loading,
            error: self.error.deep_view(),
            search: self.search@,
            search_active: self.search_active,
            matches: self.matches@,
            match_idx: self.match_idx,
            artifact_tree: self.artifact_tree.deep_view(),
            artifacts: self.artifacts.deep_view(),
            artifacts_expanded: self.artifacts_expanded@,
            artifacts_loading: self.artifacts_loading,
            artifact_selected: self.artifact_selected,
            materials: self.materials.deep_view(),
        }
    }
}

/// The connect form.
#[derive(Debug)]
pub struct ReauthForm {
    pub mode: ReauthMode,
    pub step: ReauthStep,
    pub use_token: bool,
    pub server_url: String,
    pub username: String,
    pub secret: String,
    pub choice_index: usize,
    pub input: String,
}

#[verifier::ext_equal]
pub struct ReauthFormView {
    pub mode: ReauthMode,
    pub step: ReauthStep,
    pub use_token: bool,
    pub server_url: Seq<char>,
    pub username: Seq<char>,
    pub secret: Seq<char>,
    pub choice_index: usize,
    pub input: Seq<char>,
}

impl DeepView for ReauthForm {
    type V = ReauthFormView;

    open spec fn deep_view(&self) -> ReauthFormView {
        ReauthFormView {
            mode: self.mode,
            step: self.step,
            use_token: self.use_token,
            server_url: self.server_url@,
            username: self.username@,
            secret: self.secret@,
            choice_index: self.choice_index,
            input: self.input@,
        }
    }
}

/// The form for a run with variables: NAME=VALUE entries, one at a time; an
/// empty entry leads to the confirmation.
#[derive(Debug)]
pub struct TriggerVarsForm {
    pub pipeline: String,
    pub vars: Vec<(String, String)>,
    pub input: String,
    pub confirming: bool,
    pub error: Option<String>,
}

#[verifier::ext_equal]
pub struct TriggerVarsFormView {
    pub pipeline: Seq<char>,
    pub vars: Seq<(Seq<char>, Seq<char>)>,
    pub input: Seq<char>,
    pub confirming: bool,
    pub error: Option<Seq<char>>,
}

impl DeepView for TriggerVarsForm {
    type V = TriggerVarsFormView;

    open spec fn deep_view(&self) -> TriggerVarsFormView {
        TriggerVarsFormView {
            pipeline: self.pipeline@,
            vars: self.vars.deep_view(),
            input: self.input@,
            confirming: self.confirming,
            error: self.error.deep_view(),
        }
    }
}

/// What is open over the panes.
#[derive(Debug)]
pub enum Modal {
    Help,
    Confirm { action: PendingAction, message: String },
    Reauth(ReauthForm),
    GithubConnect { input: String },
    TriggerVars(TriggerVarsForm),
    ConsoleLog(Box<ConsoleLogState>),
    /// Index 0 is "All pipelines", then one per view.
    ViewPicker { selected: usize },
    /// The name under which the filtered pipelines are saved as a view.
    SaveView { input: String, pipelines: Vec<String> },
}

#[verifier::ext_equal]
pub enum ModalView {
    Help,
    Confirm { action: PendingActionView, message: Seq<char> },
    Reauth(ReauthFormView),
    GithubConnect { input: Seq<char> },
    TriggerVars(TriggerVarsFormView),
    ConsoleLog(ConsoleLogStateView),
    ViewPicker { selected: usize },
    SaveView { input: Seq<char>, pipelines: Seq<Seq<char>> },
}

impl DeepView for Modal {
    type V = ModalView;

    open spec fn deep_view(&self) -> ModalView {
        match self {
            Modal::Help => ModalView::Help,
            Modal::Confirm { action, message } => ModalView::Confirm { action: action.deep_view(), message: message@ },
            Modal::Reauth(x) => ModalView::Reauth(x.deep_view()),
            Modal::GithubConnect { input } => ModalView::GithubConnect { input: input@ },
            Modal::TriggerVars(x) => ModalView::TriggerVars(x.deep_view()),
            Modal::ConsoleLog(x) => ModalView::ConsoleLog(x.deep_view()),
            Modal::ViewPicker { selected } => ModalView::ViewPicker { selected: *selected },
            Modal::SaveView { input, pipelines } => ModalView::SaveView { input: input@, pipelines: pipelines.deep_view() },
        }
    }
}

/// How far the check of a material has come.
#[derive(Debug)]
pub enum GithubState {
    Idle,
    Checking,
    Found(String),
    Failed(String),
}

#[verifier::ext_equal]
pub enum GithubStateView {
    Idle,
    Checking,
    Found(Seq<char>),
    Failed(Seq<char>),
}

impl DeepView for GithubState {
    type V = GithubStateView;

    open spec fn deep_view(&self) -> GithubStateView {
        match self {
            GithubState::Idle => GithubStateView::Idle,
            GithubState::Checking => GithubStateView::Checking,
            GithubState::Found(x) => GithubStateView::Found(x@),
            GithubState::Failed(x) => GithubStateView::Failed(x@),
        }
    }
}

impl Dup for GithubState {
    fn dup(&self) -> (r: Self) {
        match self {
            GithubState::Idle => GithubState::Idle,
            GithubState::Checking => GithubState::Checking,
            GithubState::Found(x) => GithubState::Found(x.dup()),
            GithubState::Failed(x) => GithubState::Failed(x.dup()),
        }
    }
}

/// A row of the tree.
#[derive(Debug)]
pub enum Row {
    FavoritesHeader,
    FavoritePipeline(String),
    Group { idx: usize },
    Pipeline { group_idx: usize, pipeline_idx: usize },
}

#[verifier::ext_equal]
pub enum RowView {
    FavoritesHeader,
    FavoritePipeline(Seq<char>),
    Group { idx: usize },
    Pipeline { group_idx: usize, pipeline_idx: usize },
}

impl DeepView for Row {
    type V = RowView;

    open spec fn deep_view(&self) -> RowView {
        match self {
            Row::FavoritesHeader => RowView::FavoritesHeader,
            Row::FavoritePipeline(x) => RowView::FavoritePipeline(x@),
            Row::Group { idx } => RowView::Group { idx: *idx },
            Row::Pipeline { group_idx, pipeline_idx } => RowView::Pipeline { group_idx: *group_idx, pipeline_idx: *pipeline_idx },
        }
    }
}

impl Dup for Row {
    fn dup(&self) -> (r: Self) {
        match self {
            Row::FavoritesHeader => Row::FavoritesHeader,
            Row::FavoritePipeline(x) => Row::FavoritePipeline(x.dup()),
            Row::Group { idx } => Row::Group { idx: *idx },
            Row::Pipeline { group_idx, pipeline_idx } => Row::Pipeline { group_idx: *group_idx, pipeline_idx: *pipeline_idx },
        }
    }
}

/// What a row of the tree stands for, by name: by it the cursor survives a
/// refresh that moves groups and pipelines.
#[derive(Debug)]
pub enum SelectionKey {
    FavoritesHeader,
    Favorite(String),
    Group(String),
    Pipeline(String),
}

#[verifier::ext_equal]
pub enum SelectionKeyView {
    FavoritesHeader,
    Favorite(Seq<char>),
    Group(Seq<char>),
    Pipeline(Seq<char>),
}

impl DeepView for SelectionKey {
    type V = SelectionKeyView;

    open spec fn deep_view(&self) -> SelectionKeyView {
        match self {
            SelectionKey::FavoritesHeader => SelectionKeyView::FavoritesHeader,
            SelectionKey::Favorite(x) => SelectionKeyView::Favorite(x@),
            SelectionKey::Group(x) => SelectionKeyView::Group(x@),
            SelectionKey::Pipeline(x) => SelectionKeyView::Pipeline(x@),
        }
    }
}

/// Work that an event asks for. Its outcome comes back as another event.
#[derive(Debug)]
pub enum Effect {
    /// Fetch the personal views, for this generation of the server.
    LoadViews(u64),
    LoadDashboard { generation: u64, etag: Option<String>, view: Option<String> },
    /// Fetch the first page of history of this pipeline.
    LoadHistory(String),
    LoadMoreHistory { name: String, after: u64, last_counter: i64 },
    CheckGithub { pipeline: String, key: String, owner: String, repo: String, branch: String },
    TraceUpstream { pipeline: String, deps: Vec<(String, i64)> },
    FetchConsole { job: JobRef, start_line: usize },
    FetchArtifacts(JobRef),
    RunAction(PendingAction),
    SaveCache { groups: Vec<DashboardGroup>, info: Vec<DashboardPipeline> },
    SaveFavorites(Vec<String>),
    Notify { title: String, body: String },
    SaveView { generation: u64, name: String, pipelines: Vec<String> },
    /// Put the content on the clipboard; `done` is said where that worked.
    Copy { content: String, done: String },
    OpenUrl { url: String, done: String },
    /// Connect with these settings, and save them where asked.
    Reconnect { cfg: Config, save: bool },
    ConnectGithub { cfg: Config, save: bool },
}

#[verifier::ext_equal]
pub enum EffectView {
    LoadViews(u64),
    LoadDashboard { generation: u64, etag: Option<Seq<char>>, view: Option<Seq<char>> },
    LoadHistory(Seq<char>),
    LoadMoreHistory { name: Seq<char>, after: u64, last_counter: i64 },
    CheckGithub { pipeline: Seq<char>, key: Seq<char>, owner: Seq<char>, repo: Seq<char>, branch: Seq<char> },
    TraceUpstream { pipeline: Seq<char>, deps: Seq<(Seq<char>, i64)> },
    FetchConsole { job: JobRefView, start_line: usize },
    FetchArtifacts(JobRefView),
    RunAction(PendingActionView),
    SaveCache { groups: Seq<DashboardGroupView>, info: Seq<DashboardPipelineView> },
    SaveFavorites(Seq<Seq<char>>),
    Notify { title: Seq<char>, body: Seq<char> },
    SaveView { generation: u64, name: Seq<char>, pipelines: Seq<Seq<char>> },
    Copy { content: Seq<char>, done: Seq<char> },
    OpenUrl { url: Seq<char>, done: Seq<char> },
    Reconnect { cfg: ConfigView, save: bool },
    ConnectGithub { cfg: ConfigView, save: bool },
}

impl DeepView for Effect {
    type V = EffectView;

    open spec fn deep_view(&self) -> EffectView {
        match self {
            Effect::LoadViews(x) => EffectView::LoadViews(*x),
            Effect::LoadDashboard { generation, etag, view } => EffectView::LoadDashboard { generation: *generation, etag: etag.deep_view(), view: view.deep_view() },
            Effect::LoadHistory(x) => EffectView::LoadHistory(x@),
            Effect::LoadMoreHistory { name, after, last_counter } => EffectView::LoadMoreHistory { name: name@, after: *after, last_counter: *last_counter },
            Effect::CheckGithub { pipeline, key, owner, repo, branch } => EffectView::CheckGithub { pipeline: pipeline@, key: key@, owner: owner@, repo: repo@, branch: branch@ },
            Effect::TraceUpstream { pipeline, deps } => EffectView::TraceUpstream { pipeline: pipeline@, deps: deps.deep_view() },
            Effect::FetchConsole { job, start_line } => EffectView::FetchConsole { job: job.deep_view(), start_line: *start_line },
            Effect::FetchArtifacts(x) => EffectView::FetchArtifacts(x.deep_view()),
            Effect::RunAction(x) => EffectView::RunAction(x.deep_view()),
            Effect::SaveCache { groups, info } => EffectView::SaveCache { groups: groups.deep_view(), info: info.deep_view() },
            Effect::SaveFavorites(x) => EffectView::SaveFavorites(x.deep_view()),
            Effect::Notify { title, body } => EffectView::Notify { title: title@, body: body@ },
            Effect::SaveView { generation, name, pipelines } => EffectView::SaveView { generation: *generation, name: name@, pipelines: pipelines.deep_view() },
            Effect::Copy { content, done } => EffectView::Copy { content: content@, done: done@ },
            Effect::OpenUrl { url, done } => EffectView::OpenUrl { url: url@, done: done@ },
            Effect::Reconnect { cfg, save } => EffectView::Reconnect { cfg: cfg.deep_view(), save: *save },
            Effect::ConnectGithub { cfg, save } => EffectView::ConnectGithub { cfg: cfg.deep_view(), save: *save },
        }
    }
}

/// The state of the interface. Times are in millis since some start.
pub struct App {
    pub client: GoCdClient,
    pub cfg: Config,
    pub server_url: String,
    pub groups: Vec<DashboardGroup>,
    pub expanded: NameSet,
    pub pipeline_info: NameMap<DashboardPipeline>,
    pub views: Vec<ViewFilter>,
    /// The view that the dashboard is loaded with.
    pub active_view: Option<usize>,
    /// Why the views could not be loaded: that differs from there being none.
    pub views_error: Option<String>,
    /// Starred pipelines, shown first in the tree.
    pub favorites: NameSet,
    pub favorites_expanded: bool,
    pub filter: String,
    pub filter_active: bool,
    pub rows: Vec<Row>,
    pub selected: usize,
    pub focus: Focus,
    /// The first visible row of the tree, from the last draw.
    pub tree_offset: usize,
    pub history_offset: usize,
    pub tree_area: Rect,
    pub history_area: Rect,
    pub detail_area: Rect,
    /// The height of the log from the last draw.
    pub console_view_height: u16,
    pub selected_pipeline: Option<String>,
    pub history: Vec<PipelineInstance>,
    pub history_selected: usize,
    pub history_loading: bool,
    /// The history of every pipeline that was looked at.
    pub history_cache: NameMap<Vec<PipelineInstance>>,
    /// The cursor of the next page; none where all is loaded.
    pub history_next: NameMap<u64>,
    /// The pipeline and cursor of the page that is being fetched.
    pub history_more_inflight: Option<(String, u64)>,
    /// The pipeline under the cursor, and since when.
    pub hover_target: Option<(String, u64)>,
    pub last_poll: u64,
    pub detail_rows: Vec<DetailRow>,
    pub detail_selected: usize,
    pub last_console_poll: u64,
    pub github: GitHubClient,
    /// One check per git material of the latest run of the open pipeline.
    pub github_checks: Vec<(GitRef, GithubState)>,
    /// The check of the first material.
    pub github_state: GithubState,
    pub demo: bool,
    /// Set by 'e'; the main loop opens it, since only it can leave the screen.
    pub pending_edit: Option<EditRequest>,
    /// Counts the connections; an answer to an earlier one is dropped.
    pub server_gen: u64,
    pub dashboard_etag: Option<String>,
    pub loading_groups: bool,
    pub status_line: String,
    pub error_line: Option<String>,
    pub modal: Option<Modal>,
    pub should_quit: bool,
    /// Counts the drawn frames; spinners go by it.
    pub tick: u64,
    /// Work asked for and not yet taken.
    pub outbox: Vec<Effect>,
}

#[verifier::ext_equal]
pub struct AppView {
    pub client: GoCdClientView,
    pub cfg: ConfigView,
    pub server_url: Seq<char>,
    pub groups: Seq<DashboardGroupView>,
    pub expanded: Set<Seq<char>>,
    pub pipeline_info: Map<Seq<char>, DashboardPipelineView>,
    pub views: Seq<ViewFilterView>,
    pub active_view: Option<usize>,
    pub views_error: Option<Seq<char>>,
    pub favorites: Set<Seq<char>>,
    pub favorites_expanded: bool,
    pub filter: Seq<char>,
    pub filter_active: bool,
    pub rows: Seq<RowView>,
    pub selected: usize,
    pub focus: Focus,
    pub tree_offset: usize,
    pub history_offset: usize,
    pub tree_area: Rect,
    pub history_area: Rect,
    pub detail_area: Rect,
    pub console_view_height: u16,
    pub selected_pipeline: Option<Seq<char>>,
    pub history: Seq<PipelineInstanceView>,
    pub history_selected: usize,
    pub history_loading: bool,
    pub history_cache: Map<Seq<char>, Seq<PipelineInstanceView>>,
    pub history_next: Map<Seq<char>, u64>,
    pub history_more_inflight: Option<(Seq<char>, u64)>,
    pub hover_target: Option<(Seq<char>, u64)>,
    pub last_poll: u64,
    pub detail_rows: Seq<DetailRow>,
    pub detail_selected: usize,
    pub last_console_poll: u64,
    pub github: GitHubClientView,
    pub github_checks: Seq<(GitRefView, GithubStateView)>,
    pub github_state: GithubStateView,
    pub demo: bool,
    pub pending_edit: Option<EditRequestView>,
    pub server_gen: u64,
    pub dashboard_etag: Option<Seq<char>>,
    pub loading_groups: bool,
    pub status_line: Seq<char>,
    pub error_line: Option<Seq<char>>,
    pub modal: Option<ModalView>,
    pub should_quit: bool,
    pub tick: u64,
    pub outbox: Seq<EffectView>,
}

impl DeepView for App {
    type V = AppView;

    open spec fn deep_view(&self) -> AppView {
        AppView {
            client: self.client.deep_view(),
            cfg: self.cfg.deep_view(),
            server_url: self.server_url@,
            groups: self.groups.deep_view(),
            expanded: self.expanded@,
            pipeline_info: self.pipeline_info.deep_view(),
            views: self.views.deep_view(),
            active_view: self.active_view.deep_view(),
            views_error: self.views_error.deep_view(),
            favorites: self.favorites@,
            favorites_expanded: self.favorites_expanded,
            filter: self.filter@,
            filter_active: self.filter_active,
            rows: self.rows.deep_view(),
            selected: self.selected,
            focus: self.focus,
            tree_offset: self.tree_offset,
            history_offset: self.history_offset,
            tree_area: self.tree_area,
            history_area: self.history_area,
            detail_area: self.detail_area,
            console_view_height: self.console_view_height,
            selected_pipeline: self.selected_pipeline.deep_view(),
            history: self.history.deep_view(),
            history_selected: self.history_selected,
            history_loading: self.history_loading,
            history_cache: self.history_cache.deep_view(),
            history_next: self.history_next.deep_view(),
            history_more_inflight: self.history_more_inflight.deep_view(),
            hover_target: self.hover_target.deep_view(),
            last_poll: self.last_poll,
            detail_rows: self.detail_rows@,
            detail_selected: self.detail_selected,
            last_console_poll: self.last_console_poll,
            github: self.github.deep_view(),
            github_checks: self.github_checks.deep_view(),
            github_state: self.github_state.deep_view(),
            demo: self.demo,
            pending_edit: self.pending_edit.deep_view(),
            server_gen: self.server_gen,
            dashboard_etag: self.dashboard_etag.deep_view(),
            loading_groups: self.loading_groups,
            status_line: self.status_line@,
            error_line: self.error_line.deep_view(),
            modal: self.modal.deep_view(),
            should_quit: self.should_quit,
            tick: self.tick,
            outbox: self.outbox.deep_view(),
        }
    }
}


/// A fresh dashboard: groups, pipelines, and the tag of the answer.
pub type DashboardPayload = (Vec<DashboardGroup>, Vec<DashboardPipeline>, Option<String>);

/// A page of history: its runs, and the cursor of the next page.
pub type HistoryPage = (Vec<PipelineInstance>, Option<u64>);

/// What came back from work done elsewhere.
#[derive(Debug)]
pub enum ApiEvent {
    /// No payload: nothing changed since the tag that was sent.
    Dashboard(u64, Result<Option<DashboardPayload>, String>),
    /// The first page of a pipeline's history.
    History(String, Result<HistoryPage, String>),
    /// A later page. `issued_last_counter` is the counter of the last loaded run
    /// when the fetch started.
    HistoryMore {
        name: String,
        after: u64,
        issued_last_counter: i64,
        result: Result<HistoryPage, String>,
    },
    ActionDone(PendingAction, Result<String, String>),
    /// The pipeline, the key of the material, and what the check gave.
    GithubLatest(String, String, Result<CommitCheck, String>),
    /// The line that the fetch started from, and the text from there on.
    ConsoleLog(JobRef, usize, Result<String, String>),
    Artifacts(JobRef, Result<Vec<ArtifactNode>, String>),
    Views(u64, Result<Vec<ViewFilter>, String>),
    /// References traced through upstream runs.
    UpstreamRefs(String, Vec<GitRef>),
    ViewSaved(u64, Result<String, String>),
}

} // verus!
