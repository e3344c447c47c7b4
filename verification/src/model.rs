//! The data that GoCD serves, and what is read from it.

use vstd::prelude::*;
use vstd::string::*;

use crate::dup::Dup;
use crate::names::NameSet;
use crate::text;

pub mod laws;

verus! {

/// A group of the dashboard and the names of its pipelines.
#[derive(Debug)]
pub struct DashboardGroup {
    pub name: String,
    pub pipelines: Vec<String>,
}

#[verifier::ext_equal]
pub struct DashboardGroupView {
    pub name: Seq<char>,
    pub pipelines: Seq<Seq<char>>,
}

impl DeepView for DashboardGroup {
    type V = DashboardGroupView;

    open spec fn deep_view(&self) -> DashboardGroupView {
        DashboardGroupView {
            name: self.name@,
            pipelines: self.pipelines.deep_view(),
        }
    }
}

impl Dup for DashboardGroup {
    fn dup(&self) -> (r: Self) {
        DashboardGroup {
            name: self.name.dup(),
            pipelines: self.pipelines.dup(),
        }
    }
}

#[derive(Debug)]
pub struct PauseInfo {
    pub paused: bool,
    pub paused_by: Option<String>,
    pub pause_reason: Option<String>,
}

#[verifier::ext_equal]
pub struct PauseInfoView {
    pub paused: bool,
    pub paused_by: Option<Seq<char>>,
    pub pause_reason: Option<Seq<char>>,
}

impl DeepView for PauseInfo {
    type V = PauseInfoView;

    open spec fn deep_view(&self) -> PauseInfoView {
        PauseInfoView {
            paused: self.paused,
            paused_by: self.paused_by.deep_view(),
            pause_reason: self.pause_reason.deep_view(),
        }
    }
}

impl Dup for PauseInfo {
    fn dup(&self) -> (r: Self) {
        PauseInfo {
            paused: self.paused,
            paused_by: self.paused_by.dup(),
            pause_reason: self.pause_reason.dup(),
        }
    }
}

#[derive(Debug)]
pub struct DashboardStage {
    pub name: String,
    pub status: Option<String>,
}

#[verifier::ext_equal]
pub struct DashboardStageView {
    pub name: Seq<char>,
    pub status: Option<Seq<char>>,
}

impl DeepView for DashboardStage {
    type V = DashboardStageView;

    open spec fn deep_view(&self) -> DashboardStageView {
        DashboardStageView {
            name: self.name@,
            status: self.status.deep_view(),
        }
    }
}

impl Dup for DashboardStage {
    fn dup(&self) -> (r: Self) {
        DashboardStage {
            name: self.name.dup(),
            status: self.status.dup(),
        }
    }
}

#[derive(Debug)]
pub struct DashboardInstanceEmbedded {
    pub stages: Vec<DashboardStage>,
}

#[verifier::ext_equal]
pub struct DashboardInstanceEmbeddedView {
    pub stages: Seq<DashboardStageView>,
}

impl DeepView for DashboardInstanceEmbedded {
    type V = DashboardInstanceEmbeddedView;

    open spec fn deep_view(&self) -> DashboardInstanceEmbeddedView {
        DashboardInstanceEmbeddedView {
            stages: self.stages.deep_view(),
        }
    }
}

impl Dup for DashboardInstanceEmbedded {
    fn dup(&self) -> (r: Self) {
        DashboardInstanceEmbedded {
            stages: self.stages.dup(),
        }
    }
}

#[derive(Debug)]
pub struct DashboardInstance {
    pub label: String,
    pub counter: i64,
    pub triggered_by: Option<String>,
    pub embedded: DashboardInstanceEmbedded,
}

#[verifier::ext_equal]
pub struct DashboardInstanceView {
    pub label: Seq<char>,
    pub counter: i64,
    pub triggered_by: Option<Seq<char>>,
    pub embedded: DashboardInstanceEmbeddedView,
}

impl DeepView for DashboardInstance {
    type V = DashboardInstanceView;

    open spec fn deep_view(&self) -> DashboardInstanceView {
        DashboardInstanceView {
            label: self.label@,
            counter: self.counter,
            triggered_by: self.triggered_by.deep_view(),
            embedded: self.embedded.deep_view(),
        }
    }
}

impl Dup for DashboardInstance {
    fn dup(&self) -> (r: Self) {
        DashboardInstance {
            label: self.label.dup(),
            counter: self.counter,
            triggered_by: self.triggered_by.dup(),
            embedded: self.embedded.dup(),
        }
    }
}

#[derive(Debug)]
pub struct DashboardPipelineEmbedded {
    pub instances: Vec<DashboardInstance>,
}

#[verifier::ext_equal]
pub struct DashboardPipelineEmbeddedView {
    pub instances: Seq<DashboardInstanceView>,
}

impl DeepView for DashboardPipelineEmbedded {
    type V = DashboardPipelineEmbeddedView;

    open spec fn deep_view(&self) -> DashboardPipelineEmbeddedView {
        DashboardPipelineEmbeddedView {
            instances: self.instances.deep_view(),
        }
    }
}

impl Dup for DashboardPipelineEmbedded {
    fn dup(&self) -> (r: Self) {
        DashboardPipelineEmbedded {
            instances: self.instances.dup(),
        }
    }
}

/// What the dashboard says of one pipeline: its pause state and its latest runs.
#[derive(Debug)]
pub struct DashboardPipeline {
    pub name: String,
    pub locked: bool,
    pub pause_info: PauseInfo,
    pub can_pause: bool,
    pub can_operate: bool,
    pub embedded: DashboardPipelineEmbedded,
}

#[verifier::ext_equal]
pub struct DashboardPipelineView {
    pub name: Seq<char>,
    pub locked: bool,
    pub pause_info: PauseInfoView,
    pub can_pause: bool,
    pub can_operate: bool,
    pub embedded: DashboardPipelineEmbeddedView,
}

impl DeepView for DashboardPipeline {
    type V = DashboardPipelineView;

    open spec fn deep_view(&self) -> DashboardPipelineView {
        DashboardPipelineView {
            name: self.name@,
            locked: self.locked,
            pause_info: self.pause_info.deep_view(),
            can_pause: self.can_pause,
            can_operate: self.can_operate,
            embedded: self.embedded.deep_view(),
        }
    }
}

impl Dup for DashboardPipeline {
    fn dup(&self) -> (r: Self) {
        DashboardPipeline {
            name: self.name.dup(),
            locked: self.locked,
            pause_info: self.pause_info.dup(),
            can_pause: self.can_pause,
            can_operate: self.can_operate,
            embedded: self.embedded.dup(),
        }
    }
}

#[derive(Debug)]
pub struct DashboardEmbedded {
    pub pipeline_groups: Vec<DashboardGroup>,
    pub pipelines: Vec<DashboardPipeline>,
}

#[verifier::ext_equal]
pub struct DashboardEmbeddedView {
    pub pipeline_groups: Seq<DashboardGroupView>,
    pub pipelines: Seq<DashboardPipelineView>,
}

impl DeepView for DashboardEmbedded {
    type V = DashboardEmbeddedView;

    open spec fn deep_view(&self) -> DashboardEmbeddedView {
        DashboardEmbeddedView {
            pipeline_groups: self.pipeline_groups.deep_view(),
            pipelines: self.pipelines.deep_view(),
        }
    }
}

impl Dup for DashboardEmbedded {
    fn dup(&self) -> (r: Self) {
        DashboardEmbedded {
            pipeline_groups: self.pipeline_groups.dup(),
            pipelines: self.pipelines.dup(),
        }
    }
}

/// `/api/dashboard`: groups, membership, pause state and latest-run status of
/// every pipeline that the user can see, in one call.
#[derive(Debug)]
pub struct DashboardResponse {
    pub embedded: DashboardEmbedded,
}

#[verifier::ext_equal]
pub struct DashboardResponseView {
    pub embedded: DashboardEmbeddedView,
}

impl DeepView for DashboardResponse {
    type V = DashboardResponseView;

    open spec fn deep_view(&self) -> DashboardResponseView {
        DashboardResponseView {
            embedded: self.embedded.deep_view(),
        }
    }
}

impl Dup for DashboardResponse {
    fn dup(&self) -> (r: Self) {
        DashboardResponse {
            embedded: self.embedded.dup(),
        }
    }
}

#[derive(Debug)]
pub struct JobInstance {
    pub name: String,
    pub result: Option<String>,
    pub state: Option<String>,
}

#[verifier::ext_equal]
pub struct JobInstanceView {
    pub name: Seq<char>,
    pub result: Option<Seq<char>>,
    pub state: Option<Seq<char>>,
}

impl DeepView for JobInstance {
    type V = JobInstanceView;

    open spec fn deep_view(&self) -> JobInstanceView {
        JobInstanceView {
            name: self.name@,
            result: self.result.deep_view(),
            state: self.state.deep_view(),
        }
    }
}

impl Dup for JobInstance {
    fn dup(&self) -> (r: Self) {
        JobInstance {
            name: self.name.dup(),
            result: self.result.dup(),
            state: self.state.dup(),
        }
    }
}

#[derive(Debug)]
pub struct StageInstance {
    pub name: String,
    pub status: Option<String>,
    /// "manual" or "success" (started by the previous stage passing).
    pub approval_type: Option<String>,
    pub scheduled_date: Option<i64>,
    /// GoCD sends this as a string (e.g. "1"), not a number.
    pub counter: Option<String>,
    pub jobs: Vec<JobInstance>,
}

#[verifier::ext_equal]
pub struct StageInstanceView {
    pub name: Seq<char>,
    pub status: Option<Seq<char>>,
    pub approval_type: Option<Seq<char>>,
    pub scheduled_date: Option<i64>,
    pub counter: Option<Seq<char>>,
    pub jobs: Seq<JobInstanceView>,
}

impl DeepView for StageInstance {
    type V = StageInstanceView;

    open spec fn deep_view(&self) -> StageInstanceView {
        StageInstanceView {
            name: self.name@,
            status: self.status.deep_view(),
            approval_type: self.approval_type.deep_view(),
            scheduled_date: self.scheduled_date.deep_view(),
            counter: self.counter.deep_view(),
            jobs: self.jobs.deep_view(),
        }
    }
}

impl Dup for StageInstance {
    fn dup(&self) -> (r: Self) {
        StageInstance {
            name: self.name.dup(),
            status: self.status.dup(),
            approval_type: self.approval_type.dup(),
            scheduled_date: self.scheduled_date.dup(),
            counter: self.counter.dup(),
            jobs: self.jobs.dup(),
        }
    }
}

#[derive(Debug)]
pub struct MaterialInfo {
    pub kind: Option<String>,
    pub description: Option<String>,
}

#[verifier::ext_equal]
pub struct MaterialInfoView {
    pub kind: Option<Seq<char>>,
    pub description: Option<Seq<char>>,
}

impl DeepView for MaterialInfo {
    type V = MaterialInfoView;

    open spec fn deep_view(&self) -> MaterialInfoView {
        MaterialInfoView {
            kind: self.kind.deep_view(),
            description: self.description.deep_view(),
        }
    }
}

impl Dup for MaterialInfo {
    fn dup(&self) -> (r: Self) {
        MaterialInfo {
            kind: self.kind.dup(),
            description: self.description.dup(),
        }
    }
}

#[derive(Debug)]
pub struct Modification {
    pub revision: Option<String>,
    pub user_name: Option<String>,
    pub comment: Option<String>,
    pub modified_time: Option<i64>,
}

#[verifier::ext_equal]
pub struct ModificationView {
    pub revision: Option<Seq<char>>,
    pub user_name: Option<Seq<char>>,
    pub comment: Option<Seq<char>>,
    pub modified_time: Option<i64>,
}

impl DeepView for Modification {
    type V = ModificationView;

    open spec fn deep_view(&self) -> ModificationView {
        ModificationView {
            revision: self.revision.deep_view(),
            user_name: self.user_name.deep_view(),
            comment: self.comment.deep_view(),
            modified_time: self.modified_time.deep_view(),
        }
    }
}

impl Dup for Modification {
    fn dup(&self) -> (r: Self) {
        Modification {
            revision: self.revision.dup(),
            user_name: self.user_name.dup(),
            comment: self.comment.dup(),
            modified_time: self.modified_time.dup(),
        }
    }
}

#[derive(Debug)]
pub struct MaterialRevision {
    pub material: MaterialInfo,
    pub modifications: Vec<Modification>,
}

#[verifier::ext_equal]
pub struct MaterialRevisionView {
    pub material: MaterialInfoView,
    pub modifications: Seq<ModificationView>,
}

impl DeepView for MaterialRevision {
    type V = MaterialRevisionView;

    open spec fn deep_view(&self) -> MaterialRevisionView {
        MaterialRevisionView {
            material: self.material.deep_view(),
            modifications: self.modifications.deep_view(),
        }
    }
}

impl Dup for MaterialRevision {
    fn dup(&self) -> (r: Self) {
        MaterialRevision {
            material: self.material.dup(),
            modifications: self.modifications.dup(),
        }
    }
}

#[derive(Debug)]
pub struct BuildCause {
    pub trigger_message: Option<String>,
    pub approver: Option<String>,
    pub material_revisions: Vec<MaterialRevision>,
}

#[verifier::ext_equal]
pub struct BuildCauseView {
    pub trigger_message: Option<Seq<char>>,
    pub approver: Option<Seq<char>>,
    pub material_revisions: Seq<MaterialRevisionView>,
}

impl DeepView for BuildCause {
    type V = BuildCauseView;

    open spec fn deep_view(&self) -> BuildCauseView {
        BuildCauseView {
            trigger_message: self.trigger_message.deep_view(),
            approver: self.approver.deep_view(),
            material_revisions: self.material_revisions.deep_view(),
        }
    }
}

impl Dup for BuildCause {
    fn dup(&self) -> (r: Self) {
        BuildCause {
            trigger_message: self.trigger_message.dup(),
            approver: self.approver.dup(),
            material_revisions: self.material_revisions.dup(),
        }
    }
}

/// One run of a pipeline.
#[derive(Debug)]
pub struct PipelineInstance {
    pub name: String,
    pub label: String,
    /// The run counter: with the stage counter it addresses a stage or job run.
    pub counter: i64,
    pub comment: Option<String>,
    /// Epoch millis at which this run was scheduled.
    pub scheduled_date: Option<i64>,
    pub stages: Vec<StageInstance>,
    pub build_cause: Option<BuildCause>,
}

#[verifier::ext_equal]
pub struct PipelineInstanceView {
    pub name: Seq<char>,
    pub label: Seq<char>,
    pub counter: i64,
    pub comment: Option<Seq<char>>,
    pub scheduled_date: Option<i64>,
    pub stages: Seq<StageInstanceView>,
    pub build_cause: Option<BuildCauseView>,
}

impl DeepView for PipelineInstance {
    type V = PipelineInstanceView;

    open spec fn deep_view(&self) -> PipelineInstanceView {
        PipelineInstanceView {
            name: self.name@,
            label: self.label@,
            counter: self.counter,
            comment: self.comment.deep_view(),
            scheduled_date: self.scheduled_date.deep_view(),
            stages: self.stages.deep_view(),
            build_cause: self.build_cause.deep_view(),
        }
    }
}

impl Dup for PipelineInstance {
    fn dup(&self) -> (r: Self) {
        PipelineInstance {
            name: self.name.dup(),
            label: self.label.dup(),
            counter: self.counter,
            comment: self.comment.dup(),
            scheduled_date: self.scheduled_date.dup(),
            stages: self.stages.dup(),
            build_cause: self.build_cause.dup(),
        }
    }
}

#[derive(Debug)]
pub struct Link {
    pub href: String,
}

#[verifier::ext_equal]
pub struct LinkView {
    pub href: Seq<char>,
}

impl DeepView for Link {
    type V = LinkView;

    open spec fn deep_view(&self) -> LinkView {
        LinkView {
            href: self.href@,
        }
    }
}

impl Dup for Link {
    fn dup(&self) -> (r: Self) {
        Link {
            href: self.href.dup(),
        }
    }
}

#[derive(Debug)]
pub struct HistoryLinks {
    pub next: Option<Link>,
}

#[verifier::ext_equal]
pub struct HistoryLinksView {
    pub next: Option<LinkView>,
}

impl DeepView for HistoryLinks {
    type V = HistoryLinksView;

    open spec fn deep_view(&self) -> HistoryLinksView {
        HistoryLinksView {
            next: self.next.deep_view(),
        }
    }
}

impl Dup for HistoryLinks {
    fn dup(&self) -> (r: Self) {
        HistoryLinks {
            next: self.next.dup(),
        }
    }
}

#[derive(Debug)]
pub struct HistoryResponse {
    pub links: Option<HistoryLinks>,
    pub pipelines: Vec<PipelineInstance>,
}

#[verifier::ext_equal]
pub struct HistoryResponseView {
    pub links: Option<HistoryLinksView>,
    pub pipelines: Seq<PipelineInstanceView>,
}

impl DeepView for HistoryResponse {
    type V = HistoryResponseView;

    open spec fn deep_view(&self) -> HistoryResponseView {
        HistoryResponseView {
            links: self.links.deep_view(),
            pipelines: self.pipelines.deep_view(),
        }
    }
}

impl Dup for HistoryResponse {
    fn dup(&self) -> (r: Self) {
        HistoryResponse {
            links: self.links.dup(),
            pipelines: self.pipelines.dup(),
        }
    }
}

/// A repository, branch and commit that a run was built from, read from a
/// direct Git material.
#[derive(Debug, PartialEq, Eq)]
pub struct GitRef {
    /// "github.com" or a GitHub Enterprise host; browser URLs start with it.
    pub host: String,
    pub owner: String,
    pub repo: String,
    pub branch: String,
    pub deployed_sha: String,
    /// The upstream run (pipeline, counter) that the commit was traced through,
    /// where this run has no Git material of its own.
    pub via: Option<(String, i64)>,
}

#[verifier::ext_equal]
pub struct GitRefView {
    pub host: Seq<char>,
    pub owner: Seq<char>,
    pub repo: Seq<char>,
    pub branch: Seq<char>,
    pub deployed_sha: Seq<char>,
    pub via: Option<(Seq<char>, i64)>,
}

impl DeepView for GitRef {
    type V = GitRefView;

    open spec fn deep_view(&self) -> GitRefView {
        GitRefView {
            host: self.host@,
            owner: self.owner@,
            repo: self.repo@,
            branch: self.branch@,
            deployed_sha: self.deployed_sha@,
            via: self.via.deep_view(),
        }
    }
}

impl Dup for GitRef {
    fn dup(&self) -> (r: Self) {
        GitRef {
            host: self.host.dup(),
            owner: self.owner.dup(),
            repo: self.repo.dup(),
            branch: self.branch.dup(),
            deployed_sha: self.deployed_sha.dup(),
            via: self.via.dup(),
        }
    }
}

#[derive(Debug)]
pub struct PipelineStatus {
    pub paused: bool,
    pub locked: bool,
    pub schedulable: bool,
}

#[verifier::ext_equal]
pub struct PipelineStatusView {
    pub paused: bool,
    pub locked: bool,
    pub schedulable: bool,
}

impl DeepView for PipelineStatus {
    type V = PipelineStatusView;

    open spec fn deep_view(&self) -> PipelineStatusView {
        PipelineStatusView {
            paused: self.paused,
            locked: self.locked,
            schedulable: self.schedulable,
        }
    }
}

impl Dup for PipelineStatus {
    fn dup(&self) -> (r: Self) {
        PipelineStatus {
            paused: self.paused,
            locked: self.locked,
            schedulable: self.schedulable,
        }
    }
}

/// One personal view of the dashboard.
#[derive(Debug)]
pub struct ViewFilter {
    pub name: String,
    /// "whitelist" (only these pipelines) or "blacklist" (all except these).
    pub kind: String,
    /// Status filter (e.g. ["failing"]), kept as it came.
    pub state: Vec<String>,
    pub pipelines: Vec<String>,
}

#[verifier::ext_equal]
pub struct ViewFilterView {
    pub name: Seq<char>,
    pub kind: Seq<char>,
    pub state: Seq<Seq<char>>,
    pub pipelines: Seq<Seq<char>>,
}

impl DeepView for ViewFilter {
    type V = ViewFilterView;

    open spec fn deep_view(&self) -> ViewFilterView {
        ViewFilterView {
            name: self.name@,
            kind: self.kind@,
            state: self.state.deep_view(),
            pipelines: self.pipelines.deep_view(),
        }
    }
}

impl Dup for ViewFilter {
    fn dup(&self) -> (r: Self) {
        ViewFilter {
            name: self.name.dup(),
            kind: self.kind.dup(),
            state: self.state.dup(),
            pipelines: self.pipelines.dup(),
        }
    }
}

#[derive(Debug)]
pub struct ViewFilters {
    pub filters: Vec<ViewFilter>,
}

#[verifier::ext_equal]
pub struct ViewFiltersView {
    pub filters: Seq<ViewFilterView>,
}

impl DeepView for ViewFilters {
    type V = ViewFiltersView;

    open spec fn deep_view(&self) -> ViewFiltersView {
        ViewFiltersView {
            filters: self.filters.deep_view(),
        }
    }
}

impl Dup for ViewFilters {
    fn dup(&self) -> (r: Self) {
        ViewFilters {
            filters: self.filters.dup(),
        }
    }
}

/// One visible row of the artifact tree.
#[derive(Debug, PartialEq, Eq)]
pub struct ArtifactRow {
    pub depth: usize,
    pub name: String,
    pub is_folder: bool,
    pub url: Option<String>,
    /// The names from the root down, joined by slashes: which folders are open
    /// is remembered by it.
    pub path: String,
    pub expanded: bool,
}

#[verifier::ext_equal]
pub struct ArtifactRowView {
    pub depth: usize,
    pub name: Seq<char>,
    pub is_folder: bool,
    pub url: Option<Seq<char>>,
    pub path: Seq<char>,
    pub expanded: bool,
}

impl DeepView for ArtifactRow {
    type V = ArtifactRowView;

    open spec fn deep_view(&self) -> ArtifactRowView {
        ArtifactRowView {
            depth: self.depth,
            name: self.name@,
            is_folder: self.is_folder,
            url: self.url.deep_view(),
            path: self.path@,
            expanded: self.expanded,
        }
    }
}

impl Dup for ArtifactRow {
    fn dup(&self) -> (r: Self) {
        ArtifactRow {
            depth: self.depth,
            name: self.name.dup(),
            is_folder: self.is_folder,
            url: self.url.dup(),
            path: self.path.dup(),
            expanded: self.expanded,
        }
    }
}


/// One entry of an artifact listing: a file, or a folder with its entries.
#[derive(Debug)]
pub struct ArtifactNode {
    pub name: String,
    pub url: Option<String>,
    pub kind: Option<String>,
    pub files: Vec<ArtifactNode>,
}

/// A listing is never copied: it is its own view.
impl DeepView for ArtifactNode {
    type V = ArtifactNode;

    open spec fn deep_view(&self) -> ArtifactNode {
        *self
    }
}

// ---- status --------------------------------------------------------------

/// Whether `value` is present and reads `what`.
pub fn reads(value: &Option<String>, what: &str) -> (r: bool)
    ensures
        r == (value.deep_view() == Some(what@)),
{
    match value {
        Some(v) => text::same(v.as_str(), what),
        None => false,
    }
}

/// The worst of a run's stage statuses: Failed, Cancelled, Building (or
/// Scheduled), Passed where every one of at least one is, and Unknown.
pub open spec fn rollup(statuses: Seq<Option<Seq<char>>>) -> Seq<char> {
    if statuses.contains(Some("Failed"@)) {
        "Failed"@
    } else if statuses.contains(Some("Cancelled"@)) {
        "Cancelled"@
    } else if statuses.contains(Some("Building"@)) || statuses.contains(Some("Scheduled"@)) {
        "Building"@
    } else if statuses.len() > 0 && forall|i: int|
        0 <= i < statuses.len() ==> #[trigger] statuses[i] == Some("Passed"@) {
        "Passed"@
    } else {
        "Unknown"@
    }
}

pub fn rollup_status(statuses: &Vec<Option<&str>>) -> (r: &'static str)
    ensures
        r@ == rollup(statuses.deep_view()),
{
    let ghost all = statuses.deep_view();
    let mut failed = false;
    let mut cancelled = false;
    let mut building = false;
    let mut passed = true;
    let mut i: usize = 0;
    while i < statuses.len()
        invariant
            all == statuses.deep_view(),
            i <= statuses@.len(),
            failed == all.take(i as int).contains(Some("Failed"@)),
            cancelled == all.take(i as int).contains(Some("Cancelled"@)),
            building == (all.take(i as int).contains(Some("Building"@)) || all.take(
                i as int,
            ).contains(Some("Scheduled"@))),
            passed == forall|k: int| 0 <= k < i ==> #[trigger] all[k] == Some("Passed"@),
        decreases statuses@.len() - i,
    {
        proof {
            let x = all[i as int];
            let t = all.take(i as int);
            let u = all.take(i + 1);
            assert(u =~= t.push(x));
            assert forall|y: Option<Seq<char>>| #[trigger] u.contains(y) == (t.contains(y) || x
                == y) by {
                if t.contains(y) {
                    let k = choose|k: int| 0 <= k < t.len() && t[k] == y;
                    assert(u[k] == y);
                }
                assert(u[i as int] == x);
            }
        }
        match statuses[i] {
            Some(s) => {
                if text::same(s, "Failed") {
                    failed = true;
                }
                if text::same(s, "Cancelled") {
                    cancelled = true;
                }
                if text::same(s, "Building") || text::same(s, "Scheduled") {
                    building = true;
                }
                if !text::same(s, "Passed") {
                    assert(all[i as int] != Some("Passed"@));
                    passed = false;
                }
            },
            None => {
                assert(all[i as int] != Some("Passed"@));
                passed = false;
            },
        }
        i = i + 1;
    }
    assert(all.take(i as int) =~= all);
    if failed {
        "Failed"
    } else if cancelled {
        "Cancelled"
    } else if building {
        "Building"
    } else if statuses.len() > 0 && passed {
        "Passed"
    } else {
        "Unknown"
    }
}

/// The text of an optional string.
pub fn text_ref(value: &Option<String>) -> (r: Option<&str>)
    ensures
        r.deep_view() == value.deep_view(),
{
    match value {
        Some(v) => Some(v.as_str()),
        None => None,
    }
}

pub open spec fn dashboard_statuses(stages: Seq<DashboardStageView>) -> Seq<Option<Seq<char>>> {
    stages.map_values(|s: DashboardStageView| s.status)
}

impl DashboardPipelineView {
    /// The rollup of the most recent run, or "Unknown" where there is none.
    pub open spec fn latest(self) -> Seq<char> {
        if self.embedded.instances.len() == 0 {
            "Unknown"@
        } else {
            rollup(dashboard_statuses(self.embedded.instances[0].embedded.stages))
        }
    }
}

impl DashboardPipeline {
    /// The rollup of the most recent run, or "Unknown" where there is none.
    pub fn latest_status(&self) -> (r: &'static str)
        ensures
            r@ == self.deep_view().latest(),
    {
        if self.embedded.instances.len() == 0 {
            return "Unknown";
        }
        let stages = &self.embedded.instances[0].embedded.stages;
        let mut statuses: Vec<Option<&str>> = Vec::new();
        let mut i: usize = 0;
        while i < stages.len()
            invariant
                i <= stages@.len(),
                statuses@.len() == i,
                forall|k: int|
                    0 <= k < i ==> (#[trigger] statuses@[k]).deep_view()
                        == stages@[k].status.deep_view(),
            decreases stages@.len() - i,
        {
            statuses.push(text_ref(&stages[i].status));
            i = i + 1;
        }
        assert(statuses.deep_view() =~= dashboard_statuses(stages.deep_view()));
        rollup_status(&statuses)
    }
}

impl StageInstanceView {
    /// Running, or scheduled to run.
    pub open spec fn active(self) -> bool {
        self.status == Some("Building"@) || self.status == Some("Scheduled"@)
    }
}

impl StageInstance {
    /// Whether the stage is running or scheduled to run.
    pub fn is_active(&self) -> (r: bool)
        ensures
            r == self.deep_view().active(),
    {
        reads(&self.status, "Building") || reads(&self.status, "Scheduled")
    }
}

pub open spec fn stage_statuses(stages: Seq<StageInstanceView>) -> Seq<Option<Seq<char>>> {
    stages.map_values(|s: StageInstanceView| s.status)
}

impl PipelineInstanceView {
    pub open spec fn overall(self) -> Seq<char> {
        rollup(stage_statuses(self.stages))
    }
}

impl PipelineInstance {
    /// The rollup over the stages of this run.
    pub fn overall_status(&self) -> (r: &'static str)
        ensures
            r@ == self.deep_view().overall(),
    {
        let stages = &self.stages;
        let mut statuses: Vec<Option<&str>> = Vec::new();
        let mut i: usize = 0;
        while i < stages.len()
            invariant
                i <= stages@.len(),
                statuses@.len() == i,
                forall|k: int|
                    0 <= k < i ==> (#[trigger] statuses@[k]).deep_view()
                        == stages@[k].status.deep_view(),
            decreases stages@.len() - i,
        {
            statuses.push(text_ref(&stages[i].status));
            i = i + 1;
        }
        assert(statuses.deep_view() =~= stage_statuses(stages.deep_view()));
        rollup_status(&statuses)
    }
}

// ---- history pages -------------------------------------------------------

/// What follows `prefix` in the first of `ps` that begins with it.
pub open spec fn first_after(ps: Seq<Seq<char>>, prefix: Seq<char>) -> Option<Seq<char>>
    decreases ps.len(),
{
    if ps.len() == 0 {
        None
    } else if text::begins(ps[0], prefix) {
        text::after_prefix(ps[0], prefix)
    } else {
        first_after(ps.skip(1), prefix)
    }
}

/// The number of the first `after=` parameter in the query of `href`.
pub open spec fn cursor_of(href: Seq<char>) -> Option<nat> {
    let halves = text::parts(href, '?');
    if halves.len() < 2 {
        None
    } else {
        match first_after(text::parts(halves[1], '&'), "after="@) {
            Some(v) => text::natural(v, u64::MAX as nat),
            None => None,
        }
    }
}

/// The cursor of the next history page, from the `?after=<n>` of its link.
pub fn next_page_cursor(href: &str) -> (r: Option<u64>)
    ensures
        match r {
            Some(n) => cursor_of(href@) == Some(n as nat),
            None => cursor_of(href@) is None,
        },
{
    let halves = text::split(href, '?');
    if halves.len() < 2 {
        return None;
    }
    let pairs = text::split(halves[1], '&');
    let ghost ps = pairs.deep_view();
    let mut i: usize = 0;
    assert(ps.skip(0) =~= ps);
    while i < pairs.len()
        invariant
            ps == pairs.deep_view(),
            i <= pairs@.len(),
            first_after(ps, "after="@) == first_after(ps.skip(i as int), "after="@),
            halves@.len() >= 2,
            halves.deep_view() == text::parts(href@, '?'),
            ps == text::parts(halves@[1]@, '&'),
        decreases pairs@.len() - i,
    {
        assert(ps.skip(i as int)[0] == pairs@[i as int]@);
        if let Some(v) = text::strip_prefix(pairs[i], "after=") {
            assert(halves.deep_view()[1] == halves@[1]@);
            return text::parse_u64(v);
        }
        assert(ps.skip(i as int).skip(1) =~= ps.skip(i + 1));
        i = i + 1;
    }
    assert(halves.deep_view()[1] == halves@[1]@);
    None
}

// ---- git materials -------------------------------------------------------

/// `s` without the occurrences of `suffix` at its end.
pub open spec fn without_suffixes(s: Seq<char>, suffix: Seq<char>) -> Seq<char>
    decreases s.len(),
{
    if suffix.len() > 0 && text::finishes(s, suffix) {
        without_suffixes(s.take(s.len() - suffix.len()), suffix)
    } else {
        s
    }
}

fn trim_end_all<'a>(s: &'a str, suffix: &str) -> (r: &'a str)
    ensures
        r@ == without_suffixes(s@, suffix@),
    decreases s@.len(),
{
    if suffix.unicode_len() == 0 {
        return s;
    }
    match text::strip_suffix(s, suffix) {
        Some(t) => trim_end_all(t, suffix),
        None => s,
    }
}

/// A character that can stand in the host part of a URL.
pub open spec fn host_char(c: char) -> bool {
    text::is_alnum(c) || c == '.' || c == '-' || c == '_' || c == ':'
}

/// A character that can stand in an owner or a repository of a URL.
pub open spec fn repo_char(c: char) -> bool {
    text::is_alnum(c) || c == '.' || c == '-' || c == '_' || c == '~' || c == '/'
}

pub open spec fn is_host(s: Seq<char>) -> bool {
    s.len() > 0 && forall|i: int| 0 <= i < s.len() ==> host_char(#[trigger] s[i])
}

pub open spec fn is_repo_part(s: Seq<char>) -> bool {
    s.len() > 0 && forall|i: int| 0 <= i < s.len() ==> repo_char(#[trigger] s[i])
}

fn valid_host(s: &str) -> (r: bool)
    ensures
        r == is_host(s@),
{
    let cs = text::chars_of(s);
    let mut i: usize = 0;
    while i < cs.len()
        invariant
            cs@ == s@,
            i <= cs@.len(),
            forall|k: int| 0 <= k < i ==> host_char(#[trigger] cs@[k]),
        decreases cs@.len() - i,
    {
        let c = cs[i];
        if !(text::alnum(c) || c == '.' || c == '-' || c == '_' || c == ':') {
            return false;
        }
        i = i + 1;
    }
    cs.len() > 0
}

fn valid_repo_part(s: &str) -> (r: bool)
    ensures
        r == is_repo_part(s@),
{
    let cs = text::chars_of(s);
    let mut i: usize = 0;
    while i < cs.len()
        invariant
            cs@ == s@,
            i <= cs@.len(),
            forall|k: int| 0 <= k < i ==> repo_char(#[trigger] cs@[k]),
        decreases cs@.len() - i,
    {
        let c = cs[i];
        if !(text::alnum(c) || c == '.' || c == '-' || c == '_' || c == '~' || c == '/') {
            return false;
        }
        i = i + 1;
    }
    cs.len() > 0
}

/// What stands between the first "URL: " of a description and the next one.
pub open spec fn after_url_label(desc: Seq<char>) -> Option<Seq<char>> {
    match text::first_place(desc, "URL: "@) {
        Some(i) => {
            let rest = desc.skip(i + "URL: "@.len());
            match text::first_place(rest, "URL: "@) {
                Some(j) => Some(rest.take(j)),
                None => Some(rest),
            }
        },
        None => None,
    }
}

/// The URL of a material description: up to the first comma, trimmed.
pub open spec fn material_url(desc: Seq<char>) -> Option<Seq<char>> {
    match after_url_label(desc) {
        Some(after) => Some(text::trimmed(text::parts(after, ',')[0])),
        None => None,
    }
}

/// The host of a repository URL and what follows it: `git@HOST:rest` or
/// `http(s)://HOST/rest`.
pub open spec fn host_and_rest(url: Seq<char>) -> Option<(Seq<char>, Seq<char>)> {
    match text::after_prefix(url, "git@"@) {
        Some(ssh) => text::cut_at(ssh, ':'),
        None => match text::after_prefix(url, "https://"@) {
            Some(rest) => text::cut_at(rest, '/'),
            None => match text::after_prefix(url, "http://"@) {
                Some(rest) => text::cut_at(rest, '/'),
                None => None,
            },
        },
    }
}

/// The path of a repository without slashes round it and without `.git`.
pub open spec fn bare_repo_path(rest: Seq<char>) -> Seq<char> {
    without_suffixes(text::without_tail(text::without_head(rest, '/'), '/'), ".git"@)
}

/// Host, owner and repository of a material description, where each is made
/// of the characters that a URL takes there.
pub open spec fn repository_of(desc: Seq<char>) -> Option<(Seq<char>, Seq<char>, Seq<char>)> {
    match material_url(desc) {
        None => None,
        Some(url) => match host_and_rest(url) {
            None => None,
            Some((host, rest)) => match text::cut_at(bare_repo_path(rest), '/') {
                None => None,
                Some((owner, repo)) => if is_host(host) && is_repo_part(owner) && is_repo_part(
                    repo,
                ) {
                    Some((host, owner, repo))
                } else {
                    None
                },
            },
        },
    }
}

fn url_of(desc: &str) -> (r: Option<&str>)
    ensures
        r.deep_view() == material_url(desc@),
{
    match text::find(desc, "URL: ") {
        None => None,
        Some(i) => {
            let n: usize = desc.unicode_len();
            let rest = desc.substring_char(i + "URL: ".unicode_len(), n);
            assert(rest@ =~= desc@.skip(i + "URL: "@.len()));
            let after = match text::find(rest, "URL: ") {
                Some(j) => {
                    let a = rest.substring_char(0, j);
                    assert(a@ =~= rest@.take(j as int));
                    a
                },
                None => rest,
            };
            let fields = text::split(after, ',');
            proof {
                text::lemma_parts_some(after@, ',');
                assert(fields.deep_view().len() == fields@.len());
            }
            let first = fields[0];
            assert(first@ == fields.deep_view()[0]);
            Some(text::trim(first))
        },
    }
}

/// GoCD describes a Git material as "URL: git@HOST:owner/repo.git, Branch: main"
/// or "URL: https://HOST/owner/repo, ...".
pub fn parse_git_host_owner_repo(desc: &str) -> (r: Option<(String, String, String)>)
    ensures
        r.deep_view() == repository_of(desc@),
{
    let url = match url_of(desc) {
        Some(u) => u,
        None => {
            return None;
        },
    };
    let halves = match text::strip_prefix(url, "git@") {
        Some(ssh) => text::split_once(ssh, ':'),
        None => match text::strip_prefix(url, "https://") {
            Some(rest) => text::split_once(rest, '/'),
            None => match text::strip_prefix(url, "http://") {
                Some(rest) => text::split_once(rest, '/'),
                None => None,
            },
        },
    };
    let (host, rest) = match halves {
        Some(h) => h,
        None => {
            return None;
        },
    };
    let path = trim_end_all(text::trim_end_of(text::trim_start_of(rest, '/'), '/'), ".git");
    match text::split_once(path, '/') {
        Some((owner, repo)) => if valid_host(host) && valid_repo_part(owner) && valid_repo_part(
            repo,
        ) {
            Some((text::owned(host), text::owned(owner), text::owned(repo)))
        } else {
            None
        },
        None => None,
    }
}

/// What follows the first "Branch: ", trimmed.
pub open spec fn branch_of(desc: Seq<char>) -> Option<Seq<char>> {
    match text::first_place(desc, "Branch: "@) {
        Some(i) => Some(text::trimmed(desc.skip(i + "Branch: "@.len()))),
        None => None,
    }
}

pub fn parse_branch(desc: &str) -> (r: Option<String>)
    ensures
        r.deep_view() == branch_of(desc@),
{
    match text::find(desc, "Branch: ") {
        Some(i) => {
            let n: usize = desc.unicode_len();
            let rest = desc.substring_char(i + "Branch: ".unicode_len(), n);
            assert(rest@ =~= desc@.skip(i + "Branch: "@.len()));
            Some(text::owned(text::trim(rest)))
        },
        None => None,
    }
}

impl GitRefView {
    pub open spec fn identity(self) -> Seq<char> {
        self.host + "/"@ + self.owner + "/"@ + self.repo + "@"@ + self.branch
    }
}

impl GitRef {
    /// The identity by which a check result is matched to its material.
    pub fn key(&self) -> (r: String)
        ensures
            r@ == self.deep_view().identity(),
    {
        text::cat7(
            self.host.as_str(),
            "/",
            self.owner.as_str(),
            "/",
            self.repo.as_str(),
            "@",
            self.branch.as_str(),
        )
    }
}

impl MaterialRevisionView {
    pub open spec fn is_kind(self, kind: Seq<char>) -> bool {
        self.material.kind == Some(kind)
    }

    /// The revision of the first modification.
    pub open spec fn revision(self) -> Option<Seq<char>> {
        if self.modifications.len() == 0 {
            None
        } else {
            self.modifications[0].revision
        }
    }

    /// The reference that a Git material gives: its repository, its branch
    /// ("main" where the description names none) and its first revision.
    pub open spec fn git_ref(self) -> Option<GitRefView> {
        if !self.is_kind("Git"@) {
            None
        } else {
            match (self.material.description, self.revision()) {
                (Some(desc), Some(sha)) => match repository_of(desc) {
                    Some((host, owner, repo)) => Some(
                        GitRefView {
                            host,
                            owner,
                            repo,
                            branch: match branch_of(desc) {
                                Some(b) => b,
                                None => "main"@,
                            },
                            deployed_sha: sha,
                            via: None,
                        },
                    ),
                    None => None,
                },
                _ => None,
            }
        }
    }

    /// The upstream run that a Pipeline material names: "name/counter/...".
    pub open spec fn upstream(self) -> Option<(Seq<char>, i64)> {
        if !self.is_kind("Pipeline"@) {
            None
        } else {
            match self.revision() {
                Some(rev) => {
                    let ps = text::parts(rev, '/');
                    if ps.len() >= 2 && ps[0].len() > 0 {
                        match text::integer(ps[1]) {
                            Some(n) => Some((ps[0], n as i64)),
                            None => None,
                        }
                    } else {
                        None
                    }
                },
                None => None,
            }
        }
    }
}

impl MaterialRevision {
    fn first_revision(&self) -> (r: Option<&str>)
        ensures
            r.deep_view() == self.deep_view().revision(),
    {
        if self.modifications.len() == 0 {
            None
        } else {
            text_ref(&self.modifications[0].revision)
        }
    }

    fn as_git_ref(&self) -> (r: Option<GitRef>)
        ensures
            r.deep_view() == self.deep_view().git_ref(),
    {
        if !reads(&self.material.kind, "Git") {
            return None;
        }
        let desc = match text_ref(&self.material.description) {
            Some(d) => d,
            None => {
                return None;
            },
        };
        let sha = match self.first_revision() {
            Some(s) => s,
            None => {
                return None;
            },
        };
        match parse_git_host_owner_repo(desc) {
            Some((host, owner, repo)) => {
                let branch = match parse_branch(desc) {
                    Some(b) => b,
                    None => text::owned("main"),
                };
                Some(GitRef { host, owner, repo, branch, deployed_sha: text::owned(sha), via: None })
            },
            None => None,
        }
    }

    fn as_upstream(&self) -> (r: Option<(String, i64)>)
        ensures
            r.deep_view() == self.deep_view().upstream(),
    {
        if !reads(&self.material.kind, "Pipeline") {
            return None;
        }
        match self.first_revision() {
            Some(rev) => {
                let ps = text::split(rev, '/');
                if ps.len() < 2 {
                    return None;
                }
                assert(ps.deep_view()[0] == ps@[0]@);
                assert(ps.deep_view()[1] == ps@[1]@);
                if ps[0].unicode_len() == 0 {
                    return None;
                }
                match text::parse_i64(ps[1]) {
                    Some(n) => Some((text::owned(ps[0]), n)),
                    None => None,
                }
            },
            None => None,
        }
    }
}

/// The references of the Git materials among `revs`, in their order.
pub open spec fn git_refs_of(revs: Seq<MaterialRevisionView>) -> Seq<GitRefView>
    decreases revs.len(),
{
    if revs.len() == 0 {
        Seq::empty()
    } else {
        match revs.last().git_ref() {
            Some(g) => git_refs_of(revs.drop_last()).push(g),
            None => git_refs_of(revs.drop_last()),
        }
    }
}

/// The upstream runs among `revs`, in their order.
pub open spec fn upstreams_of(revs: Seq<MaterialRevisionView>) -> Seq<(Seq<char>, i64)>
    decreases revs.len(),
{
    if revs.len() == 0 {
        Seq::empty()
    } else {
        match revs.last().upstream() {
            Some(u) => upstreams_of(revs.drop_last()).push(u),
            None => upstreams_of(revs.drop_last()),
        }
    }
}

impl PipelineInstanceView {
    /// The material revisions of the run; none where it has no build cause.
    pub open spec fn revisions(self) -> Seq<MaterialRevisionView> {
        match self.build_cause {
            Some(cause) => cause.material_revisions,
            None => Seq::empty(),
        }
    }

    pub open spec fn refs(self) -> Seq<GitRefView> {
        git_refs_of(self.revisions())
    }

    pub open spec fn upstreams(self) -> Seq<(Seq<char>, i64)> {
        upstreams_of(self.revisions())
    }

    /// The first revision whose material is of kind Git.
    pub open spec fn git_revision(self) -> Option<MaterialRevisionView> {
        first_of_kind(self.revisions(), "Git"@)
    }

    /// The first modification of that revision.
    pub open spec fn modification(self) -> Option<ModificationView> {
        match self.git_revision() {
            Some(mr) => if mr.modifications.len() > 0 {
                Some(mr.modifications[0])
            } else {
                None
            },
            None => None,
        }
    }
}

/// The first of `revs` whose material is of that kind.
pub open spec fn first_of_kind(revs: Seq<MaterialRevisionView>, kind: Seq<char>) -> Option<
    MaterialRevisionView,
>
    decreases revs.len(),
{
    if revs.len() == 0 {
        None
    } else if revs[0].is_kind(kind) {
        Some(revs[0])
    } else {
        first_of_kind(revs.skip(1), kind)
    }
}

impl PipelineInstance {
    /// The first material revision of kind Git.
    pub fn first_git_revision(&self) -> (r: Option<&MaterialRevision>)
        ensures
            r.deep_view() == self.deep_view().git_revision(),
    {
        let revs = match &self.build_cause {
            Some(cause) => &cause.material_revisions,
            None => {
                return None;
            },
        };
        let ghost all = revs.deep_view();
        assert(all.skip(0) =~= all);
        let mut i: usize = 0;
        while i < revs.len()
            invariant
                all == revs.deep_view(),
                i <= revs@.len(),
                first_of_kind(all, "Git"@) == first_of_kind(all.skip(i as int), "Git"@),
                self.deep_view().git_revision() == first_of_kind(all, "Git"@),
            decreases revs@.len() - i,
        {
            assert(all.skip(i as int)[0] == revs@[i as int].deep_view());
            if reads(&revs[i].material.kind, "Git") {
                return Some(&revs[i]);
            }
            assert(all.skip(i as int).skip(1) =~= all.skip(i + 1));
            i = i + 1;
        }
        None
    }

    /// Every direct Git material of this run, in material order.
    pub fn git_refs(&self) -> (r: Vec<GitRef>)
        ensures
            r.deep_view() == self.deep_view().refs(),
    {
        let mut out: Vec<GitRef> = Vec::new();
        assert(out.deep_view() =~= Seq::<GitRefView>::empty());
        let revs = match &self.build_cause {
            Some(cause) => &cause.material_revisions,
            None => {
                return out;
            },
        };
        let ghost all = revs.deep_view();
        let mut i: usize = 0;
        while i < revs.len()
            invariant
                all == revs.deep_view(),
                i <= revs@.len(),
                out.deep_view() == git_refs_of(all.take(i as int)),
            decreases revs@.len() - i,
        {
            let ghost before = out.deep_view();
            assert(all.take(i + 1).drop_last() =~= all.take(i as int));
            assert(all.take(i + 1).last() == revs@[i as int].deep_view());
            if let Some(g) = revs[i].as_git_ref() {
                out.push(g);
                assert(out.deep_view() =~= before.push(g.deep_view()));
            }
            i = i + 1;
        }
        assert(all.take(i as int) =~= all);
        out
    }

    /// The first direct Git material of this run.
    pub fn git_ref(&self) -> (r: Option<GitRef>)
        ensures
            r.deep_view() == if self.deep_view().refs().len() > 0 {
                Some(self.deep_view().refs()[0])
            } else {
                None
            },
    {
        let mut refs = self.git_refs();
        if refs.len() > 0 {
            let g = refs.remove(0);
            assert(g.deep_view() == self.deep_view().refs()[0]);
            Some(g)
        } else {
            None
        }
    }

    /// The commit that triggered this run, if it has a direct Git material.
    pub fn git_modification(&self) -> (r: Option<&Modification>)
        ensures
            r.deep_view() == self.deep_view().modification(),
    {
        match self.first_git_revision() {
            Some(mr) => if mr.modifications.len() > 0 {
                Some(&mr.modifications[0])
            } else {
                None
            },
            None => None,
        }
    }
}

/// The upstream runs, as (pipeline, counter), that triggered this one. A deploy
/// pipeline usually has no Git material: its only input is a Pipeline material
/// whose revision reads "upstream-name/389/stage-name/1".
pub fn upstream_deps(inst: &PipelineInstance) -> (r: Vec<(String, i64)>)
    ensures
        r.deep_view() == inst.deep_view().upstreams(),
{
    let mut out: Vec<(String, i64)> = Vec::new();
    assert(out.deep_view() =~= Seq::<(Seq<char>, i64)>::empty());
    let revs = match &inst.build_cause {
        Some(cause) => &cause.material_revisions,
        None => {
            return out;
        },
    };
    let ghost all = revs.deep_view();
    let mut i: usize = 0;
    while i < revs.len()
        invariant
            all == revs.deep_view(),
            i <= revs@.len(),
            out.deep_view() == upstreams_of(all.take(i as int)),
        decreases revs@.len() - i,
    {
        let ghost before = out.deep_view();
        assert(all.take(i + 1).drop_last() =~= all.take(i as int));
        assert(all.take(i + 1).last() == revs@[i as int].deep_view());
        if let Some(u) = revs[i].as_upstream() {
            out.push(u);
            assert(out.deep_view() =~= before.push(u.deep_view()));
        }
        i = i + 1;
    }
    assert(all.take(i as int) =~= all);
    out
}

// ---- artifacts -----------------------------------------------------------

/// GoCD marks folders with a type; an entry that carries others is one
/// whatever its type says.
pub open spec fn is_folder_node(n: ArtifactNode) -> bool {
    n.kind.deep_view() == Some("folder"@) || n.files@.len() > 0
}

/// The path of an entry under `prefix`.
pub open spec fn child_path(prefix: Seq<char>, name: Seq<char>) -> Seq<char> {
    if prefix.len() == 0 {
        name
    } else {
        prefix + "/"@ + name
    }
}

/// One level deeper, as far as a `usize` counts.
pub open spec fn deeper(depth: usize) -> usize {
    if depth == usize::MAX {
        depth
    } else {
        (depth + 1) as usize
    }
}

/// The row of one entry.
pub open spec fn node_row(
    n: ArtifactNode,
    depth: usize,
    prefix: Seq<char>,
    open: Set<Seq<char>>,
) -> ArtifactRowView {
    let path = child_path(prefix, n.name@);
    ArtifactRowView {
        depth,
        name: n.name@,
        is_folder: is_folder_node(n),
        url: n.url.deep_view(),
        path,
        expanded: is_folder_node(n) && open.contains(path),
    }
}

/// The visible rows of a listing: each entry, and under an open folder the
/// rows of its own entries.
pub open spec fn visible_rows(
    nodes: Seq<ArtifactNode>,
    depth: usize,
    prefix: Seq<char>,
    open: Set<Seq<char>>,
) -> Seq<ArtifactRowView>
    decreases nodes,
{
    if nodes.len() == 0 {
        Seq::empty()
    } else {
        let n = nodes.last();
        let row = node_row(n, depth, prefix, open);
        let above = visible_rows(nodes.drop_last(), depth, prefix, open).push(row);
        if row.expanded {
            above + visible_rows(n.files@, deeper(depth), row.path, open)
        } else {
            above
        }
    }
}

fn walk(
    nodes: &Vec<ArtifactNode>,
    depth: usize,
    prefix: &str,
    open: &NameSet,
    out: &mut Vec<ArtifactRow>,
)
    ensures
        final(out).deep_view() == old(out).deep_view() + visible_rows(
            nodes@,
            depth,
            prefix@,
            open@,
        ),
    decreases nodes@,
{
    let ghost start = out.deep_view();
    let mut i: usize = 0;
    assert(nodes@.take(0) =~= Seq::empty());
    assert(start + visible_rows(Seq::empty(), depth, prefix@, open@) =~= start);
    while i < nodes.len()
        invariant
            i <= nodes@.len(),
            out.deep_view() == start + visible_rows(nodes@.take(i as int), depth, prefix@, open@),
        decreases nodes@.len() - i,
    {
        let n = &nodes[i];
        let ghost before = out.deep_view();
        let is_folder = reads(&n.kind, "folder") || n.files.len() > 0;
        let path = if prefix.unicode_len() == 0 {
            n.name.clone()
        } else {
            text::cat3(prefix, "/", n.name.as_str())
        };
        let expanded = is_folder && open.contains(path.as_str());
        let row = ArtifactRow {
            depth,
            name: n.name.clone(),
            is_folder,
            url: n.url.dup(),
            path: path.clone(),
            expanded,
        };
        let ghost rv = row.deep_view();
        out.push(row);
        assert(out.deep_view() =~= before.push(rv));
        let below: usize = if depth == usize::MAX { depth } else { depth + 1 };
        if expanded {
            assert(decreases_to!(nodes@ => nodes@[i as int]));
            walk(&n.files, below, path.as_str(), open, out);
        }
        proof {
            assert(nodes@.take(i + 1).drop_last() =~= nodes@.take(i as int));
            assert(nodes@.take(i + 1).last() == nodes@[i as int]);
            assert(rv == node_row(*n, depth, prefix@, open@));
            assert(out.deep_view() =~= start + visible_rows(
                nodes@.take(i + 1),
                depth,
                prefix@,
                open@,
            ));
        }
        i = i + 1;
    }
    assert(nodes@.take(i as int) =~= nodes@);
}

/// The rows that are visible, given the set of open folders. Folders start
/// closed, and only the open ones are walked.
pub fn flatten_artifacts(nodes: &Vec<ArtifactNode>, expanded: &NameSet) -> (r: Vec<ArtifactRow>)
    ensures
        r.deep_view() == visible_rows(nodes@, 0, Seq::empty(), expanded@),
{
    let mut out: Vec<ArtifactRow> = Vec::new();
    assert(""@ =~= Seq::<char>::empty()) by {
        reveal_strlit("");
    }
    walk(nodes, 0, "", expanded, &mut out);
    assert(out.deep_view() =~= visible_rows(nodes@, 0, Seq::empty(), expanded@));
    out
}

// ---- laws ----------------------------------------------------------------

/// Folders start closed: with none open, the rows are the top-level entries.
pub proof fn closed_folders_hide_their_entries(nodes: Seq<ArtifactNode>)
    ensures
        visible_rows(nodes, 0, Seq::empty(), Set::empty()) == nodes.map_values(
            |n: ArtifactNode| node_row(n, 0, Seq::empty(), Set::empty()),
        ),
    decreases nodes.len(),
{
    let f = |n: ArtifactNode| node_row(n, 0, Seq::empty(), Set::empty());
    if nodes.len() > 0 {
        closed_folders_hide_their_entries(nodes.drop_last());
        assert(nodes.map_values(f) =~= nodes.drop_last().map_values(f).push(f(nodes.last())));
    } else {
        assert(nodes.map_values(f) =~= Seq::empty());
    }
}

/// A row is shown as open exactly where it is a folder and its path is among
/// the open ones: folders of the same name under other parents do not share it.
pub proof fn open_state_goes_by_path(
    nodes: Seq<ArtifactNode>,
    depth: usize,
    prefix: Seq<char>,
    open: Set<Seq<char>>,
)
    ensures
        forall|i: int|
            0 <= i < visible_rows(nodes, depth, prefix, open).len() ==> {
                let row = #[trigger] visible_rows(nodes, depth, prefix, open)[i];
                row.expanded == (row.is_folder && open.contains(row.path))
            },
    decreases nodes,
{
    if nodes.len() > 0 {
        let n = nodes.last();
        let row = node_row(n, depth, prefix, open);
        open_state_goes_by_path(nodes.drop_last(), depth, prefix, open);
        if row.expanded {
            assert(decreases_to!(nodes => nodes[nodes.len() - 1]));
            open_state_goes_by_path(n.files@, deeper(depth), row.path, open);
        }
    }
}

/// A row without whether it is open.
pub open spec fn placed(row: ArtifactRowView) -> ArtifactRowView {
    ArtifactRowView { expanded: false, ..row }
}

pub open spec fn all_placed(rows: Seq<ArtifactRowView>) -> Seq<ArtifactRowView> {
    rows.map_values(|row: ArtifactRowView| placed(row))
}

/// Whether the rows `a` are the rows `b` at the places `at`, which go up.
pub open spec fn stand_at(
    a: Seq<ArtifactRowView>,
    b: Seq<ArtifactRowView>,
    at: Seq<int>,
) -> bool {
    &&& at.len() == a.len()
    &&& forall|i: int| 0 <= i < a.len() ==> 0 <= #[trigger] at[i] < b.len() && a[i] == b[at[i]]
    &&& forall|i: int, j: int| 0 <= i < j < a.len() ==> #[trigger] at[i] < #[trigger] at[j]
}

/// Whether the rows `a` are among the rows `b`, in the same order.
pub open spec fn among(a: Seq<ArtifactRowView>, b: Seq<ArtifactRowView>) -> bool {
    exists|at: Seq<int>| stand_at(a, b, at)
}

proof fn lemma_none_among(b: Seq<ArtifactRowView>)
    ensures
        among(Seq::empty(), b),
{
    assert(stand_at(Seq::empty(), b, Seq::empty()));
}

proof fn lemma_among_both(
    a: Seq<ArtifactRowView>,
    b: Seq<ArtifactRowView>,
    c: Seq<ArtifactRowView>,
    d: Seq<ArtifactRowView>,
)
    requires
        among(a, b),
        among(c, d),
    ensures
        among(a + c, b + d),
{
    let f = choose|at: Seq<int>| stand_at(a, b, at);
    let g = choose|at: Seq<int>| stand_at(c, d, at);
    let h = Seq::new(
        (a.len() + c.len()) as nat,
        |i: int|
            if i < a.len() {
                f[i]
            } else {
                b.len() + g[i - a.len()]
            },
    );
    assert(stand_at(a + c, b + d, h));
}

proof fn lemma_among_self(a: Seq<ArtifactRowView>)
    ensures
        among(a, a),
{
    assert(stand_at(a, a, Seq::new(a.len(), |i: int| i)));
}

/// With more folders open, rows are only added between the others: the rows
/// before, whether open or not left aside, are among those after, in order.
pub proof fn opening_only_adds_rows(
    nodes: Seq<ArtifactNode>,
    depth: usize,
    prefix: Seq<char>,
    open: Set<Seq<char>>,
    more: Set<Seq<char>>,
)
    requires
        open.subset_of(more),
    ensures
        among(
            all_placed(visible_rows(nodes, depth, prefix, open)),
            all_placed(visible_rows(nodes, depth, prefix, more)),
        ),
    decreases nodes,
{
    if nodes.len() == 0 {
        assert(all_placed(Seq::empty()) =~= Seq::<ArtifactRowView>::empty());
        lemma_none_among(Seq::empty());
    } else {
        let n = nodes.last();
        let d = nodes.drop_last();
        let a = node_row(n, depth, prefix, open);
        let b = node_row(n, depth, prefix, more);
        let ra = visible_rows(d, depth, prefix, open);
        let rb = visible_rows(d, depth, prefix, more);
        opening_only_adds_rows(d, depth, prefix, open, more);
        assert(placed(a) == placed(b));
        lemma_among_self(seq![placed(a)]);
        lemma_among_both(
            all_placed(ra),
            all_placed(rb),
            seq![placed(a)],
            seq![placed(b)],
        );
        assert(all_placed(ra.push(a)) =~= all_placed(ra) + seq![placed(a)]);
        assert(all_placed(rb.push(b)) =~= all_placed(rb) + seq![placed(b)]);
        if b.expanded {
            assert(decreases_to!(nodes => nodes[nodes.len() - 1]));
            let sb = visible_rows(n.files@, deeper(depth), b.path, more);
            assert(all_placed(rb.push(b) + sb) =~= all_placed(rb.push(b)) + all_placed(sb));
            if a.expanded {
                let sa = visible_rows(n.files@, deeper(depth), a.path, open);
                opening_only_adds_rows(n.files@, deeper(depth), a.path, open, more);
                lemma_among_both(
                    all_placed(ra.push(a)),
                    all_placed(rb.push(b)),
                    all_placed(sa),
                    all_placed(sb),
                );
                assert(all_placed(ra.push(a) + sa) =~= all_placed(ra.push(a)) + all_placed(sa));
            } else {
                lemma_none_among(all_placed(sb));
                lemma_among_both(
                    all_placed(ra.push(a)),
                    all_placed(rb.push(b)),
                    Seq::empty(),
                    all_placed(sb),
                );
                assert(all_placed(ra.push(a)) + Seq::empty() =~= all_placed(ra.push(a)));
            }
        }
    }
}

/// Opening a path that is no folder on screen changes nothing on screen.
pub proof fn opening_what_is_hidden_changes_nothing(
    nodes: Seq<ArtifactNode>,
    depth: usize,
    prefix: Seq<char>,
    open: Set<Seq<char>>,
    path: Seq<char>,
)
    requires
        forall|i: int|
            0 <= i < visible_rows(nodes, depth, prefix, open).len() ==> {
                let row = #[trigger] visible_rows(nodes, depth, prefix, open)[i];
                !(row.is_folder && row.path == path)
            },
    ensures
        visible_rows(nodes, depth, prefix, open.insert(path)) == visible_rows(
            nodes,
            depth,
            prefix,
            open,
        ),
    decreases nodes,
{
    if nodes.len() > 0 {
        let n = nodes.last();
        let d = nodes.drop_last();
        let row = node_row(n, depth, prefix, open);
        let rows = visible_rows(nodes, depth, prefix, open);
        let above = visible_rows(d, depth, prefix, open);
        assert forall|i: int| 0 <= i < above.len() implies {
            let r = #[trigger] above[i];
            !(r.is_folder && r.path == path)
        } by {
            assert(rows[i] == above[i]);
        }
        opening_what_is_hidden_changes_nothing(d, depth, prefix, open, path);
        assert(rows[above.len() as int] == row);
        assert(node_row(n, depth, prefix, open.insert(path)) == row);
        if row.expanded {
            let inner = visible_rows(n.files@, deeper(depth), row.path, open);
            assert(decreases_to!(nodes => nodes[nodes.len() - 1]));
            assert forall|i: int| 0 <= i < inner.len() implies {
                let r = #[trigger] inner[i];
                !(r.is_folder && r.path == path)
            } by {
                assert(rows[above.len() + 1 + i] == inner[i]);
            }
            opening_what_is_hidden_changes_nothing(n.files@, deeper(depth), row.path, open, path);
        }
    }
}

/// The rows of a listing start at its depth and never stand above it. A row that
/// is deeper than the one before it is one deeper, and the one before is open.
pub proof fn only_open_rows_have_rows_below(
    nodes: Seq<ArtifactNode>,
    depth: usize,
    prefix: Seq<char>,
    open: Set<Seq<char>>,
)
    ensures
        ({
            let rows = visible_rows(nodes, depth, prefix, open);
            &&& rows.len() > 0 ==> rows[0].depth == depth
            &&& forall|i: int| 0 <= i < rows.len() ==> (#[trigger] rows[i]).depth >= depth
            &&& forall|i: int|
                0 < i < rows.len() && (#[trigger] rows[i]).depth > rows[i - 1].depth
                    ==> rows[i - 1].expanded && rows[i].depth == rows[i - 1].depth + 1
        }),
    decreases nodes,
{
    if nodes.len() > 0 {
        let n = nodes.last();
        let d = nodes.drop_last();
        let row = node_row(n, depth, prefix, open);
        let rows = visible_rows(nodes, depth, prefix, open);
        let above = visible_rows(d, depth, prefix, open);
        let m = above.len() as int;
        only_open_rows_have_rows_below(d, depth, prefix, open);
        assert(rows[m] == row);
        let inner = if row.expanded {
            visible_rows(n.files@, deeper(depth), row.path, open)
        } else {
            Seq::empty()
        };
        if row.expanded {
            assert(decreases_to!(nodes => nodes[nodes.len() - 1]));
            only_open_rows_have_rows_below(n.files@, deeper(depth), row.path, open);
        }
        assert(rows =~= above.push(row) + inner);
        assert forall|i: int| 0 <= i < rows.len() implies (#[trigger] rows[i]).depth >= depth by {
            if i < m {
                assert(rows[i] == above[i]);
            } else if i > m {
                assert(rows[i] == inner[i - m - 1]);
            }
        }
        assert forall|i: int|
            0 < i < rows.len() && (#[trigger] rows[i]).depth > rows[i - 1].depth implies rows[i
            - 1].expanded && rows[i].depth == rows[i - 1].depth + 1 by {
            if i < m {
                assert(rows[i] == above[i] && rows[i - 1] == above[i - 1]);
            } else if i == m {
                assert(rows[i - 1] == above[i - 1]);
            } else if i == m + 1 {
                assert(rows[i] == inner[0]);
                assert(rows[i - 1] == row);
            } else {
                assert(rows[i] == inner[i - m - 1] && rows[i - 1] == inner[i - m - 2]);
            }
        }
        if m > 0 {
            assert(rows[0] == above[0]);
        }
    }
}

/// Every reference of a run has a host, an owner and a repository made only of
/// the characters that a URL takes there.
pub proof fn references_are_url_safe(revs: Seq<MaterialRevisionView>)
    ensures
        forall|i: int|
            0 <= i < git_refs_of(revs).len() ==> {
                let g = #[trigger] git_refs_of(revs)[i];
                is_host(g.host) && is_repo_part(g.owner) && is_repo_part(g.repo) && g.via is None
            },
    decreases revs.len(),
{
    if revs.len() > 0 {
        references_are_url_safe(revs.drop_last());
    }
}

/// One failed stage makes the run failed, whatever the others are.
pub proof fn a_failed_stage_decides(statuses: Seq<Option<Seq<char>>>, i: int)
    requires
        0 <= i < statuses.len(),
        statuses[i] == Some("Failed"@),
    ensures
        rollup(statuses) == "Failed"@,
{
    assert(statuses.contains(Some("Failed"@)));
}

/// A run passes exactly when it has stages and every one of them passed.
pub proof fn passing_takes_every_stage(statuses: Seq<Option<Seq<char>>>)
    ensures
        rollup(statuses) == "Passed"@ <==> statuses.len() > 0 && forall|i: int|
            0 <= i < statuses.len() ==> #[trigger] statuses[i] == Some("Passed"@),
{
    reveal_strlit("Failed");
    reveal_strlit("Cancelled");
    reveal_strlit("Building");
    reveal_strlit("Scheduled");
    reveal_strlit("Passed");
    reveal_strlit("Unknown");
    assert("Passed"@[0] == 'P');
    assert("Failed"@[0] == 'F');
    assert("Cancelled"@[0] == 'C');
    assert("Building"@[0] == 'B');
    assert("Scheduled"@[0] == 'S');
    assert("Unknown"@[0] == 'U');
}

/// The order of the stages does not matter to the rollup.
pub proof fn rollup_ignores_order(a: Seq<Option<Seq<char>>>, b: Seq<Option<Seq<char>>>)
    requires
        a.to_multiset() == b.to_multiset(),
    ensures
        rollup(a) == rollup(b),
{
    broadcast use vstd::seq_lib::group_to_multiset_ensures;

    a.to_multiset_ensures();
    b.to_multiset_ensures();
    assert forall|x: Option<Seq<char>>| #[trigger] a.contains(x) == b.contains(x) by {
        assert(a.contains(x) <==> a.to_multiset().count(x) > 0);
        assert(b.contains(x) <==> b.to_multiset().count(x) > 0);
    }
    let p = Some("Passed"@);
    if a.len() > 0 && forall|i: int| 0 <= i < a.len() ==> #[trigger] a[i] == p {
        assert forall|i: int| 0 <= i < b.len() implies #[trigger] b[i] == p by {
            assert(b.contains(b[i]));
            assert(a.contains(b[i]));
        }
    }
    if b.len() > 0 && forall|i: int| 0 <= i < b.len() ==> #[trigger] b[i] == p {
        assert forall|i: int| 0 <= i < a.len() implies #[trigger] a[i] == p by {
            assert(a.contains(a[i]));
            assert(b.contains(a[i]));
        }
    }
}

} // verus!
