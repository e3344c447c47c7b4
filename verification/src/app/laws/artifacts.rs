//! What the artifacts of a job are for: to be browsed, opened and copied.

use vstd::prelude::*;
use vstd::string::*;

use crate::app::console_keys::{parent_path, path_place};
use crate::app::laws::console::{log_of, plain};
use crate::app::{
    ApiEvent, AppView, ConsoleLogStateView, GithubStateView, JobRef, JobTab, KeyCode, ModalView,
};
use crate::model::{visible_rows, ArtifactNode, ArtifactRowView};
use crate::text;

verus! {

/// Whether the artifacts of `s` are shown, with `row` selected.
pub open spec fn selected(v: AppView, s: ConsoleLogStateView, row: ArtifactRowView) -> bool {
    &&& v.modal == Some(ModalView::ConsoleLog(s))
    &&& !s.search_active
    &&& s.tab == JobTab::Artifacts
    &&& s.artifacts matches Some(rows) && s.artifact_selected < rows.len()
        && rows[s.artifact_selected as int] == row
}


/// Enter opens a closed folder and closes an open one; `l` only opens. Nothing
/// else is opened or closed, and the rows are those of the folders that are open.
pub proof fn folders_open_and_close(
    v: AppView,
    s: ConsoleLogStateView,
    row: ArtifactRowView,
    now: u64,
)
    requires
        selected(v, s, row),
        row.is_folder,
    ensures
        log_of(v.keyed(plain(KeyCode::Enter), now)) matches Some(t) && {
            &&& t.artifacts_expanded.contains(row.path) <==> !s.artifacts_expanded.contains(
                row.path,
            )
            &&& forall|p: Seq<char>|
                p != row.path ==> (#[trigger] t.artifacts_expanded.contains(p)
                    <==> s.artifacts_expanded.contains(p))
            &&& s.artifact_tree is Some ==> t.artifacts == Some(
                visible_rows(s.artifact_tree->0, 0, Seq::empty(), t.artifacts_expanded),
            )
        },
        log_of(v.keyed(plain(KeyCode::Char('l')), now)) matches Some(t) && {
            &&& t.artifacts_expanded.contains(row.path)
            &&& forall|p: Seq<char>|
                p != row.path ==> (#[trigger] t.artifacts_expanded.contains(p)
                    <==> s.artifacts_expanded.contains(p))
        },
        v.keyed(plain(KeyCode::Enter), now).outbox == v.outbox,
        v.keyed(plain(KeyCode::Char('l')), now).outbox == v.outbox,
{
    reveal(AppView::keyed);
    reveal(AppView::modal_keyed);
    reveal(AppView::console_keyed);
    reveal(AppView::artifact_key);
    reveal(AppView::artifact_entered);
    reveal(ConsoleLogStateView::folder_toggled);
    reveal(ConsoleLogStateView::reflowed);
}

/// Enter on a file opens it in the browser, where its URL is a plain one, and `y`
/// copies the URL. An entry without a URL is left alone.
pub proof fn files_are_opened_and_copied(
    v: AppView,
    s: ConsoleLogStateView,
    row: ArtifactRowView,
    now: u64,
)
    requires
        selected(v, s, row),
    ensures
        !row.is_folder && row.url is Some && crate::app::hints::is_plain_url(row.url->0) ==> {
            let w = v.keyed(plain(KeyCode::Enter), now);
            &&& w.outbox.len() == v.outbox.len() + 1
            &&& w.outbox.last() is OpenUrl
            &&& w.outbox.last()->url == row.url->0
        },
        !row.is_folder && row.url is Some && !crate::app::hints::is_plain_url(row.url->0) ==> {
            let w = v.keyed(plain(KeyCode::Enter), now);
            w.outbox == v.outbox && w.error_line is Some
        },
        !row.is_folder && row.url is None ==> v.keyed(plain(KeyCode::Enter), now).outbox
            == v.outbox,
        row.url is Some ==> {
            let w = v.keyed(plain(KeyCode::Char('y')), now);
            &&& w.outbox.len() == v.outbox.len() + 1
            &&& w.outbox.last() is Copy
            &&& w.outbox.last()->content == row.url->0
        },
        row.url is None ==> v.keyed(plain(KeyCode::Char('y')), now).outbox == v.outbox,
        log_of(v.keyed(plain(KeyCode::Char('y')), now)) == Some(s),
{
    reveal(AppView::keyed);
    reveal(AppView::modal_keyed);
    reveal(AppView::console_keyed);
    reveal(AppView::artifact_key);
    reveal(AppView::artifact_entered);
    reveal(AppView::artifact_copied);
    reveal(AppView::browsing);
}

/// `j` and `k` go from row to row and stop at the ends.
pub proof fn artifacts_are_gone_through(
    v: AppView,
    s: ConsoleLogStateView,
    row: ArtifactRowView,
    now: u64,
)
    requires
        selected(v, s, row),
        s.artifacts->0.len() <= usize::MAX,
    ensures
        log_of(v.keyed(plain(KeyCode::Char('j')), now)) matches Some(t) && t.artifact_selected
            == if s.artifact_selected + 1 < s.artifacts->0.len() {
            s.artifact_selected + 1
        } else {
            s.artifact_selected as int
        },
        log_of(v.keyed(plain(KeyCode::Char('k')), now)) matches Some(t) && t.artifact_selected
            == if s.artifact_selected > 0 {
            s.artifact_selected - 1
        } else {
            0
        },
{
    reveal(AppView::keyed);
    reveal(AppView::modal_keyed);
    reveal(AppView::console_keyed);
    reveal(AppView::artifact_key);
    reveal(ConsoleLogStateView::artifact_down);
}

proof fn lemma_path_place(rows: Seq<ArtifactRowView>, path: Seq<char>, from: int)
    requires
        0 <= from <= rows.len(),
    ensures
        from <= path_place(rows, path, from) <= rows.len(),
        path_place(rows, path, from) < rows.len() ==> rows[path_place(rows, path, from)].path
            == path,
        (exists|i: int| from <= i < rows.len() && (#[trigger] rows[i]).path == path)
            ==> path_place(rows, path, from) < rows.len(),
    decreases rows.len() - from,
{
    if from < rows.len() && rows[from].path != path {
        lemma_path_place(rows, path, from + 1);
    }
}

/// `h` on an open folder closes it and stays on it; on anything else it closes
/// the folder that holds it and goes there. At the top nothing happens.
#[verifier::rlimit(40)]
pub proof fn leaving_goes_up(
    v: AppView,
    s: ConsoleLogStateView,
    row: ArtifactRowView,
    now: u64,
    folder: Seq<char>,
    name: Seq<char>,
    k: int,
)
    requires
        selected(v, s, row),
        s.artifact_tree is Some,
        !name.contains('/'),
        row.is_folder && s.artifacts_expanded.contains(row.path) ==> folder == row.path,
        !(row.is_folder && s.artifacts_expanded.contains(row.path)) ==> row.path == folder.push('/')
            + name,
        0 <= k < visible_rows(
            s.artifact_tree->0,
            0,
            Seq::empty(),
            s.artifacts_expanded.remove(folder),
        ).len(),
        visible_rows(
            s.artifact_tree->0,
            0,
            Seq::empty(),
            s.artifacts_expanded.remove(folder),
        )[k].path == folder,
        visible_rows(
            s.artifact_tree->0,
            0,
            Seq::empty(),
            s.artifacts_expanded.remove(folder),
        ).len() <= usize::MAX,
    ensures
        log_of(v.keyed(plain(KeyCode::Char('h')), now)) matches Some(t) && {
            &&& !t.artifacts_expanded.contains(folder)
            &&& forall|p: Seq<char>|
                p != folder ==> (#[trigger] t.artifacts_expanded.contains(p)
                    <==> s.artifacts_expanded.contains(p))
            &&& t.artifacts is Some
            &&& t.artifact_selected < t.artifacts->0.len()
            &&& t.artifacts->0[t.artifact_selected as int].path == folder
        },
        v.keyed(plain(KeyCode::Char('h')), now).outbox == v.outbox,
{
    reveal(AppView::keyed);
    reveal(AppView::modal_keyed);
    reveal(AppView::console_keyed);
    reveal(AppView::artifact_key);
    reveal(AppView::artifact_left);
    reveal(ConsoleLogStateView::folder_closed);
    reveal(ConsoleLogStateView::reflowed);
    let rows = visible_rows(
        s.artifact_tree->0,
        0,
        Seq::empty(),
        s.artifacts_expanded.remove(folder),
    );
    assert(rows[k].path == folder);
    lemma_path_place(rows, folder, 0);
    if !(row.is_folder && s.artifacts_expanded.contains(row.path)) {
        lemma_parent(folder, name);
    }
}

proof fn lemma_parent(folder: Seq<char>, name: Seq<char>)
    requires
        !name.contains('/'),
    ensures
        parent_path(folder.push('/') + name) == Some(folder),
    decreases name.len(),
{
    let path = folder.push('/') + name;
    lemma_tail_start(folder, name);
    assert(path.take(folder.len() as int) =~= folder);
}

proof fn lemma_tail_start(folder: Seq<char>, name: Seq<char>)
    requires
        !name.contains('/'),
    ensures
        text::tail_start(folder.push('/') + name, '/') == folder.len() + 1,
    decreases name.len(),
{
    let path = folder.push('/') + name;
    if name.len() == 0 {
        assert(path =~= folder.push('/'));
        assert(path.last() == '/');
    } else {
        assert(path.last() == name.last());
        assert(name.contains(name.last()));
        assert(path.drop_last() =~= folder.push('/') + name.drop_last());
        assert(!name.drop_last().contains('/')) by {
            if name.drop_last().contains('/') {
                let j = choose|j: int|
                    0 <= j < name.drop_last().len() && name.drop_last()[j] == '/';
                assert(name[j] == '/');
            }
        }
        lemma_tail_start(folder, name.drop_last());
    }
}

/// An entry that stands in no folder has none to go to.
pub proof fn the_top_is_not_left(
    v: AppView,
    s: ConsoleLogStateView,
    row: ArtifactRowView,
    now: u64,
)
    requires
        selected(v, s, row),
        !(row.is_folder && s.artifacts_expanded.contains(row.path)),
        !row.path.contains('/'),
    ensures
        log_of(v.keyed(plain(KeyCode::Char('h')), now)) == Some(s),
{
    reveal(AppView::keyed);
    reveal(AppView::modal_keyed);
    reveal(AppView::console_keyed);
    reveal(AppView::artifact_key);
    reveal(AppView::artifact_left);
    lemma_no_tail(row.path);
}

proof fn lemma_no_tail(path: Seq<char>)
    requires
        !path.contains('/'),
    ensures
        text::tail_start(path, '/') == 0,
    decreases path.len(),
{
    if path.len() > 0 {
        assert(path.contains(path.last()));
        assert(!path.drop_last().contains('/')) by {
            if path.drop_last().contains('/') {
                let j = choose|j: int|
                    0 <= j < path.drop_last().len() && path.drop_last()[j] == '/';
                assert(path[j] == '/');
            }
        }
        lemma_no_tail(path.drop_last());
    }
}

/// A listing that arrives for the job that is open is shown from its top; a
/// failure is said.
pub proof fn a_listing_is_shown(
    v: AppView,
    s: ConsoleLogStateView,
    job: JobRef,
    nodes: Vec<ArtifactNode>,
    e: String,
)
    requires
        v.modal == Some(ModalView::ConsoleLog(s)),
        s.job_ref == job.deep_view(),
    ensures
        log_of(v.after_event(ApiEvent::Artifacts(job, Ok(nodes)))) matches Some(t) && {
            &&& !t.artifacts_loading
            &&& t.artifact_selected == 0
            &&& t.artifact_tree == Some(nodes@)
            &&& t.artifacts == Some(visible_rows(nodes@, 0, Seq::empty(), s.artifacts_expanded))
            &&& t.lines == s.lines
            &&& t.error == s.error
        },
        log_of(v.after_event(ApiEvent::Artifacts(job, Err(e)))) matches Some(t) && {
            &&& !t.artifacts_loading
            &&& t.error == Some(e@)
            &&& t.artifacts == s.artifacts
        },
{
    reveal(AppView::after_event);
    reveal(AppView::artifacts_loaded);
    reveal(ConsoleLogStateView::artifacts_arrived);
}

/// Something moves on the screen exactly while something is under way: the
/// dashboard, a history, a check, or the log and artifacts of the open job.
pub proof fn what_is_under_way_moves(v: AppView, i: int)
    ensures
        v.loading_groups || v.history_loading ==> v.animating(),
        0 <= i < v.github_checks.len() && v.github_checks[i].1 == GithubStateView::Checking
            ==> v.animating(),
        log_of(v) is Some && (log_of(v)->0.loading || log_of(v)->0.artifacts_loading)
            ==> v.animating(),
        v.animating() && !v.loading_groups && !v.history_loading && log_of(v) is None ==> exists|
            k: int,
        |
            0 <= k < v.github_checks.len() && (#[trigger] v.github_checks[k]).1
                == GithubStateView::Checking,
{
}

} // verus!
