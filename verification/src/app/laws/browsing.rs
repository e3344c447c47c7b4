//! What the panes are for: the tree of groups and pipelines, the cursor in it, opening
//! a pipeline, favorites, copying and browsing.

use vstd::prelude::*;
use vstd::string::*;

use crate::app::laws::acting::{in_panes, target_of};
use crate::app::laws::console::plain;
use crate::app::matching::matched;
use crate::app::tree::{
    favorite_rows, group_rows, indexed, lemma_pipeline_rows, listed, pipeline_rows,
};
use crate::app::{
    AppView, DetailRow, EffectView, Focus, GithubStateView, KeyCode, ModalView, MouseKind, Rect,
    RowView,
};
use crate::model::{GitRefView, StageInstanceView};
use crate::names::{lemma_ordered_finite, ordered};
use crate::text;

verus! {

// ---- the tree ------------------------------------------------------------

/// Whether a pipeline is to be listed under its group: the group is open, or the filter
/// matches the name.
pub open spec fn is_listed(v: AppView, g: int, p: int) -> bool {
    &&& 0 <= g < v.groups.len()
    &&& 0 <= p < v.groups[g].pipelines.len()
    &&& if v.filter.len() == 0 {
        v.expanded.contains(v.groups[g].name)
    } else {
        matched(v.groups[g].pipelines[p], v.filter, 0) is Some
    }
}

/// Whether a group is to be listed: always without a filter, and with one where it
/// matches one of its pipelines.
pub open spec fn is_group_listed(v: AppView, g: int) -> bool {
    &&& 0 <= g < v.groups.len()
    &&& v.filter.len() == 0 || exists|p: int| is_listed(v, g, p)
}

#[verifier::rlimit(40)]
proof fn lemma_rows_of_groups(v: AppView, n: int)
    requires
        0 <= n <= v.groups.len(),
        indexed(v.groups),
    ensures
        forall|i: int|
            0 <= i < group_rows(v.groups.take(n), v.expanded, v.filter).len() ==> match #[trigger] group_rows(
                v.groups.take(n),
                v.expanded,
                v.filter,
            )[i] {
                RowView::Group { idx } => idx < n && is_group_listed(v, idx as int),
                RowView::Pipeline { group_idx, pipeline_idx } => group_idx < n && is_listed(
                    v,
                    group_idx as int,
                    pipeline_idx as int,
                ),
                _ => false,
            },
        forall|g: int|
            0 <= g < n && #[trigger] is_group_listed(v, g) ==> group_rows(
                v.groups.take(n),
                v.expanded,
                v.filter,
            ).contains(RowView::Group { idx: g as usize }),
        forall|g: int, p: int|
            0 <= g < n && #[trigger] is_listed(v, g, p) ==> group_rows(
                v.groups.take(n),
                v.expanded,
                v.filter,
            ).contains(RowView::Pipeline { group_idx: g as usize, pipeline_idx: p as usize }),
    decreases n,
{
    let rows = group_rows(v.groups.take(n), v.expanded, v.filter);
    if n > 0 {
        let m = n - 1;
        let t = v.groups.take(n);
        lemma_rows_of_groups(v, m);
        assert(t.drop_last() =~= v.groups.take(m));
        assert(t.last() == v.groups[m]);
        let gi = m as usize;
        let names = v.groups[m].pipelines;
        let above = group_rows(v.groups.take(m), v.expanded, v.filter);
        let inner = pipeline_rows(names, gi, v.filter);
        lemma_pipeline_rows(names, gi, v.filter);
        assert forall|p: int| is_listed(v, m, p) implies listed(#[trigger] names[p], v.filter) by {}
        assert forall|i: int| 0 <= i < rows.len() implies match #[trigger] rows[i] {
            RowView::Group { idx } => idx < n && is_group_listed(v, idx as int),
            RowView::Pipeline { group_idx, pipeline_idx } => group_idx < n && is_listed(
                v,
                group_idx as int,
                pipeline_idx as int,
            ),
            _ => false,
        } by {
            if i < above.len() {
                assert(rows[i] == above[i]);
            } else if i == above.len() {
                assert(rows[i] == RowView::Group { idx: gi });
                if v.filter.len() > 0 {
                    assert(inner.len() > 0);
                    let q = inner[0]->Pipeline_pipeline_idx as int;
                    assert(listed(names[q], v.filter));
                    assert(is_listed(v, m, q));
                }
            } else {
                assert(rows[i] == inner[i - above.len() - 1]);
                let q = rows[i]->Pipeline_pipeline_idx as int;
                assert(listed(names[q], v.filter));
            }
        }
        assert forall|g: int| 0 <= g < n && #[trigger] is_group_listed(v, g) implies rows.contains(
            RowView::Group { idx: g as usize },
        ) by {
            if g < m {
                let k = choose|k: int|
                    0 <= k < above.len() && above[k] == RowView::Group { idx: g as usize };
                assert(rows[k] == above[k]);
            } else {
                if v.filter.len() > 0 {
                    let p = choose|p: int| is_listed(v, g, p);
                    assert(listed(names[p], v.filter));
                    assert(inner.contains(
                        RowView::Pipeline { group_idx: gi, pipeline_idx: p as usize },
                    ));
                }
                assert(rows[above.len() as int] == RowView::Group { idx: gi });
            }
        }
        assert forall|g: int, p: int| 0 <= g < n && #[trigger] is_listed(v, g, p) implies rows.contains(
            RowView::Pipeline { group_idx: g as usize, pipeline_idx: p as usize },
        ) by {
            let x = RowView::Pipeline { group_idx: g as usize, pipeline_idx: p as usize };
            if g < m {
                let k = choose|k: int| 0 <= k < above.len() && above[k] == x;
                assert(rows[k] == above[k]);
            } else {
                assert(listed(names[p], v.filter));
                assert(inner.contains(x));
                let k = choose|k: int| 0 <= k < inner.len() && inner[k] == x;
                assert(rows[above.len() + 1 + k] == x);
            }
        }
    } else {
        assert(v.groups.take(0).len() == 0);
    }
}

/// The tree lists exactly what it should. Without a filter: every group, under an open
/// one all its pipelines and under a closed one none, and the favorites above where
/// there are any. With a filter: the pipelines that it matches, their groups, and
/// nothing else.
#[verifier::rlimit(40)]
pub proof fn the_tree_lists_exactly_what_it_should(v: AppView, g: int, p: int, name: Seq<char>)
    requires
        indexed(v.groups),
        v.favorites.finite(),
        0 <= g <= usize::MAX,
        0 <= p <= usize::MAX,
    ensures
        v.rebuilt().rows.contains(
            RowView::Pipeline { group_idx: g as usize, pipeline_idx: p as usize },
        ) <==> is_listed(v, g, p),
        v.rebuilt().rows.contains(RowView::Group { idx: g as usize }) <==> is_group_listed(v, g),
        v.rebuilt().rows.contains(RowView::FavoritesHeader) <==> v.filter.len() == 0
            && v.favorites != Set::<Seq<char>>::empty(),
        v.rebuilt().rows.contains(RowView::FavoritePipeline(name)) <==> v.filter.len() == 0
            && v.favorites_expanded && v.favorites.contains(name),
{
    reveal(AppView::rebuilt);
    lemma_rows_of_groups(v, v.groups.len() as int);
    assert(v.groups.take(v.groups.len() as int) =~= v.groups);
    let rest = group_rows(v.groups, v.expanded, v.filter);
    let pinned = if v.filter.len() == 0 && v.favorites != Set::<Seq<char>>::empty() {
        favorite_rows(v.favorites, v.favorites_expanded)
    } else {
        Seq::empty()
    };
    let rows = v.tree_rows();
    assert(rows == pinned + rest);
    let names = ordered(v.favorites);
    lemma_ordered_finite(v.favorites);
    assert forall|x: RowView| #[trigger] rows.contains(x) <==> pinned.contains(x)
        || rest.contains(x) by {
        if pinned.contains(x) {
            let k = choose|k: int| 0 <= k < pinned.len() && pinned[k] == x;
            assert(rows[k] == x);
        }
        if rest.contains(x) {
            let k = choose|k: int| 0 <= k < rest.len() && rest[k] == x;
            assert(rows[pinned.len() + k] == x);
        }
        if rows.contains(x) {
            let k = choose|k: int| 0 <= k < rows.len() && rows[k] == x;
            if k >= pinned.len() {
                assert(rest[k - pinned.len()] == x);
            } else {
                assert(pinned[k] == x);
            }
        }
    }
    let header = RowView::FavoritesHeader;
    if pinned.len() > 0 {
        assert(pinned[0] == header);
    }
    let fav = RowView::FavoritePipeline(name);
    if pinned.contains(fav) {
        let k = choose|k: int| 0 <= k < pinned.len() && pinned[k] == fav;
        assert(names[k - 1] == name);
        assert(names.to_set().contains(name));
    }
    if v.filter.len() == 0 && v.favorites_expanded && v.favorites.contains(name) {
        assert(names.to_set().contains(name));
        let k = choose|k: int| 0 <= k < names.len() && names[k] == name;
        assert(v.favorites != Set::<Seq<char>>::empty());
        assert(pinned[k + 1] == fav);
    }
}

// ---- the cursor ----------------------------------------------------------

/// Down and `j` move the cursor of the focused pane one row down, up and `k` one up, `G`
/// to the last row and `g` to the first; never off the rows, and not where there are
/// none.
#[verifier::rlimit(40)]
pub proof fn the_cursor_moves_by_rows(v: AppView, now: u64)
    requires
        in_panes(v),
        v.rows.len() <= usize::MAX,
        v.history.len() <= usize::MAX,
        v.detail_rows.len() <= usize::MAX,
        v.selected < v.rows.len() || v.focus != Focus::Groups,
        v.history_selected < v.history.len() || v.focus != Focus::History,
        v.detail_selected < v.detail_rows.len() || v.focus != Focus::Detail,
    ensures
        ({
            let (at, len) = cursor_in(v);
            &&& cursor_in(v.keyed(plain(KeyCode::Char('j')), now)).0 == if at + 1 < len {
                at + 1
            } else {
                at
            }
            &&& cursor_in(v.keyed(plain(KeyCode::Down), now)).0 == if at + 1 < len {
                at + 1
            } else {
                at
            }
            &&& cursor_in(v.keyed(plain(KeyCode::Char('k')), now)).0 == if at > 0 {
                at - 1
            } else {
                0
            }
            &&& cursor_in(v.keyed(plain(KeyCode::Up), now)).0 == if at > 0 {
                at - 1
            } else {
                0
            }
            &&& cursor_in(v.keyed(plain(KeyCode::Char('G')), now)).0 == len - 1
            &&& cursor_in(v.keyed(plain(KeyCode::Char('g')), now)).0 == 0
        }),
        v.keyed(plain(KeyCode::Char('j')), now).focus == v.focus,
        v.keyed(plain(KeyCode::Char('k')), now).focus == v.focus,
{
    reveal(AppView::keyed);
    reveal(AppView::pane_keyed);
    reveal(AppView::motion);
    reveal(AppView::moved);
    reveal(AppView::at_row);
    reveal(AppView::hovering);
    reveal(AppView::detailed);
    reveal(AppView::loading_more);
}

/// The cursor of the focused pane, and the number of its rows.
pub open spec fn cursor_in(v: AppView) -> (int, int) {
    match v.focus {
        Focus::Groups => (v.selected as int, v.rows.len() as int),
        Focus::History => (v.history_selected as int, v.history.len() as int),
        Focus::Detail => (v.detail_selected as int, v.detail_rows.len() as int),
    }
}

/// Tab goes from the tree to the history, from there to the details, and back to the
/// tree; Esc goes the other way, and in the tree drops the filter.
pub proof fn panes_are_gone_through(v: AppView, now: u64)
    requires
        in_panes(v),
    ensures
        v.keyed(plain(KeyCode::Tab), now).focus == match v.focus {
            Focus::Groups => Focus::History,
            Focus::History => Focus::Detail,
            Focus::Detail => Focus::Groups,
        },
        v.keyed(plain(KeyCode::Esc), now).focus == match v.focus {
            Focus::Groups => Focus::Groups,
            Focus::History => Focus::Groups,
            Focus::Detail => Focus::History,
        },
        v.focus == Focus::Groups ==> v.keyed(plain(KeyCode::Esc), now).filter.len() == 0,
        v.focus != Focus::Groups ==> v.keyed(plain(KeyCode::Esc), now).filter == v.filter,
        v.keyed(plain(KeyCode::Tab), now).outbox == v.outbox,
        v.keyed(plain(KeyCode::Esc), now).outbox == v.outbox,
        !v.should_quit ==> !v.keyed(plain(KeyCode::Esc), now).should_quit,
        v.keyed(plain(KeyCode::Char('q')), now).should_quit,
        v.keyed(plain(KeyCode::Char('?')), now).modal == Some(ModalView::Help),
{
    reveal(AppView::keyed);
    reveal(AppView::pane_keyed);
    reveal(AppView::tabbed);
    reveal(AppView::gone_back);
    reveal(AppView::detailed);
    reveal(AppView::rebuilt);
    reveal(AppView::motion);
    reveal(AppView::action_keyed);
    reveal(AppView::form_keyed);
}

/// The help goes with any key, and nothing is done by that.
pub proof fn any_key_closes_the_help(v: AppView, code: KeyCode, now: u64)
    requires
        v.modal == Some(ModalView::Help),
    ensures
        v.keyed(plain(code), now).modal is None,
        v.keyed(plain(code), now).outbox == v.outbox,
        v.keyed(plain(code), now).should_quit == v.should_quit,
{
    reveal(AppView::keyed);
    reveal(AppView::modal_keyed);
}

/// The rows of the details: each stage of the selected run, and after it its jobs.
pub proof fn the_details_list_the_selected_run(v: AppView, s: int, j: int)
    requires
        v.history_selected < v.history.len(),
        0 <= s < v.history[v.history_selected as int].stages.len() <= usize::MAX,
        0 <= j < v.history[v.history_selected as int].stages[s].jobs.len() <= usize::MAX,
    ensures
        v.detailed().detail_rows.contains(DetailRow::Stage(s as usize)),
        v.detailed().detail_rows.contains(DetailRow::Job(s as usize, j as usize)),
{
    reveal(AppView::detailed);
    lemma_rows_of_stages(v.history[v.history_selected as int].stages, s, j);
}

proof fn lemma_rows_of_stages(stages: Seq<StageInstanceView>, s: int, j: int)
    requires
        0 <= s < stages.len() <= usize::MAX,
        0 <= j < stages[s].jobs.len() <= usize::MAX,
    ensures
        crate::app::moves::rows_of_stages(stages).contains(DetailRow::Stage(s as usize)),
        crate::app::moves::rows_of_stages(stages).contains(DetailRow::Job(s as usize, j as usize)),
    decreases stages.len(),
{
    let d = stages.drop_last();
    let above = crate::app::moves::rows_of_stages(d);
    let all = crate::app::moves::rows_of_stages(stages);
    if s < d.len() {
        assert(d[s] == stages[s]);
        lemma_rows_of_stages(d, s, j);
        let a = choose|k: int| 0 <= k < above.len() && above[k] == DetailRow::Stage(s as usize);
        let b = choose|k: int|
            0 <= k < above.len() && above[k] == DetailRow::Job(s as usize, j as usize);
        assert(all[a] == above[a] && all[b] == above[b]);
    } else {
        assert(all[above.len() as int] == DetailRow::Stage(s as usize));
        assert(all[above.len() + 1 + j] == DetailRow::Job(s as usize, j as usize));
    }
}

// ---- opening and closing -------------------------------------------------

/// Enter on a pipeline opens it: its history is asked for, and what is loaded of it is
/// shown meanwhile. The newest run is selected, and the history has the focus.
pub proof fn enter_opens_the_pipeline(v: AppView, name: Seq<char>, now: u64)
    requires
        in_panes(v),
        v.focus == Focus::Groups,
        target_of(v) == Some(name),
    ensures
        ({
            let w = v.keyed(plain(KeyCode::Enter), now);
            &&& w.selected_pipeline == Some(name)
            &&& w.focus == Focus::History
            &&& w.history_selected == 0
            &&& w.history == if v.history_cache.dom().contains(name) {
                v.history_cache[name]
            } else {
                Seq::empty()
            }
            &&& w.outbox.len() > v.outbox.len()
            &&& w.outbox[w.outbox.len() - 1] == EffectView::LoadHistory(name)
            &&& w.history_loading
        }),
{
    reveal(AppView::keyed);
    reveal(AppView::pane_keyed);
    reveal(AppView::activated);
    reveal(AppView::opened);
    reveal(AppView::detailed);
    reveal(AppView::checks_started);
}

/// Enter on a group opens it where it is closed, and closes it where it is open; no other
/// group changes. Left closes it.
pub proof fn enter_toggles_the_group(v: AppView, g: usize, now: u64)
    requires
        in_panes(v),
        v.focus == Focus::Groups,
        v.selected < v.rows.len(),
        v.rows[v.selected as int] == (RowView::Group { idx: g }),
        g < v.groups.len(),
    ensures
        ({
            let name = v.groups[g as int].name;
            let w = v.keyed(plain(KeyCode::Enter), now);
            let l = v.keyed(plain(KeyCode::Left), now);
            &&& w.expanded.contains(name) == !v.expanded.contains(name)
            &&& forall|x: Seq<char>|
                x != name ==> #[trigger] w.expanded.contains(x) == v.expanded.contains(x)
            &&& !l.expanded.contains(name)
            &&& w.outbox == v.outbox && l.outbox == v.outbox
            &&& w.selected_pipeline == v.selected_pipeline
        }),
{
    reveal(AppView::keyed);
    reveal(AppView::pane_keyed);
    reveal(AppView::activated);
    reveal(AppView::collapsed);
    reveal(AppView::rebuilt);
}

// ---- the filter ----------------------------------------------------------

/// `/` starts typing into the filter. A character is added to it, Backspace takes one
/// back, Enter keeps it and Esc drops it.
pub proof fn the_filter_is_typed(v: AppView, c: char, now: u64)
    requires
        v.modal is None,
    ensures
        !v.filter_active ==> v.keyed(plain(KeyCode::Char('/')), now).filter_active,
        v.filter_active ==> {
            &&& v.keyed(plain(KeyCode::Char(c)), now).filter == v.filter.push(c)
            &&& v.keyed(plain(KeyCode::Char(c)), now).filter_active
            &&& v.keyed(plain(KeyCode::Enter), now).filter == v.filter
            &&& !v.keyed(plain(KeyCode::Enter), now).filter_active
            &&& v.keyed(plain(KeyCode::Esc), now).filter.len() == 0
            &&& !v.keyed(plain(KeyCode::Esc), now).filter_active
            &&& v.filter.len() > 0 ==> v.keyed(plain(KeyCode::Backspace), now).filter
                == v.filter.take(v.filter.len() - 1)
            &&& v.keyed(plain(KeyCode::Char(c)), now).outbox == v.outbox
        },
{
    reveal(AppView::keyed);
    reveal(AppView::pane_keyed);
    reveal(AppView::motion);
    reveal(AppView::action_keyed);
    reveal(AppView::form_keyed);
    reveal(AppView::filter_keyed);
    reveal(AppView::rebuilt);
    if v.filter.len() > 0 {
        assert(text::without_last(v.filter) =~= v.filter.take(v.filter.len() - 1));
    }
}

// ---- favorites -----------------------------------------------------------

/// `f` stars the target, or unstars it; no other favorite changes. They are then saved,
/// all of them and in order, but not in the demo.
pub proof fn starring_is_for_the_target(v: AppView, name: Seq<char>, now: u64)
    requires
        in_panes(v),
        target_of(v) == Some(name),
    ensures
        ({
            let w = v.keyed(plain(KeyCode::Char('f')), now);
            &&& w.favorites.contains(name) == !v.favorites.contains(name)
            &&& forall|x: Seq<char>|
                x != name ==> #[trigger] w.favorites.contains(x) == v.favorites.contains(x)
            &&& w.outbox == if v.demo {
                v.outbox
            } else {
                v.outbox.push(EffectView::SaveFavorites(ordered(w.favorites)))
            }
        }),
{
    reveal(AppView::keyed);
    reveal(AppView::pane_keyed);
    reveal(AppView::motion);
    reveal(AppView::action_keyed);
    reveal(AppView::favorite_toggled);
    reveal(AppView::rebuilt);
}

// ---- copying and browsing ------------------------------------------------

/// `y` copies the commit of the selected run in the history and the details, or its label
/// where it has none; in the tree the name of what the cursor is on.
pub proof fn what_is_at_hand_is_copied(v: AppView, now: u64)
    requires
        in_panes(v),
    ensures
        ({
            let w = v.keyed(plain(KeyCode::Char('y')), now);
            let last = w.outbox[w.outbox.len() - 1];
            &&& v.focus != Focus::Groups && v.history_selected < v.history.len() ==> {
                let run = v.history[v.history_selected as int];
                &&& w.outbox.len() == v.outbox.len() + 1
                &&& last matches EffectView::Copy { content, .. }
                &&& content == match run.modification() {
                    Some(m) => match m.revision {
                        Some(sha) => sha,
                        None => run.label,
                    },
                    None => run.label,
                }
            }
            &&& v.focus == Focus::Groups && target_of(v) is Some ==> {
                &&& w.outbox.len() == v.outbox.len() + 1
                &&& last matches EffectView::Copy { content, .. }
                &&& content == target_of(v)->0
            }
            &&& v.focus == Focus::Groups && v.selected < v.rows.len() && (
            v.rows[v.selected as int] matches RowView::Group { idx } && idx < v.groups.len()) ==> {
                &&& w.outbox.len() == v.outbox.len() + 1
                &&& last matches EffectView::Copy { content, .. }
                &&& content == v.groups[v.rows[v.selected as int]->Group_idx as int].name
            }
        }),
{
    reveal(AppView::keyed);
    reveal(AppView::pane_keyed);
    reveal(AppView::motion);
    reveal(AppView::action_keyed);
    reveal(AppView::copying);
}

/// `o` in the history opens the page of the commit that the selected run was built from,
/// on its host, and for the newest run, where that is known to be behind, the page that
/// compares it with the latest; only where that is a plain URL.
pub proof fn the_commit_of_the_run_is_opened(v: AppView, g: GitRefView, now: u64)
    requires
        in_panes(v),
        v.focus != Focus::Groups,
        v.history_selected < v.history.len(),
        v.history[v.history_selected as int].refs().len() > 0,
        g == v.history[v.history_selected as int].refs()[0],
    ensures
        ({
            let w = v.keyed(plain(KeyCode::Char('o')), now);
            let site = "https://"@ + g.host + "/"@ + g.owner + "/"@ + g.repo;
            let behind = v.history_selected == 0 && (v.github_state matches GithubStateView::Found(
                latest,
            ) && latest != g.deployed_sha);
            let url = if behind {
                site + "/compare/"@ + g.deployed_sha + "..."@ + v.github_state->Found_0
            } else {
                site + "/commit/"@ + g.deployed_sha
            };
            if crate::app::hints::is_plain_url(url) {
                &&& w.outbox.len() == v.outbox.len() + 1
                &&& w.outbox[v.outbox.len() as int] matches EffectView::OpenUrl { url: u, .. }
                &&& u == url
            } else {
                w.outbox == v.outbox && w.error_line is Some
            }
        }),
{
    reveal(AppView::keyed);
    reveal(AppView::pane_keyed);
    reveal(AppView::motion);
    reveal(AppView::action_keyed);
    reveal(AppView::commit_browsed);
    reveal(AppView::browsing);
}

/// `o` in the tree opens the page of the commit of the newest run that is loaded of the
/// pipeline, whatever is known of another one.
pub proof fn the_commit_of_the_newest_run_is_opened(
    v: AppView,
    name: Seq<char>,
    g: GitRefView,
    now: u64,
)
    requires
        in_panes(v),
        v.focus == Focus::Groups,
        target_of(v) == Some(name),
        v.history_cache.contains_key(name),
        v.history_cache[name].len() > 0,
        v.history_cache[name][0].refs().len() > 0,
        g == v.history_cache[name][0].refs()[0],
    ensures
        ({
            let w = v.keyed(plain(KeyCode::Char('o')), now);
            let url = "https://"@ + g.host + "/"@ + g.owner + "/"@ + g.repo + "/commit/"@
                + g.deployed_sha;
            crate::app::hints::is_plain_url(url) ==> {
                &&& w.outbox.len() == v.outbox.len() + 1
                &&& w.outbox[v.outbox.len() as int] matches EffectView::OpenUrl { url: u, .. }
                &&& u == url
            }
        }),
{
    reveal(AppView::keyed);
    reveal(AppView::pane_keyed);
    reveal(AppView::motion);
    reveal(AppView::action_keyed);
    reveal(AppView::commit_browsed);
    reveal(AppView::browsing);
}

/// A plain URL is made of letters, digits and a few signs that no shell takes for its
/// own; anything else is refused.
pub proof fn plain_urls_hold_no_shell_signs(url: Seq<char>, i: int)
    requires
        crate::app::hints::is_plain_url(url),
        0 <= i < url.len(),
    ensures
        url[i] != '&' && url[i] != '|' && url[i] != '^' && url[i] != ' ' && url[i] != '`' && url[i]
            != '%' && url[i] != '"' && url[i] != '\'' && url[i] != ';' && url[i] != '$' && url[i]
            != '<' && url[i] != '>' && url[i] != '\n',
{
}

// ---- the mouse -----------------------------------------------------------

/// Whether a place is in an area.
pub open spec fn in_area(r: Rect, x: u16, y: u16) -> bool {
    &&& r.x <= x && x < r.x + r.width
    &&& r.y <= y && y < r.y + r.height
}

/// A click on the history focuses it and selects the run below the pointer; one on the
/// tree from elsewhere focuses that and selects the row. The wheel over a pane moves its
/// cursor by one row.
#[verifier::rlimit(40)]
pub proof fn the_pointer_picks_what_is_below(v: AppView, x: u16, y: u16, now: u64)
    requires
        v.modal is None,
        v.rows.len() <= usize::MAX,
        v.history.len() <= usize::MAX,
        !(in_area(v.tree_area, x, y) && in_area(v.history_area, x, y)),
    ensures
        in_area(v.history_area, x, y) ==> {
            let w = v.moused(MouseKind::LeftDown, x, y, now).0;
            let row = v.history_offset + (y - v.history_area.y - 2);
            &&& w.focus == Focus::History
            &&& y >= v.history_area.y + 2 && y < v.history_area.y + v.history_area.height - 1
                && row < v.history.len() ==> w.history_selected == row
        },
        in_area(v.tree_area, x, y) && v.focus != Focus::Groups ==> {
            let w = v.moused(MouseKind::LeftDown, x, y, now).0;
            let row = v.tree_offset + (y - v.tree_area.y - 1);
            &&& w.focus == Focus::Groups
            &&& y >= v.tree_area.y + 1 && y < v.tree_area.y + v.tree_area.height - 1 && row
                < v.rows.len() ==> w.selected == row
        },
        in_area(v.tree_area, x, y) && v.selected < v.rows.len() ==> {
            let d = v.moused(MouseKind::ScrollDown, x, y, now).0;
            let u = v.moused(MouseKind::ScrollUp, x, y, now).0;
            &&& d.focus == v.focus && u.focus == v.focus
            &&& d.selected == if v.selected + 1 < v.rows.len() {
                v.selected + 1
            } else {
                v.selected as int
            }
            &&& u.selected == if v.selected > 0 {
                v.selected - 1
            } else {
                0
            }
        },
{
    reveal(AppView::clicked);
    reveal(AppView::pane_clicked);
    reveal(AppView::row_clicked);
    reveal(AppView::scrolled);
    reveal(AppView::moved);
    reveal(AppView::at_row);
    reveal(AppView::hovering);
    reveal(AppView::detailed);
    reveal(AppView::loading_more);
}

} // verus!
