//! What moving about does: leaving a group, paging, resting on a pipeline; and what
//! goes away with a key.

use vstd::prelude::*;
use vstd::string::*;

use crate::app::hints::{age_text, hint_for};
use crate::app::keys::{group_place, header_place};
use crate::app::laws::acting::{ends_in, in_panes};
use crate::app::laws::browsing::{
    cursor_in, is_group_listed, the_tree_lists_exactly_what_it_should,
};
use crate::app::laws::console::plain;
use crate::app::tree::indexed;
use crate::app::{
    ApiEvent, AppView, DashboardPayload, Focus, HistoryPage, Key, KeyCode, ModalView, RowView,
};
use crate::text;

verus! {

// ---- leaving a group -----------------------------------------------------

proof fn lemma_group_found(rows: Seq<RowView>, g: usize, from: int)
    requires
        0 <= from <= rows.len(),
        exists|i: int| from <= i < rows.len() && #[trigger] rows[i] == (RowView::Group { idx: g }),
    ensures
        from <= group_place(rows, g, from) < rows.len(),
        rows[group_place(rows, g, from)] == (RowView::Group { idx: g }),
    decreases rows.len() - from,
{
    if rows[from] != (RowView::Group { idx: g }) {
        lemma_group_found(rows, g, from + 1);
    }
}

proof fn lemma_header_found(rows: Seq<RowView>, from: int)
    requires
        0 <= from <= rows.len(),
        exists|i: int| from <= i < rows.len() && #[trigger] rows[i] == RowView::FavoritesHeader,
    ensures
        from <= header_place(rows, from) < rows.len(),
        rows[header_place(rows, from)] == RowView::FavoritesHeader,
    decreases rows.len() - from,
{
    if rows[from] != RowView::FavoritesHeader {
        lemma_header_found(rows, from + 1);
    }
}

/// `h` on a pipeline closes its group, and no other, and goes to the group.
#[verifier::rlimit(40)]
pub proof fn leaving_closes_the_group(v: AppView, g: usize, p: usize, now: u64)
    requires
        in_panes(v),
        v.focus == Focus::Groups,
        v.selected < v.rows.len(),
        v.rows[v.selected as int] == (RowView::Pipeline { group_idx: g, pipeline_idx: p }),
        g < v.groups.len(),
        v.filter.len() == 0,
        indexed(v.groups),
        v.favorites.finite(),
        (AppView { expanded: v.expanded.remove(v.groups[g as int].name), ..v }).tree_rows().len()
            <= usize::MAX,
    ensures
        ({
            let name = v.groups[g as int].name;
            let w = v.keyed(plain(KeyCode::Char('h')), now);
            &&& !w.expanded.contains(name)
            &&& forall|x: Seq<char>|
                x != name ==> #[trigger] w.expanded.contains(x) == v.expanded.contains(x)
            &&& w.selected < w.rows.len()
            &&& w.rows[w.selected as int] == (RowView::Group { idx: g })
            &&& w.outbox == v.outbox
        }),
{
    reveal(AppView::keyed);
    reveal(AppView::pane_keyed);
    reveal(AppView::collapsed);
    reveal(AppView::rebuilt);
    let name = v.groups[g as int].name;
    let base = AppView { error_line: None, modal: None, ..v };
    let u = AppView { expanded: base.expanded.remove(name), ..base };
    the_tree_lists_exactly_what_it_should(u, g as int, 0, name);
    assert(is_group_listed(u, g as int));
    let rows = u.rebuilt().rows;
    let i = choose|i: int| 0 <= i < rows.len() && rows[i] == (RowView::Group { idx: g });
    assert(rows[i] == (RowView::Group { idx: g }));
    lemma_group_found(rows, g, 0);
    let same = AppView { expanded: u.expanded, ..v };
    assert(same.tree_rows() == u.tree_rows());
}

/// `h` on a favorite closes the favorites and goes to their header; Enter there
/// opens and closes them.
pub proof fn leaving_closes_the_favorites(v: AppView, name: Seq<char>, now: u64)
    requires
        in_panes(v),
        v.focus == Focus::Groups,
        v.selected < v.rows.len(),
        v.filter.len() == 0,
        indexed(v.groups),
        v.favorites.finite(),
        v.favorites.contains(name),
        (AppView { favorites_expanded: false, ..v }).tree_rows().len() <= usize::MAX,
    ensures
        v.rows[v.selected as int] == RowView::FavoritePipeline(name) ==> {
            let w = v.keyed(plain(KeyCode::Char('h')), now);
            &&& !w.favorites_expanded
            &&& w.favorites == v.favorites
            &&& w.selected < w.rows.len()
            &&& w.rows[w.selected as int] == RowView::FavoritesHeader
        },
        v.rows[v.selected as int] == RowView::FavoritesHeader ==> v.keyed(
            plain(KeyCode::Enter),
            now,
        ).favorites_expanded == !v.favorites_expanded,
{
    reveal(AppView::keyed);
    reveal(AppView::pane_keyed);
    reveal(AppView::collapsed);
    reveal(AppView::activated);
    reveal(AppView::rebuilt);
    let base = AppView { error_line: None, modal: None, ..v };
    let u = AppView { favorites_expanded: false, ..base };
    the_tree_lists_exactly_what_it_should(u, 0, 0, name);
    assert(u.favorites != Set::<Seq<char>>::empty());
    let rows = u.rebuilt().rows;
    let i = choose|i: int| 0 <= i < rows.len() && rows[i] == RowView::FavoritesHeader;
    assert(rows[i] == RowView::FavoritesHeader);
    lemma_header_found(rows, 0);
    let same = AppView { favorites_expanded: false, ..v };
    assert(same.tree_rows() == u.tree_rows());
}

// ---- paging --------------------------------------------------------------

/// The rows of the focused pane that fit its frame.
pub open spec fn visible(v: AppView) -> int {
    match v.focus {
        Focus::Groups => v.tree_area.height - 2,
        Focus::History => v.history_area.height - 3,
        Focus::Detail => v.detail_area.height - 2,
    }
}

/// Paging goes by half of what fits the pane, at least by a row, up and down, and
/// stops at the ends; Ctrl-D and Ctrl-U do the same.
#[verifier::rlimit(40)]
pub proof fn pages_are_half_a_pane(v: AppView, now: u64)
    requires
        in_panes(v),
        v.rows.len() <= usize::MAX,
        v.history.len() <= usize::MAX,
        v.detail_rows.len() <= usize::MAX,
        cursor_in(v).0 < cursor_in(v).1,
    ensures
        ({
            let (at, len) = cursor_in(v);
            let half = if visible(v) < 2 {
                1
            } else {
                visible(v) / 2
            };
            let down = if at + half < len {
                at + half
            } else {
                len - 1
            };
            let up = if at - half > 0 {
                at - half
            } else {
                0
            };
            &&& cursor_in(v.keyed(plain(KeyCode::PageDown), now)).0 == down
            &&& cursor_in(v.keyed(plain(KeyCode::PageUp), now)).0 == up
            &&& cursor_in(v.keyed((Key { code: KeyCode::Char('d'), ctrl: true }), now)).0 == down
            &&& cursor_in(v.keyed((Key { code: KeyCode::Char('u'), ctrl: true }), now)).0 == up
        }),
{
    reveal(AppView::keyed);
    reveal(AppView::pane_keyed);
    reveal(AppView::motion);
    reveal(AppView::moved);
    reveal(AppView::at_row);
    reveal(AppView::hovering);
    reveal(AppView::detailed);
    reveal(AppView::loading_more);
}

// ---- resting -------------------------------------------------------------

/// The pipeline that the cursor comes to is noted with the time; one that it stays
/// on keeps its time; where it comes to none, none is noted.
pub proof fn resting_is_timed(v: AppView, g: usize, p: usize, now: u64)
    requires
        in_panes(v),
        v.focus == Focus::Groups,
        v.selected + 1 < v.rows.len() <= usize::MAX,
        g < v.groups.len(),
        p < v.groups[g as int].pipelines.len(),
    ensures
        v.rows[v.selected + 1] == (RowView::Pipeline { group_idx: g, pipeline_idx: p }) ==> {
            let name = v.groups[g as int].pipelines[p as int];
            let w = v.keyed(plain(KeyCode::Char('j')), now);
            w.hover_target == match v.hover_target {
                Some((n, since)) => if n == name {
                    Some((n, since))
                } else {
                    Some((name, now))
                },
                None => Some((name, now)),
            }
        },
        v.rows[v.selected + 1] == (RowView::Group { idx: g }) ==> v.keyed(
            plain(KeyCode::Char('j')),
            now,
        ).hover_target is None,
{
    reveal(AppView::keyed);
    reveal(AppView::pane_keyed);
    reveal(AppView::motion);
    reveal(AppView::moved);
    reveal(AppView::at_row);
    reveal(AppView::hovering);
}

// ---- messages ------------------------------------------------------------

/// An error is said until the next key.
#[verifier::rlimit(40)]
pub proof fn a_key_clears_the_error(v: AppView, now: u64)
    requires
        in_panes(v),
        v.rows.len() <= usize::MAX,
        v.history.len() <= usize::MAX,
        v.detail_rows.len() <= usize::MAX,
    ensures
        v.keyed(plain(KeyCode::Char('j')), now).error_line is None,
        v.keyed(plain(KeyCode::Char('k')), now).error_line is None,
        v.keyed(plain(KeyCode::Tab), now).error_line is None,
        v.keyed(plain(KeyCode::Esc), now).error_line is None,
        v.keyed(plain(KeyCode::Char('?')), now).error_line is None,
        v.keyed(plain(KeyCode::Char('/')), now).error_line is None,
        v.keyed(plain(KeyCode::Char('r')), now).error_line is None,
        v.keyed(plain(KeyCode::Char('?')), now).modal == Some(ModalView::Help),
        v.keyed(plain(KeyCode::Char('q')), now).should_quit,
        !v.should_quit ==> !v.keyed(plain(KeyCode::Char('j')), now).should_quit,
{
    reveal(AppView::keyed);
    reveal(AppView::pane_keyed);
    reveal(AppView::motion);
    reveal(AppView::moved);
    reveal(AppView::at_row);
    reveal(AppView::hovering);
    reveal(AppView::detailed);
    reveal(AppView::loading_more);
    reveal(AppView::tabbed);
    reveal(AppView::gone_back);
    reveal(AppView::rebuilt);
    reveal(AppView::action_keyed);
    reveal(AppView::form_keyed);
    reveal(AppView::refreshed);
}

/// What could not be loaded is said, with the reason and what can be done about it.
/// That a history could not be is said only where it is the one that is shown.
pub proof fn what_was_not_loaded_is_said(
    v: AppView,
    name: String,
    after: u64,
    last: i64,
    e: String,
)
    requires
        v.history_more_inflight == Some((name@, after)),
    ensures
        ({
            let dashboard = v.after_event(
                ApiEvent::Dashboard(v.server_gen, Err::<Option<DashboardPayload>, String>(e)),
            );
            let history = v.after_event(
                ApiEvent::History(name, Err::<HistoryPage, String>(e)),
            );
            let more = v.after_event(
                (ApiEvent::HistoryMore {
                    name,
                    after,
                    issued_last_counter: last,
                    result: Err::<HistoryPage, String>(e),
                }),
            );
            let tail = e@ + hint_for(e@);
            &&& dashboard.error_line is Some && ends_in(dashboard.error_line->0, tail)
            &&& !dashboard.loading_groups
            &&& dashboard.groups == v.groups
            &&& v.selected_pipeline == Some(name@) ==> {
                &&& history.error_line is Some && ends_in(history.error_line->0, tail)
                &&& !history.history_loading
                &&& history.history == v.history
                &&& more.error_line is Some && ends_in(more.error_line->0, tail)
            }
            &&& more.history_more_inflight is None
            &&& more.history == v.history
            &&& v.selected_pipeline != Some(name@) ==> history.error_line == v.error_line
                && more.error_line == v.error_line
        }),
{
    reveal(AppView::after_event);
    reveal(AppView::dashboard_answered);
    reveal(AppView::history_answered);
    reveal(AppView::more_answered);
    let tail = e@ + hint_for(e@);
    lemma_ends("Failed to load dashboard: "@, e@, hint_for(e@));
    lemma_ends("Failed to load history for "@ + name@ + ": "@, e@, hint_for(e@));
    lemma_ends("Failed to load more history for "@ + name@ + ": "@, e@, hint_for(e@));
}

proof fn lemma_ends(head: Seq<char>, a: Seq<char>, b: Seq<char>)
    ensures
        ends_in(head + a + b, a + b),
{
    let s = head + a + b;
    assert(s.subrange(head.len() as int, s.len() as int) =~= a + b);
}

/// A refused token leads to the form for it, and a server that cannot be reached to
/// another try; other errors come without advice.
pub proof fn advice_fits_the_error(e: Seq<char>)
    ensures
        text::has(e, "401"@) ==> text::has(hint_for(e), "press A to reconnect"@),
        text::has(e, "403"@) && !text::has(e, "401"@) ==> text::has(hint_for(e), "A reconnects"@),
        (text::has(e, "timed out"@) || text::has(e, "connect"@)) && !text::has(e, "401"@)
            && !text::has(e, "403"@) ==> text::has(hint_for(e), "r retries"@),
        !text::has(e, "401"@) && !text::has(e, "403"@) && !text::has(e, "timed out"@)
            && !text::has(e, "connect"@) ==> hint_for(e).len() == 0,
{
    reveal_strlit("  (press A to reconnect)");
    reveal_strlit("press A to reconnect");
    reveal_strlit("  (VPN down, or the token lost access? A reconnects)");
    reveal_strlit("A reconnects");
    reveal_strlit("  (server unreachable; r retries)");
    reveal_strlit("r retries");
    reveal_strlit("");
    let a = "  (press A to reconnect)"@;
    let b = "  (VPN down, or the token lost access? A reconnects)"@;
    let c = "  (server unreachable; r retries)"@;
    assert(a.subrange(3, 23) =~= "press A to reconnect"@);
    assert(text::occurs_at(a, "press A to reconnect"@, 3));
    assert(b.subrange(39, 51) =~= "A reconnects"@);
    assert(text::occurs_at(b, "A reconnects"@, 39));
    assert(c.subrange(23, 32) =~= "r retries"@);
    assert(text::occurs_at(c, "r retries"@, 23));
}

/// An age is told in the largest unit that it fills, rounded down; what is less
/// than a minute old, or is still to come, is from just now.
pub proof fn ages_are_told_in_their_unit(saved: int, now: int, n: int)
    ensures
        now < saved + 60_000 ==> age_text(saved, now) == "just now"@,
        1 <= n < 60 && saved + n * 60_000 <= now < saved + (n + 1) * 60_000 ==> age_text(saved, now)
            == text::dec(n as nat) + "m ago"@,
        1 <= n < 24 && saved + n * 3_600_000 <= now < saved + (n + 1) * 3_600_000 ==> age_text(
            saved,
            now,
        ) == text::dec(n as nat) + "h ago"@,
        1 <= n && saved + n * 86_400_000 <= now < saved + (n + 1) * 86_400_000 ==> age_text(
            saved,
            now,
        ) == text::dec(n as nat) + "d ago"@,
{
    let secs = (now - saved) / 1000;
    if 1 <= n && saved + n * 86_400_000 <= now < saved + (n + 1) * 86_400_000 {
        assert(n * 86400 <= secs < (n + 1) * 86400);
        assert(secs / 86400 == n);
    }
    if 1 <= n < 24 && saved + n * 3_600_000 <= now < saved + (n + 1) * 3_600_000 {
        assert(secs / 3600 == n);
    }
    if 1 <= n < 60 && saved + n * 60_000 <= now < saved + (n + 1) * 60_000 {
        assert(secs / 60 == n);
    }
}

} // verus!
