//! The tree of groups and pipelines: its rows, and the cursor on them.

use vstd::prelude::*;
use vstd::string::*;

use crate::app::matching::{fuzzy_match, matched};
use crate::app::{
    App, AppView, Effect, EffectView, Focus, Row, RowView, SelectionKey, SelectionKeyView,
};
use crate::dup::Dup;
use crate::model::{DashboardGroup, DashboardGroupView};
use crate::names::{lemma_ordered_finite, ordered};
use crate::text;

verus! {

// ---- rows ----------------------------------------------------------------

/// Whether a filter lets a name through: the empty one lets all.
pub open spec fn listed(name: Seq<char>, filter: Seq<char>) -> bool {
    filter.len() == 0 || matched(name, filter, 0) is Some
}

/// The rows of the pipelines of group `gi` that the filter lets through.
pub open spec fn pipeline_rows(names: Seq<Seq<char>>, gi: usize, filter: Seq<char>) -> Seq<RowView>
    decreases names.len(),
{
    if names.len() == 0 {
        Seq::empty()
    } else {
        let above = pipeline_rows(names.drop_last(), gi, filter);
        if listed(names.last(), filter) {
            above.push(RowView::Pipeline { group_idx: gi, pipeline_idx: (names.len() - 1) as usize })
        } else {
            above
        }
    }
}

/// The rows of the groups. Without a filter each group shows its pipelines where
/// it is open; with one, the groups that have matches show those.
pub open spec fn group_rows(
    groups: Seq<DashboardGroupView>,
    open: Set<Seq<char>>,
    filter: Seq<char>,
) -> Seq<RowView>
    decreases groups.len(),
{
    if groups.len() == 0 {
        Seq::empty()
    } else {
        let g = groups.last();
        let gi = (groups.len() - 1) as usize;
        let above = group_rows(groups.drop_last(), open, filter);
        let inner = pipeline_rows(g.pipelines, gi, filter);
        if filter.len() > 0 && inner.len() == 0 {
            above
        } else if filter.len() > 0 || open.contains(g.name) {
            above.push(RowView::Group { idx: gi }) + inner
        } else {
            above.push(RowView::Group { idx: gi })
        }
    }
}

/// The pinned section: a header, and where it is open the favorites in order.
pub open spec fn favorite_rows(favorites: Set<Seq<char>>, open: bool) -> Seq<RowView> {
    let names = ordered(favorites);
    if open {
        seq![RowView::FavoritesHeader] + names.map_values(
            |n: Seq<char>| RowView::FavoritePipeline(n),
        )
    } else {
        seq![RowView::FavoritesHeader]
    }
}

/// The index `i`, or the last one of `len` where it lies beyond.
pub open spec fn clamped(i: usize, len: nat) -> usize {
    if i < len {
        i
    } else if len == 0 {
        0
    } else {
        (len - 1) as usize
    }
}

impl AppView {
    /// The rows of the tree. The pinned section is hidden while filtering.
    pub open spec fn tree_rows(self) -> Seq<RowView> {
        let pinned = if self.filter.len() == 0 && self.favorites != Set::<Seq<char>>::empty() {
            favorite_rows(self.favorites, self.favorites_expanded)
        } else {
            Seq::empty()
        };
        pinned + group_rows(self.groups, self.expanded, self.filter)
    }

    /// The state with its rows made anew and the cursor on one of them.
    #[verifier::opaque]
    pub open spec fn rebuilt(self) -> AppView {
        AppView {
            rows: self.tree_rows(),
            selected: clamped(self.selected, self.tree_rows().len()),
            ..self
        }
    }

    pub open spec fn emitting(self, e: EffectView) -> AppView {
        AppView { outbox: self.outbox.push(e), ..self }
    }

    pub open spec fn saying(self, s: Seq<char>) -> AppView {
        AppView { status_line: s, ..self }
    }

    pub open spec fn failing(self, s: Seq<char>) -> AppView {
        AppView { error_line: Some(s), ..self }
    }

    /// The name of a pipeline by its place.
    pub open spec fn pipeline_at(self, g: usize, p: usize) -> Option<Seq<char>> {
        if g < self.groups.len() && p < self.groups[g as int].pipelines.len() {
            Some(self.groups[g as int].pipelines[p as int])
        } else {
            None
        }
    }

    /// The row under the cursor.
    pub open spec fn cursor_row(self) -> Option<RowView> {
        if self.selected < self.rows.len() {
            Some(self.rows[self.selected as int])
        } else {
            None
        }
    }

    /// The pipeline that a row of the tree stands for.
    pub open spec fn row_pipeline(self, row: Option<RowView>) -> Option<Seq<char>> {
        match row {
            Some(RowView::Pipeline { group_idx, pipeline_idx }) => self.pipeline_at(
                group_idx,
                pipeline_idx,
            ),
            Some(RowView::FavoritePipeline(name)) => Some(name),
            _ => None,
        }
    }

    /// The pipeline that keys act on: under the cursor in the tree, and else the
    /// open one.
    pub open spec fn current_pipeline(self) -> Option<Seq<char>> {
        if self.focus == Focus::Groups {
            self.row_pipeline(self.cursor_row())
        } else {
            self.selected_pipeline
        }
    }

    /// What the cursor stands on, by name.
    pub open spec fn cursor_key(self) -> Option<SelectionKeyView> {
        match self.cursor_row() {
            None => None,
            Some(RowView::FavoritesHeader) => Some(SelectionKeyView::FavoritesHeader),
            Some(RowView::FavoritePipeline(name)) => Some(SelectionKeyView::Favorite(name)),
            Some(RowView::Group { idx }) => if idx < self.groups.len() {
                Some(SelectionKeyView::Group(self.groups[idx as int].name))
            } else {
                None
            },
            Some(RowView::Pipeline { group_idx, pipeline_idx }) => match self.pipeline_at(
                group_idx,
                pipeline_idx,
            ) {
                Some(name) => Some(SelectionKeyView::Pipeline(name)),
                None => None,
            },
        }
    }

    /// Whether a row is what the key names.
    pub open spec fn row_is(self, row: RowView, key: SelectionKeyView) -> bool {
        match (row, key) {
            (RowView::FavoritesHeader, SelectionKeyView::FavoritesHeader) => true,
            (RowView::FavoritePipeline(n), SelectionKeyView::Favorite(k)) => n == k,
            (RowView::Group { idx }, SelectionKeyView::Group(k)) => idx < self.groups.len()
                && self.groups[idx as int].name == k,
            (
                RowView::Pipeline { group_idx, pipeline_idx },
                SelectionKeyView::Pipeline(k),
            ) => self.pipeline_at(group_idx, pipeline_idx) == Some(k),
            _ => false,
        }
    }

    /// The first row at or after `from` that the key names; the number of rows
    /// where there is none.
    pub open spec fn row_of(self, key: SelectionKeyView, from: int) -> int
        decreases self.rows.len() - from,
    {
        if from >= self.rows.len() || self.row_is(self.rows[from], key) {
            from
        } else {
            self.row_of(key, from + 1)
        }
    }

    /// The cursor put on the row that the key names, where there is one.
    #[verifier::opaque]
    pub open spec fn reselected(self, key: Option<SelectionKeyView>) -> AppView {
        match key {
            Some(k) => if self.row_of(k, 0) < self.rows.len() {
                AppView { selected: self.row_of(k, 0) as usize, ..self }
            } else {
                self
            },
            None => self,
        }
    }
}

impl App {
    pub(crate) fn emit(&mut self, e: Effect)
        ensures
            final(self).deep_view() == old(self).deep_view().emitting(e.deep_view()),
    {
        let ghost before = self.outbox.deep_view();
        self.outbox.push(e);
        assert(self.outbox.deep_view() =~= before.push(e.deep_view()));
    }

    /// The work asked for so far, in order.
    pub fn take_effects(&mut self) -> (r: Vec<Effect>)
        ensures
            r.deep_view() == old(self).deep_view().outbox,
            final(self).deep_view() == (AppView { outbox: Seq::empty(), ..old(self).deep_view() }),
    {
        let mut r: Vec<Effect> = Vec::new();
        std::mem::swap(&mut self.outbox, &mut r);
        assert(self.outbox.deep_view() =~= Seq::<EffectView>::empty());
        r
    }

    pub(crate) fn say(&mut self, s: String)
        ensures
            final(self).deep_view() == old(self).deep_view().saying(s@),
    {
        self.status_line = s;
    }

    pub(crate) fn fail(&mut self, s: String)
        ensures
            final(self).deep_view() == old(self).deep_view().failing(s@),
    {
        self.error_line = Some(s);
    }

    fn pipelines_into(&self, group: &DashboardGroup, gi: usize, out: &mut Vec<Row>)
        ensures
            final(out).deep_view() == old(out).deep_view() + pipeline_rows(
                group.deep_view().pipelines,
                gi,
                self.filter@,
            ),
    {
        let ghost start = out.deep_view();
        let ghost names = group.pipelines.deep_view();
        let unfiltered = self.filter.as_str().unicode_len() == 0;
        let mut i: usize = 0;
        assert(start + pipeline_rows(names.take(0), gi, self.filter@) =~= start);
        while i < group.pipelines.len()
            invariant
                names == group.pipelines.deep_view(),
                i <= group.pipelines@.len(),
                unfiltered == (self.filter@.len() == 0),
                out.deep_view() == start + pipeline_rows(names.take(i as int), gi, self.filter@),
            decreases group.pipelines@.len() - i,
        {
            let ghost before = out.deep_view();
            assert(names.take(i + 1).drop_last() =~= names.take(i as int));
            assert(names.take(i + 1).last() == group.pipelines@[i as int]@);
            if unfiltered || fuzzy_match(
                group.pipelines[i].as_str(),
                self.filter.as_str(),
            ).is_some() {
                let row = Row::Pipeline { group_idx: gi, pipeline_idx: i };
                out.push(row);
                assert(out.deep_view() =~= before.push(row.deep_view()));
            }
            assert(out.deep_view() =~= start + pipeline_rows(names.take(i + 1), gi, self.filter@));
            i = i + 1;
        }
        assert(names.take(i as int) =~= names);
    }

    fn groups_into(&self, out: &mut Vec<Row>)
        ensures
            final(out).deep_view() == old(out).deep_view() + group_rows(
                self.groups.deep_view(),
                self.expanded@,
                self.filter@,
            ),
    {
        let ghost start = out.deep_view();
        let ghost all = self.groups.deep_view();
        let filtered = self.filter.as_str().unicode_len() > 0;
        let mut i: usize = 0;
        assert(start + group_rows(all.take(0), self.expanded@, self.filter@) =~= start);
        while i < self.groups.len()
            invariant
                all == self.groups.deep_view(),
                i <= self.groups@.len(),
                filtered == (self.filter@.len() > 0),
                out.deep_view() == start + group_rows(
                    all.take(i as int),
                    self.expanded@,
                    self.filter@,
                ),
            decreases self.groups@.len() - i,
        {
            let g = &self.groups[i];
            let ghost before = out.deep_view();
            let ghost gv = g.deep_view();
            assert(all.take(i + 1).drop_last() =~= all.take(i as int));
            assert(all.take(i + 1).last() == gv);
            let mut inner: Vec<Row> = Vec::new();
            self.pipelines_into(g, i, &mut inner);
            assert(inner.deep_view() =~= pipeline_rows(gv.pipelines, i, self.filter@));
            assert(inner.deep_view().len() == inner@.len());
            if !(filtered && inner.len() == 0) {
                let row = Row::Group { idx: i };
                out.push(row);
                assert(out.deep_view() =~= before.push(row.deep_view()));
                if filtered || self.expanded.contains(g.name.as_str()) {
                    let ghost mid = out.deep_view();
                    let ghost iv = inner.deep_view();
                    out.append(&mut inner);
                    assert(out.deep_view() =~= mid + iv);
                }
            }
            assert(out.deep_view() =~= start + group_rows(
                all.take(i + 1),
                self.expanded@,
                self.filter@,
            ));
            i = i + 1;
        }
        assert(all.take(i as int) =~= all);
    }

    fn favorites_into(&self, out: &mut Vec<Row>)
        ensures
            final(out).deep_view() == old(out).deep_view() + favorite_rows(
                self.favorites@,
                self.favorites_expanded,
            ),
    {
        let ghost start = out.deep_view();
        let ghost f = |n: Seq<char>| RowView::FavoritePipeline(n);
        out.push(Row::FavoritesHeader);
        assert(out.deep_view() =~= start + seq![RowView::FavoritesHeader]);
        if self.favorites_expanded {
            let names = self.favorites.names();
            let ghost all = names.deep_view();
            let ghost mid = out.deep_view();
            let mut i: usize = 0;
            assert(mid + all.take(0).map_values(f) =~= mid);
            while i < names.len()
                invariant
                    all == names.deep_view(),
                    i <= names@.len(),
                    f == |n: Seq<char>| RowView::FavoritePipeline(n),
                    out.deep_view() == mid + all.take(i as int).map_values(f),
                decreases names@.len() - i,
            {
                let ghost before = out.deep_view();
                let row = Row::FavoritePipeline(names[i].clone());
                let ghost rv = row.deep_view();
                out.push(row);
                assert(out.deep_view() =~= before.push(rv));
                assert(all.take(i + 1) =~= all.take(i as int).push(all[i as int]));
                assert(all.take(i + 1).map_values(f) =~= all.take(i as int).map_values(f).push(rv));
                assert(out.deep_view() =~= mid + all.take(i + 1).map_values(f));
                i = i + 1;
            }
            assert(all.take(i as int) =~= all);
            assert(out.deep_view() =~= start + favorite_rows(self.favorites@, true));
        }
    }

    /// Makes the rows of the tree anew, from the groups, what is open, the
    /// favorites and the filter, and keeps the cursor on a row.
    pub fn rebuild_rows(&mut self)
        ensures
            final(self).deep_view() == old(self).deep_view().rebuilt(),
    {
        proof {
            reveal(AppView::rebuilt);
        }
        let mut rows: Vec<Row> = Vec::new();
        assert(rows.deep_view() =~= Seq::<RowView>::empty());
        if self.filter.as_str().unicode_len() == 0 && !self.favorites.is_empty() {
            self.favorites_into(&mut rows);
        }
        self.groups_into(&mut rows);
        assert(rows.deep_view() =~= self.deep_view().tree_rows());
        assert(rows.deep_view().len() == rows@.len());
        let n: usize = rows.len();
        self.rows = rows;
        if self.selected >= n {
            self.selected = if n == 0 { 0 } else { n - 1 };
        }
        assert(self.deep_view() =~= old(self).deep_view().rebuilt());
    }

    // ---- the cursor ----

    pub(crate) fn pipeline_name_at(&self, g: usize, p: usize) -> (r: Option<&String>)
        ensures
            r.deep_view() == self.deep_view().pipeline_at(g, p),
    {
        assert(self.groups.deep_view().len() == self.groups@.len());
        if g < self.groups.len() {
            let ps = &self.groups[g].pipelines;
            assert(self.groups.deep_view()[g as int].pipelines == ps.deep_view());
            if p < ps.len() {
                assert(ps.deep_view()[p as int] == ps@[p as int]@);
                return Some(&ps[p]);
            }
        }
        None
    }

    pub(crate) fn selected_row(&self) -> (r: Option<&Row>)
        ensures
            r.deep_view() == self.deep_view().cursor_row(),
    {
        if self.selected < self.rows.len() {
            assert(self.rows.deep_view()[self.selected as int]
                == self.rows@[self.selected as int].deep_view());
            Some(&self.rows[self.selected])
        } else {
            None
        }
    }

    fn pipeline_of_row(&self, row: Option<&Row>) -> (r: Option<String>)
        ensures
            r.deep_view() == self.deep_view().row_pipeline(row.deep_view()),
    {
        match row {
            Some(Row::Pipeline { group_idx, pipeline_idx }) => match self.pipeline_name_at(
                *group_idx,
                *pipeline_idx,
            ) {
                Some(n) => Some(n.clone()),
                None => None,
            },
            Some(Row::FavoritePipeline(name)) => Some(name.clone()),
            _ => None,
        }
    }

    /// The pipeline that keys act on.
    pub fn current_row_pipeline_name(&self) -> (r: Option<String>)
        ensures
            r.deep_view() == self.deep_view().current_pipeline(),
    {
        match self.focus {
            Focus::Groups => self.pipeline_of_row(self.selected_row()),
            _ => self.selected_pipeline.dup(),
        }
    }

    /// What the cursor stands on, by name; taken before fresh data moves rows.
    pub(crate) fn selection_key(&self) -> (r: Option<SelectionKey>)
        ensures
            r.deep_view() == self.deep_view().cursor_key(),
    {
        match self.selected_row() {
            None => None,
            Some(Row::FavoritesHeader) => Some(SelectionKey::FavoritesHeader),
            Some(Row::FavoritePipeline(name)) => Some(SelectionKey::Favorite(name.clone())),
            Some(Row::Group { idx }) => if *idx < self.groups.len() {
                assert(self.groups.deep_view()[*idx as int].name
                    == self.groups@[*idx as int].name@);
                Some(SelectionKey::Group(self.groups[*idx].name.clone()))
            } else {
                None
            },
            Some(Row::Pipeline { group_idx, pipeline_idx }) => match self.pipeline_name_at(
                *group_idx,
                *pipeline_idx,
            ) {
                Some(n) => Some(SelectionKey::Pipeline(n.clone())),
                None => None,
            },
        }
    }

    fn row_matches(&self, row: &Row, key: &SelectionKey) -> (r: bool)
        ensures
            r == self.deep_view().row_is(row.deep_view(), key.deep_view()),
    {
        match (row, key) {
            (Row::FavoritesHeader, SelectionKey::FavoritesHeader) => true,
            (Row::FavoritePipeline(n), SelectionKey::Favorite(k)) => text::same(
                n.as_str(),
                k.as_str(),
            ),
            (Row::Group { idx }, SelectionKey::Group(k)) => if *idx < self.groups.len() {
                assert(self.groups.deep_view()[*idx as int].name
                    == self.groups@[*idx as int].name@);
                text::same(self.groups[*idx].name.as_str(), k.as_str())
            } else {
                false
            },
            (
                Row::Pipeline { group_idx, pipeline_idx },
                SelectionKey::Pipeline(k),
            ) => match self.pipeline_name_at(*group_idx, *pipeline_idx) {
                Some(n) => text::same(n.as_str(), k.as_str()),
                None => false,
            },
            _ => false,
        }
    }

    /// Puts the cursor back on what the key names, where a row stands for it.
    pub(crate) fn restore_selection(&mut self, key: Option<SelectionKey>)
        ensures
            final(self).deep_view() == old(self).deep_view().reselected(key.deep_view()),
    {
        proof {
            reveal(AppView::reselected);
        }
        if let Some(k) = key {
            let mut i: usize = 0;
            let n: usize = self.rows.len();
            while i < n && !self.row_matches(&self.rows[i], &k)
                invariant
                    n == self.rows@.len(),
                    i <= n,
                    self.deep_view().row_of(k.deep_view(), 0) == self.deep_view().row_of(
                        k.deep_view(),
                        i as int,
                    ),
                decreases n - i,
            {
                assert(self.deep_view().rows[i as int] == self.rows@[i as int].deep_view());
                i = i + 1;
            }
            if i < n {
                assert(self.deep_view().rows[i as int] == self.rows@[i as int].deep_view());
                self.selected = i;
            }
        }
    }
}

// ---- laws ----------------------------------------------------------------

/// What a row stands for is there.
pub open spec fn real_row(groups: Seq<DashboardGroupView>, row: RowView) -> bool {
    match row {
        RowView::Group { idx } => idx < groups.len(),
        RowView::Pipeline { group_idx, pipeline_idx } => group_idx < groups.len() && pipeline_idx
            < groups[group_idx as int].pipelines.len(),
        _ => true,
    }
}

/// Every group and pipeline has an index that a machine can hold.
pub open spec fn indexed(groups: Seq<DashboardGroupView>) -> bool {
    &&& groups.len() <= usize::MAX
    &&& forall|i: int|
        0 <= i < groups.len() ==> (#[trigger] groups[i]).pipelines.len() <= usize::MAX
}

pub(crate) proof fn lemma_pipeline_rows(names: Seq<Seq<char>>, gi: usize, filter: Seq<char>)
    requires
        names.len() <= usize::MAX,
    ensures
        forall|i: int|
            0 <= i < pipeline_rows(names, gi, filter).len() ==> {
                &&& #[trigger] pipeline_rows(names, gi, filter)[i] matches RowView::Pipeline {
                    group_idx,
                    pipeline_idx,
                }
                &&& group_idx == gi
                &&& pipeline_idx < names.len()
                &&& listed(names[pipeline_idx as int], filter)
            },
        forall|k: int|
            0 <= k < names.len() && listed(#[trigger] names[k], filter) ==> pipeline_rows(
                names,
                gi,
                filter,
            ).contains(RowView::Pipeline { group_idx: gi, pipeline_idx: k as usize }),
    decreases names.len(),
{
    if names.len() > 0 {
        let above = pipeline_rows(names.drop_last(), gi, filter);
        let all = pipeline_rows(names, gi, filter);
        lemma_pipeline_rows(names.drop_last(), gi, filter);
        assert forall|k: int| 0 <= k < names.len() && listed(#[trigger] names[k], filter) implies {
            all.contains(RowView::Pipeline { group_idx: gi, pipeline_idx: k as usize })
        } by {
            let row = RowView::Pipeline { group_idx: gi, pipeline_idx: k as usize };
            if k == names.len() - 1 {
                assert(all[all.len() - 1] == row);
            } else {
                assert(names.drop_last()[k] == names[k]);
                let at = choose|i: int| 0 <= i < above.len() && above[i] == row;
                assert(all[at] == row);
            }
        }
    }
}

proof fn lemma_group_rows(
    groups: Seq<DashboardGroupView>,
    open: Set<Seq<char>>,
    filter: Seq<char>,
)
    requires
        indexed(groups),
    ensures
        forall|i: int|
            0 <= i < group_rows(groups, open, filter).len() ==> {
                let row = #[trigger] group_rows(groups, open, filter)[i];
                real_row(groups, row) && !(row is FavoritePipeline)
            },
    decreases groups.len(),
{
    if groups.len() > 0 {
        let less = groups.drop_last();
        let above = group_rows(less, open, filter);
        let gi = (groups.len() - 1) as usize;
        let inner = pipeline_rows(groups.last().pipelines, gi, filter);
        let all = group_rows(groups, open, filter);
        assert(indexed(less)) by {
            assert forall|i: int| 0 <= i < less.len() implies (#[trigger] less[i]).pipelines.len()
                <= usize::MAX by {
                assert(less[i] == groups[i]);
            }
        }
        assert(groups.last() == groups[groups.len() - 1]);
        lemma_group_rows(less, open, filter);
        lemma_pipeline_rows(groups.last().pipelines, gi, filter);
        assert forall|i: int| 0 <= i < all.len() implies real_row(groups, #[trigger] all[i]) && !(
        all[i] is FavoritePipeline) by {
            if i < above.len() {
                assert(all[i] == above[i]);
                assert(real_row(less, above[i]));
            } else if i == above.len() {
                assert(all[i] == RowView::Group { idx: gi });
            } else {
                assert(all[i] == inner[i - above.len() - 1]);
            }
        }
    }
}

/// Every row of the tree stands for a group or a pipeline of the dashboard, or
/// for a favorite.
pub proof fn rows_stand_for_what_is_there(v: AppView)
    requires
        indexed(v.groups),
        v.favorites.finite(),
    ensures
        forall|i: int|
            0 <= i < v.rebuilt().rows.len() ==> real_row(
                v.rebuilt().groups,
                #[trigger] v.rebuilt().rows[i],
            ),
        forall|i: int|
            0 <= i < v.rebuilt().rows.len() && (#[trigger] v.rebuilt().rows[i])
                is FavoritePipeline ==> v.favorites.contains(v.rebuilt().rows[i]->FavoritePipeline_0),
{
    reveal(AppView::rebuilt);
    lemma_group_rows(v.groups, v.expanded, v.filter);
    let rows = v.tree_rows();
    let pinned = if v.filter.len() == 0 && v.favorites != Set::<Seq<char>>::empty() {
        favorite_rows(v.favorites, v.favorites_expanded)
    } else {
        Seq::empty()
    };
    let rest = group_rows(v.groups, v.expanded, v.filter);
    assert forall|i: int| 0 <= i < rows.len() implies real_row(v.groups, #[trigger] rows[i]) && (
    rows[i] is FavoritePipeline ==> v.favorites.contains(rows[i]->FavoritePipeline_0)) by {
        if i >= pinned.len() {
            assert(rows[i] == rest[i - pinned.len()]);
        } else if i > 0 {
            let names = ordered(v.favorites);
            lemma_ordered_finite(v.favorites);
            assert(rows[i] == RowView::FavoritePipeline(names[i - 1]));
            assert(names.contains(names[i - 1]));
        }
    }
}

/// A filter hides no pipeline that it matches, even in a group that is closed.
pub proof fn matching_pipelines_are_listed(v: AppView, g: int, p: int)
    requires
        indexed(v.groups),
        v.filter.len() > 0,
        0 <= g < v.groups.len(),
        0 <= p < v.groups[g].pipelines.len(),
        listed(v.groups[g].pipelines[p], v.filter),
    ensures
        v.rebuilt().rows.contains(
            RowView::Pipeline { group_idx: g as usize, pipeline_idx: p as usize },
        ),
{
    reveal(AppView::rebuilt);
    lemma_match_listed(v.groups, v.expanded, v.filter, g, p);
    let rest = group_rows(v.groups, v.expanded, v.filter);
    assert(v.tree_rows() =~= rest);
}

proof fn lemma_match_listed(
    groups: Seq<DashboardGroupView>,
    open: Set<Seq<char>>,
    filter: Seq<char>,
    g: int,
    p: int,
)
    requires
        indexed(groups),
        filter.len() > 0,
        0 <= g < groups.len(),
        0 <= p < groups[g].pipelines.len(),
        listed(groups[g].pipelines[p], filter),
    ensures
        group_rows(groups, open, filter).contains(
            RowView::Pipeline { group_idx: g as usize, pipeline_idx: p as usize },
        ),
    decreases groups.len(),
{
    let less = groups.drop_last();
    let above = group_rows(less, open, filter);
    let gi = (groups.len() - 1) as usize;
    let inner = pipeline_rows(groups.last().pipelines, gi, filter);
    let all = group_rows(groups, open, filter);
    let row = RowView::Pipeline { group_idx: g as usize, pipeline_idx: p as usize };
    if g == groups.len() - 1 {
        assert(groups.last() == groups[g]);
        lemma_pipeline_rows(groups.last().pipelines, gi, filter);
        let at = choose|i: int| 0 <= i < inner.len() && inner[i] == row;
        assert(all[above.len() + 1 + at] == row);
    } else {
        assert(indexed(less)) by {
            assert forall|i: int| 0 <= i < less.len() implies (#[trigger] less[i]).pipelines.len()
                <= usize::MAX by {
                assert(less[i] == groups[i]);
            }
        }
        assert(less[g] == groups[g]);
        lemma_match_listed(less, open, filter, g, p);
        let at = choose|i: int| 0 <= i < above.len() && above[i] == row;
        assert(all[at] == row);
    }
}

} // verus!
