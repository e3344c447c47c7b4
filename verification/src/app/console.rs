//! The view of one job: its log with search, its artifacts, its materials.

use vstd::prelude::*;
use vstd::string::*;

use crate::app::{ConsoleLogState, ConsoleLogStateView, JobTab, KeyCode};
use crate::model::{flatten_artifacts, visible_rows, ArtifactRow, ArtifactRowView};
use crate::text;
use crate::unicode::{lowercase, to_lowercase};

verus! {

// ---- search --------------------------------------------------------------

/// The places of the texts that hold `q`.
pub open spec fn places_with(ls: Seq<Seq<char>>, q: Seq<char>) -> Seq<usize>
    decreases ls.len(),
{
    if ls.len() == 0 {
        Seq::empty()
    } else {
        let above = places_with(ls.drop_last(), q);
        if text::has(ls.last(), q) {
            above.push((ls.len() - 1) as usize)
        } else {
            above
        }
    }
}

/// The places of the lines that hold `q`.
pub fn lines_with(ls: &Vec<String>, q: &str) -> (r: Vec<usize>)
    ensures
        r@ == places_with(ls.deep_view(), q@),
{
    let ghost all = ls.deep_view();
    let mut r: Vec<usize> = Vec::new();
    let mut i: usize = 0;
    while i < ls.len()
        invariant
            all == ls.deep_view(),
            i <= ls@.len(),
            r@ == places_with(all.take(i as int), q@),
        decreases ls@.len() - i,
    {
        assert(all.take(i + 1).drop_last() =~= all.take(i as int));
        assert(all.take(i + 1).last() == ls@[i as int]@);
        if text::contains(ls[i].as_str(), q) {
            r.push(i);
        }
        i = i + 1;
    }
    assert(all.take(i as int) =~= all);
    r
}

pub open spec fn lowered(ls: Seq<Seq<char>>) -> Seq<Seq<char>> {
    Seq::new(ls.len(), |i: int| lowercase(ls[i]))
}

fn lower_all(ls: &Vec<String>) -> (r: Vec<String>)
    ensures
        r.deep_view() == lowered(ls.deep_view()),
{
    let mut r: Vec<String> = Vec::new();
    let mut i: usize = 0;
    while i < ls.len()
        invariant
            i <= ls@.len(),
            r@.len() == i,
            forall|k: int| 0 <= k < i ==> (#[trigger] r@[k])@ == lowercase(ls@[k]@),
        decreases ls@.len() - i,
    {
        r.push(to_lowercase(ls[i].as_str()));
        i = i + 1;
    }
    assert(r.deep_view() =~= lowered(ls.deep_view()));
    r
}

/// The last index below `len`, or 0.
pub open spec fn last_index(len: nat) -> int {
    if len == 0 {
        0
    } else {
        len - 1
    }
}

pub open spec fn at_most(i: usize, max: int) -> usize {
    if i <= max {
        i
    } else {
        max as usize
    }
}

/// `a` less `b`, or 0.
pub open spec fn less(a: int, b: int) -> int {
    if a > b {
        a - b
    } else {
        0
    }
}

impl ConsoleLogStateView {
    /// The matches of the search text, in either case; none where it is empty.
    #[verifier::opaque]
    pub open spec fn recomputed(self) -> ConsoleLogStateView {
        if self.search.len() == 0 {
            ConsoleLogStateView { matches: Seq::empty(), ..self }
        } else {
            let found = places_with(lowered(self.lines), lowercase(self.search));
            ConsoleLogStateView {
                matches: found,
                match_idx: at_most(self.match_idx, last_index(found.len())),
                ..self
            }
        }
    }

    /// The current match brought to the middle, and following turned off.
    #[verifier::opaque]
    pub open spec fn jumped(self, height: u16) -> ConsoleLogStateView {
        if self.match_idx < self.matches.len() {
            ConsoleLogStateView {
                following: false,
                scroll: less(self.matches[self.match_idx as int] as int, height as int / 2) as usize,
                ..self
            }
        } else {
            self
        }
    }

    /// A key while the search text is typed.
    #[verifier::opaque]
    pub open spec fn searching(self, code: KeyCode, height: u16) -> ConsoleLogStateView {
        match code {
            KeyCode::Esc => ConsoleLogStateView {
                search_active: false,
                search: Seq::empty(),
                matches: Seq::empty(),
                ..self
            },
            KeyCode::Enter => ConsoleLogStateView { search_active: false, ..self }.jumped(height),
            KeyCode::Backspace => ConsoleLogStateView {
                search: text::without_last(self.search),
                ..self
            }.recomputed(),
            KeyCode::Char(c) => ConsoleLogStateView {
                search: self.search.push(c),
                ..self
            }.recomputed(),
            _ => self,
        }
    }

    /// The number of lines that the tab scrolls over.
    pub open spec fn content_len(self) -> nat {
        if self.tab == JobTab::Materials {
            self.materials.len()
        } else {
            self.lines.len()
        }
    }

    /// Scrolled up from what is on screen. Following parks the offset beyond the
    /// end, so it counts from the last screen.
    #[verifier::opaque]
    pub open spec fn scrolled_up(self, height: u16, lines: usize) -> ConsoleLogStateView {
        let max = less(self.content_len() as int, height as int);
        ConsoleLogStateView {
            scroll: less(at_most(self.scroll, max) as int, lines as int) as usize,
            following: false,
            ..self
        }
    }

    #[verifier::opaque]
    pub open spec fn scrolled_down(self, lines: usize) -> ConsoleLogStateView {
        ConsoleLogStateView {
            scroll: if self.scroll + lines > usize::MAX {
                usize::MAX
            } else {
                (self.scroll + lines) as usize
            },
            ..self
        }
    }

    /// The visible artifacts made anew, with the cursor on one of them.
    #[verifier::opaque]
    pub open spec fn reflowed(self) -> ConsoleLogStateView {
        match self.artifact_tree {
            Some(tree) => {
                let rows = visible_rows(tree, 0, Seq::empty(), self.artifacts_expanded);
                ConsoleLogStateView {
                    artifacts: Some(rows),
                    artifact_selected: at_most(self.artifact_selected, last_index(rows.len())),
                    ..self
                }
            },
            None => self,
        }
    }

    /// The artifact under the cursor.
    pub open spec fn artifact(self) -> Option<ArtifactRowView> {
        match self.artifacts {
            Some(rows) => if self.artifact_selected < rows.len() {
                Some(rows[self.artifact_selected as int])
            } else {
                None
            },
            None => None,
        }
    }

    /// Whether the artifacts are to be fetched: their tab is shown, and they are
    /// neither there nor on their way.
    pub open spec fn wants_artifacts(self) -> bool {
        self.tab == JobTab::Artifacts && self.artifacts is None && !self.artifacts_loading
    }

    pub open spec fn on_tab(self, tab: JobTab) -> ConsoleLogStateView {
        ConsoleLogStateView { tab, scroll: 0, ..self }
    }
}

pub open spec fn next_tab(tab: JobTab) -> JobTab {
    match tab {
        JobTab::Console => JobTab::Artifacts,
        JobTab::Artifacts => JobTab::Materials,
        JobTab::Materials => JobTab::Console,
    }
}

pub open spec fn previous_tab(tab: JobTab) -> JobTab {
    match tab {
        JobTab::Console => JobTab::Materials,
        JobTab::Artifacts => JobTab::Console,
        JobTab::Materials => JobTab::Artifacts,
    }
}

fn minus(a: usize, b: usize) -> (r: usize)
    ensures
        r == less(a as int, b as int),
{
    if a > b {
        a - b
    } else {
        0
    }
}

fn cap(i: usize, max: usize) -> (r: usize)
    ensures
        r == at_most(i, max as int),
{
    if i <= max {
        i
    } else {
        max
    }
}

impl ConsoleLogState {
    /// Finds the lines that hold the search text, in either case.
    pub fn recompute_matches(&mut self)
        ensures
            final(self).deep_view() == old(self).deep_view().recomputed(),
    {
        proof {
            reveal(ConsoleLogStateView::recomputed);
        }
        self.matches = Vec::new();
        if self.search.as_str().unicode_len() == 0 {
            return;
        }
        let q = to_lowercase(self.search.as_str());
        let ls = lower_all(&self.lines);
        self.matches = lines_with(&ls, q.as_str());
        let n: usize = self.matches.len();
        self.match_idx = cap(self.match_idx, minus(n, 1));
    }

    pub(crate) fn jump_to_match(&mut self, height: u16)
        ensures
            final(self).deep_view() == old(self).deep_view().jumped(height),
    {
        proof {
            reveal(ConsoleLogStateView::jumped);
        }
        if self.match_idx < self.matches.len() {
            let line: usize = self.matches[self.match_idx];
            self.following = false;
            self.scroll = minus(line, height as usize / 2);
        }
    }

    pub(crate) fn search_key(&mut self, code: KeyCode, height: u16)
        ensures
            final(self).deep_view() == old(self).deep_view().searching(code, height),
    {
        proof {
            reveal(ConsoleLogStateView::searching);
        }
        match code {
            KeyCode::Esc => {
                self.search_active = false;
                self.search = text::empty();
                self.matches = Vec::new();
            },
            KeyCode::Enter => {
                self.search_active = false;
                self.jump_to_match(height);
            },
            KeyCode::Backspace => {
                self.search = text::pop_last(self.search.as_str());
                self.recompute_matches();
            },
            KeyCode::Char(c) => {
                self.search.push(c);
                self.recompute_matches();
            },
            _ => {},
        }
    }

    pub(crate) fn scroll_down(&mut self, lines: usize)
        ensures
            final(self).deep_view() == old(self).deep_view().scrolled_down(lines),
    {
        proof {
            reveal(ConsoleLogStateView::scrolled_down);
        }
        self.scroll = if self.scroll > usize::MAX - lines {
            usize::MAX
        } else {
            self.scroll + lines
        };
    }

    pub(crate) fn current_artifact(&self) -> (r: Option<&ArtifactRow>)
        ensures
            r.deep_view() == self.deep_view().artifact(),
    {
        match &self.artifacts {
            Some(rows) => if self.artifact_selected < rows.len() {
                assert(rows.deep_view()[self.artifact_selected as int]
                    == rows@[self.artifact_selected as int].deep_view());
                Some(&rows[self.artifact_selected])
            } else {
                None
            },
            None => None,
        }
    }
}

/// Scrolls up from what is on screen.
pub fn console_scroll_up(state: &mut ConsoleLogState, view_height: u16, lines: usize)
    ensures
        final(state).deep_view() == old(state).deep_view().scrolled_up(view_height, lines),
{
    proof {
        reveal(ConsoleLogStateView::scrolled_up);
    }
    let content: usize = match state.tab {
        JobTab::Materials => state.materials.len(),
        _ => state.lines.len(),
    };
    let max: usize = minus(content, view_height as usize);
    state.scroll = minus(cap(state.scroll, max), lines);
    state.following = false;
}

/// Makes the visible artifacts anew after a folder was opened or closed.
pub fn reflow_artifacts(state: &mut ConsoleLogState)
    ensures
        final(state).deep_view() == old(state).deep_view().reflowed(),
{
    proof {
        reveal(ConsoleLogStateView::reflowed);
    }
    let rows = match &state.artifact_tree {
        Some(tree) => {
            assert(tree.deep_view() =~= tree@);
            flatten_artifacts(tree, &state.artifacts_expanded)
        },
        None => {
            return;
        },
    };
    let n: usize = rows.len();
    state.artifact_selected = cap(state.artifact_selected, minus(n, 1));
    state.artifacts = Some(rows);
}

} // verus!
