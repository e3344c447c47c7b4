//! What comes back from work done elsewhere.

use vstd::prelude::*;
use vstd::string::*;

use crate::app::hints::{auth_hint, hint_for};
use crate::app::snapshots::{
    failures, keeps_tail, merge_history_pages, merged_runs, new_failures,
};
use crate::app::{App, AppView, Effect, EffectView};
use crate::dup::Dup;
use crate::model::{
    DashboardGroup, DashboardPipeline, DashboardPipelineView, PipelineInstance,
    PipelineInstanceView,
};
use crate::names::NameMap;
use crate::text;

verus! {

// ---- the dashboard -------------------------------------------------------

/// Pipelines by name; of two with the same name the later one.
pub open spec fn by_name(ps: Seq<DashboardPipelineView>) -> Map<Seq<char>, DashboardPipelineView>
    decreases ps.len(),
{
    if ps.len() == 0 {
        Map::empty()
    } else {
        by_name(ps.drop_last()).insert(ps.last().name, ps.last())
    }
}

pub open spec fn failure_note(name: Seq<char>) -> EffectView {
    EffectView::Notify { title: "lazygocd"@, body: "Pipeline "@ + name + " failed"@ }
}

pub open spec fn failure_notes(names: Seq<Seq<char>>) -> Seq<EffectView> {
    Seq::new(names.len(), |i: int| failure_note(names[i]))
}

impl AppView {
    /// Notifications for the favorites that turned to Failed, where they are
    /// wanted.
    #[verifier::opaque]
    pub open spec fn notified(self, info: Map<Seq<char>, DashboardPipelineView>) -> AppView {
        if self.cfg.notifications {
            AppView {
                outbox: self.outbox + failure_notes(
                    failures(self.pipeline_info, info, self.favorites),
                ),
                ..self
            }
        } else {
            self
        }
    }

    /// The dashboard kept for the next start, but not in the demo.
    #[verifier::opaque]
    pub open spec fn caching(
        self,
        groups: Seq<crate::model::DashboardGroupView>,
        info: Seq<DashboardPipelineView>,
    ) -> AppView {
        if self.demo {
            self
        } else {
            self.emitting(EffectView::SaveCache { groups, info })
        }
    }

    /// What is said and asked for when a dashboard came. The views are asked
    /// for where none are there yet.
    #[verifier::opaque]
    pub open spec fn dashboard_noted(
        self,
        groups: nat,
        pipelines: nat,
        etag: Option<Seq<char>>,
    ) -> AppView {
        AppView {
            dashboard_etag: etag,
            status_line: "Loaded "@ + text::dec(groups) + " group(s), "@ + text::dec(pipelines)
                + " pipeline(s)"@,
            error_line: None,
            ..if self.views.len() == 0 {
                self.loading_views()
            } else {
                self
            }
        }
    }

    /// The groups and pipelines exchanged. The cursor stays on what it was on,
    /// by name.
    #[verifier::opaque]
    pub open spec fn exchanged(
        self,
        groups: Seq<crate::model::DashboardGroupView>,
        info: Map<Seq<char>, DashboardPipelineView>,
    ) -> AppView {
        AppView {
            groups,
            pipeline_info: info,
            loading_groups: false,
            ..self
        }.rebuilt().reselected(self.cursor_key())
    }

    /// A fresh dashboard.
    #[verifier::opaque]
    pub open spec fn dashboard_loaded(
        self,
        groups: Seq<crate::model::DashboardGroupView>,
        pipelines: Seq<DashboardPipelineView>,
        etag: Option<Seq<char>>,
    ) -> AppView {
        self.dashboard_noted(groups.len(), pipelines.len(), etag).caching(
            groups,
            pipelines,
        ).notified(by_name(pipelines)).exchanged(groups, by_name(pipelines))
    }
}

pub(crate) fn index_pipelines(ps: Vec<DashboardPipeline>) -> (r: NameMap<DashboardPipeline>)
    ensures
        r.deep_view() == by_name(ps.deep_view()),
{
    let ghost all = ps.deep_view();
    let mut r: NameMap<DashboardPipeline> = NameMap::new();
    let mut i: usize = 0;
    assert(r.deep_view() =~= Map::<Seq<char>, DashboardPipelineView>::empty());
    while i < ps.len()
        invariant
            all == ps.deep_view(),
            i <= ps@.len(),
            r.deep_view() == by_name(all.take(i as int)),
        decreases ps@.len() - i,
    {
        assert(all.take(i + 1).drop_last() =~= all.take(i as int));
        assert(all.take(i + 1).last() == ps@[i as int].deep_view());
        r.put(ps[i].name.as_str(), ps[i].dup());
        i = i + 1;
    }
    assert(all.take(i as int) =~= all);
    r
}

impl App {
    fn notify_failures(&mut self, info: &NameMap<DashboardPipeline>)
        ensures
            final(self).deep_view() == old(self).deep_view().notified(info.deep_view()),
    {
        proof {
            reveal(AppView::notified);
        }
        if !self.cfg.notifications {
            return;
        }
        let ghost start = self.deep_view();
        let names = new_failures(&self.pipeline_info, info, &self.favorites);
        let ghost all = names.deep_view();
        let mut i: usize = 0;
        assert(start.outbox + failure_notes(all.take(0)) =~= start.outbox);
        while i < names.len()
            invariant
                all == names.deep_view(),
                i <= names@.len(),
                self.deep_view() == (AppView {
                    outbox: start.outbox + failure_notes(all.take(i as int)),
                    ..start
                }),
            decreases names@.len() - i,
        {
            let body = text::cat3("Pipeline ", names[i].as_str(), " failed");
            self.emit(Effect::Notify { title: text::owned("lazygocd"), body });
            assert(failure_notes(all.take(i + 1)) =~= failure_notes(all.take(i as int)).push(
                failure_note(all[i as int]),
            ));
            assert(start.outbox + failure_notes(all.take(i + 1)) =~= (start.outbox + failure_notes(
                all.take(i as int),
            )).push(failure_note(all[i as int])));
            i = i + 1;
        }
        assert(all.take(i as int) =~= all);
    }

    fn note_dashboard(&mut self, groups: usize, pipelines: usize, etag: Option<String>)
        ensures
            final(self).deep_view() == old(self).deep_view().dashboard_noted(
                groups as nat,
                pipelines as nat,
                etag.deep_view(),
            ),
    {
        proof {
            reveal(AppView::dashboard_noted);
        }
        assert(self.deep_view().views.len() == self.views@.len());
        if self.views.len() == 0 {
            self.spawn_load_views();
        }
        self.dashboard_etag = etag;
        let g = text::decimal_n(groups);
        let p = text::decimal_n(pipelines);
        self.say(text::cat5("Loaded ", g.as_str(), " group(s), ", p.as_str(), " pipeline(s)"));
        self.error_line = None;
    }

    fn cache_dashboard(&mut self, groups: &Vec<DashboardGroup>, pipelines: &Vec<DashboardPipeline>)
        ensures
            final(self).deep_view() == old(self).deep_view().caching(
                groups.deep_view(),
                pipelines.deep_view(),
            ),
    {
        proof {
            reveal(AppView::caching);
        }
        if !self.demo {
            self.emit(Effect::SaveCache { groups: groups.dup(), info: pipelines.dup() });
        }
    }

    fn exchange(&mut self, groups: Vec<DashboardGroup>, info: NameMap<DashboardPipeline>)
        ensures
            final(self).deep_view() == old(self).deep_view().exchanged(
                groups.deep_view(),
                info.deep_view(),
            ),
    {
        proof {
            reveal(AppView::exchanged);
        }
        let key = self.selection_key();
        self.groups = groups;
        self.pipeline_info = info;
        self.loading_groups = false;
        self.rebuild_rows();
        self.restore_selection(key);
    }

    pub(crate) fn dashboard_arrived(
        &mut self,
        groups: Vec<DashboardGroup>,
        pipelines: Vec<DashboardPipeline>,
        etag: Option<String>,
    )
        ensures
            final(self).deep_view() == old(self).deep_view().dashboard_loaded(
                groups.deep_view(),
                pipelines.deep_view(),
                etag.deep_view(),
            ),
    {
        proof {
            reveal(AppView::dashboard_loaded);
        }
        assert(groups.deep_view().len() == groups@.len());
        assert(pipelines.deep_view().len() == pipelines@.len());
        self.note_dashboard(groups.len(), pipelines.len(), etag);
        self.cache_dashboard(&groups, &pipelines);
        let info = index_pipelines(pipelines);
        self.notify_failures(&info);
        self.exchange(groups, info);
    }
}

// ---- history -------------------------------------------------------------

impl AppView {
    pub open spec fn is_open(self, name: Seq<char>) -> bool {
        self.selected_pipeline == Some(name)
    }

    /// The cursor of the next page noted, or that there is none.
    pub open spec fn next_page(self, name: Seq<char>, next: Option<u64>) -> AppView {
        AppView {
            history_next: match next {
                Some(cursor) => self.history_next.insert(name, cursor),
                None => self.history_next.remove(name),
            },
            ..self
        }
    }

    pub open spec fn cached_runs(self, name: Seq<char>) -> Seq<PipelineInstanceView> {
        if self.history_cache.contains_key(name) {
            self.history_cache[name]
        } else {
            Seq::empty()
        }
    }

    /// The runs of an open pipeline shown; an older run that is selected stays
    /// so.
    #[verifier::opaque]
    pub open spec fn runs_placed(self, runs: Seq<PipelineInstanceView>) -> AppView {
        AppView {
            history: runs,
            history_selected: if self.history_selected < runs.len() {
                self.history_selected
            } else {
                0
            },
            history_loading: false,
            ..self
        }.detailed()
    }

    #[verifier::opaque]
    pub open spec fn runs_shown(self, name: Seq<char>, runs: Seq<PipelineInstanceView>) -> AppView {
        self.runs_placed(runs).saying("Loaded history for "@ + name).checks_started(name)
    }

    /// The runs of a pipeline noted: where the older tail is kept, so is its
    /// cursor.
    #[verifier::opaque]
    pub open spec fn runs_stored(
        self,
        name: Seq<char>,
        fresh: Seq<PipelineInstanceView>,
        next: Option<u64>,
    ) -> AppView {
        let cached = self.cached_runs(name);
        let stored = AppView {
            history_cache: self.history_cache.insert(name, merged_runs(fresh, cached)),
            ..self
        };
        if keeps_tail(fresh, cached) {
            stored
        } else {
            stored.next_page(name, next)
        }
    }

    /// A first page of history, over what was loaded; shown where the pipeline
    /// is open.
    #[verifier::opaque]
    pub open spec fn history_loaded(
        self,
        name: Seq<char>,
        fresh: Seq<PipelineInstanceView>,
        next: Option<u64>,
    ) -> AppView {
        let stored = self.runs_stored(name, fresh, next);
        if self.is_open(name) {
            stored.runs_shown(name, merged_runs(fresh, self.cached_runs(name)))
        } else {
            stored
        }
    }

    /// A later page of history. Only the page that was asked for is taken, and
    /// only where no refresh moved the end of what is loaded.
    #[verifier::opaque]
    pub open spec fn more_loaded(
        self,
        name: Seq<char>,
        last_counter: i64,
        runs: Seq<PipelineInstanceView>,
        next: Option<u64>,
    ) -> AppView {
        let cached = self.cached_runs(name);
        if cached.len() == 0 || cached.last().counter != last_counter {
            self
        } else {
            let stored = AppView {
                history_cache: self.history_cache.insert(name, cached + runs),
                ..self.next_page(name, next)
            };
            if self.is_open(name) {
                AppView {
                    history: self.history + runs,
                    status_line: "Loaded "@ + text::dec(runs.len()) + " more run(s) ("@ + text::dec(
                        self.history.len() + runs.len(),
                    ) + " total)"@,
                    ..stored
                }
            } else {
                stored
            }
        }
    }

    /// A failure that is only news where the pipeline is open.
    pub open spec fn failing_on(self, name: Seq<char>, words: Seq<char>, e: Seq<char>) -> AppView {
        if self.is_open(name) {
            self.failing(words + name + ": "@ + e + hint_for(e))
        } else {
            self
        }
    }
}

fn append_runs(to: &mut Vec<PipelineInstance>, runs: Vec<PipelineInstance>)
    ensures
        final(to).deep_view() == old(to).deep_view() + runs.deep_view(),
{
    let mut runs = runs;
    let ghost a = to.deep_view();
    let ghost b = runs.deep_view();
    to.append(&mut runs);
    assert(to.deep_view() =~= a + b);
}

impl App {
    pub(crate) fn has_open(&self, name: &str) -> (r: bool)
        ensures
            r == self.deep_view().is_open(name@),
    {
        match &self.selected_pipeline {
            Some(p) => text::same(p.as_str(), name),
            None => false,
        }
    }

    fn set_next_page(&mut self, name: &str, next: Option<u64>)
        ensures
            final(self).deep_view() == old(self).deep_view().next_page(name@, next),
    {
        match next {
            Some(cursor) => {
                self.history_next.put(name, cursor);
            },
            None => {
                self.history_next.drop_name(name);
            },
        }
    }

    fn runs_in_cache(&self, name: &str) -> (r: Vec<PipelineInstance>)
        ensures
            r.deep_view() == self.deep_view().cached_runs(name@),
    {
        match self.history_cache.get(name) {
            Some(runs) => runs.dup(),
            None => {
                let none: Vec<PipelineInstance> = Vec::new();
                assert(none.deep_view() =~= Seq::<PipelineInstanceView>::empty());
                none
            },
        }
    }

    fn place_runs(&mut self, runs: Vec<PipelineInstance>)
        ensures
            final(self).deep_view() == old(self).deep_view().runs_placed(runs.deep_view()),
    {
        proof {
            reveal(AppView::runs_placed);
        }
        assert(runs.deep_view().len() == runs@.len());
        if self.history_selected >= runs.len() {
            self.history_selected = 0;
        }
        self.history = runs;
        self.history_loading = false;
        self.rebuild_detail_rows();
    }

    fn show_runs(&mut self, name: String, runs: Vec<PipelineInstance>)
        ensures
            final(self).deep_view() == old(self).deep_view().runs_shown(name@, runs.deep_view()),
    {
        proof {
            reveal(AppView::runs_shown);
        }
        self.place_runs(runs);
        self.say(text::cat2("Loaded history for ", name.as_str()));
        self.start_github_checks(name);
    }

    fn store_runs(&mut self, name: &str, fresh: Vec<PipelineInstance>, next: Option<u64>) -> (r: Vec<
        PipelineInstance,
    >)
        ensures
            final(self).deep_view() == old(self).deep_view().runs_stored(
                name@,
                fresh.deep_view(),
                next,
            ),
            r.deep_view() == merged_runs(
                fresh.deep_view(),
                old(self).deep_view().cached_runs(name@),
            ),
    {
        proof {
            reveal(AppView::runs_stored);
        }
        let cached = self.runs_in_cache(name);
        let (runs, kept) = merge_history_pages(fresh, cached);
        self.history_cache.put(name, runs.dup());
        if !kept {
            self.set_next_page(name, next);
        }
        runs
    }

    pub(crate) fn history_arrived(&mut self, name: String, fresh: Vec<PipelineInstance>, next: Option<u64>)
        ensures
            final(self).deep_view() == old(self).deep_view().history_loaded(
                name@,
                fresh.deep_view(),
                next,
            ),
    {
        proof {
            reveal(AppView::history_loaded);
        }
        let open = self.has_open(name.as_str());
        let runs = self.store_runs(name.as_str(), fresh, next);
        if open {
            self.show_runs(name, runs);
        }
    }

    pub(crate) fn more_arrived(
        &mut self,
        name: String,
        last_counter: i64,
        runs: Vec<PipelineInstance>,
        next: Option<u64>,
    )
        ensures
            final(self).deep_view() == old(self).deep_view().more_loaded(
                name@,
                last_counter,
                runs.deep_view(),
                next,
            ),
    {
        proof {
            reveal(AppView::more_loaded);
        }
        let mut cached = self.runs_in_cache(name.as_str());
        let ghost cv = cached.deep_view();
        let n: usize = cached.len();
        assert(cv.len() == n);
        if n == 0 {
            return;
        }
        assert(cv.last() == cached@[n - 1].deep_view());
        if cached[n - 1].counter != last_counter {
            return;
        }
        self.set_next_page(name.as_str(), next);
        append_runs(&mut cached, runs.dup());
        self.history_cache.put(name.as_str(), cached);
        if self.has_open(name.as_str()) {
            assert(runs.deep_view().len() == runs@.len());
            let count = text::decimal_n(runs.len());
            append_runs(&mut self.history, runs);
            assert(self.deep_view().history.len() == self.history@.len());
            let total = text::decimal_n(self.history.len());
            self.say(
                text::cat5("Loaded ", count.as_str(), " more run(s) (", total.as_str(), " total)"),
            );
        }
    }

    pub(crate) fn fail_on(&mut self, name: &str, words: &str, e: &str)
        ensures
            final(self).deep_view() == old(self).deep_view().failing_on(name@, words@, e@),
    {
        if self.has_open(name) {
            self.fail(text::cat5(words, name, ": ", e, auth_hint(e)));
        }
    }
}

} // verus!
