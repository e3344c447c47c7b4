//! What follows from two snapshots of the same thing: a page of history over an
//! older one, a dashboard over the one before.

use vstd::prelude::*;
use vstd::string::*;

use crate::dup::Dup;
use crate::model::{
    DashboardPipeline, DashboardPipelineView, PipelineInstance, PipelineInstanceView,
};
use crate::names::{lemma_ordered_finite, ordered, NameMap, NameSet};
use crate::text;

verus! {

// ---- history -------------------------------------------------------------

/// The older tail is kept where the fresh page reaches back into it and it goes
/// further back than the page.
pub open spec fn keeps_tail(
    fresh: Seq<PipelineInstanceView>,
    cached: Seq<PipelineInstanceView>,
) -> bool {
    &&& fresh.len() > 0
    &&& cached.len() > fresh.len()
    &&& fresh.last().counter <= cached[0].counter
}

/// The runs before the one with that counter.
pub open spec fn older_than(
    runs: Seq<PipelineInstanceView>,
    counter: i64,
) -> Seq<PipelineInstanceView> {
    runs.filter(|r: PipelineInstanceView| r.counter < counter)
}

pub open spec fn merged_runs(
    fresh: Seq<PipelineInstanceView>,
    cached: Seq<PipelineInstanceView>,
) -> Seq<PipelineInstanceView> {
    if keeps_tail(fresh, cached) {
        fresh + older_than(cached, fresh.last().counter)
    } else {
        fresh
    }
}

/// A first page came while deeper pages were already loaded. The older tail is
/// kept where the page overlaps it, so that what was paged in survives a
/// refresh; where it does not, the tail is dropped rather than shown with a
/// hole. Tells also whether the tail was kept.
pub fn merge_history_pages(fresh: Vec<PipelineInstance>, cached: Vec<PipelineInstance>) -> (r: (
    Vec<PipelineInstance>,
    bool,
))
    ensures
        r.0.deep_view() == merged_runs(fresh.deep_view(), cached.deep_view()),
        r.1 == keeps_tail(fresh.deep_view(), cached.deep_view()),
{
    let ghost f = fresh.deep_view();
    let ghost c = cached.deep_view();
    if fresh.len() == 0 || cached.len() <= fresh.len() {
        return (fresh, false);
    }
    let cutoff: i64 = fresh[fresh.len() - 1].counter;
    assert(cutoff == f.last().counter);
    assert(c[0] == cached@[0].deep_view());
    if cutoff > cached[0].counter {
        return (fresh, false);
    }
    let mut merged = fresh;
    let mut i: usize = 0;
    let ghost p = |r: PipelineInstanceView| r.counter < cutoff;
    assert(c.take(0).filter(p) =~= Seq::empty()) by {
        reveal(Seq::filter);
    }
    assert(f + Seq::empty() =~= f);
    while i < cached.len()
        invariant
            c == cached.deep_view(),
            i <= cached@.len(),
            p == |r: PipelineInstanceView| r.counter < cutoff,
            merged.deep_view() == f + c.take(i as int).filter(p),
        decreases cached@.len() - i,
    {
        let ghost before = merged.deep_view();
        let ghost x = c[i as int];
        proof {
            reveal(Seq::filter);
            assert(c.take(i + 1).drop_last() =~= c.take(i as int));
            assert(c.take(i + 1).last() == x);
        }
        if cached[i].counter < cutoff {
            merged.push(cached[i].dup());
            assert(merged.deep_view() =~= before.push(x));
            assert(merged.deep_view() =~= f + c.take(i + 1).filter(p));
        }
        i = i + 1;
    }
    assert(c.take(i as int) =~= c);
    (merged, true)
}

// ---- dashboards ----------------------------------------------------------

/// A pipeline that failed where it was known not to have failed before.
pub open spec fn newly_failed(
    before: Map<Seq<char>, DashboardPipelineView>,
    after: Map<Seq<char>, DashboardPipelineView>,
    name: Seq<char>,
) -> bool {
    &&& after.contains_key(name)
    &&& after[name].latest() == "Failed"@
    &&& before.contains_key(name)
    &&& before[name].latest() != "Failed"@
}

/// The favorites, in order, whose latest run turned to Failed from one snapshot
/// to the next. A pipeline that stays red is not among them.
pub open spec fn failures(
    before: Map<Seq<char>, DashboardPipelineView>,
    after: Map<Seq<char>, DashboardPipelineView>,
    favorites: Set<Seq<char>>,
) -> Seq<Seq<char>> {
    ordered(favorites).filter(|name: Seq<char>| newly_failed(before, after, name))
}

fn fails(info: &NameMap<DashboardPipeline>, name: &str) -> (r: Option<bool>)
    ensures
        match r {
            Some(b) => info.deep_view().contains_key(name@) && b == (
            info.deep_view()[name@].latest() == "Failed"@),
            None => !info.deep_view().contains_key(name@),
        },
{
    match info.get(name) {
        Some(p) => Some(text::same(p.latest_status(), "Failed")),
        None => None,
    }
}

pub fn new_failures(
    before: &NameMap<DashboardPipeline>,
    after: &NameMap<DashboardPipeline>,
    favorites: &NameSet,
) -> (r: Vec<String>)
    ensures
        r.deep_view() == failures(before.deep_view(), after.deep_view(), favorites@),
{
    let names = favorites.names();
    let ghost all = ordered(favorites@);
    let ghost p = |name: Seq<char>| newly_failed(before.deep_view(), after.deep_view(), name);
    let mut out: Vec<String> = Vec::new();
    let mut i: usize = 0;
    assert(out.deep_view() =~= all.take(0).filter(p)) by {
        reveal(Seq::filter);
    }
    while i < names.len()
        invariant
            all == names.deep_view(),
            i <= names@.len(),
            p == |name: Seq<char>| newly_failed(before.deep_view(), after.deep_view(), name),
            out.deep_view() == all.take(i as int).filter(p),
        decreases names@.len() - i,
    {
        let name = &names[i];
        let ghost sofar = out.deep_view();
        proof {
            reveal(Seq::filter);
            assert(all.take(i + 1).drop_last() =~= all.take(i as int));
            assert(all.take(i + 1).last() == name@);
        }
        let now_red = fails(after, name.as_str()) == Some(true);
        let was_green = fails(before, name.as_str()) == Some(false);
        if now_red && was_green {
            out.push(name.clone());
            assert(out.deep_view() =~= sofar.push(name@));
        }
        i = i + 1;
    }
    assert(all.take(i as int) =~= all);
    out
}

// ---- laws ----------------------------------------------------------------

/// Runs with the newest first, none twice.
pub open spec fn newest_first(runs: Seq<PipelineInstanceView>) -> bool {
    forall|i: int, j: int|
        0 <= i < j < runs.len() ==> (#[trigger] runs[i]).counter > (#[trigger] runs[j]).counter
}

proof fn lemma_older_than(runs: Seq<PipelineInstanceView>, counter: i64)
    requires
        newest_first(runs),
    ensures
        newest_first(older_than(runs, counter)),
        forall|i: int|
            0 <= i < older_than(runs, counter).len() ==> (#[trigger] older_than(
                runs,
                counter,
            )[i]).counter < counter,
        forall|i: int|
            0 <= i < older_than(runs, counter).len() && runs.len() > 0 ==> (#[trigger] older_than(
                runs,
                counter,
            )[i]).counter >= runs.last().counter,
        forall|i: int|
            0 <= i < runs.len() && (#[trigger] runs[i]).counter < counter ==> older_than(
                runs,
                counter,
            ).contains(runs[i]),
    decreases runs.len(),
{
    reveal(Seq::filter);
    if runs.len() > 0 {
        let d = runs.drop_last();
        lemma_older_than(d, counter);
        let od = older_than(d, counter);
        let o = older_than(runs, counter);
        let x = runs.last();
        if d.len() > 0 {
            assert(d.last() == runs[runs.len() - 2]);
            assert(d.last().counter > x.counter);
        } else {
            assert(od =~= Seq::empty());
        }
        if x.counter < counter {
            assert(o =~= od.push(x));
        } else {
            assert(o =~= od);
        }
        assert forall|i: int, j: int| 0 <= i < j < o.len() implies (#[trigger] o[i]).counter > (
        #[trigger] o[j]).counter by {
            if j < od.len() {
                assert(o[i] == od[i] && o[j] == od[j]);
            } else {
                assert(o[i] == od[i]);
                assert(od[i].counter >= d.last().counter);
            }
        }
        assert forall|i: int| 0 <= i < runs.len() && (#[trigger] runs[i]).counter
            < counter implies o.contains(runs[i]) by {
            if i < d.len() {
                assert(d[i] == runs[i]);
                assert(od.contains(d[i]));
                let k = choose|k: int| 0 <= k < od.len() && od[k] == d[i];
                assert(o[k] == runs[i]);
            } else {
                assert(o[od.len() as int] == x);
            }
        }
    }
}

/// Merging keeps the newest first and shows no run twice.
pub proof fn merging_keeps_the_order(
    fresh: Seq<PipelineInstanceView>,
    cached: Seq<PipelineInstanceView>,
)
    requires
        newest_first(fresh),
        newest_first(cached),
    ensures
        newest_first(merged_runs(fresh, cached)),
{
    if keeps_tail(fresh, cached) {
        let cut = fresh.last().counter;
        lemma_older_than(cached, cut);
        let o = older_than(cached, cut);
        let m = merged_runs(fresh, cached);
        assert forall|i: int, j: int| 0 <= i < j < m.len() implies (#[trigger] m[i]).counter > (
        #[trigger] m[j]).counter by {
            if j < fresh.len() {
                assert(m[i] == fresh[i] && m[j] == fresh[j]);
            } else {
                assert(m[j] == o[j - fresh.len()]);
                if i < fresh.len() {
                    assert(m[i] == fresh[i]);
                    if i < fresh.len() - 1 {
                        assert(fresh[i].counter > fresh[fresh.len() - 1].counter);
                    }
                } else {
                    assert(m[i] == o[i - fresh.len()]);
                }
            }
        }
    }
}

/// Where the tail is kept, no run is lost: all of the fresh page is there, and
/// of what was loaded every run that is older than the page.
pub proof fn merging_keeps_the_tail(
    fresh: Seq<PipelineInstanceView>,
    cached: Seq<PipelineInstanceView>,
)
    requires
        newest_first(cached),
        keeps_tail(fresh, cached),
    ensures
        merged_runs(fresh, cached).take(fresh.len() as int) == fresh,
        forall|i: int|
            0 <= i < cached.len() && (#[trigger] cached[i]).counter < fresh.last().counter
                ==> merged_runs(fresh, cached).contains(cached[i]),
{
    let cut = fresh.last().counter;
    lemma_older_than(cached, cut);
    let o = older_than(cached, cut);
    let m = merged_runs(fresh, cached);
    assert(m.take(fresh.len() as int) =~= fresh);
    assert forall|i: int| 0 <= i < cached.len() && (#[trigger] cached[i]).counter
        < cut implies m.contains(cached[i]) by {
        assert(o.contains(cached[i]));
        let k = choose|k: int| 0 <= k < o.len() && o[k] == cached[i];
        assert(m[fresh.len() + k] == cached[i]);
    }
}

proof fn lemma_filter_members(s: Seq<Seq<char>>, p: spec_fn(Seq<char>) -> bool, x: Seq<char>)
    ensures
        s.filter(p).contains(x) <==> s.contains(x) && p(x),
    decreases s.len(),
{
    reveal(Seq::filter);
    if s.len() > 0 {
        let d = s.drop_last();
        lemma_filter_members(d, p, x);
        let f = s.filter(p);
        let fd = d.filter(p);
        assert(s.contains(x) <==> d.contains(x) || x == s.last()) by {
            if d.contains(x) {
                let k = choose|k: int| 0 <= k < d.len() && d[k] == x;
                assert(s[k] == x);
            }
            if s.contains(x) {
                let k = choose|k: int| 0 <= k < s.len() && s[k] == x;
                if k < d.len() {
                    assert(d[k] == x);
                }
            }
            assert(s[s.len() - 1] == s.last());
        }
        if p(s.last()) {
            assert(f == fd.push(s.last()));
            if fd.contains(x) {
                let k = choose|k: int| 0 <= k < fd.len() && fd[k] == x;
                assert(f[k] == x);
            }
            assert(f[fd.len() as int] == s.last());
            if f.contains(x) {
                let k = choose|k: int| 0 <= k < f.len() && f[k] == x;
                if k < fd.len() {
                    assert(fd[k] == x);
                }
            }
        }
    }
}

/// A notification is only for a favorite, and only for one that was known not to
/// have failed: one that stays red, and one not seen before, is none.
pub proof fn failures_are_edges(
    before: Map<Seq<char>, DashboardPipelineView>,
    after: Map<Seq<char>, DashboardPipelineView>,
    favorites: Set<Seq<char>>,
    name: Seq<char>,
)
    requires
        favorites.finite(),
    ensures
        failures(before, after, favorites).contains(name) <==> favorites.contains(name)
            && newly_failed(before, after, name),
{
    lemma_ordered_finite(favorites);
    lemma_filter_members(
        ordered(favorites),
        |n: Seq<char>| newly_failed(before, after, n),
        name,
    );
    assert(ordered(favorites).to_set().contains(name) == ordered(favorites).contains(name));
}

/// A snapshot over itself gives no failures.
pub proof fn an_unchanged_dashboard_is_no_news(
    info: Map<Seq<char>, DashboardPipelineView>,
    favorites: Set<Seq<char>>,
)
    ensures
        failures(info, info, favorites) == Seq::<Seq<char>>::empty(),
{
    let p = |n: Seq<char>| newly_failed(info, info, n);
    assert forall|n: Seq<char>| !#[trigger] p(n) by {}
    lemma_filter_none(ordered(favorites), p);
}

proof fn lemma_filter_none(s: Seq<Seq<char>>, p: spec_fn(Seq<char>) -> bool)
    requires
        forall|n: Seq<char>| !#[trigger] p(n),
    ensures
        s.filter(p) == Seq::<Seq<char>>::empty(),
    decreases s.len(),
{
    reveal(Seq::filter);
    if s.len() > 0 {
        lemma_filter_none(s.drop_last(), p);
    } else {
        assert(s.filter(p) =~= Seq::empty());
    }
}

} // verus!
