//! Tracing a commit through the runs that triggered a run.

use vstd::prelude::*;
use vstd::string::*;

use crate::dup::Dup;
use crate::model::{
    upstream_deps, GitRef, GitRefView, PipelineInstance, PipelineInstanceView,
};
use crate::text;

verus! {

/// A chain can be long, and each hop is a request.
pub const MAX_HOPS: usize = 4;

/// A walk over upstream runs until one with Git materials is found.
#[derive(Debug)]
pub struct Trace {
    /// Runs still to look at; the last one is next.
    pub queue: Vec<(String, i64)>,
    /// Runs looked at.
    pub seen: Vec<(String, i64)>,
    /// Turns taken so far.
    pub hops: usize,
    pub found: Vec<GitRef>,
}

#[verifier::ext_equal]
pub struct TraceView {
    pub queue: Seq<(Seq<char>, i64)>,
    pub seen: Seq<(Seq<char>, i64)>,
    pub hops: usize,
    pub found: Seq<GitRefView>,
}

impl DeepView for Trace {
    type V = TraceView;

    open spec fn deep_view(&self) -> TraceView {
        TraceView {
            queue: self.queue.deep_view(),
            seen: self.seen.deep_view(),
            hops: self.hops,
            found: self.found.deep_view(),
        }
    }
}


/// References as they are found through an upstream run.
pub open spec fn refs_via(refs: Seq<GitRefView>, name: Seq<char>, counter: i64) -> Seq<GitRefView> {
    Seq::new(refs.len(), |i: int| GitRefView { via: Some((name, counter)), ..refs[i] })
}

impl TraceView {
    /// The next run to look at, where there is one. A run that was looked at
    /// before is passed over, and that counts as a turn too.
    pub open spec fn advanced(self) -> (TraceView, Option<(Seq<char>, i64)>)
        decreases MAX_HOPS - self.hops,
    {
        if self.hops >= MAX_HOPS || self.found.len() > 0 || self.queue.len() == 0 {
            (self, None)
        } else {
            let next = self.queue.last();
            let rest = TraceView {
                queue: self.queue.drop_last(),
                hops: (self.hops + 1) as usize,
                ..self
            };
            if self.seen.contains(next) {
                rest.advanced()
            } else {
                (TraceView { seen: self.seen.push(next), ..rest }, Some(next))
            }
        }
    }

    /// What the run that was asked for gives: its references, or else the runs
    /// that triggered it. One that could not be fetched gives nothing.
    pub open spec fn fed(
        self,
        name: Seq<char>,
        counter: i64,
        inst: Option<PipelineInstanceView>,
    ) -> TraceView {
        match inst {
            Some(run) => if run.refs().len() > 0 {
                TraceView { found: refs_via(run.refs(), name, counter), ..self }
            } else {
                TraceView { queue: self.queue + run.upstreams(), ..self }
            },
            None => self,
        }
    }
}

fn same_run(a: &(String, i64), b: &(String, i64)) -> (r: bool)
    ensures
        r == (a.deep_view() == b.deep_view()),
{
    a.1 == b.1 && text::same(a.0.as_str(), b.0.as_str())
}

fn holds(runs: &Vec<(String, i64)>, run: &(String, i64)) -> (r: bool)
    ensures
        r == runs.deep_view().contains(run.deep_view()),
{
    let ghost all = runs.deep_view();
    let mut i: usize = 0;
    while i < runs.len()
        invariant
            all == runs.deep_view(),
            i <= runs@.len(),
            forall|k: int| 0 <= k < i ==> #[trigger] all[k] != run.deep_view(),
        decreases runs@.len() - i,
    {
        assert(all[i as int] == runs@[i as int].deep_view());
        if same_run(&runs[i], run) {
            return true;
        }
        i = i + 1;
    }
    false
}

impl Trace {
    pub fn new(deps: Vec<(String, i64)>) -> (r: Trace)
        ensures
            r.deep_view() == (TraceView {
                queue: deps.deep_view(),
                seen: Seq::empty(),
                hops: 0,
                found: Seq::empty(),
            }),
    {
        let r = Trace { queue: deps, seen: Vec::new(), hops: 0, found: Vec::new() };
        assert(r.seen.deep_view() =~= Seq::<(Seq<char>, i64)>::empty());
        assert(r.found.deep_view() =~= Seq::<GitRefView>::empty());
        r
    }

    /// The next run to fetch; none where the walk is over.
    pub fn next(&mut self) -> (r: Option<(String, i64)>)
        ensures
            (final(self).deep_view(), r.deep_view()) == old(self).deep_view().advanced(),
    {
        let ghost start = self.deep_view();
        loop
            invariant
                start == old(self).deep_view(),
                self.deep_view().advanced() == start.advanced(),
            decreases MAX_HOPS - self.hops,
        {
            assert(self.deep_view().found.len() == self.found@.len());
            assert(self.deep_view().queue.len() == self.queue@.len());
            if self.hops >= MAX_HOPS || self.found.len() > 0 || self.queue.len() == 0 {
                return None;
            }
            let ghost q = self.deep_view().queue;
            let run = self.queue.pop().unwrap();
            assert(run.deep_view() == q.last());
            assert(self.queue.deep_view() =~= q.drop_last());
            self.hops = self.hops + 1;
            if !holds(&self.seen, &run) {
                let ghost s = self.deep_view().seen;
                self.seen.push(run.dup());
                assert(self.seen.deep_view() =~= s.push(run.deep_view()));
                return Some(run);
            }
        }
    }

    /// Takes in the run that `next` named.
    pub fn feed(&mut self, name: &str, counter: i64, inst: Option<&PipelineInstance>)
        ensures
            final(self).deep_view() == old(self).deep_view().fed(
                name@,
                counter,
                inst.deep_view(),
            ),
    {
        let run = match inst {
            Some(i) => i,
            None => {
                return;
            },
        };
        let mut refs = run.git_refs();
        let ghost rv = refs.deep_view();
        assert(rv.len() == refs@.len());
        if refs.len() > 0 {
            let mut out: Vec<GitRef> = Vec::new();
            let mut i: usize = 0;
            while i < refs.len()
                invariant
                    rv == refs.deep_view(),
                    i <= refs@.len(),
                    out@.len() == i,
                    forall|k: int|
                        0 <= k < i ==> (#[trigger] out@[k]).deep_view() == (GitRefView {
                            via: Some((name@, counter)),
                            ..rv[k]
                        }),
                decreases refs@.len() - i,
            {
                assert(rv[i as int] == refs@[i as int].deep_view());
                let mut g = refs[i].dup();
                g.via = Some((text::owned(name), counter));
                out.push(g);
                i = i + 1;
            }
            assert(out.deep_view() =~= refs_via(rv, name@, counter));
            self.found = out;
        } else {
            let mut more = upstream_deps(run);
            let ghost a = self.queue.deep_view();
            let ghost b = more.deep_view();
            self.queue.append(&mut more);
            assert(self.queue.deep_view() =~= a + b);
        }
    }
}

// ---- laws ----------------------------------------------------------------

/// A step asks for at most one run, never for one that was asked for before, and
/// uses up at least one of the turns.
pub proof fn each_step_asks_for_a_new_run(t: TraceView)
    ensures
        t.hops <= t.advanced().0.hops,
        match t.advanced().1 {
            Some(run) => {
                &&& !t.seen.contains(run)
                &&& t.advanced().0.seen == t.seen.push(run)
                &&& t.hops < t.advanced().0.hops <= MAX_HOPS
            },
            None => t.advanced().0.seen == t.seen,
        },
    decreases MAX_HOPS - t.hops,
{
    if t.hops < MAX_HOPS && t.found.len() == 0 && t.queue.len() > 0 && t.seen.contains(
        t.queue.last(),
    ) {
        each_step_asks_for_a_new_run(
            TraceView { queue: t.queue.drop_last(), hops: (t.hops + 1) as usize, ..t },
        );
    }
}

/// No more than one run per turn has been asked for: a walk that keeps this asks
/// for at most `MAX_HOPS`.
pub open spec fn within_turns(t: TraceView) -> bool {
    t.seen.len() <= t.hops <= MAX_HOPS && t.seen.no_duplicates()
}

/// A step keeps the count of requests within the turns, and no run is asked for
/// twice.
pub proof fn walks_are_bounded_and_free_of_cycles(t: TraceView)
    requires
        within_turns(t),
    ensures
        within_turns(t.advanced().0),
{
    each_step_asks_for_a_new_run(t);
    lemma_hops_bounded(t);
    if t.advanced().1 is Some {
        let run = t.advanced().1->Some_0;
        let s = t.seen.push(run);
        assert forall|i: int, j: int| 0 <= i < s.len() && 0 <= j < s.len() && i != j implies s[i]
            != s[j] by {
            if i == t.seen.len() {
                assert(t.seen.contains(s[j]));
            } else if j == t.seen.len() {
                assert(t.seen.contains(s[i]));
            }
        }
    }
}

proof fn lemma_hops_bounded(t: TraceView)
    requires
        t.hops <= MAX_HOPS,
    ensures
        t.hops <= t.advanced().0.hops <= MAX_HOPS,
    decreases MAX_HOPS - t.hops,
{
    if t.hops < MAX_HOPS && t.found.len() == 0 && t.queue.len() > 0 && t.seen.contains(
        t.queue.last(),
    ) {
        lemma_hops_bounded(
            TraceView { queue: t.queue.drop_last(), hops: (t.hops + 1) as usize, ..t },
        );
    }
}

/// Every reference that a walk finds is labelled with the run that it was found
/// through.
pub proof fn found_references_are_labelled(
    t: TraceView,
    name: Seq<char>,
    counter: i64,
    run: PipelineInstanceView,
    i: int,
)
    requires
        run.refs().len() > 0,
        0 <= i < t.fed(name, counter, Some(run)).found.len(),
    ensures
        t.fed(name, counter, Some(run)).found[i].via == Some((name, counter)),
{
}

} // verus!
