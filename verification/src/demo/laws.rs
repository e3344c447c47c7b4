//! What holds of the demo's data as a whole.

use vstd::prelude::*;
use vstd::string::*;

use crate::demo::{
    author, commit_message, commit_sha, entry_text, first_counter, fixture_list, group_list,
    group_shown, group_texts, history_runs, lines_from, log_lines, member_texts, name_seed,
    name_shown, newest_counter, newest_status, page_len, pipeline_text, pipeline_texts, run_entry,
    run_text, step_line, FixtureView, VIEWS,
};
use crate::model::rollup;
use crate::text;

verus! {

/// Every pipeline of the demo is in one of its groups.
pub proof fn every_fixture_has_its_group(i: int)
    requires
        0 <= i < fixture_list().len(),
    ensures
        group_list().contains(fixture_list()[i].group),
{
    let gs = group_list();
    assert(gs[0] == "frontend"@ && gs[1] == "backend"@ && gs[2] == "infrastructure"@ && gs[3]
        == "mobile"@);
}

/// Reading on from line `m` of what follows line `n` is reading on from line
/// `n + m`: a tail can be fetched in steps.
pub proof fn tails_compose(n: int, m: int)
    requires
        0 <= n,
        0 <= m,
        n + m <= log_lines().len(),
    ensures
        log_lines().skip(n).skip(m) == log_lines().skip(n + m),
{
    assert(log_lines().skip(n).skip(m) =~= log_lines().skip(n + m));
}

// ---- the log -------------------------------------------------------------

/// A text with no control characters.
pub open spec fn printable(s: Seq<char>) -> bool {
    forall|i: int| 0 <= i < s.len() ==> #[trigger] s[i] >= ' '
}

proof fn lemma_printable_is_one_line(s: Seq<char>)
    requires
        printable(s),
    ensures
        text::one_line(s),
{
    if s.len() > 0 {
        assert(s[s.len() - 1] >= ' ');
    }
}

proof fn lemma_dec_printable(n: nat)
    ensures
        printable(text::dec(n)),
        text::dec(n).len() > 0,
    decreases n,
{
    if n >= 10 {
        lemma_dec_printable(n / 10);
    }
}

proof fn lemma_two_digits_printable(n: nat)
    ensures
        printable(text::two_digits(n)),
{
    reveal_strlit("0");
    lemma_dec_printable(n);
}

proof fn lemma_step_printable(i: int)
    requires
        0 <= i < 38,
    ensures
        printable(step_line(i)),
        step_line(i).len() > 0,
{
    reveal_strlit("##|10:");
    reveal_strlit(":");
    reveal_strlit(".000 [go] Task: step ");
    reveal_strlit(": compiling module ");
    reveal_strlit("... ok (");
    reveal_strlit("ms)");
    lemma_two_digits_printable((i % 60) as nat);
    lemma_two_digits_printable(((i * 7) % 60) as nat);
    lemma_dec_printable(i as nat);
    lemma_dec_printable((i * 37) as nat);
    assert(printable("##|10:"@));
    assert(printable(":"@));
    assert(printable(".000 [go] Task: step "@));
    assert(printable(": compiling module "@));
    assert(printable("... ok ("@));
    assert(printable("ms)"@));
}

proof fn lemma_tail_printable()
    ensures
        printable("&2|10:38:02.100 WARN  deprecated flag --legacy-resolver will be removed"@),
        printable("##|10:38:44.000 [go] Running 214 tests across 12 suites"@),
        printable("##|10:39:01.000 café-service: 完了 (unicode is fine here)"@),
        printable("!!|10:39:12.480 ERROR failed to publish artifact: connection reset"@),
        printable("##|10:39:13.000 [go] Retrying upload (attempt 2 of 3)... ok"@),
        printable("##|10:39:58.900 [go] All 214 tests passed."@),
        printable("##|10:40:00.120 [go] Uploading artifacts... done"@),
        printable("##|10:40:01.000 [go] Job completed: build/1/compile (exit code: 0)"@),
        "##|10:40:01.000 [go] Job completed: build/1/compile (exit code: 0)"@.len() > 0,
{
    reveal_strlit("&2|10:38:02.100 WARN  deprecated flag --legacy-resolver will be removed");
    reveal_strlit("##|10:38:44.000 [go] Running 214 tests across 12 suites");
    reveal_strlit("##|10:39:01.000 café-service: 完了 (unicode is fine here)");
    reveal_strlit("!!|10:39:12.480 ERROR failed to publish artifact: connection reset");
    reveal_strlit("##|10:39:13.000 [go] Retrying upload (attempt 2 of 3)... ok");
    reveal_strlit("##|10:39:58.900 [go] All 214 tests passed.");
    reveal_strlit("##|10:40:00.120 [go] Uploading artifacts... done");
    reveal_strlit("##|10:40:01.000 [go] Job completed: build/1/compile (exit code: 0)");
}

/// The lines of the log that is served from line `from` on are those that are
/// left of all of them; from the end on it is empty.
pub proof fn tails_are_the_lines_that_are_left(from: int)
    requires
        0 <= from,
    ensures
        text::lines_of(text::joined(lines_from(from), "\n"@)) == lines_from(from),
        lines_from(0) == log_lines(),
        log_lines().len() == 46,
        from <= 46 ==> lines_from(from) == log_lines().skip(from),
        from >= 46 ==> text::joined(lines_from(from), "\n"@).len() == 0,
{
    let all = log_lines();
    let s = lines_from(from);
    lemma_tail_printable();
    assert(log_lines().skip(0) =~= log_lines());
    assert(log_lines().skip(46) =~= Seq::empty());
    assert forall|i: int| 0 <= i < all.len() implies text::one_line(#[trigger] all[i]) by {
        if i < 38 {
            assert(all[i] == step_line(i));
            lemma_step_printable(i);
        } else {
            assert(printable(all[i]));
        }
        lemma_printable_is_one_line(all[i]);
    }
    if from < 46 {
        assert forall|i: int| 0 <= i < s.len() implies text::one_line(#[trigger] s[i]) by {
            assert(s[i] == all[from + i]);
        }
        assert(s.last() == all[45]);
    }
    text::joined_lines_come_apart(s);
}

// ---- history and dashboard -----------------------------------------------

proof fn lemma_names_differ(i: int, j: int)
    requires
        0 <= i < j < fixture_list().len(),
    ensures
        fixture_list()[i].name != fixture_list()[j].name,
{
    reveal_strlit("web-app-build");
    reveal_strlit("web-app-deploy-staging");
    reveal_strlit("web-app-deploy-prod");
    reveal_strlit("design-system-publish");
    reveal_strlit("api-build-test");
    reveal_strlit("api-deploy-staging");
    reveal_strlit("api-deploy-prod");
    reveal_strlit("worker-service-build");
    reveal_strlit("search-service-build");
    reveal_strlit("terraform-plan");
    reveal_strlit("terraform-apply");
    reveal_strlit("docker-base-images");
    reveal_strlit("ios-app-build");
    reveal_strlit("android-app-build");
    let a = fixture_list()[i].name;
    let b = fixture_list()[j].name;
    assert(a.len() != b.len() || a[0] != b[0]);
}

proof fn lemma_newest_status(fs: Seq<FixtureView>, i: int)
    requires
        0 <= i < fs.len(),
        forall|j: int| 0 <= j < i ==> (#[trigger] fs[j]).name != fs[i].name,
    ensures
        newest_status(fs, fs[i].name) == fs[i].status,
    decreases i,
{
    if i > 0 {
        let t = fs.skip(1);
        assert(fs[0].name != fs[i].name);
        assert forall|j: int| 0 <= j < i - 1 implies (#[trigger] t[j]).name != t[i - 1].name by {
            assert(t[j] == fs[j + 1]);
        }
        lemma_newest_status(t, i - 1);
    }
}

/// The history of a pipeline of the demo agrees with the dashboard. Its first page
/// holds eight runs with counters that go down by one. The first has the counter,
/// the label and the status that the dashboard shows of the latest run, and its
/// two stages roll up to the same status as the one stage there.
pub proof fn history_agrees_with_the_dashboard(i: int, now: int)
    requires
        0 <= i < fixture_list().len(),
    ensures
        ({
            let f = fixture_list()[i];
            let label = commit_sha(name_seed(f.name) % 8);
            let counter = newest_counter(f.name);
            &&& pipeline_text(f) == entry_text(
                f.name,
                f.paused,
                label,
                counter,
                author(name_seed(f.name) % 4),
                f.status,
            )
            &&& first_counter(f.name, None) == counter
            &&& page_len(counter) == 8
            &&& history_runs(f.name, None, now).len() == 8
            &&& forall|k: int|
                0 <= k < 8 ==> #[trigger] history_runs(f.name, None, now)[k] == run_text(
                    f.name,
                    counter - k,
                    k,
                    now,
                )
            &&& history_runs(f.name, None, now)[0] == run_entry(
                f.name,
                counter,
                label,
                author(name_seed(f.name) % 4),
                commit_message(name_seed(f.name) % 8),
                now,
                f.status,
            )
            &&& rollup(seq![Some(f.status), Some(f.status)]) == f.status
            &&& rollup(seq![Some(f.status)]) == f.status
        }),
{
    let f = fixture_list()[i];
    assert forall|j: int| 0 <= j < i implies (#[trigger] fixture_list()[j]).name != f.name by {
        lemma_names_differ(j, i);
    }
    lemma_newest_status(fixture_list(), i);
    lemma_seed(f.name);
    let s = name_seed(f.name);
    assert((s % 8 + 0) % 8 == s % 8);
    assert((s % 8 + 0) % 4 == s % 4);
    lemma_known_status(i);
    lemma_rollup_of_one(f.status);
}

proof fn lemma_seed(name: Seq<char>)
    ensures
        0 <= name_seed(name) <= usize::MAX,
{
}

/// A status that a stage of the demo has.
pub open spec fn demo_status(s: Seq<char>) -> bool {
    s == "Passed"@ || s == "Failed"@ || s == "Building"@ || s == "Cancelled"@
}

proof fn lemma_known_status(i: int)
    requires
        0 <= i < fixture_list().len(),
    ensures
        demo_status(fixture_list()[i].status),
{
}

proof fn lemma_rollup_of_one(s: Seq<char>)
    requires
        demo_status(s),
    ensures
        rollup(seq![Some(s), Some(s)]) == s,
        rollup(seq![Some(s)]) == s,
{
    reveal_strlit("Passed");
    reveal_strlit("Failed");
    reveal_strlit("Building");
    reveal_strlit("Scheduled");
    reveal_strlit("Cancelled");
    let one = seq![Some(s)];
    let two = seq![Some(s), Some(s)];
    assert("Passed"@[0] == 'P' && "Failed"@[0] == 'F' && "Building"@[0] == 'B' && "Cancelled"@[0]
        == 'C' && "Scheduled"@[0] == 'S');
    assert(one[0] == Some(s));
    assert(two[0] == Some(s) && two[1] == Some(s));
    assert(one.contains(Some(s)) && two.contains(Some(s)));
}

// ---- views ---------------------------------------------------------------

/// Whether a view shows a pipeline of the demo.
pub open spec fn is_shown(view: Option<Seq<char>>, f: FixtureView) -> bool {
    group_shown(view, f.group) && name_shown(view, f.name)
}

/// The pipelines that a view shows.
pub open spec fn shown(fs: Seq<FixtureView>, view: Option<Seq<char>>) -> Seq<FixtureView>
    decreases fs.len(),
{
    if fs.len() == 0 {
        Seq::empty()
    } else {
        let before = shown(fs.drop_last(), view);
        if is_shown(view, fs.last()) {
            before.push(fs.last())
        } else {
            before
        }
    }
}

pub open spec fn names_of(fs: Seq<FixtureView>) -> Seq<Seq<char>> {
    fs.map_values(|f: FixtureView| f.name)
}

/// The pipelines of `group` that a view shows.
pub open spec fn members(fs: Seq<FixtureView>, view: Option<Seq<char>>, group: Seq<char>) -> Seq<
    FixtureView,
>
    decreases fs.len(),
{
    if fs.len() == 0 {
        Seq::empty()
    } else {
        let before = members(fs.drop_last(), view, group);
        if fs.last().group == group && name_shown(view, fs.last().name) {
            before.push(fs.last())
        } else {
            before
        }
    }
}

/// The groups that a view shows something of.
pub open spec fn groups_shown(gs: Seq<Seq<char>>, view: Option<Seq<char>>) -> Seq<Seq<char>>
    decreases gs.len(),
{
    if gs.len() == 0 {
        Seq::empty()
    } else {
        let before = groups_shown(gs.drop_last(), view);
        if group_shown(view, gs.last()) && members(fixture_list(), view, gs.last()).len() > 0 {
            before.push(gs.last())
        } else {
            before
        }
    }
}

/// The members of groups, one group after another.
pub open spec fn all_members(gs: Seq<Seq<char>>, view: Option<Seq<char>>) -> Seq<FixtureView>
    decreases gs.len(),
{
    if gs.len() == 0 {
        Seq::empty()
    } else {
        all_members(gs.drop_last(), view) + members(fixture_list(), view, gs.last())
    }
}

/// Names in quotes.
pub open spec fn quoted(names: Seq<Seq<char>>) -> Seq<Seq<char>> {
    names.map_values(|n: Seq<char>| "\""@ + n + "\""@)
}

/// A group of the dashboard.
pub open spec fn group_entry(group: Seq<char>, names: Seq<Seq<char>>) -> Seq<char> {
    "{\"name\": \""@ + group + "\", \"pipelines\": ["@ + text::joined(quoted(names), ", "@)
        + "]}"@
}

proof fn lemma_member_texts(fs: Seq<FixtureView>, view: Option<Seq<char>>, group: Seq<char>)
    ensures
        member_texts(fs, view, group) == quoted(names_of(members(fs, view, group))),
    decreases fs.len(),
{
    let ms = members(fs, view, group);
    if fs.len() > 0 {
        lemma_member_texts(fs.drop_last(), view, group);
    }
    assert(member_texts(fs, view, group) =~= quoted(names_of(ms)));
}

proof fn lemma_group_texts(gs: Seq<Seq<char>>, view: Option<Seq<char>>)
    ensures
        group_texts(gs, view) == groups_shown(gs, view).map_values(
            |g: Seq<char>| group_entry(g, names_of(members(fixture_list(), view, g))),
        ),
    decreases gs.len(),
{
    let f = |g: Seq<char>| group_entry(g, names_of(members(fixture_list(), view, g)));
    if gs.len() > 0 {
        lemma_group_texts(gs.drop_last(), view);
        lemma_member_texts(fixture_list(), view, gs.last());
    }
    assert(group_texts(gs, view) =~= groups_shown(gs, view).map_values(f));
}

proof fn lemma_pipeline_texts(fs: Seq<FixtureView>, view: Option<Seq<char>>)
    ensures
        pipeline_texts(fs, view) == shown(fs, view).map_values(|f: FixtureView| pipeline_text(f)),
    decreases fs.len(),
{
    let g = |f: FixtureView| pipeline_text(f);
    if fs.len() > 0 {
        lemma_pipeline_texts(fs.drop_last(), view);
    }
    assert(pipeline_texts(fs, view) =~= shown(fs, view).map_values(g));
}

proof fn lemma_shown_parts(a: Seq<FixtureView>, b: Seq<FixtureView>, view: Option<Seq<char>>)
    ensures
        shown(a + b, view) == shown(a, view) + shown(b, view),
    decreases b.len(),
{
    if b.len() == 0 {
        assert(a + b =~= a);
        assert(shown(a, view) + shown(b, view) =~= shown(a, view));
    } else {
        lemma_shown_parts(a, b.drop_last(), view);
        assert((a + b).drop_last() =~= a + b.drop_last());
        assert(shown(a + b, view) =~= shown(a, view) + shown(b, view));
    }
}

proof fn lemma_member_parts(
    a: Seq<FixtureView>,
    b: Seq<FixtureView>,
    view: Option<Seq<char>>,
    group: Seq<char>,
)
    ensures
        members(a + b, view, group) == members(a, view, group) + members(b, view, group),
    decreases b.len(),
{
    if b.len() == 0 {
        assert(a + b =~= a);
        assert(members(a, view, group) + members(b, view, group) =~= members(a, view, group));
    } else {
        lemma_member_parts(a, b.drop_last(), view, group);
        assert((a + b).drop_last() =~= a + b.drop_last());
        assert(members(a + b, view, group) =~= members(a, view, group) + members(b, view, group));
    }
}

proof fn lemma_one_group(fs: Seq<FixtureView>, view: Option<Seq<char>>, group: Seq<char>)
    requires
        forall|i: int| 0 <= i < fs.len() ==> (#[trigger] fs[i]).group == group,
    ensures
        shown(fs, view) == if group_shown(view, group) {
            members(fs, view, group)
        } else {
            Seq::empty()
        },
    decreases fs.len(),
{
    if fs.len() > 0 {
        assert(fs.last() == fs[fs.len() - 1]);
        lemma_one_group(fs.drop_last(), view, group);
    }
}

proof fn lemma_other_group(fs: Seq<FixtureView>, view: Option<Seq<char>>, group: Seq<char>)
    requires
        forall|i: int| 0 <= i < fs.len() ==> (#[trigger] fs[i]).group != group,
    ensures
        members(fs, view, group) == Seq::<FixtureView>::empty(),
    decreases fs.len(),
{
    if fs.len() > 0 {
        assert(fs.last() == fs[fs.len() - 1]);
        lemma_other_group(fs.drop_last(), view, group);
    }
}

proof fn lemma_every_one_shown(fs: Seq<FixtureView>, view: Option<Seq<char>>)
    requires
        forall|i: int| 0 <= i < fs.len() ==> is_shown(view, #[trigger] fs[i]),
    ensures
        shown(fs, view) == fs,
    decreases fs.len(),
{
    if fs.len() > 0 {
        assert(fs.last() == fs[fs.len() - 1]);
        lemma_every_one_shown(fs.drop_last(), view);
        assert(fs.drop_last().push(fs.last()) =~= fs);
    } else {
        assert(shown(fs, view) =~= fs);
    }
}

proof fn lemma_none_shown(fs: Seq<FixtureView>, view: Option<Seq<char>>)
    requires
        forall|i: int| 0 <= i < fs.len() ==> !is_shown(view, #[trigger] fs[i]),
    ensures
        shown(fs, view) == Seq::<FixtureView>::empty(),
    decreases fs.len(),
{
    if fs.len() > 0 {
        assert(fs.last() == fs[fs.len() - 1]);
        lemma_none_shown(fs.drop_last(), view);
    }
}

proof fn lemma_groups_differ()
    ensures
        "frontend"@.len() == 8,
        "backend"@.len() == 7,
        "infrastructure"@.len() == 14,
        "mobile"@.len() == 6,
{
    reveal_strlit("frontend");
    reveal_strlit("backend");
    reveal_strlit("infrastructure");
    reveal_strlit("mobile");
}

proof fn lemma_segment(view: Option<Seq<char>>, group: Seq<char>, a: int, b: int)
    requires
        0 <= a <= b <= 14,
        forall|i: int| 0 <= i < 14 ==> ((#[trigger] fixture_list()[i]).group == group) == (a <= i < b),
    ensures
        members(fixture_list(), view, group) == members(
            fixture_list().subrange(a, b),
            view,
            group,
        ),
        shown(fixture_list().subrange(a, b), view) == if group_shown(view, group) {
            members(fixture_list(), view, group)
        } else {
            Seq::empty()
        },
{
    let fs = fixture_list();
    let x = fs.subrange(0, a);
    let y = fs.subrange(a, b);
    let z = fs.subrange(b, 14);
    assert(fs =~= (x + y) + z);
    lemma_member_parts(x + y, z, view, group);
    lemma_member_parts(x, y, view, group);
    assert forall|i: int| 0 <= i < x.len() implies (#[trigger] x[i]).group != group by {
        assert(x[i] == fs[i]);
    }
    assert forall|i: int| 0 <= i < z.len() implies (#[trigger] z[i]).group != group by {
        assert(z[i] == fs[b + i]);
    }
    assert forall|i: int| 0 <= i < y.len() implies (#[trigger] y[i]).group == group by {
        assert(y[i] == fs[a + i]);
    }
    lemma_other_group(x, view, group);
    lemma_other_group(z, view, group);
    lemma_one_group(y, view, group);
    assert(members(fs, view, group) =~= members(y, view, group));
}

/// The members of the groups of `gs` that a view shows.
spec fn shown_members(gs: Seq<Seq<char>>, view: Option<Seq<char>>) -> Seq<FixtureView>
    decreases gs.len(),
{
    if gs.len() == 0 {
        Seq::empty()
    } else {
        shown_members(gs.drop_last(), view) + if group_shown(view, gs.last()) {
            members(fixture_list(), view, gs.last())
        } else {
            Seq::empty()
        }
    }
}

proof fn lemma_shown_members(gs: Seq<Seq<char>>, view: Option<Seq<char>>)
    ensures
        all_members(groups_shown(gs, view), view) == shown_members(gs, view),
    decreases gs.len(),
{
    if gs.len() > 0 {
        let d = groups_shown(gs.drop_last(), view);
        lemma_shown_members(gs.drop_last(), view);
        assert(d.push(gs.last()).drop_last() =~= d);
        assert(all_members(groups_shown(gs, view), view) =~= shown_members(gs, view));
    }
}

proof fn lemma_groups_listed(gs: Seq<Seq<char>>, view: Option<Seq<char>>)
    requires
        gs.no_duplicates(),
    ensures
        groups_shown(gs, view).no_duplicates(),
        forall|i: int|
            0 <= i < groups_shown(gs, view).len() ==> {
                let g = #[trigger] groups_shown(gs, view)[i];
                gs.contains(g) && members(fixture_list(), view, g).len() > 0
            },
    decreases gs.len(),
{
    if gs.len() > 0 {
        let e = gs.drop_last();
        let d = groups_shown(e, view);
        assert forall|i: int, j: int| 0 <= i < e.len() && 0 <= j < e.len() && i != j implies e[i]
            != e[j] by {
            assert(gs[i] != gs[j]);
        }
        lemma_groups_listed(e, view);
        let r = groups_shown(gs, view);
        assert forall|i: int| 0 <= i < r.len() implies {
            let g = #[trigger] r[i];
            gs.contains(g) && members(fixture_list(), view, g).len() > 0
        } by {
            if i < d.len() {
                assert(r[i] == d[i]);
                assert(e.contains(d[i]));
                let m = choose|m: int| 0 <= m < e.len() && e[m] == d[i];
                assert(gs[m] == d[i]);
            } else {
                assert(r[i] == gs[gs.len() - 1]);
            }
        }
        assert forall|i: int, j: int| 0 <= i < r.len() && 0 <= j < r.len() && i != j implies r[i]
            != r[j] by {
            if i < d.len() && j < d.len() {
                assert(d[i] != d[j]);
            } else {
                let low = if i < j {
                    i
                } else {
                    j
                };
                assert(r[low] == d[low]);
                assert(e.contains(d[low]));
                let m = choose|m: int| 0 <= m < e.len() && e[m] == d[low];
                assert(gs[m] == d[low]);
                assert(gs[m] != gs[gs.len() - 1]);
            }
        }
    }
}

proof fn lemma_one_group_more(gs: Seq<Seq<char>>, g: Seq<char>, view: Option<Seq<char>>)
    ensures
        shown_members(gs.push(g), view) == shown_members(gs, view) + if group_shown(view, g) {
            members(fixture_list(), view, g)
        } else {
            Seq::empty()
        },
{
    assert(gs.push(g).drop_last() =~= gs);
}

proof fn lemma_groups_together(view: Option<Seq<char>>)
    ensures
        shown_members(group_list(), view) == shown(fixture_list(), view),
{
    let fs = fixture_list();
    let a = fs.subrange(0, 4);
    let b = fs.subrange(4, 9);
    let c = fs.subrange(9, 12);
    let d = fs.subrange(12, 14);
    lemma_four_segments(view);
    assert(fs =~= a + b + c + d);
    lemma_shown_parts(a, b, view);
    lemma_shown_parts(a + b, c, view);
    lemma_shown_parts(a + b + c, d, view);
    let g0 = Seq::<Seq<char>>::empty();
    let g1 = g0.push("frontend"@);
    let g2 = g1.push("backend"@);
    let g3 = g2.push("infrastructure"@);
    assert(group_list() =~= g3.push("mobile"@));
    lemma_one_group_more(g0, "frontend"@, view);
    lemma_one_group_more(g1, "backend"@, view);
    lemma_one_group_more(g2, "infrastructure"@, view);
    lemma_one_group_more(g3, "mobile"@, view);
    assert(shown_members(g0, view) + shown(a, view) =~= shown(a, view));
}

proof fn lemma_four_segments(view: Option<Seq<char>>)
    ensures
        shown(fixture_list().subrange(0, 4), view) == if group_shown(view, "frontend"@) {
            members(fixture_list(), view, "frontend"@)
        } else {
            Seq::empty()
        },
        shown(fixture_list().subrange(4, 9), view) == if group_shown(view, "backend"@) {
            members(fixture_list(), view, "backend"@)
        } else {
            Seq::empty()
        },
        shown(fixture_list().subrange(9, 12), view) == if group_shown(view, "infrastructure"@) {
            members(fixture_list(), view, "infrastructure"@)
        } else {
            Seq::empty()
        },
        shown(fixture_list().subrange(12, 14), view) == if group_shown(view, "mobile"@) {
            members(fixture_list(), view, "mobile"@)
        } else {
            Seq::empty()
        },
{
    lemma_groups_differ();
    lemma_segment(view, "frontend"@, 0, 4);
    lemma_segment(view, "backend"@, 4, 9);
    lemma_segment(view, "infrastructure"@, 9, 12);
    lemma_segment(view, "mobile"@, 12, 14);
}

/// What a view's dashboard is made of: one entry for each pipeline that is shown,
/// and one for each group of which something is shown. The members of the groups,
/// one group after another, are the pipelines that are shown, in order. No group
/// is empty or listed twice.
pub proof fn groups_hold_what_is_shown(view: Option<Seq<char>>)
    ensures
        pipeline_texts(fixture_list(), view) == shown(fixture_list(), view).map_values(
            |f: FixtureView| pipeline_text(f),
        ),
        group_texts(group_list(), view) == groups_shown(group_list(), view).map_values(
            |g: Seq<char>| group_entry(g, names_of(members(fixture_list(), view, g))),
        ),
        all_members(groups_shown(group_list(), view), view) == shown(fixture_list(), view),
        groups_shown(group_list(), view).no_duplicates(),
        forall|i: int|
            0 <= i < groups_shown(group_list(), view).len() ==> members(
                fixture_list(),
                view,
                #[trigger] groups_shown(group_list(), view)[i],
            ).len() > 0,
{
    let fs = fixture_list();
    let gs = group_list();
    lemma_pipeline_texts(fs, view);
    lemma_group_texts(gs, view);
    lemma_groups_differ();
    assert(gs.no_duplicates());
    lemma_groups_listed(gs, view);
    lemma_shown_members(gs, view);
    lemma_groups_together(view);
}

proof fn lemma_no_prod(s: Seq<char>)
    requires
        forall|i: int| 0 <= i < s.len() - 1 ==> !(#[trigger] s[i] == 'p' && s[i + 1] == 'r'),
    ensures
        !text::has(s, "prod"@),
{
    reveal_strlit("prod");
    assert forall|i: int| !#[trigger] text::occurs_at(s, "prod"@, i) by {
        if text::occurs_at(s, "prod"@, i) {
            let t = s.subrange(i, i + 4);
            assert(t[0] == 'p' && t[1] == 'r');
            assert(s[i] == 'p' && s[i + 1] == 'r');
        }
    }
}

proof fn lemma_names_without_prod()
    ensures
        !text::has("web-app-build"@, "prod"@),
        !text::has("web-app-deploy-staging"@, "prod"@),
        !text::has("design-system-publish"@, "prod"@),
        !text::has("api-build-test"@, "prod"@),
        !text::has("api-deploy-staging"@, "prod"@),
        !text::has("worker-service-build"@, "prod"@),
        !text::has("search-service-build"@, "prod"@),
        !text::has("terraform-plan"@, "prod"@),
        !text::has("terraform-apply"@, "prod"@),
        !text::has("docker-base-images"@, "prod"@),
        !text::has("ios-app-build"@, "prod"@),
        !text::has("android-app-build"@, "prod"@),
{
    reveal_strlit("web-app-build");
    lemma_no_prod("web-app-build"@);
    reveal_strlit("web-app-deploy-staging");
    lemma_no_prod("web-app-deploy-staging"@);
    reveal_strlit("design-system-publish");
    lemma_no_prod("design-system-publish"@);
    reveal_strlit("api-build-test");
    lemma_no_prod("api-build-test"@);
    reveal_strlit("api-deploy-staging");
    lemma_no_prod("api-deploy-staging"@);
    reveal_strlit("worker-service-build");
    lemma_no_prod("worker-service-build"@);
    reveal_strlit("search-service-build");
    lemma_no_prod("search-service-build"@);
    reveal_strlit("terraform-plan");
    lemma_no_prod("terraform-plan"@);
    reveal_strlit("terraform-apply");
    lemma_no_prod("terraform-apply"@);
    reveal_strlit("docker-base-images");
    lemma_no_prod("docker-base-images"@);
    reveal_strlit("ios-app-build");
    lemma_no_prod("ios-app-build"@);
    reveal_strlit("android-app-build");
    lemma_no_prod("android-app-build"@);
}

proof fn lemma_names_with_prod()
    ensures
        text::has("web-app-deploy-prod"@, "prod"@),
        text::has("api-deploy-prod"@, "prod"@),
{
    reveal_strlit("prod");
    reveal_strlit("web-app-deploy-prod");
    reveal_strlit("api-deploy-prod");
    assert("web-app-deploy-prod"@.subrange(15, 19) =~= "prod"@);
    assert(text::occurs_at("web-app-deploy-prod"@, "prod"@, 15));
    assert("api-deploy-prod"@.subrange(11, 15) =~= "prod"@);
    assert(text::occurs_at("api-deploy-prod"@, "prod"@, 11));
}

/// The names of the views that the demo serves, the default one left out.
pub open spec fn is_demo_view(view: Seq<char>) -> bool {
    view == "frontend only"@ || view == "prod only"@
}

/// The pipelines that a view of the demo names.
pub open spec fn view_names(view: Seq<char>) -> Seq<Seq<char>> {
    if view == "frontend only"@ {
        seq![
            "web-app-build"@,
            "web-app-deploy-staging"@,
            "web-app-deploy-prod"@,
            "design-system-publish"@,
        ]
    } else {
        seq!["web-app-deploy-prod"@, "api-deploy-prod"@]
    }
}

proof fn lemma_views_differ()
    ensures
        "frontend only"@ != "prod only"@,
{
    reveal_strlit("frontend only");
    reveal_strlit("prod only");
    assert("frontend only"@.len() == 13 && "prod only"@.len() == 9);
}

proof fn lemma_frontend_view()
    ensures
        names_of(shown(fixture_list(), Some("frontend only"@))) == view_names("frontend only"@),
{
    let fs = fixture_list();
    let view = Some("frontend only"@);
    lemma_views_differ();
    lemma_groups_differ();
    let a = fs.subrange(0, 4);
    let b = fs.subrange(4, 14);
    assert(fs =~= a + b);
    lemma_shown_parts(a, b, view);
    assert forall|i: int| 0 <= i < a.len() implies is_shown(view, #[trigger] a[i]) by {
        assert(a[i] == fs[i]);
    }
    lemma_every_one_shown(a, view);
    assert forall|i: int| 0 <= i < b.len() implies !is_shown(view, #[trigger] b[i]) by {
        assert(b[i] == fs[4 + i]);
    }
    lemma_none_shown(b, view);
    assert(shown(fs, view) =~= a);
    assert(names_of(a) =~= view_names("frontend only"@));
}

proof fn lemma_prod_view()
    ensures
        names_of(shown(fixture_list(), Some("prod only"@))) == view_names("prod only"@),
{
    let fs = fixture_list();
    let view = Some("prod only"@);
    lemma_views_differ();
    lemma_names_without_prod();
    lemma_names_with_prod();
    let a = fs.subrange(0, 2);
    let b = fs.subrange(2, 3);
    let c = fs.subrange(3, 6);
    let d = fs.subrange(6, 7);
    let e = fs.subrange(7, 14);
    assert(fs =~= a + b + c + d + e);
    lemma_shown_parts(a, b, view);
    lemma_shown_parts(a + b, c, view);
    lemma_shown_parts(a + b + c, d, view);
    lemma_shown_parts(a + b + c + d, e, view);
    assert forall|i: int| 0 <= i < a.len() implies !is_shown(view, #[trigger] a[i]) by {
        assert(a[i] == fs[i]);
    }
    assert forall|i: int| 0 <= i < c.len() implies !is_shown(view, #[trigger] c[i]) by {
        assert(c[i] == fs[3 + i]);
    }
    assert forall|i: int| 0 <= i < e.len() implies !is_shown(view, #[trigger] e[i]) by {
        assert(e[i] == fs[7 + i]);
    }
    lemma_none_shown(a, view);
    lemma_none_shown(c, view);
    lemma_none_shown(e, view);
    lemma_every_one_shown(b, view);
    lemma_every_one_shown(d, view);
    assert(shown(fs, view) =~= seq![fs[2], fs[6]]);
    assert(names_of(seq![fs[2], fs[6]]) =~= view_names("prod only"@));
}

/// A view of the demo shows exactly the pipelines that it names, in order; without
/// a view, or with one of another name, all of them are shown.
pub proof fn views_show_what_they_name(view: Option<Seq<char>>)
    ensures
        if view is Some && is_demo_view(view->0) {
            names_of(shown(fixture_list(), view)) == view_names(view->0)
        } else {
            shown(fixture_list(), view) == fixture_list()
        },
{
    lemma_frontend_view();
    lemma_prod_view();
    if !(view is Some && is_demo_view(view->0)) {
        lemma_every_one_shown(fixture_list(), view);
    }
}

proof fn lemma_next_group(gs: Seq<Seq<char>>, g: Seq<char>, view: Option<Seq<char>>)
    ensures
        groups_shown(gs.push(g), view) == if group_shown(view, g) && members(
            fixture_list(),
            view,
            g,
        ).len() > 0 {
            groups_shown(gs, view).push(g)
        } else {
            groups_shown(gs, view)
        },
{
    assert(gs.push(g).drop_last() =~= gs);
}

proof fn lemma_groups_in_turn(view: Option<Seq<char>>)
    ensures
        ({
            let kept = |g: Seq<char>|
                group_shown(view, g) && members(fixture_list(), view, g).len() > 0;
            let one = |g: Seq<char>|
                if kept(g) {
                    seq![g]
                } else {
                    Seq::empty()
                };
            groups_shown(group_list(), view) =~= one("frontend"@) + one("backend"@) + one(
                "infrastructure"@,
            ) + one("mobile"@)
        }),
{
    let g0 = Seq::<Seq<char>>::empty();
    let g1 = g0.push("frontend"@);
    let g2 = g1.push("backend"@);
    let g3 = g2.push("infrastructure"@);
    assert(group_list() =~= g3.push("mobile"@));
    lemma_next_group(g0, "frontend"@, view);
    lemma_next_group(g1, "backend"@, view);
    lemma_next_group(g2, "infrastructure"@, view);
    lemma_next_group(g3, "mobile"@, view);
}

/// The view of the frontend shows its group alone, and without a view all four
/// groups are shown.
pub proof fn views_show_whole_groups()
    ensures
        groups_shown(group_list(), Some("frontend only"@)) == seq!["frontend"@],
        groups_shown(group_list(), None) == group_list(),
{
    let fs = fixture_list();
    let front = Some("frontend only"@);
    lemma_views_differ();
    lemma_groups_differ();
    lemma_groups_in_turn(front);
    lemma_groups_in_turn(None);
    lemma_four_segments(front);
    lemma_four_segments(None);
    lemma_every_one_shown(fs.subrange(0, 4), front);
    lemma_every_one_shown(fs.subrange(0, 4), None);
    lemma_every_one_shown(fs.subrange(4, 9), None);
    lemma_every_one_shown(fs.subrange(9, 12), None);
    lemma_every_one_shown(fs.subrange(12, 14), None);
    assert(groups_shown(group_list(), front) =~= seq!["frontend"@]);
    assert(groups_shown(group_list(), None) =~= group_list());
}

/// A view that lists pipelines.
pub open spec fn view_entry(view: Seq<char>, names: Seq<Seq<char>>) -> Seq<char> {
    "{\"name\": \""@ + view
        + "\", \"type\": \"whitelist\", \"state\": [],\n       \"pipelines\": ["@
        + text::joined(quoted(names), ", "@) + "]}"@
}

proof fn lemma_joined_four(a: Seq<char>, b: Seq<char>, c: Seq<char>, d: Seq<char>, sep: Seq<char>)
    ensures
        text::joined(seq![a, b, c, d], sep) == a + sep + b + sep + c + sep + d,
        text::joined(seq![a, b], sep) == a + sep + b,
{
    reveal_with_fuel(text::joined, 5);
    let s4 = seq![a, b, c, d];
    let s3 = s4.drop_last();
    let s2 = s3.drop_last();
    assert(s3.last() == c && s2.last() == b && s2.drop_last()[0] == a);
    let t = seq![a, b];
    assert(t.drop_last()[0] == a && t.last() == b);
}

/// The views that the demo serves name the pipelines that they show.
pub proof fn served_views_are_listed()
    ensures
        VIEWS@ == "{\"filters\": [\n      {\"name\": \"Default\", \"type\": \"blacklist\", \"state\": [], \"pipelines\": []},\n      "@
            + view_entry("frontend only"@, view_names("frontend only"@)) + ",\n      "@
            + view_entry("prod only"@, view_names("prod only"@)) + "\n    ]}"@,
{
    reveal_strlit(r#"{"filters": [
      {"name": "Default", "type": "blacklist", "state": [], "pipelines": []},
      {"name": "frontend only", "type": "whitelist", "state": [],
       "pipelines": ["web-app-build", "web-app-deploy-staging", "web-app-deploy-prod", "design-system-publish"]},
      {"name": "prod only", "type": "whitelist", "state": [],
       "pipelines": ["web-app-deploy-prod", "api-deploy-prod"]}
    ]}"#);
    reveal_strlit("{\"filters\": [\n      {\"name\": \"Default\", \"type\": \"blacklist\", \"state\": [], \"pipelines\": []},\n      ");
    reveal_strlit("{\"name\": \"");
    reveal_strlit("\", \"type\": \"whitelist\", \"state\": [],\n       \"pipelines\": [");
    reveal_strlit("]}");
    reveal_strlit(",\n      ");
    reveal_strlit("\n    ]}");
    reveal_strlit("\"");
    reveal_strlit(", ");
    reveal_strlit("frontend only");
    reveal_strlit("prod only");
    reveal_strlit("web-app-build");
    reveal_strlit("web-app-deploy-staging");
    reveal_strlit("web-app-deploy-prod");
    reveal_strlit("design-system-publish");
    reveal_strlit("api-deploy-prod");
    lemma_views_differ();
    let q = |n: Seq<char>| "\""@ + n + "\""@;
    let a = q("web-app-build"@);
    let b = q("web-app-deploy-staging"@);
    let c = q("web-app-deploy-prod"@);
    let d = q("design-system-publish"@);
    let e = q("api-deploy-prod"@);
    assert(quoted(view_names("frontend only"@)) =~= seq![a, b, c, d]);
    assert(quoted(view_names("prod only"@)) =~= seq![c, e]);
    lemma_joined_four(a, b, c, d, ", "@);
    lemma_joined_four(c, e, c, e, ", "@);
    assert(VIEWS@ =~= "{\"filters\": [\n      {\"name\": \"Default\", \"type\": \"blacklist\", \"state\": [], \"pipelines\": []},\n      "@
            + view_entry("frontend only"@, view_names("frontend only"@)) + ",\n      "@
            + view_entry("prod only"@, view_names("prod only"@)) + "\n    ]}"@);
}

/// Runs are seven hours apart, the newest one now; a page holds up to eight of them,
/// one after the other, and the next page only older ones, down to the first run.
pub proof fn pages_go_back_in_time(name: Seq<char>, after: u64, counter: int, now: int)
    requires
        after <= i64::MAX,
    ensures
        crate::demo::scheduled_at(name, newest_counter(name), now) == now,
        crate::demo::scheduled_at(name, counter, now) - crate::demo::scheduled_at(
            name,
            counter - 1,
            now,
        ) == 7 * 3_600_000,
        first_counter(name, Some(after)) < after,
        first_counter(name, Some(after)) + 1 == after,
        history_runs(name, Some(after), now).len() <= 8,
        after <= 1 ==> history_runs(name, Some(after), now).len() == 0,
        1 < after <= 9 ==> history_runs(name, Some(after), now).len() == after - 1,
        after > 9 ==> history_runs(name, Some(after), now).len() == 8,
        forall|k: int|
            0 <= k < history_runs(name, Some(after), now).len() ==> #[trigger] history_runs(
                name,
                Some(after),
                now,
            )[k] == run_text(name, after - 1 - k, k, now),
{
    assert((newest_counter(name) - newest_counter(name)) * 25_200_000 == 0);
    assert((newest_counter(name) - (counter - 1)) * 25_200_000 == (newest_counter(name) - counter)
        * 25_200_000 + 25_200_000);
}

} // verus!
