//! What holds of the server's answers: how runs went, where their changes come
//! from, and what they left behind.

use vstd::prelude::*;
use vstd::string::*;

use crate::model::{
    bare_repo_path, branch_of, first_of_kind, host_and_rest, host_char, is_host, is_repo_part,
    material_url, node_row, repo_char, repository_of, rollup, visible_rows, without_suffixes,
    ArtifactNode, ArtifactRowView, DashboardPipelineView, MaterialRevisionView,
    PipelineInstanceView,
};
use crate::text;
use crate::text::laws::{
    bare, numbers_are_parsed, numbers_are_read_back, the_first_one_cuts,
    what_is_around_is_trimmed, what_is_joined_comes_apart,
};

verus! {

// ---- how runs went -------------------------------------------------------

proof fn lemma_statuses()
    ensures
        "Failed"@ != "Cancelled"@,
        "Failed"@ != "Building"@,
        "Failed"@ != "Passed"@,
        "Failed"@ != "Unknown"@,
        "Cancelled"@ != "Building"@,
        "Cancelled"@ != "Passed"@,
        "Cancelled"@ != "Unknown"@,
        "Building"@ != "Passed"@,
        "Building"@ != "Unknown"@,
        "Passed"@ != "Unknown"@,
        "Scheduled"@ != "Failed"@,
        "Scheduled"@ != "Cancelled"@,
        "Scheduled"@ != "Passed"@,
{
    reveal_strlit("Failed");
    reveal_strlit("Cancelled");
    reveal_strlit("Building");
    reveal_strlit("Scheduled");
    reveal_strlit("Passed");
    reveal_strlit("Unknown");
    assert("Failed"@[0] == 'F');
    assert("Cancelled"@[0] == 'C');
    assert("Building"@[0] == 'B');
    assert("Scheduled"@[0] == 'S');
    assert("Passed"@[0] == 'P');
    assert("Unknown"@[0] == 'U');
}

/// Whether some stage has that status.
pub open spec fn some_stage(statuses: Seq<Option<Seq<char>>>, status: Seq<char>) -> bool {
    exists|i: int| 0 <= i < statuses.len() && #[trigger] statuses[i] == Some(status)
}

/// A run is shown by the worst of its stages: what failed comes before what was
/// cancelled, which comes before what is still to run.
pub proof fn the_worst_stage_is_shown(statuses: Seq<Option<Seq<char>>>)
    ensures
        rollup(statuses) == "Failed"@ <==> some_stage(statuses, "Failed"@),
        rollup(statuses) == "Cancelled"@ <==> some_stage(statuses, "Cancelled"@) && !some_stage(
            statuses,
            "Failed"@,
        ),
        rollup(statuses) == "Building"@ <==> (some_stage(statuses, "Building"@) || some_stage(
            statuses,
            "Scheduled"@,
        )) && !some_stage(statuses, "Failed"@) && !some_stage(statuses, "Cancelled"@),
{
    lemma_statuses();
    lemma_some(statuses, "Failed"@);
    lemma_some(statuses, "Cancelled"@);
    lemma_some(statuses, "Building"@);
    lemma_some(statuses, "Scheduled"@);
}

proof fn lemma_some(statuses: Seq<Option<Seq<char>>>, status: Seq<char>)
    ensures
        some_stage(statuses, status) == statuses.contains(Some(status)),
{
    if statuses.contains(Some(status)) {
        let i = choose|i: int| 0 <= i < statuses.len() && statuses[i] == Some(status);
        assert(statuses[i] == Some(status));
    }
}

/// The state of a pipeline is that of its newest run, and unknown without any.
pub proof fn the_newest_run_is_the_state(p: DashboardPipelineView, k: int)
    ensures
        p.embedded.instances.len() == 0 ==> p.latest() == "Unknown"@,
        p.embedded.instances.len() > 0 && 0 <= k
            < p.embedded.instances[0].embedded.stages.len()
            && p.embedded.instances[0].embedded.stages[k].status == Some("Failed"@) ==> p.latest()
            == "Failed"@,
        p.embedded.instances.len() > 0 && p.embedded.instances[0].embedded.stages.len() > 0
            && p.latest() != "Passed"@ ==> exists|i: int|
            0 <= i < p.embedded.instances[0].embedded.stages.len() && (
            #[trigger] p.embedded.instances[0].embedded.stages[i]).status != Some("Passed"@),
{
    if p.embedded.instances.len() > 0 {
        let stages = p.embedded.instances[0].embedded.stages;
        let all = crate::model::dashboard_statuses(stages);
        crate::model::passing_takes_every_stage(all);
        if 0 <= k < stages.len() && stages[k].status == Some("Failed"@) {
            assert(all[k] == Some("Failed"@));
            crate::model::a_failed_stage_decides(all, k);
        }
        if p.latest() != "Passed"@ && stages.len() > 0 {
            let i = choose|i: int| 0 <= i < all.len() && all[i] != Some("Passed"@);
            assert(all[i] == stages[i].status);
        }
    }
}

/// A run failed exactly where one of its stages did, and passed exactly where
/// every one of at least one did.
pub proof fn a_run_went_as_its_stages(run: PipelineInstanceView)
    ensures
        run.overall() == "Failed"@ <==> exists|i: int|
            0 <= i < run.stages.len() && (#[trigger] run.stages[i]).status == Some("Failed"@),
        run.overall() == "Passed"@ <==> run.stages.len() > 0 && forall|i: int|
            0 <= i < run.stages.len() ==> (#[trigger] run.stages[i]).status == Some("Passed"@),
{
    let all = crate::model::stage_statuses(run.stages);
    crate::model::passing_takes_every_stage(all);
    the_worst_stage_is_shown(all);
    assert forall|i: int| 0 <= i < all.len() implies #[trigger] all[i]
        == run.stages[i].status by {}
    if run.overall() == "Failed"@ {
        let i = choose|i: int| 0 <= i < all.len() && #[trigger] all[i] == Some("Failed"@);
        assert(run.stages[i].status == Some("Failed"@));
    }
    if exists|i: int|
        0 <= i < run.stages.len() && (#[trigger] run.stages[i]).status == Some("Failed"@) {
        let i = choose|i: int|
            0 <= i < run.stages.len() && (#[trigger] run.stages[i]).status == Some("Failed"@);
        assert(all[i] == Some("Failed"@));
    }
    if run.stages.len() > 0 && forall|i: int|
        0 <= i < run.stages.len() ==> (#[trigger] run.stages[i]).status == Some("Passed"@) {
        assert forall|i: int| 0 <= i < all.len() implies #[trigger] all[i] == Some(
            "Passed"@,
        ) by {
            assert(run.stages[i].status == Some("Passed"@));
        }
    }
    if run.overall() == "Passed"@ {
        assert forall|i: int| 0 <= i < run.stages.len() implies (
        #[trigger] run.stages[i]).status == Some("Passed"@) by {
            assert(all[i] == Some("Passed"@));
        }
    }
}

/// A run is told by the newest change of its first Git material.
pub proof fn the_first_git_material_tells(run: PipelineInstanceView, k: int)
    requires
        0 <= k < run.revisions().len(),
        run.revisions()[k].material.kind == Some("Git"@),
        forall|i: int|
            0 <= i < k ==> (#[trigger] run.revisions()[i]).material.kind != Some("Git"@),
    ensures
        run.revisions()[k].modifications.len() > 0 ==> run.modification() == Some(
            run.revisions()[k].modifications[0],
        ),
        run.revisions()[k].modifications.len() == 0 ==> run.modification() is None,
{
    lemma_first_of_kind(run.revisions(), "Git"@, k);
}

proof fn lemma_first_of_kind(revs: Seq<MaterialRevisionView>, kind: Seq<char>, k: int)
    requires
        0 <= k < revs.len(),
        revs[k].is_kind(kind),
        forall|i: int| 0 <= i < k ==> !(#[trigger] revs[i]).is_kind(kind),
    ensures
        first_of_kind(revs, kind) == Some(revs[k]),
    decreases k,
{
    if k > 0 {
        assert(!revs[0].is_kind(kind));
        let rest = revs.skip(1);
        assert(rest[k - 1] == revs[k]);
        assert forall|i: int| 0 <= i < k - 1 implies !(#[trigger] rest[i]).is_kind(kind) by {
            assert(rest[i] == revs[i + 1]);
        }
        lemma_first_of_kind(rest, kind, k - 1);
    }
}

// ---- where changes come from ---------------------------------------------

/// A run upstream is named by its pipeline and its counter.
pub proof fn upstream_runs_are_named(
    mr: MaterialRevisionView,
    name: Seq<char>,
    counter: i64,
    rest: Seq<char>,
)
    requires
        mr.material.kind == Some("Pipeline"@),
        mr.modifications.len() > 0,
        mr.modifications[0].revision == Some(
            name.push('/') + (text::dec_int(counter as int).push('/') + rest),
        ),
        name.len() > 0,
        !name.contains('/'),
    ensures
        mr.upstream() == Some((name, counter)),
{
    let d = text::dec_int(counter as int);
    let tail = d.push('/') + rest;
    let rev = name.push('/') + tail;
    numbers_are_parsed(counter as int, 0);
    lemma_no_slash(counter as int);
    the_first_one_cuts(name, '/', tail);
    the_first_one_cuts(d, '/', rest);
    lemma_parts_front(name, '/', tail);
    lemma_parts_front(d, '/', rest);
    assert(text::parts(rev, '/')[0] == name);
    assert(text::parts(rev, '/')[1] == d);
}

proof fn lemma_parts_front(a: Seq<char>, c: char, b: Seq<char>)
    requires
        !a.contains(c),
    ensures
        text::parts(a.push(c) + b, c) == seq![a] + text::parts(b, c),
{
    the_first_one_cuts(a, c, b);
    assert((a.push(c) + b)[a.len() as int] == c);
    assert((a.push(c) + b).contains(c));
}

proof fn lemma_no_slash(n: int)
    ensures
        !text::dec_int(n).contains('/'),
{
    let m = if n < 0 {
        (-n) as nat
    } else {
        n as nat
    };
    numbers_are_read_back(m);
    let s = text::dec_int(n);
    assert forall|i: int| 0 <= i < s.len() implies s[i] != '/' by {
        if n < 0 {
            if i > 0 {
                assert(s[i] == text::dec(m)[i - 1]);
                assert(text::is_digit(text::dec(m)[i - 1]));
            }
        } else {
            assert(text::is_digit(text::dec(m)[i]));
        }
    }
}

/// Whether a text holds neither whitespace nor a comma.
pub open spec fn unbroken(s: Seq<char>) -> bool {
    forall|i: int| 0 <= i < s.len() ==> !text::is_space(#[trigger] s[i]) && s[i] != ','
}

/// How a Git material is described.
pub open spec fn described(url: Seq<char>, branch: Seq<char>) -> Seq<char> {
    "URL: "@ + (url + ", Branch: "@ + branch)
}

#[verifier::rlimit(40)]
proof fn lemma_described_url(url: Seq<char>, branch: Seq<char>)
    requires
        url.len() > 0,
        unbroken(url),
    ensures
        material_url(described(url, branch)) == Some(url),
{
    reveal_strlit("URL: ");
    reveal_strlit(", Branch: ");
    let label = "URL: "@;
    let rest = url + ", Branch: "@ + branch;
    let desc = label + rest;
    assert(desc.subrange(0, 5) =~= label);
    assert(text::occurs_at(desc, label, 0));
    text::lemma_first_place(desc, label, 0);
    assert(desc.skip(5) =~= rest);
    let n = url.len() as int;
    assert(rest[n] == ',');
    assert(rest[n + 1] == ' ');
    assert(text::is_space(' '));
    text::lemma_first_place_found(rest, label);
    let after = match text::first_place(rest, label) {
        Some(j) => rest.take(j),
        None => rest,
    };
    if let Some(j) = text::first_place(rest, label) {
        assert(text::occurs_at(rest, label, j));
        let at = rest.subrange(j, j + 5);
        assert(at[0] == rest[j] && at[1] == rest[j + 1] && at[2] == rest[j + 2] && at[3] == rest[j
            + 3] && at[4] == rest[j + 4]);
        assert(j > n) by {
            if j <= n {
                if j + 4 <= n {
                    assert(rest[j + 4] == ' ');
                    if j + 4 < n {
                        assert(rest[j + 4] == url[j + 4]);
                    }
                } else if j + 4 == n + 1 {
                    assert(rest[j + 3] == ':');
                } else {
                    assert(at[n + 1 - j] == ' ');
                }
            }
        }
    }
    let more = after.skip(n + 1);
    assert(after =~= url.push(',') + more);
    assert(!url.contains(','));
    lemma_parts_front(url, ',', more);
    assert(text::parts(after, ',')[0] == url);
    let none = Seq::<char>::empty();
    what_is_around_is_trimmed(none, url, none);
    assert(none + url + none =~= url);
}

/// The branch of a described material is what the description says behind the
/// URL, whatever that is.
#[verifier::rlimit(40)]
pub proof fn the_branch_is_read(
    url: Seq<char>,
    before: Seq<char>,
    branch: Seq<char>,
    after: Seq<char>,
)
    requires
        unbroken(url),
        crate::text::laws::blank(before),
        crate::text::laws::blank(after),
        bare(branch),
    ensures
        branch_of(described(url, before + branch + after)) == Some(branch),
{
    reveal_strlit("URL: ");
    reveal_strlit(", Branch: ");
    reveal_strlit("Branch: ");
    let label = "Branch: "@;
    let whole = before + branch + after;
    let desc = described(url, whole);
    let q = 5 + url.len() as int + 1;
    assert(desc[4] == ' ');
    assert(desc[q] == ' ');
    assert(desc[q - 1] == ',');
    assert(text::is_space(' '));
    assert(desc.subrange(q + 1, q + 9) =~= label);
    assert(text::occurs_at(desc, label, q + 1));
    assert forall|j: int| 0 <= j < q + 1 implies !#[trigger] text::occurs_at(desc, label, j) by {
        if text::occurs_at(desc, label, j) {
            let at = desc.subrange(j, j + 8);
            assert(at =~= label);
            assert forall|i: int| 0 <= i < 7 implies #[trigger] desc[j + i] != ' ' by {
                assert(at[i] == desc[j + i]);
            }
            assert(at[7] == desc[j + 7]);
            assert(at[6] == desc[j + 6]);
            if j <= 4 {
                assert(desc[j + (4 - j)] != ' ');
            } else if j + 7 < q - 1 {
                assert(desc[j + 7] == url[j + 7 - 5]);
            } else if j + 7 > q {
                assert(desc[j + (q - j)] != ' ');
            }
        }
    }
    text::lemma_first_place(desc, label, q + 1);
    assert(desc.skip(q + 9) =~= whole);
    what_is_around_is_trimmed(before, branch, after);
}

proof fn lemma_host_unbroken(s: Seq<char>)
    requires
        is_host(s),
    ensures
        unbroken(s),
        !s.contains('/'),
{
    assert forall|i: int| 0 <= i < s.len() implies !text::is_space(#[trigger] s[i]) && s[i]
        != ',' && s[i] != '/' by {
        assert(host_char(s[i]));
    }
}

proof fn lemma_repo_unbroken(s: Seq<char>)
    requires
        is_repo_part(s),
    ensures
        unbroken(s),
{
    assert forall|i: int| 0 <= i < s.len() implies !text::is_space(#[trigger] s[i]) && s[i]
        != ',' by {
        assert(repo_char(s[i]));
    }
}

/// Whether these can be host, owner and repository in the URL of a repository.
pub open spec fn are_named(host: Seq<char>, owner: Seq<char>, repo: Seq<char>) -> bool {
    &&& is_host(host)
    &&& !host.contains(':')
    &&& is_repo_part(owner)
    &&& !owner.contains('/')
    &&& is_repo_part(repo)
    &&& !repo.contains('/')
    &&& !text::finishes(repo, ".git"@)
}

#[verifier::rlimit(40)]
proof fn lemma_bare_path(owner: Seq<char>, repo: Seq<char>, tail: Seq<char>)
    requires
        is_repo_part(owner),
        !owner.contains('/'),
        is_repo_part(repo),
        !repo.contains('/'),
        !text::finishes(repo, ".git"@),
        tail == ".git"@ || tail.len() == 0,
    ensures
        bare_repo_path(owner.push('/') + (repo + tail)) == owner.push('/') + repo,
        text::cut_at(owner.push('/') + repo, '/') == Some((owner, repo)),
{
    reveal_strlit(".git");
    let bare_path = owner.push('/') + repo;
    let s = owner.push('/') + (repo + tail);
    assert(s =~= bare_path + tail);
    assert(owner.contains(owner[0]));
    assert(s[0] == owner[0]);
    assert(repo.contains(repo.last()));
    if tail.len() > 0 {
        assert(s.last() == 't');
    } else {
        assert(s.last() == repo.last());
    }
    assert(text::without_head(s, '/') == s);
    assert(text::without_tail(s, '/') == s);
    assert(!text::finishes(bare_path, ".git"@)) by {
        if text::finishes(bare_path, ".git"@) {
            let k = bare_path.len() - 4;
            let at = bare_path.subrange(k, k + 4);
            assert(at =~= ".git"@);
            if repo.len() >= 4 {
                assert(repo.subrange(repo.len() - 4, repo.len() - 4 + 4) =~= at);
            } else {
                let p = owner.len() as int;
                assert(bare_path[p] == '/');
                assert(at[p - k] == '/');
            }
        }
    }
    assert(without_suffixes(bare_path, ".git"@) == bare_path);
    if tail.len() > 0 {
        what_is_joined_comes_apart(bare_path, ".git"@);
        assert(text::before_suffix(s, ".git"@) == Some(bare_path));
        assert(without_suffixes(s, ".git"@) == without_suffixes(
            s.take(s.len() - 4),
            ".git"@,
        ));
    } else {
        assert(s =~= bare_path);
    }
    the_first_one_cuts(owner, '/', repo);
}

proof fn lemma_three_unbroken(a: Seq<char>, b: Seq<char>, c: Seq<char>, d: Seq<char>)
    requires
        unbroken(a),
        unbroken(b),
        unbroken(c),
        unbroken(d),
    ensures
        unbroken(a + (b + (c + d))),
{
}

/// The repository of a described material is found in an HTTPS URL and in one
/// for SSH, with or without `.git`.
#[verifier::rlimit(40)]
pub proof fn the_repository_is_read(
    host: Seq<char>,
    owner: Seq<char>,
    repo: Seq<char>,
    tail: Seq<char>,
    branch: Seq<char>,
)
    requires
        are_named(host, owner, repo),
        tail == ".git"@ || tail.len() == 0,
    ensures
        repository_of(
            described("https://"@ + (host.push('/') + (owner.push('/') + (repo + tail))), branch),
        ) == Some((host, owner, repo)),
        repository_of(
            described("git@"@ + (host.push(':') + (owner.push('/') + (repo + tail))), branch),
        ) == Some((host, owner, repo)),
{
    reveal_strlit("https://");
    reveal_strlit("git@");
    reveal_strlit(".git");
    let path = owner.push('/') + (repo + tail);
    let web = "https://"@ + (host.push('/') + path);
    let ssh = "git@"@ + (host.push(':') + path);
    lemma_host_unbroken(host);
    lemma_repo_unbroken(owner);
    lemma_repo_unbroken(repo);
    assert(unbroken(tail));
    assert(unbroken(owner.push('/')));
    assert(unbroken(host.push('/')));
    assert(unbroken(host.push(':')));
    assert(unbroken("https://"@));
    assert(unbroken("git@"@));
    lemma_three_unbroken("https://"@, host.push('/'), owner.push('/'), repo + tail);
    lemma_three_unbroken("git@"@, host.push(':'), owner.push('/'), repo + tail);
    lemma_described_url(web, branch);
    lemma_described_url(ssh, branch);
    lemma_bare_path(owner, repo, tail);
    the_first_one_cuts(host, '/', path);
    the_first_one_cuts(host, ':', path);
    what_is_joined_comes_apart("https://"@, host.push('/') + path);
    what_is_joined_comes_apart("git@"@, host.push(':') + path);
    assert(text::after_prefix(web, "git@"@) is None) by {
        assert(web[0] == 'h');
        if text::begins(web, "git@"@) {
            assert(web.subrange(0, 4)[0] == 'g');
        }
    }
    assert(host_and_rest(web) == Some((host, path)));
    assert(host_and_rest(ssh) == Some((host, path)));
}

// ---- what runs left behind -----------------------------------------------

/// Every entry of a listing has its row, under its own name and path; it is a
/// folder where it is marked as one or holds others, and open where its path is
/// among the open ones.
pub proof fn every_entry_has_its_row(
    nodes: Seq<ArtifactNode>,
    depth: usize,
    prefix: Seq<char>,
    open: Set<Seq<char>>,
    k: int,
)
    requires
        0 <= k < nodes.len(),
    ensures
        exists|i: int|
            0 <= i < visible_rows(nodes, depth, prefix, open).len() && is_row_of(
                #[trigger] visible_rows(nodes, depth, prefix, open)[i],
                nodes[k],
                depth,
                prefix,
                open,
            ),
    decreases nodes.len(),
{
    let rows = visible_rows(nodes, depth, prefix, open);
    let front = nodes.drop_last();
    let above = visible_rows(front, depth, prefix, open);
    let row = node_row(nodes.last(), depth, prefix, open);
    if k == nodes.len() - 1 {
        let i = above.len() as int;
        assert(rows[i] == row);
        assert(is_row_of(rows[i], nodes[k], depth, prefix, open));
    } else {
        assert(front[k] == nodes[k]);
        every_entry_has_its_row(front, depth, prefix, open, k);
        let i = choose|i: int|
            0 <= i < above.len() && is_row_of(
                #[trigger] above[i],
                front[k],
                depth,
                prefix,
                open,
            );
        assert(rows[i] == above[i]);
    }
}

/// Whether a row is the one of an entry.
pub open spec fn is_row_of(
    row: ArtifactRowView,
    n: ArtifactNode,
    depth: usize,
    prefix: Seq<char>,
    open: Set<Seq<char>>,
) -> bool {
    &&& row.name == n.name@
    &&& row.depth == depth
    &&& row.url == n.url.deep_view()
    &&& prefix.len() == 0 ==> row.path == n.name@
    &&& prefix.len() > 0 ==> row.path == prefix + "/"@ + n.name@
    &&& row.is_folder <==> n.files@.len() > 0 || n.kind.deep_view() == Some("folder"@)
    &&& row.expanded <==> row.is_folder && open.contains(row.path)
}

} // verus!
