//! Fictional GoCD data for `--demo`, so that the interface can be tried without
//! a server or credentials.
//!
//! Everything is given as the JSON that a server would send, and goes through
//! the same parsing as a real answer.

use vstd::prelude::*;
use vstd::string::*;
use vstd::utf8::encode_utf8;

use crate::text;

pub mod laws;

verus! {

/// A pipeline of the demo.
pub struct Fixture {
    pub group: &'static str,
    pub name: &'static str,
    pub status: &'static str,
    pub paused: bool,
}

pub struct FixtureView {
    pub group: Seq<char>,
    pub name: Seq<char>,
    pub status: Seq<char>,
    pub paused: bool,
}

impl DeepView for Fixture {
    type V = FixtureView;

    open spec fn deep_view(&self) -> FixtureView {
        FixtureView {
            group: self.group@,
            name: self.name@,
            status: self.status@,
            paused: self.paused,
        }
    }
}

pub open spec fn row(group: &str, name: &str, status: &str, paused: bool) -> FixtureView {
    FixtureView { group: group@, name: name@, status: status@, paused }
}

/// Every pipeline of the demo.
pub open spec fn fixture_list() -> Seq<FixtureView> {
    seq![
        row("frontend", "web-app-build", "Passed", false),
        row("frontend", "web-app-deploy-staging", "Passed", false),
        row("frontend", "web-app-deploy-prod", "Building", false),
        row("frontend", "design-system-publish", "Passed", false),
        row("backend", "api-build-test", "Failed", false),
        row("backend", "api-deploy-staging", "Passed", false),
        row("backend", "api-deploy-prod", "Passed", true),
        row("backend", "worker-service-build", "Passed", false),
        row("backend", "search-service-build", "Cancelled", false),
        row("infrastructure", "terraform-plan", "Passed", false),
        row("infrastructure", "terraform-apply", "Passed", true),
        row("infrastructure", "docker-base-images", "Passed", false),
        row("mobile", "ios-app-build", "Passed", false),
        row("mobile", "android-app-build", "Failed", false),
    ]
}

fn fixture(group: &'static str, name: &'static str, status: &'static str, paused: bool) -> (r:
    Fixture)
    ensures
        r.deep_view() == row(group, name, status, paused),
{
    Fixture { group, name, status, paused }
}

pub fn fixtures() -> (r: Vec<Fixture>)
    ensures
        r.deep_view() == fixture_list(),
{
    let r = vec![
        fixture("frontend", "web-app-build", "Passed", false),
        fixture("frontend", "web-app-deploy-staging", "Passed", false),
        fixture("frontend", "web-app-deploy-prod", "Building", false),
        fixture("frontend", "design-system-publish", "Passed", false),
        fixture("backend", "api-build-test", "Failed", false),
        fixture("backend", "api-deploy-staging", "Passed", false),
        fixture("backend", "api-deploy-prod", "Passed", true),
        fixture("backend", "worker-service-build", "Passed", false),
        fixture("backend", "search-service-build", "Cancelled", false),
        fixture("infrastructure", "terraform-plan", "Passed", false),
        fixture("infrastructure", "terraform-apply", "Passed", true),
        fixture("infrastructure", "docker-base-images", "Passed", false),
        fixture("mobile", "ios-app-build", "Passed", false),
        fixture("mobile", "android-app-build", "Failed", false),
    ];
    assert(r.deep_view() =~= fixture_list());
    r
}

/// The groups of the demo, in the order in which they first appear.
pub open spec fn group_list() -> Seq<Seq<char>> {
    seq!["frontend"@, "backend"@, "infrastructure"@, "mobile"@]
}

pub open spec fn author(i: int) -> Seq<char> {
    if i == 0 {
        "alex"@
    } else if i == 1 {
        "priya"@
    } else if i == 2 {
        "sam"@
    } else {
        "jordan"@
    }
}

fn author_at(i: usize) -> (r: &'static str)
    ensures
        r@ == author(i as int),
{
    if i == 0 {
        "alex"
    } else if i == 1 {
        "priya"
    } else if i == 2 {
        "sam"
    } else {
        "jordan"
    }
}

pub open spec fn commit_sha(i: int) -> Seq<char> {
    if i == 0 {
        "9f2c1ab"@
    } else if i == 1 {
        "4e8d773"@
    } else if i == 2 {
        "c31a9e0"@
    } else if i == 3 {
        "7b45f12"@
    } else if i == 4 {
        "e90bc44"@
    } else if i == 5 {
        "21d7a8f"@
    } else if i == 6 {
        "88e3c5d"@
    } else {
        "5a1f9b7"@
    }
}

fn sha_at(i: usize) -> (r: &'static str)
    ensures
        r@ == commit_sha(i as int),
{
    if i == 0 {
        "9f2c1ab"
    } else if i == 1 {
        "4e8d773"
    } else if i == 2 {
        "c31a9e0"
    } else if i == 3 {
        "7b45f12"
    } else if i == 4 {
        "e90bc44"
    } else if i == 5 {
        "21d7a8f"
    } else if i == 6 {
        "88e3c5d"
    } else {
        "5a1f9b7"
    }
}

pub open spec fn commit_message(i: int) -> Seq<char> {
    if i == 0 {
        "Fix flaky retry logic in the upload path"@
    } else if i == 1 {
        "Bump dependencies and tighten CSP"@
    } else if i == 2 {
        "Add dark mode to the settings page"@
    } else if i == 3 {
        "Cache invalidation for the search index"@
    } else if i == 4 {
        "Speed up cold starts by lazy-loading plugins"@
    } else if i == 5 {
        "Refactor pagination out of the API client"@
    } else if i == 6 {
        "Handle unicode in webhook payloads"@
    } else {
        "Retry transient S3 errors on artifact upload"@
    }
}

fn message_at(i: usize) -> (r: &'static str)
    ensures
        r@ == commit_message(i as int),
{
    if i == 0 {
        "Fix flaky retry logic in the upload path"
    } else if i == 1 {
        "Bump dependencies and tighten CSP"
    } else if i == 2 {
        "Add dark mode to the settings page"
    } else if i == 3 {
        "Cache invalidation for the search index"
    } else if i == 4 {
        "Speed up cold starts by lazy-loading plugins"
    } else if i == 5 {
        "Refactor pagination out of the API client"
    } else if i == 6 {
        "Handle unicode in webhook payloads"
    } else {
        "Retry transient S3 errors on artifact upload"
    }
}

/// A number that is always the same for the same bytes.
pub open spec fn seed_of(bytes: Seq<u8>) -> int
    decreases bytes.len(),
{
    if bytes.len() == 0 {
        7
    } else {
        (seed_of(bytes.drop_last()) * 31 + bytes.last()) % (usize::MAX + 1)
    }
}

pub open spec fn name_seed(name: Seq<char>) -> int {
    seed_of(encode_utf8(name))
}

/// A number by which a pipeline looks the same across redraws and restarts.
pub fn seed(name: &str) -> (r: usize)
    ensures
        r == name_seed(name@),
{
    let bytes = name.as_bytes();
    let ghost bs = encode_utf8(name@);
    assert(bytes@ == bs);
    let mut acc: usize = 7;
    let mut i: usize = 0;
    while i < bytes.len()
        invariant
            bytes@ == bs,
            i <= bs.len(),
            acc == seed_of(bs.take(i as int)),
        decreases bs.len() - i,
    {
        assert(bs.take(i + 1).drop_last() =~= bs.take(i as int));
        acc = ((acc as u128 * 31 + bytes[i] as u128) % (usize::MAX as u128 + 1)) as usize;
        i = i + 1;
    }
    assert(bs.take(i as int) =~= bs);
    acc
}

// ---- the dashboard -------------------------------------------------------

/// Whether a view of that name shows the group.
pub open spec fn group_shown(view: Option<Seq<char>>, group: Seq<char>) -> bool {
    view != Some("frontend only"@) || group == "frontend"@
}

/// Whether a view of that name shows the pipeline.
pub open spec fn name_shown(view: Option<Seq<char>>, name: Seq<char>) -> bool {
    view != Some("prod only"@) || text::has(name, "prod"@)
}

/// The names in quotes of the pipelines of `group` that the view shows.
pub open spec fn member_texts(fs: Seq<FixtureView>, view: Option<Seq<char>>, group: Seq<char>) -> Seq<
    Seq<char>,
>
    decreases fs.len(),
{
    if fs.len() == 0 {
        Seq::empty()
    } else {
        let f = fs.last();
        let before = member_texts(fs.drop_last(), view, group);
        if f.group == group && name_shown(view, f.name) {
            before.push("\""@ + f.name + "\""@)
        } else {
            before
        }
    }
}

/// The groups that the view shows something of.
pub open spec fn group_texts(gs: Seq<Seq<char>>, view: Option<Seq<char>>) -> Seq<Seq<char>>
    decreases gs.len(),
{
    if gs.len() == 0 {
        Seq::empty()
    } else {
        let g = gs.last();
        let before = group_texts(gs.drop_last(), view);
        let members = member_texts(fixture_list(), view, g);
        if group_shown(view, g) && members.len() > 0 {
            before.push(
                "{\"name\": \""@ + g + "\", \"pipelines\": ["@ + text::joined(members, ", "@)
                    + "]}"@,
            )
        } else {
            before
        }
    }
}

/// A pipeline of the dashboard, with the label, the counter, the author and the
/// status of its latest run.
pub open spec fn entry_text(
    name: Seq<char>,
    paused: bool,
    label: Seq<char>,
    counter: int,
    who: Seq<char>,
    status: Seq<char>,
) -> Seq<char> {
    "{\"name\": \""@ + name + "\", \"locked\": false, \"pause_info\": "@ + if paused {
        "{\"paused\": true, \"paused_by\": \"priya\", \"pause_reason\": \"release freeze\"}"@
    } else {
        "{\"paused\": false}"@
    }
        + ", \"can_pause\": true, \"can_operate\": true, \"_embedded\": {\"instances\": [{\"label\": \""@
        + label + "\", \"counter\": "@ + text::dec(counter as nat)
        + ", \"triggered_by\": \"changes by "@ + who
        + "\", \"_embedded\": {\"stages\": [{\"name\": \"build\", \"status\": \""@ + status
        + "\"}]}}]}}"@
}

/// One pipeline of the dashboard.
pub open spec fn pipeline_text(f: FixtureView) -> Seq<char> {
    let s = name_seed(f.name);
    entry_text(f.name, f.paused, commit_sha(s % 8), 40 + s % 60, author(s % 4), f.status)
}

pub open spec fn pipeline_texts(fs: Seq<FixtureView>, view: Option<Seq<char>>) -> Seq<Seq<char>>
    decreases fs.len(),
{
    if fs.len() == 0 {
        Seq::empty()
    } else {
        let f = fs.last();
        let before = pipeline_texts(fs.drop_last(), view);
        if group_shown(view, f.group) && name_shown(view, f.name) {
            before.push(pipeline_text(f))
        } else {
            before
        }
    }
}

/// The dashboard that the demo serves for a view.
pub open spec fn dashboard_text(view: Option<Seq<char>>) -> Seq<char> {
    "{\"_embedded\": {\"pipeline_groups\": ["@ + text::joined(
        group_texts(group_list(), view),
        ", "@,
    ) + "], \"pipelines\": ["@ + text::joined(pipeline_texts(fixture_list(), view), ", "@) + "]}}"@
}

fn is_view(view: Option<&str>, name: &str) -> (r: bool)
    ensures
        r == (view.deep_view() == Some(name@)),
{
    match view {
        Some(v) => text::same(v, name),
        None => false,
    }
}

fn shows_group(view: Option<&str>, group: &str) -> (r: bool)
    ensures
        r == group_shown(view.deep_view(), group@),
{
    !is_view(view, "frontend only") || text::same(group, "frontend")
}

fn shows_name(view: Option<&str>, name: &str) -> (r: bool)
    ensures
        r == name_shown(view.deep_view(), name@),
{
    !is_view(view, "prod only") || text::contains(name, "prod")
}

fn members_of(fs: &Vec<Fixture>, view: Option<&str>, group: &str) -> (r: Vec<String>)
    ensures
        r.deep_view() == member_texts(fs.deep_view(), view.deep_view(), group@),
{
    let mut r: Vec<String> = Vec::new();
    let ghost all = fs.deep_view();
    let mut i: usize = 0;
    assert(r.deep_view() =~= Seq::<Seq<char>>::empty());
    while i < fs.len()
        invariant
            all == fs.deep_view(),
            i <= fs@.len(),
            r.deep_view() == member_texts(all.take(i as int), view.deep_view(), group@),
        decreases fs@.len() - i,
    {
        let ghost before = r.deep_view();
        assert(all.take(i + 1).drop_last() =~= all.take(i as int));
        assert(all.take(i + 1).last() == fs@[i as int].deep_view());
        if text::same(fs[i].group, group) && shows_name(view, fs[i].name) {
            let t = text::cat3("\"", fs[i].name, "\"");
            r.push(t);
            assert(r.deep_view() =~= before.push(t@));
        }
        i = i + 1;
    }
    assert(all.take(i as int) =~= all);
    r
}

fn groups_of(fs: &Vec<Fixture>, view: Option<&str>) -> (r: Vec<String>)
    requires
        fs.deep_view() == fixture_list(),
    ensures
        r.deep_view() == group_texts(group_list(), view.deep_view()),
{
    let gs: Vec<&'static str> = vec!["frontend", "backend", "infrastructure", "mobile"];
    let ghost all = group_list();
    assert(gs.deep_view() =~= all);
    let mut r: Vec<String> = Vec::new();
    let mut i: usize = 0;
    assert(r.deep_view() =~= Seq::<Seq<char>>::empty());
    while i < gs.len()
        invariant
            fs.deep_view() == fixture_list(),
            all == gs.deep_view(),
            i <= gs@.len(),
            r.deep_view() == group_texts(all.take(i as int), view.deep_view()),
        decreases gs@.len() - i,
    {
        let ghost before = r.deep_view();
        assert(all.take(i + 1).drop_last() =~= all.take(i as int));
        assert(all.take(i + 1).last() == gs@[i as int]@);
        let members = members_of(fs, view, gs[i]);
        assert(members.deep_view().len() == members@.len());
        if shows_group(view, gs[i]) && members.len() > 0 {
            let list = text::join(&members, ", ");
            let t = text::cat5("{\"name\": \"", gs[i], "\", \"pipelines\": [", list.as_str(), "]}");
            r.push(t);
            assert(r.deep_view() =~= before.push(t@));
        }
        i = i + 1;
    }
    assert(all.take(i as int) =~= all);
    r
}

fn pipeline_json(f: &Fixture) -> (r: String)
    ensures
        r@ == pipeline_text(f.deep_view()),
{
    let s: usize = seed(f.name);
    let counter = text::decimal_n(40 + s % 60);
    let mut r = String::from_str("{\"name\": \"");
    r.append(f.name);
    r.append("\", \"locked\": false, \"pause_info\": ");
    r.append(
        if f.paused {
            "{\"paused\": true, \"paused_by\": \"priya\", \"pause_reason\": \"release freeze\"}"
        } else {
            "{\"paused\": false}"
        },
    );
    r.append(
        ", \"can_pause\": true, \"can_operate\": true, \"_embedded\": {\"instances\": [{\"label\": \"",
    );
    r.append(sha_at(s % 8));
    r.append("\", \"counter\": ");
    r.append(counter.as_str());
    r.append(", \"triggered_by\": \"changes by ");
    r.append(author_at(s % 4));
    r.append("\", \"_embedded\": {\"stages\": [{\"name\": \"build\", \"status\": \"");
    r.append(f.status);
    r.append("\"}]}}]}}");
    r
}

fn pipelines_of(fs: &Vec<Fixture>, view: Option<&str>) -> (r: Vec<String>)
    ensures
        r.deep_view() == pipeline_texts(fs.deep_view(), view.deep_view()),
{
    let mut r: Vec<String> = Vec::new();
    let ghost all = fs.deep_view();
    let mut i: usize = 0;
    assert(r.deep_view() =~= Seq::<Seq<char>>::empty());
    while i < fs.len()
        invariant
            all == fs.deep_view(),
            i <= fs@.len(),
            r.deep_view() == pipeline_texts(all.take(i as int), view.deep_view()),
        decreases fs@.len() - i,
    {
        let ghost before = r.deep_view();
        assert(all.take(i + 1).drop_last() =~= all.take(i as int));
        assert(all.take(i + 1).last() == fs@[i as int].deep_view());
        if shows_group(view, fs[i].group) && shows_name(view, fs[i].name) {
            let t = pipeline_json(&fs[i]);
            r.push(t);
            assert(r.deep_view() =~= before.push(t@));
        }
        i = i + 1;
    }
    assert(all.take(i as int) =~= all);
    r
}

/// The dashboard, or the part of it that a view shows: "frontend only" by the
/// group, "prod only" by the name.
pub fn dashboard_json(view: Option<&str>) -> (r: String)
    ensures
        r@ == dashboard_text(view.deep_view()),
{
    let fs = fixtures();
    let groups = groups_of(&fs, view);
    let pipelines = pipelines_of(&fs, view);
    let g = text::join(&groups, ", ");
    let p = text::join(&pipelines, ", ");
    text::cat5(
        "{\"_embedded\": {\"pipeline_groups\": [",
        g.as_str(),
        "], \"pipelines\": [",
        p.as_str(),
        "]}}",
    )
}

// ---- history -------------------------------------------------------------

/// The status of the newest run of a pipeline: that of its fixture, and Passed
/// for a name that is none.
pub open spec fn newest_status(fs: Seq<FixtureView>, name: Seq<char>) -> Seq<char>
    decreases fs.len(),
{
    if fs.len() == 0 {
        "Passed"@
    } else if fs[0].name == name {
        fs[0].status
    } else {
        newest_status(fs.skip(1), name)
    }
}

/// The counter of the newest run of a pipeline.
pub open spec fn newest_counter(name: Seq<char>) -> int {
    40 + name_seed(name) % 60
}

/// The counter of the first run of a page: the newest, or the one before the
/// cursor, which is read as a signed number.
pub open spec fn first_counter(name: Seq<char>, after: Option<u64>) -> int {
    match after {
        None => newest_counter(name),
        Some(a) => if a <= i64::MAX {
            a - 1
        } else {
            a - 0x1_0000_0000_0000_0000 - 1
        },
    }
}

/// When run `counter` was scheduled: seven hours after the one before it, the
/// newest now.
pub open spec fn scheduled_at(name: Seq<char>, counter: int, now: int) -> int {
    now - (newest_counter(name) - counter) * 25_200_000
}

/// The status of run `counter`, the `i`th of its page.
pub open spec fn run_status(name: Seq<char>, counter: int, i: int) -> Seq<char> {
    if counter == newest_counter(name) {
        newest_status(fixture_list(), name)
    } else if i % 3 == 0 {
        "Failed"@
    } else {
        "Passed"@
    }
}

/// A run that was scheduled at `at`, of a commit with that hash, author and
/// message, with that status in both of its stages.
pub open spec fn run_entry(
    name: Seq<char>,
    counter: int,
    sha: Seq<char>,
    who: Seq<char>,
    message: Seq<char>,
    at: int,
    status: Seq<char>,
) -> Seq<char> {
    "{\"name\": \""@ + name + "\", \"counter\": "@ + text::dec_int(counter) + ", \"label\": \""@
        + sha + "\", \"scheduled_date\": "@ + text::dec_int(at)
        + ", \"build_cause\": {\"trigger_message\": \"modified by "@ + who + " <"@ + who
        + "@example.com>\", \"approver\": \"changes\", \"material_revisions\": [{\"material\": {\"type\": \"Git\", \"description\": \"URL: git@github.com:acme/"@
        + name + ".git, Branch: main\"}, \"modifications\": [{\"revision\": \""@ + sha
        + text::repeated('0', 33) + "\", \"user_name\": \""@ + who + " <"@ + who
        + "@example.com>\", \"comment\": \""@ + message + "\", \"modified_time\": "@
        + text::dec_int(at - 7_200_000)
        + "}]}]}, \"stages\": [{\"name\": \"build\", \"status\": \""@ + status
        + "\", \"approval_type\": \"success\", \"scheduled_date\": "@ + text::dec_int(at)
        + ", \"counter\": \"1\", \"jobs\": [{\"name\": \"compile\", \"result\": \""@ + status
        + "\", \"state\": \"Completed\"}, {\"name\": \"unit-tests\", \"result\": \""@ + status
        + "\", \"state\": \"Completed\"}]}, {\"name\": \""@ + if text::has(name, "deploy"@) {
        "deploy"@
    } else {
        "test"@
    } + "\", \"status\": \""@ + status + "\", \"approval_type\": \"manual\", \"scheduled_date\": "@
        + text::dec_int(at + 900_000)
        + ", \"counter\": \"1\", \"jobs\": [{\"name\": \"run\", \"result\": \""@ + status
        + "\", \"state\": \"Completed\"}]}]}"@
}

/// Run `counter`, the `i`th of its page.
pub open spec fn run_text(name: Seq<char>, counter: int, i: int, now: int) -> Seq<char> {
    let k = name_seed(name) % 8 + i;
    run_entry(
        name,
        counter,
        commit_sha(k % 8),
        author(k % 4),
        commit_message(k % 8),
        scheduled_at(name, counter, now),
        run_status(name, counter, i),
    )
}

/// The number of runs of a page: eight, as far as their counters are positive.
pub open spec fn page_len(start: int) -> nat {
    if start >= 8 {
        8
    } else if start > 0 {
        start as nat
    } else {
        0
    }
}

/// The runs of a page.
pub open spec fn history_runs(name: Seq<char>, after: Option<u64>, now: int) -> Seq<Seq<char>> {
    let start = first_counter(name, after);
    Seq::new(page_len(start), |i: int| run_text(name, start - i, i, now))
}

/// The page of history that the demo serves.
pub open spec fn history_text(name: Seq<char>, after: Option<u64>, now: int) -> Seq<char> {
    let start = first_counter(name, after);
    let runs = history_runs(name, after, now);
    let links = if start - 8 > 1 {
        ",\"_links\": {\"next\": {\"href\": \"https://demo.invalid/api/pipelines/"@ + name
            + "/history?after="@ + text::dec_int(start - 8) + "\"}}"@
    } else {
        Seq::empty()
    };
    "{\"pipelines\": ["@ + text::joined(runs, ", "@) + "]"@ + links + "}"@
}

fn status_of(fs: &Vec<Fixture>, name: &str) -> (r: &'static str)
    ensures
        r@ == newest_status(fs.deep_view(), name@),
{
    let ghost all = fs.deep_view();
    let mut i: usize = 0;
    assert(all.skip(0) =~= all);
    while i < fs.len()
        invariant
            all == fs.deep_view(),
            i <= fs@.len(),
            newest_status(all, name@) == newest_status(all.skip(i as int), name@),
        decreases fs@.len() - i,
    {
        assert(all.skip(i as int)[0] == fs@[i as int].deep_view());
        if text::same(fs[i].name, name) {
            return fs[i].status;
        }
        assert(all.skip(i as int).skip(1) =~= all.skip(i + 1));
        i = i + 1;
    }
    "Passed"
}

fn run_json(pipeline: &str, counter: i128, i: usize, now: i64) -> (r: String)
    requires
        0 < counter < 0x1_0000_0000_0000_0000,
        i < 8,
    ensures
        r@ == run_text(pipeline@, counter as int, i as int, now as int),
{
    let s: usize = seed(pipeline);
    let newest: i128 = 40 + (s % 60) as i128;
    let k: usize = s % 8 + i;
    let sha = sha_at(k % 8);
    let who = author_at(k % 4);
    let status = if counter == newest {
        let fs = fixtures();
        status_of(&fs, pipeline)
    } else if i % 3 == 0 {
        "Failed"
    } else {
        "Passed"
    };
    let at: i128 = now as i128 - (newest - counter) * 25_200_000;
    let scheduled = text::decimal_wide(at);
    let committed = text::decimal_wide(at - 7_200_000);
    let later = text::decimal_wide(at + 900_000);
    let number = text::decimal_wide(counter);
    let zeros = text::repeat('0', 33);
    let mut r = String::from_str("{\"name\": \"");
    r.append(pipeline);
    r.append("\", \"counter\": ");
    r.append(number.as_str());
    r.append(", \"label\": \"");
    r.append(sha);
    r.append("\", \"scheduled_date\": ");
    r.append(scheduled.as_str());
    r.append(", \"build_cause\": {\"trigger_message\": \"modified by ");
    r.append(who);
    r.append(" <");
    r.append(who);
    r.append(
        "@example.com>\", \"approver\": \"changes\", \"material_revisions\": [{\"material\": {\"type\": \"Git\", \"description\": \"URL: git@github.com:acme/",
    );
    r.append(pipeline);
    r.append(".git, Branch: main\"}, \"modifications\": [{\"revision\": \"");
    r.append(sha);
    r.append(zeros.as_str());
    r.append("\", \"user_name\": \"");
    r.append(who);
    r.append(" <");
    r.append(who);
    r.append("@example.com>\", \"comment\": \"");
    r.append(message_at(k % 8));
    r.append("\", \"modified_time\": ");
    r.append(committed.as_str());
    r.append("}]}]}, \"stages\": [{\"name\": \"build\", \"status\": \"");
    r.append(status);
    r.append("\", \"approval_type\": \"success\", \"scheduled_date\": ");
    r.append(scheduled.as_str());
    r.append(", \"counter\": \"1\", \"jobs\": [{\"name\": \"compile\", \"result\": \"");
    r.append(status);
    r.append("\", \"state\": \"Completed\"}, {\"name\": \"unit-tests\", \"result\": \"");
    r.append(status);
    r.append("\", \"state\": \"Completed\"}]}, {\"name\": \"");
    r.append(
        if text::contains(pipeline, "deploy") {
            "deploy"
        } else {
            "test"
        },
    );
    r.append("\", \"status\": \"");
    r.append(status);
    r.append("\", \"approval_type\": \"manual\", \"scheduled_date\": ");
    r.append(later.as_str());
    r.append(", \"counter\": \"1\", \"jobs\": [{\"name\": \"run\", \"result\": \"");
    r.append(status);
    r.append("\", \"state\": \"Completed\"}]}]}");
    r
}

/// Up to eight runs of a pipeline, newest first, and the link to the next page
/// where there is one. `now` is the time in epoch millis.
pub fn history_json(pipeline: &str, after: Option<u64>, now: i64) -> (r: String)
    ensures
        r@ == history_text(pipeline@, after, now as int),
{
    let s: usize = seed(pipeline);
    let start: i128 = match after {
        None => 40 + (s % 60) as i128,
        Some(a) => if a <= 0x7fff_ffff_ffff_ffff {
            a as i128 - 1
        } else {
            a as i128 - 0x1_0000_0000_0000_0000 - 1
        },
    };
    let ghost want = history_runs(pipeline@, after, now as int);
    let mut runs: Vec<String> = Vec::new();
    let mut i: usize = 0;
    assert(runs.deep_view() =~= want.take(0));
    while i < 8 && start - (i as i128) >= 1
        invariant
            i <= page_len(start as int),
            start == first_counter(pipeline@, after),
            -0x1_0000_0000_0000_0000 <= start < 0x1_0000_0000_0000_0000,
            want == history_runs(pipeline@, after, now as int),
            runs.deep_view() == want.take(i as int),
        decreases 8 - i,
    {
        let t = run_json(pipeline, start - (i as i128), i, now);
        let ghost before = runs.deep_view();
        runs.push(t);
        assert(runs.deep_view() =~= before.push(t@));
        assert(want.take(i + 1) =~= want.take(i as int).push(want[i as int]));
        i = i + 1;
    }
    assert(want.take(i as int) =~= want);
    let next: i128 = start - 8;
    let links = if next > 1 {
        let n = text::decimal_wide(next);
        text::cat5(
            ",\"_links\": {\"next\": {\"href\": \"https://demo.invalid/api/pipelines/",
            pipeline,
            "/history?after=",
            n.as_str(),
            "\"}}",
        )
    } else {
        let e = String::new();
        assert(e@ =~= Seq::<char>::empty());
        e
    };
    let list = text::join(&runs, ", ");
    text::cat5("{\"pipelines\": [", list.as_str(), "]", links.as_str(), "}")
}

// ---- console log ---------------------------------------------------------

pub open spec fn step_line(i: int) -> Seq<char> {
    "##|10:"@ + text::two_digits((i % 60) as nat) + ":"@ + text::two_digits(((i * 7) % 60) as nat)
        + ".000 [go] Task: step "@ + text::dec(i as nat) + ": compiling module "@ + text::dec(
        i as nat,
    ) + "... ok ("@ + text::dec((i * 37) as nat) + "ms)"@
}

/// The lines of the log that every job of the demo has.
pub open spec fn log_lines() -> Seq<Seq<char>> {
    Seq::new(38, |i: int| step_line(i)) + seq![
        "&2|10:38:02.100 WARN  deprecated flag --legacy-resolver will be removed"@,
        "##|10:38:44.000 [go] Running 214 tests across 12 suites"@,
        "##|10:39:01.000 café-service: 完了 (unicode is fine here)"@,
        "!!|10:39:12.480 ERROR failed to publish artifact: connection reset"@,
        "##|10:39:13.000 [go] Retrying upload (attempt 2 of 3)... ok"@,
        "##|10:39:58.900 [go] All 214 tests passed."@,
        "##|10:40:00.120 [go] Uploading artifacts... done"@,
        "##|10:40:01.000 [go] Job completed: build/1/compile (exit code: 0)"@,
    ]
}

fn step_text(i: usize) -> (r: String)
    requires
        i < 38,
    ensures
        r@ == step_line(i as int),
{
    let a = text::padded_decimal(i % 60);
    let b = text::padded_decimal((i * 7) % 60);
    let n = text::decimal_n(i);
    let ms = text::decimal_n(i * 37);
    let mut r = String::from_str("##|10:");
    r.append(a.as_str());
    r.append(":");
    r.append(b.as_str());
    r.append(".000 [go] Task: step ");
    r.append(n.as_str());
    r.append(": compiling module ");
    r.append(n.as_str());
    r.append("... ok (");
    r.append(ms.as_str());
    r.append("ms)");
    r
}

fn tail_line(i: usize) -> (r: &'static str)
    requires
        38 <= i < 46,
    ensures
        r@ == log_lines()[i as int],
{
    if i == 38 {
        "&2|10:38:02.100 WARN  deprecated flag --legacy-resolver will be removed"
    } else if i == 39 {
        "##|10:38:44.000 [go] Running 214 tests across 12 suites"
    } else if i == 40 {
        "##|10:39:01.000 café-service: 完了 (unicode is fine here)"
    } else if i == 41 {
        "!!|10:39:12.480 ERROR failed to publish artifact: connection reset"
    } else if i == 42 {
        "##|10:39:13.000 [go] Retrying upload (attempt 2 of 3)... ok"
    } else if i == 43 {
        "##|10:39:58.900 [go] All 214 tests passed."
    } else if i == 44 {
        "##|10:40:00.120 [go] Uploading artifacts... done"
    } else {
        "##|10:40:01.000 [go] Job completed: build/1/compile (exit code: 0)"
    }
}

/// The lines of the log from line `from` on.
pub open spec fn lines_from(from: int) -> Seq<Seq<char>> {
    if from < 46 {
        log_lines().skip(from)
    } else {
        Seq::empty()
    }
}

/// The log from line `start_line` on, with the prefixes, severities and unicode
/// that colouring and search have to handle.
pub fn console_log(start_line: usize) -> (r: String)
    ensures
        r@ == text::joined(lines_from(start_line as int), "\n"@),
{
    let mut lines: Vec<String> = Vec::new();
    let ghost from = if start_line < 46 {
        start_line as int
    } else {
        46
    };
    let mut i: usize = if start_line < 46 { start_line } else { 46 };
    assert(lines.deep_view() =~= log_lines().subrange(from, from));
    while i < 46
        invariant
            0 <= from <= i <= 46,
            lines.deep_view() == log_lines().subrange(from, i as int),
        decreases 46 - i,
    {
        let t = if i < 38 { step_text(i) } else { text::owned(tail_line(i)) };
        let ghost before = lines.deep_view();
        lines.push(t);
        assert(lines.deep_view() =~= before.push(t@));
        assert(log_lines()[i as int] == t@);
        assert(log_lines().subrange(from, i + 1) =~= before.push(log_lines()[i as int]));
        i = i + 1;
    }
    assert(lines.deep_view() =~= lines_from(start_line as int));
    text::join(&lines, "\n")
}

// ---- artifacts and views -------------------------------------------------

pub const ARTIFACTS: &'static str = r#"[
      {"name": "cruise-output", "type": "folder", "files": [
        {"name": "console.log", "type": "file", "url": "https://demo.invalid/files/console.log"},
        {"name": "md5.checksum", "type": "file", "url": "https://demo.invalid/files/md5.checksum"}
      ]},
      {"name": "dist", "type": "folder", "files": [
        {"name": "app.tar.gz", "type": "file", "url": "https://demo.invalid/files/app.tar.gz"},
        {"name": "sourcemaps", "type": "folder", "files": [
          {"name": "app.js.map", "type": "file", "url": "https://demo.invalid/files/app.js.map"}
        ]}
      ]},
      {"name": "test-reports", "type": "folder", "files": [
        {"name": "junit.xml", "type": "file", "url": "https://demo.invalid/files/junit.xml"},
        {"name": "coverage.html", "type": "file", "url": "https://demo.invalid/files/coverage.html"}
      ]}
    ]"#;

pub fn artifacts_json() -> (r: &'static str)
    ensures
        r@ == ARTIFACTS@,
{
    ARTIFACTS
}

pub const VIEWS: &'static str = r#"{"filters": [
      {"name": "Default", "type": "blacklist", "state": [], "pipelines": []},
      {"name": "frontend only", "type": "whitelist", "state": [],
       "pipelines": ["web-app-build", "web-app-deploy-staging", "web-app-deploy-prod", "design-system-publish"]},
      {"name": "prod only", "type": "whitelist", "state": [],
       "pipelines": ["web-app-deploy-prod", "api-deploy-prod"]}
    ]}"#;

pub fn views_json() -> (r: &'static str)
    ensures
        r@ == VIEWS@,
{
    VIEWS
}

} // verus!
