//! What holds of every request, and of what is made of the answers.

use vstd::prelude::*;
use vstd::string::*;

use crate::api::{
    ascii_lowered, artifacts_call, cancel_call, client_of, dashboard_call, encoded,
    encoding_stays_in_its_segment, history_call, instance_call, is_success, log_call, pause_call,
    picked, refusal, rerun_call, run_place, save_view_call, send_failure_text, shortened,
    trigger_call, trigger_vars_call, unpause_call, views_call, without_all, BodyView, CallView,
    CredentialView, GoCdClientView, RequestView, Verb,
};
use crate::app::laws::acting::{ends_in, starts_with};
use crate::config::ConfigView;
use crate::model::{cursor_of, first_after, PipelineInstanceView, ViewFilterView};
use crate::text;
use crate::text::laws::{numbers_are_parsed, numbers_are_read_back, the_first_one_cuts};

verus! {

/// Whether a request carries a header.
pub open spec fn carries(req: RequestView, name: Seq<char>, value: Seq<char>) -> bool {
    req.headers.contains((name, value))
}

/// Whether a request has no header of that name.
pub open spec fn lacks(req: RequestView, name: Seq<char>) -> bool {
    forall|i: int| 0 <= i < req.headers.len() ==> (#[trigger] req.headers[i]).0 != name
}

/// Who a request is sent as: a token alone where there is one, else the user
/// with the password, else nobody.
pub open spec fn sent_as(req: RequestView, c: GoCdClientView) -> bool {
    match req.credential {
        CredentialView::Bearer(t) => c.token == Some(t),
        CredentialView::Basic(u, p) => c.token is None && c.username == Some(u) && c.password == p,
        CredentialView::Anonymous => c.token is None && c.username is None,
    }
}

proof fn lemma_names()
    ensures
        "Accept"@ != "If-None-Match"@,
        "Accept"@ != "If-Match"@,
        "Content-Type"@ != "If-Match"@,
{
    reveal_strlit("Accept");
    reveal_strlit("If-None-Match");
    reveal_strlit("If-Match");
    reveal_strlit("Content-Type");
    assert("Accept"@[0] != "If-None-Match"@[0]);
    assert("Accept"@[0] != "If-Match"@[0]);
    assert("Content-Type"@[0] != "If-Match"@[0]);
}

// ---- what is asked -------------------------------------------------------

/// The dashboard is read as the user, with the tag of the last answer exactly
/// where there was one, and for the view exactly where one is asked for.
pub proof fn the_dashboard_is_read(
    c: GoCdClientView,
    etag: Option<Seq<char>>,
    view: Option<Seq<char>>,
)
    requires
        !c.demo,
    ensures
        dashboard_call(c, etag, view) matches CallView::Send(req) && {
            &&& req.verb == Verb::Get
            &&& req.url == c.base_url + "/api/dashboard"@
            &&& req.body is Nothing
            &&& sent_as(req, c)
            &&& etag is None ==> lacks(req, "If-None-Match"@)
            &&& etag is Some ==> carries(req, "If-None-Match"@, etag->0)
            &&& view is None ==> req.query is None
            &&& view is Some ==> req.query == Some(("viewName"@, view->0))
        },
{
    lemma_names();
    if let CallView::Send(req) = dashboard_call(c, etag, view) {
        if etag is Some {
            assert(req.headers[1] == ("If-None-Match"@, etag->0));
        }
    }
}


/// A page of history is read for its pipeline, and the next one from the cursor
/// on: the link that asks for it leads back to the same cursor.
pub proof fn a_history_is_read_from_its_cursor(
    c: GoCdClientView,
    name: Seq<char>,
    after: Option<u64>,
    now: int,
)
    requires
        !c.demo,
        !c.base_url.contains('?'),
    ensures
        history_call(c, name, after, now) matches CallView::Send(req) && {
            &&& req.verb == Verb::Get
            &&& sent_as(req, c)
            &&& starts_with(req.url, c.base_url + ("/api/pipelines/"@ + encoded(name) + "/history"@))
            &&& after is Some ==> cursor_of(req.url) == Some(after->0 as nat)
            &&& after is None ==> req.url == c.base_url + ("/api/pipelines/"@ + encoded(name)
                + "/history"@)
        },
{
    let head = "/api/pipelines/"@ + encoded(name);
    let whole = c.base_url + (head + "/history"@);
    assert(starts_with(whole, whole)) by {
        assert(whole.subrange(0, whole.len() as int) =~= whole);
    }
    if let Some(n) = after {
        reveal_strlit("/history?after=");
        reveal_strlit("/history");
        reveal_strlit("after=");
        let d = text::dec(n as nat);
        let q = "after="@ + d;
        assert("/history?after="@ =~= "/history"@.push('?') + "after="@);
        let url = c.base_url + (head + ("/history?after="@ + d));
        assert(url =~= whole.push('?') + q);
        assert(url.subrange(0, whole.len() as int) =~= whole);
        lemma_no_mark(c.base_url, name);
        lemma_leads_to(whole, n);
    }
}

/// Nothing before the query of a history request holds a question mark.
proof fn lemma_no_mark(base: Seq<char>, name: Seq<char>)
    requires
        !base.contains('?'),
    ensures
        !(base + ("/api/pipelines/"@ + encoded(name) + "/history"@)).contains('?'),
{
    reveal_strlit("/api/pipelines/");
    reveal_strlit("/history");
    let s = base + ("/api/pipelines/"@ + encoded(name) + "/history"@);
    encoding_stays_in_its_segment(vstd::utf8::encode_utf8(name));
    assert forall|i: int| 0 <= i < s.len() implies s[i] != '?' by {
        let b = base.len() as int;
        let e = encoded(name);
        if i < b {
            assert(s[i] == base[i]);
            assert(base.contains(base[i]));
        } else if i < b + 15 {
            assert(s[i] == "/api/pipelines/"@[i - b]);
        } else if i < b + 15 + e.len() {
            assert(s[i] == e[i - b - 15]);
        } else {
            assert(s[i] == "/history"@[i - b - 15 - e.len()]);
        }
    }
}

proof fn lemma_digits_only(s: Seq<char>, c: char)
    requires
        text::is_number(s),
        !text::is_digit(c),
    ensures
        !s.contains(c),
{
}

/// A link whose query is the cursor leads to it.
#[verifier::rlimit(40)]
proof fn lemma_leads_to(path: Seq<char>, n: u64)
    requires
        !path.contains('?'),
    ensures
        cursor_of(path.push('?') + ("after="@ + text::dec(n as nat))) == Some(n as nat),
{
    let d = text::dec(n as nat);
    let q = "after="@ + d;
    let href = path.push('?') + q;
    reveal_strlit("after=");
    numbers_are_read_back(n as nat);
    numbers_are_parsed(n as int, u64::MAX as nat);
    lemma_digits_only(d, '?');
    lemma_digits_only(d, '&');
    assert forall|i: int| 0 <= i < q.len() implies q[i] != '?' && q[i] != '&' by {
        if i < 6 {
            assert(q[i] == "after="@[i]);
        } else {
            assert(q[i] == d[i - 6]);
            assert(d.contains(d[i - 6]));
        }
    }
    the_first_one_cuts(path, '?', q);
    assert(href[path.len() as int] == '?');
    assert(href.contains('?'));
    assert(text::parts(q, '?') =~= seq![q]);
    assert(text::parts(href, '?') =~= seq![path, q]);
    assert(text::parts(q, '&') =~= seq![q]);
    assert(q.subrange(0, 6) =~= "after="@);
    assert(q.skip(6) =~= d);
    assert(text::after_prefix(q, "after="@) == Some(d));
    let ps = seq![q];
    assert(ps[0] == q);
    assert(text::parts(href, '?')[1] == q);
    assert(first_after(ps, "after="@) == Some(d));
}

/// The cursor of a page is what stands behind `after=` in its link; without a
/// query there is none.
pub proof fn the_link_names_the_cursor(path: Seq<char>, n: u64)
    requires
        !path.contains('?'),
    ensures
        cursor_of(path.push('?') + ("after="@ + text::dec(n as nat))) == Some(n as nat),
        cursor_of(path) is None,
{
    lemma_leads_to(path, n);
    assert(text::parts(path, '?') =~= seq![path]);
}

/// One run is read by its counter.
pub proof fn one_run_is_read(c: GoCdClientView, name: Seq<char>, counter: i64, now: int)
    requires
        !c.demo,
    ensures
        instance_call(c, name, counter, now) matches CallView::Send(req) && {
            &&& req.verb == Verb::Get
            &&& sent_as(req, c)
            &&& starts_with(req.url, c.base_url)
            &&& ends_in(
                req.url,
                "/api/pipelines/"@ + encoded(name) + ("/"@ + text::dec_int(counter as int)),
            )
        },
{
    let tail = "/api/pipelines/"@ + encoded(name) + ("/"@ + text::dec_int(counter as int));
    let url = c.base_url + tail;
    assert(url.subrange(0, c.base_url.len() as int) =~= c.base_url);
    assert(url.subrange(c.base_url.len() as int, url.len() as int) =~= tail);
}

/// The files of a job run, in the order of its coordinates.
pub open spec fn files_of(
    c: GoCdClientView,
    pipeline: Seq<char>,
    counter: i64,
    stage: Seq<char>,
    stage_counter: Seq<char>,
    job: Seq<char>,
) -> Seq<char> {
    c.base_url + text::joined(
        seq![
            "/files"@,
            encoded(pipeline),
            text::dec_int(counter as int),
            encoded(stage),
            encoded(stage_counter),
            encoded(job),
        ],
        "/"@,
    )
}

#[verifier::rlimit(40)]
proof fn lemma_files(
    c: GoCdClientView,
    pipeline: Seq<char>,
    counter: i64,
    stage: Seq<char>,
    stage_counter: Seq<char>,
    job: Seq<char>,
    tail: Seq<char>,
)
    ensures
        c.base_url + crate::api::job_path(pipeline, counter, stage, stage_counter, job, tail)
            == files_of(c, pipeline, counter, stage, stage_counter, job) + tail,
{
    let p = seq![
        "/files"@,
        encoded(pipeline),
        text::dec_int(counter as int),
        encoded(stage),
        encoded(stage_counter),
        encoded(job),
    ];
    let p5 = p.drop_last();
    let p4 = p5.drop_last();
    let p3 = p4.drop_last();
    let p2 = p3.drop_last();
    let p1 = p2.drop_last();
    let sep = "/"@;
    assert(text::joined(p1, sep) == p[0]);
    assert(text::joined(p2, sep) == p[0] + sep + p[1]);
    assert(text::joined(p3, sep) == text::joined(p2, sep) + sep + p[2]);
    assert(text::joined(p4, sep) == text::joined(p3, sep) + sep + p[3]);
    assert(text::joined(p5, sep) == text::joined(p4, sep) + sep + p[4]);
    assert(text::joined(p, sep) == text::joined(p5, sep) + sep + p[5]);
    reveal_strlit("/files");
    reveal_strlit("/files/");
    reveal_strlit("/");
    assert("/files/"@ =~= "/files"@ + "/"@);
    assert(c.base_url + crate::api::job_path(pipeline, counter, stage, stage_counter, job, tail)
        =~= files_of(c, pipeline, counter, stage, stage_counter, job) + tail);
}

/// The log of a job run is read from the line that is asked for on, and whole
/// from the first; its artifacts are read next to it.
#[verifier::rlimit(40)]
pub proof fn a_log_is_read_from_its_line(
    c: GoCdClientView,
    pipeline: Seq<char>,
    counter: i64,
    stage: Seq<char>,
    stage_counter: Seq<char>,
    job: Seq<char>,
    start: nat,
)
    requires
        !c.demo,
    ensures
        log_call(c, pipeline, counter, stage, stage_counter, job, start) matches CallView::Send(
            req,
        ) && {
            &&& req.verb == Verb::Get
            &&& sent_as(req, c)
            &&& starts_with(
                req.url,
                files_of(c, pipeline, counter, stage, stage_counter, job)
                    + "/cruise-output/console.log"@,
            )
            &&& start == 0 ==> ends_in(req.url, "/console.log"@)
            &&& start > 0 ==> ends_in(req.url, "?startLineNumber="@ + text::dec(start))
        },
        artifacts_call(c, pipeline, counter, stage, stage_counter, job) matches CallView::Send(
            req,
        ) && {
            &&& req.verb == Verb::Get
            &&& sent_as(req, c)
            &&& req.url == files_of(c, pipeline, counter, stage, stage_counter, job) + ".json"@
        },
{
    let f = files_of(c, pipeline, counter, stage, stage_counter, job);
    lemma_files(c, pipeline, counter, stage, stage_counter, job, ".json"@);
    lemma_files(c, pipeline, counter, stage, stage_counter, job, "/cruise-output/console.log"@);
    let d = text::dec(start);
    let long = "/cruise-output/console.log?startLineNumber="@ + d;
    lemma_files(c, pipeline, counter, stage, stage_counter, job, long);
    reveal_strlit("/cruise-output/console.log?startLineNumber=");
    reveal_strlit("/cruise-output/console.log");
    reveal_strlit("/console.log");
    reveal_strlit("?startLineNumber=");
    let log = "/cruise-output/console.log"@;
    assert("/cruise-output/console.log?startLineNumber="@ =~= log + "?startLineNumber="@);
    assert(f + long =~= (f + log) + ("?startLineNumber="@ + d));
    let whole = (f + log) + ("?startLineNumber="@ + d);
    assert(whole.subrange(0, (f + log).len() as int) =~= f + log);
    assert(whole.subrange((f + log).len() as int, whole.len() as int) =~= "?startLineNumber="@ + d);
    let plain = f + log;
    assert(plain.subrange(0, plain.len() as int) =~= plain);
    assert(plain.subrange(plain.len() - 12, plain.len() as int) =~= "/console.log"@);
}

/// Saving a view puts back the views with the new one among them, and only over
/// what was read: with the tag of that read exactly where it had one.
pub proof fn a_view_is_put_back(
    c: GoCdClientView,
    name: Seq<char>,
    pipelines: Seq<Seq<char>>,
    current: Seq<ViewFilterView>,
    etag: Option<Seq<char>>,
)
    requires
        !c.demo,
    ensures
        save_view_call(c, name, pipelines, current, etag) matches CallView::Send(req) && {
            &&& req.verb == Verb::Put
            &&& sent_as(req, c)
            &&& views_call(c) matches CallView::Send(read)
            &&& read.url == req.url
            &&& read.verb == Verb::Get
            &&& etag is None ==> lacks(req, "If-Match"@)
            &&& etag is Some ==> carries(req, "If-Match"@, etag->0)
            &&& req.body matches BodyView::Views(v)
            &&& exists|i: int|
                0 <= i < v.filters.len() && (#[trigger] v.filters[i]).name == name
                    && v.filters[i].pipelines == pipelines
            &&& current.len() <= v.filters.len() <= current.len() + 1
        },
{
    lemma_names();
    if let CallView::Send(req) = save_view_call(c, name, pipelines, current, etag) {
        if etag is Some {
            assert(req.headers[2] == ("If-Match"@, etag->0));
        }
        lemma_view_place(current, name);
        if let BodyView::Views(v) = req.body {
            let p = crate::api::view_place(current, name);
            if p < current.len() {
                assert(v.filters[p].name == name);
            } else {
                assert(v.filters.last().name == name);
                assert(v.filters[current.len() as int].pipelines == pipelines);
            }
        }
    }
}

proof fn lemma_view_place(views: Seq<ViewFilterView>, name: Seq<char>)
    ensures
        0 <= crate::api::view_place(views, name) <= views.len(),
    decreases views.len(),
{
    if views.len() > 0 && views[0].name != name {
        lemma_view_place(views.skip(1), name);
    }
}

/// Whether a call is a confirmed one that changes something.
pub open spec fn changes(call: CallView, c: GoCdClientView) -> bool {
    call matches CallView::Send(req) && req.verb == Verb::Post && carries(
        req,
        "X-GoCD-Confirm"@,
        "true"@,
    ) && sent_as(req, c)
}

/// Whatever changes something on the server is confirmed to it.
pub proof fn changes_are_confirmed(
    c: GoCdClientView,
    name: Seq<char>,
    vars: Seq<(Seq<char>, Seq<char>)>,
    cause: Seq<char>,
    counter: i64,
    stage: Seq<char>,
    stage_counter: Seq<char>,
    verb: Seq<char>,
)
    requires
        !c.demo,
    ensures
        changes(trigger_call(c, name), c),
        changes(trigger_vars_call(c, name, vars), c),
        changes(pause_call(c, name, cause), c),
        changes(unpause_call(c, name), c),
        changes(cancel_call(c, name, counter, stage, stage_counter), c),
        changes(rerun_call(c, name, counter, stage, stage_counter, verb), c),
{
    lemma_confirmed(trigger_call(c, name));
    lemma_confirmed(trigger_vars_call(c, name, vars));
    lemma_confirmed(pause_call(c, name, cause));
    lemma_confirmed(unpause_call(c, name));
    lemma_confirmed(cancel_call(c, name, counter, stage, stage_counter));
    lemma_confirmed(rerun_call(c, name, counter, stage, stage_counter, verb));
}

proof fn lemma_confirmed(call: CallView)
    requires
        call matches CallView::Send(req) && req.headers.len() > 1 && req.headers[1] == (
            "X-GoCD-Confirm"@,
            "true"@,
        ),
    ensures
        call matches CallView::Send(req) && carries(req, "X-GoCD-Confirm"@, "true"@),
{
    if let CallView::Send(req) = call {
        assert(req.headers.contains(req.headers[1]));
    }
}

/// The demo sends nothing, whatever it is asked.
pub proof fn the_demo_stays_at_home(
    c: GoCdClientView,
    name: Seq<char>,
    after: Option<u64>,
    counter: i64,
    now: int,
    stage: Seq<char>,
    stage_counter: Seq<char>,
    job: Seq<char>,
    start: nat,
    other: Option<Seq<char>>,
    names: Seq<Seq<char>>,
    current: Seq<ViewFilterView>,
    vars: Seq<(Seq<char>, Seq<char>)>,
)
    requires
        c.demo,
    ensures
        !(dashboard_call(c, other, other) is Send),
        !(history_call(c, name, after, now) is Send),
        !(instance_call(c, name, counter, now) is Send),
        !(views_call(c) is Send),
        !(save_view_call(c, name, names, current, other) is Send),
        !(artifacts_call(c, name, counter, stage, stage_counter, job) is Send),
        !(log_call(c, name, counter, stage, stage_counter, job, start) is Send),
        !(trigger_call(c, name) is Send),
        !(trigger_vars_call(c, name, vars) is Send),
        !(pause_call(c, name, job) is Send),
        !(unpause_call(c, name) is Send),
        !(cancel_call(c, name, counter, stage, stage_counter) is Send),
        !(rerun_call(c, name, counter, stage, stage_counter, job) is Send),
{
}

/// The client is for the configured server, however many slashes end its URL,
/// and as the configured user.
pub proof fn the_client_is_for_the_configured_server(cfg: ConfigView, server: Seq<char>, n: nat)
    requires
        cfg.server_url == server + text::repeated('/', n),
        server.len() == 0 || server.last() != '/',
    ensures
        client_of(cfg).base_url == server,
        client_of(cfg).token == cfg.auth_token,
        client_of(cfg).username == cfg.username,
        client_of(cfg).password == cfg.password,
        !client_of(cfg).demo,
{
    crate::text::laws::what_is_repeated_comes_off(server, '/', n);
}

// ---- what is answered ----------------------------------------------------

/// An answer is a success exactly in the two hundreds.
pub proof fn successes_are_the_two_hundreds(status: u16)
    ensures
        is_success(status) <==> status / 100 == 2,
{
}

/// A refusal says what was refused, with which status, and shows the body.
pub proof fn refusals_say_it_all(refused: Seq<char>, status: Seq<char>, body: Seq<char>)
    ensures
        text::has(refusal(refused, status, body), status),
        text::has(refusal(refused, status, body), refused),
        ends_in(refusal(refused, status, body), shortened(body)),
{
    let r = refusal(refused, status, body);
    let a = "GoCD returned "@;
    let b = a + status + " "@;
    let d = b + refused + ": "@;
    assert(r.subrange(a.len() as int, (a.len() + status.len()) as int) =~= status);
    assert(text::occurs_at(r, status, a.len() as int));
    assert(r.subrange(b.len() as int, (b.len() + refused.len()) as int) =~= refused);
    assert(text::occurs_at(r, refused, b.len() as int));
    assert(r.subrange(d.len() as int, r.len() as int) =~= shortened(body));
    assert(r.len() - shortened(body).len() == d.len());
}

/// A request that failed says why; where the certificate was rejected, in
/// whatever case that is said, it says what can be done instead.
pub proof fn failures_say_what_to_do(sending: Seq<char>, cause: Seq<char>)
    ensures
        starts_with(send_failure_text(sending, cause), sending),
        !text::has(ascii_lowered(cause), "certificate"@) ==> ends_in(
            send_failure_text(sending, cause),
            cause,
        ),
        text::has(ascii_lowered(cause), "certificate"@) ==> ends_in(
            send_failure_text(sending, cause),
            "set `insecure_skip_verify = true` in config.toml"@,
        ),
{
    let r = send_failure_text(sending, cause);
    assert(r.subrange(0, sending.len() as int) =~= sending);
    if text::has(ascii_lowered(cause), "certificate"@) {
        reveal_strlit(
            "the server's certificate was rejected. Add the server's CA to your trust store, or set `insecure_skip_verify = true` in config.toml",
        );
        reveal_strlit("set `insecure_skip_verify = true` in config.toml");
        let tail = "set `insecure_skip_verify = true` in config.toml"@;
        assert(r.subrange(r.len() - tail.len(), r.len() as int) =~= tail);
    } else {
        assert(r.subrange(r.len() - cause.len(), r.len() as int) =~= cause);
    }
}

/// The mark of the compression is taken out of a tag, everywhere, and nothing
/// else is.
pub proof fn marks_are_taken_out(a: Seq<char>, mark: Seq<char>, b: Seq<char>)
    requires
        mark.len() > 0,
        forall|i: int| 0 <= i < a.len() ==> !#[trigger] text::occurs_at(a + mark + b, mark, i),
        !text::has(b, mark),
    ensures
        without_all(a + mark + b, mark) == a + b,
        without_all(b, mark) == b,
{
    let s = a + mark + b;
    assert(s.subrange(a.len() as int, (a.len() + mark.len()) as int) =~= mark);
    assert(text::occurs_at(s, mark, a.len() as int));
    text::lemma_first_place(s, mark, a.len() as int);
    assert(s.take(a.len() as int) =~= a);
    assert(s.skip((a.len() + mark.len()) as int) =~= b);
    text::lemma_first_place_found(b, mark);
    reveal_with_fuel(without_all, 2);
    assert(without_all(b, mark) == b);
}

/// The run that was asked for is picked where it is there, and else the newest;
/// there is one to pick whenever there is any.
pub proof fn the_run_is_picked(runs: Seq<PipelineInstanceView>, counter: i64, k: int)
    requires
        0 <= k < runs.len(),
        runs[k].counter == counter || forall|i: int|
            0 <= i < runs.len() ==> (#[trigger] runs[i]).counter != counter,
    ensures
        picked(runs, counter) matches Some(run) && runs.contains(run) && {
            &&& runs[k].counter == counter ==> run.counter == counter
            &&& runs[k].counter != counter ==> run == runs[0]
        },
{
    lemma_run_place(runs, counter);
}

proof fn lemma_run_place(runs: Seq<PipelineInstanceView>, counter: i64)
    ensures
        ({
            let p = run_place(runs, counter);
            &&& 0 <= p <= runs.len()
            &&& p < runs.len() ==> runs[p].counter == counter
            &&& forall|i: int| 0 <= i < p ==> (#[trigger] runs[i]).counter != counter
        }),
    decreases runs.len(),
{
    if runs.len() > 0 && runs[0].counter != counter {
        let rest = runs.skip(1);
        lemma_run_place(rest, counter);
        assert forall|i: int| 0 <= i < run_place(runs, counter) implies (
        #[trigger] runs[i]).counter != counter by {
            if i > 0 {
                assert(rest[i - 1] == runs[i]);
            }
        }
    }
}

} // verus!
