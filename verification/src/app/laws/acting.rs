//! What actions on pipelines are for: the right one, on the right target, and only
//! after it was confirmed.

use vstd::prelude::*;
use vstd::string::*;

use crate::api::{BodyView, CallView, GoCdClientView, Verb};
use crate::app::actions::{active_place, failed_place};
use crate::app::hints::env_var;
use crate::app::laws::console::plain;
use crate::app::{
    ApiEvent, AppView, DetailRow, EffectView, Focus, KeyCode, ModalView, PendingAction,
    PendingActionView, RowView, TriggerVarsFormView,
};
use crate::model::StageInstanceView;
use crate::text;

verus! {

// ---- requests ------------------------------------------------------------

/// Whether a text ends in another.
pub open spec fn ends_in(s: Seq<char>, tail: Seq<char>) -> bool {
    s.len() >= tail.len() && s.subrange(s.len() - tail.len(), s.len() as int) == tail
}

/// Whether a text starts with another.
pub open spec fn starts_with(s: Seq<char>, head: Seq<char>) -> bool {
    s.len() >= head.len() && s.subrange(0, head.len() as int) == head
}

/// The last part of the URL that carries out an action.
pub open spec fn verb_of(a: PendingActionView) -> Seq<char> {
    match a {
        PendingActionView::Trigger(_) => "/schedule"@,
        PendingActionView::TriggerWithVars { .. } => "/schedule"@,
        PendingActionView::Pause(_) => "/pause"@,
        PendingActionView::Unpause(_) => "/unpause"@,
        PendingActionView::CancelStage { .. } => "/cancel"@,
        PendingActionView::RerunFailedJobs { .. } => "/run-failed-jobs"@,
        PendingActionView::RerunStage { .. } => "/run"@,
    }
}

proof fn lemma_tail(a: Seq<char>, b: Seq<char>, tail: Seq<char>)
    requires
        b == tail,
    ensures
        ends_in(a + b, tail),
{
    assert((a + b).subrange(a.len() as int, (a + b).len() as int) =~= tail);
}

proof fn lemma_stage_tail(a: Seq<char>, verb: Seq<char>, tail: Seq<char>)
    requires
        tail == "/"@ + verb,
    ensures
        ends_in(a + "/"@ + verb, tail),
{
    assert(a + "/"@ + verb =~= a + tail);
    lemma_tail(a, tail, tail);
}

proof fn lemma_verbs()
    ensures
        "/run-failed-jobs"@ == "/"@ + "run-failed-jobs"@,
        "/run"@ == "/"@ + "run"@,
        "/cancel"@ == "/"@ + "cancel"@,
{
    reveal_strlit("/");
    reveal_strlit("run-failed-jobs");
    reveal_strlit("/run-failed-jobs");
    reveal_strlit("run");
    reveal_strlit("/run");
    reveal_strlit("cancel");
    reveal_strlit("/cancel");
    assert("/run-failed-jobs"@ =~= "/"@ + "run-failed-jobs"@);
    assert("/run"@ =~= "/"@ + "run"@);
    assert("/cancel"@ =~= "/"@ + "cancel"@);
}

/// On a server an action is one confirmed request that changes something. It goes to
/// that server, and its URL ends in what the action is: `/run-failed-jobs` runs the
/// failed jobs again, `/run` the whole stage, `/cancel` stops it, `/pause` and
/// `/unpause` do that, and `/schedule` starts a run. In the demo nothing is sent.
pub proof fn requests_do_what_the_action_says(a: PendingActionView, c: GoCdClientView)
    ensures
        c.demo ==> a.call(c) == CallView::Done,
        !c.demo ==> (a.call(c) matches CallView::Send(req) && {
            &&& req.verb == Verb::Post
            &&& starts_with(req.url, c.base_url)
            &&& ends_in(req.url, verb_of(a))
            &&& req.headers.contains(("X-GoCD-Confirm"@, "true"@))
            &&& req.query is None
            &&& c.token matches Some(t) ==> req.credential == crate::api::CredentialView::Bearer(t)
        }),
{
    lemma_verbs();
    if !c.demo {
        let req = a.call(c)->Send_0;
        let h = req.headers;
        assert(h[1] == ("X-GoCD-Confirm"@, "true"@));
        match a {
            PendingActionView::Trigger(n) => {
                let path = "/api/pipelines/"@ + crate::api::encoded(n);
                assert(req.url =~= c.base_url + path + "/schedule"@);
                lemma_tail(c.base_url + path, "/schedule"@, "/schedule"@);
            },
            PendingActionView::TriggerWithVars { pipeline, .. } => {
                let path = "/api/pipelines/"@ + crate::api::encoded(pipeline);
                assert(req.url =~= c.base_url + path + "/schedule"@);
                lemma_tail(c.base_url + path, "/schedule"@, "/schedule"@);
            },
            PendingActionView::Pause(n) => {
                let path = "/api/pipelines/"@ + crate::api::encoded(n);
                assert(req.url =~= c.base_url + path + "/pause"@);
                lemma_tail(c.base_url + path, "/pause"@, "/pause"@);
            },
            PendingActionView::Unpause(n) => {
                let path = "/api/pipelines/"@ + crate::api::encoded(n);
                assert(req.url =~= c.base_url + path + "/unpause"@);
                lemma_tail(c.base_url + path, "/unpause"@, "/unpause"@);
            },
            PendingActionView::CancelStage { pipeline, pipeline_counter, stage, stage_counter } => {
                lemma_stage_url(c, pipeline, pipeline_counter, stage, stage_counter, "cancel"@, "/cancel"@);
            },
            PendingActionView::RerunFailedJobs {
                pipeline,
                pipeline_counter,
                stage,
                stage_counter,
            } => {
                lemma_stage_url(
                    c,
                    pipeline,
                    pipeline_counter,
                    stage,
                    stage_counter,
                    "run-failed-jobs"@,
                    "/run-failed-jobs"@,
                );
            },
            PendingActionView::RerunStage { pipeline, pipeline_counter, stage, stage_counter } => {
                lemma_stage_url(c, pipeline, pipeline_counter, stage, stage_counter, "run"@, "/run"@);
            },
        }
        assert(req.url.subrange(0, c.base_url.len() as int) =~= c.base_url);
    }
}

proof fn lemma_stage_url(
    c: GoCdClientView,
    pipeline: Seq<char>,
    counter: i64,
    stage: Seq<char>,
    stage_counter: Seq<char>,
    verb: Seq<char>,
    tail: Seq<char>,
)
    requires
        tail == "/"@ + verb,
    ensures
        ends_in(
            c.base_url + crate::api::stage_path(pipeline, counter, stage, stage_counter, verb),
            tail,
        ),
{
    let path = "/api/stages/"@ + crate::api::encoded(pipeline) + "/"@ + text::dec_int(
        counter as int,
    ) + "/"@ + crate::api::encoded(stage) + "/"@ + crate::api::encoded(stage_counter);
    assert(c.base_url + crate::api::stage_path(pipeline, counter, stage, stage_counter, verb)
        =~= (c.base_url + path) + "/"@ + verb);
    lemma_stage_tail(c.base_url + path, verb, tail);
}

proof fn lemma_one_tail(s: Seq<char>, a: Seq<char>, b: Seq<char>)
    requires
        ends_in(s, a),
        ends_in(s, b),
        a.len() <= b.len(),
    ensures
        ends_in(b, a),
{
    let k = b.len() - a.len();
    assert(b.subrange(k, b.len() as int) =~= a) by {
        assert forall|i: int| 0 <= i < a.len() implies b[k + i] == a[i] by {
            let x = s.subrange(s.len() - a.len(), s.len() as int);
            let y = s.subrange(s.len() - b.len(), s.len() as int);
            assert(x[i] == s[s.len() - a.len() + i]);
            assert(y[k + i] == s[s.len() - b.len() + k + i]);
        }
    }
}

/// Two actions of different kinds never share a request, but for the two that start a
/// run, which differ by what they carry.
pub proof fn actions_can_be_told_apart(
    a: PendingActionView,
    b: PendingActionView,
    c: GoCdClientView,
)
    requires
        !c.demo,
        verb_of(a) != verb_of(b) || a is Trigger && b is TriggerWithVars,
    ensures
        a.call(c) != b.call(c),
{
    requests_do_what_the_action_says(a, c);
    requests_do_what_the_action_says(b, c);
    if verb_of(a) != verb_of(b) {
        if a.call(c) == b.call(c) {
            let url = a.call(c)->Send_0.url;
            reveal_strlit("/schedule");
            reveal_strlit("/pause");
            reveal_strlit("/unpause");
            reveal_strlit("/cancel");
            reveal_strlit("/run-failed-jobs");
            reveal_strlit("/run");
            let (x, y) = if verb_of(a).len() <= verb_of(b).len() {
                (verb_of(a), verb_of(b))
            } else {
                (verb_of(b), verb_of(a))
            };
            lemma_one_tail(url, x, y);
            assert(y.subrange(y.len() - x.len(), y.len() as int)[0] == '/');
            assert(y[y.len() - x.len()] == '/');
            assert(y[0] == '/');
            assert(x.len() == y.len());
            assert(y.subrange(0, y.len() as int) =~= y);
        }
    }
}

/// What a run is started with goes along, as it was entered and not as secrets.
pub proof fn variables_go_along(
    pipeline: Seq<char>,
    vars: Seq<(Seq<char>, Seq<char>)>,
    cause: Seq<char>,
    c: GoCdClientView,
)
    requires
        !c.demo,
    ensures
        (PendingActionView::TriggerWithVars { pipeline, vars }).call(c) matches CallView::Send(r)
            && r.body == (BodyView::Variables { vars, secure: false, update_materials: true }),
        PendingActionView::Trigger(pipeline).call(c) matches CallView::Send(r) && r.body
            == BodyView::Text("{}"@),
        PendingActionView::Pause(pipeline).call(c) matches CallView::Send(r)
            && r.body is PauseCause,
{
}

// ---- asking --------------------------------------------------------------

/// The pipeline that the cursor is on in the tree, or else the open one.
pub open spec fn target_of(v: AppView) -> Option<Seq<char>> {
    if v.focus != Focus::Groups {
        v.selected_pipeline
    } else if v.selected < v.rows.len() {
        match v.rows[v.selected as int] {
            RowView::FavoritePipeline(name) => Some(name),
            RowView::Pipeline { group_idx, pipeline_idx } => if group_idx < v.groups.len()
                && pipeline_idx < v.groups[group_idx as int].pipelines.len() {
                Some(v.groups[group_idx as int].pipelines[pipeline_idx as int])
            } else {
                None
            },
            _ => None,
        }
    } else {
        None
    }
}

/// Whether keys go to the panes.
pub open spec fn in_panes(v: AppView) -> bool {
    v.modal is None && !v.filter_active
}

/// The action that a state asks to confirm.
pub open spec fn asked(v: AppView) -> Option<PendingActionView> {
    match v.modal {
        Some(ModalView::Confirm { action, .. }) => Some(action),
        _ => None,
    }
}

/// `t` asks whether to trigger the target, and `p` whether to pause it, or to unpause
/// it where it is paused. Nothing is done yet. Without a target nothing is asked.
pub proof fn triggering_and_pausing_are_asked_first(v: AppView, now: u64)
    requires
        in_panes(v),
    ensures
        ({
            let t = v.keyed(plain(KeyCode::Char('t')), now);
            let p = v.keyed(plain(KeyCode::Char('p')), now);
            &&& t.outbox == v.outbox && p.outbox == v.outbox
            &&& match target_of(v) {
                Some(name) => {
                    &&& asked(t) == Some(PendingActionView::Trigger(name))
                    &&& asked(p) == Some(
                        if v.pipeline_info.dom().contains(name)
                            && v.pipeline_info[name].pause_info.paused {
                            PendingActionView::Unpause(name)
                        } else {
                            PendingActionView::Pause(name)
                        },
                    )
                },
                None => t.modal is None && p.modal is None,
            }
        }),
{
    reveal(AppView::keyed);
    reveal(AppView::pane_keyed);
    reveal(AppView::motion);
    reveal(AppView::action_keyed);
    reveal(AppView::trigger_asked);
    reveal(AppView::pause_asked);
}

proof fn lemma_active_place(stages: Seq<StageInstanceView>, from: int, k: int)
    requires
        0 <= from <= k < stages.len(),
        stages[k].status == Some("Building"@) || stages[k].status == Some("Scheduled"@),
        forall|i: int|
            from <= i < k ==> (#[trigger] stages[i]).status != Some("Building"@)
                && stages[i].status != Some("Scheduled"@),
    ensures
        active_place(stages, from) == k,
    decreases k - from,
{
    if from < k {
        assert(stages[from].status != Some("Building"@));
        lemma_active_place(stages, from + 1, k);
    }
}

proof fn lemma_no_active(stages: Seq<StageInstanceView>, from: int)
    requires
        0 <= from <= stages.len(),
        forall|i: int|
            from <= i < stages.len() ==> (#[trigger] stages[i]).status != Some("Building"@)
                && stages[i].status != Some("Scheduled"@),
    ensures
        active_place(stages, from) == stages.len(),
    decreases stages.len() - from,
{
    if from < stages.len() {
        assert(stages[from].status != Some("Building"@));
        lemma_no_active(stages, from + 1);
    }
}

/// `X` asks whether to cancel the first stage of the newest run that is building or
/// scheduled.
pub proof fn the_running_stage_is_cancelled(
    v: AppView,
    name: Seq<char>,
    k: int,
    counter: Seq<char>,
    now: u64,
)
    requires
        in_panes(v),
        v.selected_pipeline == Some(name),
        v.history.len() > 0,
        0 <= k < v.history[0].stages.len(),
        v.history[0].stages[k].status == Some("Building"@) || v.history[0].stages[k].status == Some(
            "Scheduled"@,
        ),
        forall|i: int|
            0 <= i < k ==> (#[trigger] v.history[0].stages[i]).status != Some("Building"@)
                && v.history[0].stages[i].status != Some("Scheduled"@),
        v.history[0].stages[k].counter == Some(counter),
    ensures
        asked(v.keyed(plain(KeyCode::Char('X')), now)) == Some(
            PendingActionView::CancelStage {
                pipeline: name,
                pipeline_counter: v.history[0].counter,
                stage: v.history[0].stages[k].name,
                stage_counter: counter,
            },
        ),
        v.keyed(plain(KeyCode::Char('X')), now).outbox == v.outbox,
{
    reveal(AppView::keyed);
    reveal(AppView::pane_keyed);
    reveal(AppView::motion);
    reveal(AppView::action_keyed);
    reveal(AppView::cancel_asked);
    lemma_active_place(v.history[0].stages, 0, k);
}

/// Where no stage of the newest run is building or scheduled, there is nothing to
/// cancel.
pub proof fn a_finished_run_is_not_cancelled(v: AppView, now: u64)
    requires
        in_panes(v),
        v.history.len() > 0,
        forall|i: int|
            0 <= i < v.history[0].stages.len() ==> (#[trigger] v.history[0].stages[i]).status
                != Some("Building"@) && v.history[0].stages[i].status != Some("Scheduled"@),
    ensures
        v.keyed(plain(KeyCode::Char('X')), now).modal is None,
        v.keyed(plain(KeyCode::Char('X')), now).outbox == v.outbox,
{
    reveal(AppView::keyed);
    reveal(AppView::pane_keyed);
    reveal(AppView::motion);
    reveal(AppView::action_keyed);
    reveal(AppView::cancel_asked);
    lemma_no_active(v.history[0].stages, 0);
}

proof fn lemma_failed_place(stages: Seq<StageInstanceView>, from: int, k: int)
    requires
        0 <= from <= k < stages.len(),
        stages[k].status == Some("Failed"@),
        forall|i: int| from <= i < k ==> (#[trigger] stages[i]).status != Some("Failed"@),
    ensures
        failed_place(stages, from) == k,
    decreases k - from,
{
    if from < k {
        assert(stages[from].status != Some("Failed"@));
        lemma_failed_place(stages, from + 1, k);
    }
}

/// The stage that the cursor is on in the details.
pub open spec fn stage_at_hand(v: AppView) -> Option<usize> {
    if v.focus == Focus::Detail && v.detail_selected < v.detail_rows.len() {
        match v.detail_rows[v.detail_selected as int] {
            DetailRow::Stage(s) => Some(s),
            DetailRow::Job(s, _) => Some(s),
        }
    } else {
        None
    }
}

/// `R` asks whether to run the failed jobs again, of the stage at hand where that
/// failed, and else of the first stage of the selected run that failed.
pub proof fn a_failed_stage_is_run_again(
    v: AppView,
    name: Seq<char>,
    k: int,
    counter: Seq<char>,
    now: u64,
)
    requires
        in_panes(v),
        v.focus != Focus::Groups,
        v.selected_pipeline == Some(name),
        v.history_selected < v.history.len(),
        ({
            let stages = v.history[v.history_selected as int].stages;
            &&& 0 <= k < stages.len()
            &&& stages[k].status == Some("Failed"@)
            &&& stages[k].counter == Some(counter)
            &&& stage_at_hand(v) == Some(k as usize) || {
                &&& forall|i: int| 0 <= i < k ==> (#[trigger] stages[i]).status != Some("Failed"@)
                &&& stage_at_hand(v) matches Some(s) ==> s >= stages.len()
                    || stages[s as int].status != Some("Failed"@)
            }
            &&& stages.len() <= usize::MAX
        }),
    ensures
        asked(v.keyed(plain(KeyCode::Char('R')), now)) == Some(
            PendingActionView::RerunFailedJobs {
                pipeline: name,
                pipeline_counter: v.history[v.history_selected as int].counter,
                stage: v.history[v.history_selected as int].stages[k].name,
                stage_counter: counter,
            },
        ),
        v.keyed(plain(KeyCode::Char('R')), now).outbox == v.outbox,
{
    reveal(AppView::keyed);
    reveal(AppView::pane_keyed);
    reveal(AppView::motion);
    reveal(AppView::action_keyed);
    reveal(AppView::rerun_asked);
    let run = v.history[v.history_selected as int];
    if stage_at_hand(v) != Some(k as usize) {
        lemma_failed_place(run.stages, 0, k);
    }
    let ss = crate::model::stage_statuses(run.stages);
    assert(ss[k] == Some("Failed"@));
    assert(ss.contains(Some("Failed"@)));
    reveal_strlit("Failed");
    reveal_strlit("Passed");
    assert("Failed"@[0] == 'F' && "Passed"@[0] == 'P');
}

// ---- answering -----------------------------------------------------------

/// `y` and Enter do what was asked, that and once, and close the question. `n` and
/// Esc close it and do nothing. `a` makes a rerun of failed jobs one of the whole
/// stage. Any other key leaves the question open and does nothing.
pub proof fn only_yes_does_it(
    v: AppView,
    action: PendingActionView,
    message: Seq<char>,
    code: KeyCode,
    now: u64,
)
    requires
        v.modal == Some(ModalView::Confirm { action, message }),
    ensures
        ({
            let w = v.keyed(plain(code), now);
            if code == KeyCode::Char('y') || code == KeyCode::Enter {
                &&& w.modal is None
                &&& w.outbox == v.outbox.push(EffectView::RunAction(action))
            } else if code == KeyCode::Char('a') && action is RerunFailedJobs {
                &&& w.modal is None
                &&& w.outbox.len() == v.outbox.len() + 1
                &&& w.outbox[v.outbox.len() as int] matches EffectView::RunAction(b)
                &&& b is RerunStage
                &&& b->RerunStage_pipeline == action->RerunFailedJobs_pipeline
                &&& b->RerunStage_pipeline_counter == action->RerunFailedJobs_pipeline_counter
                &&& b->RerunStage_stage == action->RerunFailedJobs_stage
                &&& b->RerunStage_stage_counter == action->RerunFailedJobs_stage_counter
            } else if code == KeyCode::Char('n') || code == KeyCode::Esc {
                w.modal is None && w.outbox == v.outbox
            } else {
                w.modal == v.modal && w.outbox == v.outbox
            }
        }),
{
    reveal(AppView::keyed);
    reveal(AppView::modal_keyed);
    reveal(AppView::confirm_keyed);
    reveal(AppView::acting);
}

/// `T` asks for variables for the target, with none so far. Each entry is added to
/// those before it, an entry that is no variable is refused and kept, and an empty one
/// leads to the question. `y` then starts the run with exactly those variables.
pub proof fn variables_are_collected(
    v: AppView,
    form: TriggerVarsFormView,
    now: u64,
)
    requires
        v.modal == Some(ModalView::TriggerVars(form)),
    ensures
        form.confirming ==> {
            &&& v.keyed(plain(KeyCode::Char('y')), now).outbox == v.outbox.push(
                EffectView::RunAction(
                    PendingActionView::TriggerWithVars { pipeline: form.pipeline, vars: form.vars },
                ),
            )
            &&& v.keyed(plain(KeyCode::Char('y')), now).modal is None
            &&& v.keyed(plain(KeyCode::Char('n')), now).modal is None
            &&& v.keyed(plain(KeyCode::Char('n')), now).outbox == v.outbox
            &&& v.keyed(plain(KeyCode::Backspace), now).modal matches Some(
                ModalView::TriggerVars(f),
            ) && !f.confirming && f.vars == form.vars && f.pipeline == form.pipeline
        },
        v.keyed(plain(KeyCode::Esc), now).modal is None,
        v.keyed(plain(KeyCode::Esc), now).outbox == v.outbox,
        !form.confirming ==> {
            let w = v.keyed(plain(KeyCode::Enter), now);
            let entry = text::trimmed(form.input);
            &&& w.outbox == v.outbox
            &&& w.modal matches Some(ModalView::TriggerVars(f)) && f.pipeline == form.pipeline && {
                if entry.len() == 0 {
                    f.confirming && f.vars == form.vars
                } else {
                    match env_var(entry) {
                        Some(var) => !f.confirming && f.vars == form.vars.push(var)
                            && f.input.len() == 0 && f.error is None,
                        None => !f.confirming && f.vars == form.vars && f.error is Some && f.input
                            == form.input,
                    }
                }
            }
        },
{
    reveal(AppView::keyed);
    reveal(AppView::modal_keyed);
    reveal(AppView::vars_keyed);
    reveal(AppView::acting);
}

/// `T` opens the form for variables of the target, empty.
pub proof fn variables_start_with_none(v: AppView, name: Seq<char>, now: u64)
    requires
        in_panes(v),
        target_of(v) == Some(name),
    ensures
        v.keyed(plain(KeyCode::Char('T')), now).modal matches Some(ModalView::TriggerVars(f))
            && f.pipeline == name && f.vars.len() == 0 && f.input.len() == 0 && !f.confirming,
        v.keyed(plain(KeyCode::Char('T')), now).outbox == v.outbox,
{
    reveal(AppView::keyed);
    reveal(AppView::pane_keyed);
    reveal(AppView::motion);
    reveal(AppView::action_keyed);
    reveal(AppView::trigger_vars_asked);
}

/// An entry is a variable exactly where it has an equals sign with more than blanks
/// before the first one: the name is that without blanks around, and the value all
/// that follows, as it is.
pub proof fn variables_split_at_the_first_equals_sign(entry: Seq<char>, k: int)
    requires
        0 <= k < entry.len(),
        entry[k] == '=',
        forall|i: int| 0 <= i < k ==> #[trigger] entry[i] != '=',
    ensures
        env_var(entry) == if text::trimmed(entry.take(k)).len() == 0 {
            None
        } else {
            Some((text::trimmed(entry.take(k)), entry.skip(k + 1)))
        },
{
    text::lemma_span(entry, '=', k);
    assert(entry.contains('=')) by {
        assert(entry[k] == '=');
    }
}

/// Without an equals sign an entry is no variable.
pub proof fn no_variable_without_equals_sign(entry: Seq<char>)
    requires
        forall|i: int| 0 <= i < entry.len() ==> #[trigger] entry[i] != '=',
    ensures
        env_var(entry) is None,
{
}

// ---- when it is done -----------------------------------------------------

/// A pipeline that was paused is shown as paused, and one that was unpaused as not;
/// nothing else about it changes. After any other action on the open pipeline its
/// history is asked for.
pub proof fn what_was_done_shows(v: AppView, action: PendingAction, msg: String, name: Seq<char>)
    ensures
        ({
            let w = v.after_event(ApiEvent::ActionDone(action, Ok(msg)));
            let a = action.deep_view();
            &&& w.status_line == msg@
            &&& a == PendingActionView::Pause(name) && v.pipeline_info.dom().contains(name) ==> {
                &&& w.pipeline_info.dom().contains(name)
                &&& w.pipeline_info[name].pause_info.paused
                &&& w.pipeline_info[name].embedded == v.pipeline_info[name].embedded
                &&& w.outbox == v.outbox
            }
            &&& a == PendingActionView::Unpause(name) && v.pipeline_info.dom().contains(name) ==> {
                &&& w.pipeline_info.dom().contains(name)
                &&& !w.pipeline_info[name].pause_info.paused
                &&& w.pipeline_info[name].embedded == v.pipeline_info[name].embedded
                &&& w.outbox == v.outbox
            }
            &&& a == PendingActionView::Trigger(name) ==> {
                &&& w.pipeline_info == v.pipeline_info
                &&& w.outbox == if v.selected_pipeline == Some(name) {
                    v.outbox.push(EffectView::LoadHistory(name))
                } else {
                    v.outbox
                }
            }
        }),
{
    reveal(AppView::after_event);
    reveal(AppView::action_done);
}

/// An action that failed is said to have failed, with the reason, and nothing is
/// taken as done.
pub proof fn what_failed_is_said(v: AppView, action: PendingAction, e: String)
    ensures
        ({
            let w = v.after_event(ApiEvent::ActionDone(action, Err(e)));
            &&& w.error_line is Some
            &&& text::has(w.error_line->0, e@)
            &&& w.pipeline_info == v.pipeline_info
            &&& w.outbox == v.outbox
            &&& w.status_line == v.status_line
        }),
{
    reveal(AppView::after_event);
    reveal(AppView::action_done);
    let w = v.after_event(ApiEvent::ActionDone(action, Err(e)));
    let head = "Action on "@ + action.deep_view().pipeline() + " failed: "@;
    let line = w.error_line->0;
    assert(line.subrange(head.len() as int, (head.len() + e@.len()) as int) =~= e@);
    assert(text::occurs_at(line, e@, head.len() as int));
}

} // verus!
