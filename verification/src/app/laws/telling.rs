//! What is told: what an action is doing and has done, and what a run was built from.

use vstd::prelude::*;
use vstd::string::*;

use crate::api::{BodyView, CallView, GoCdClientView};
use crate::app::laws::acting::starts_with;
use crate::app::open::{
    comment_lines, material_lines, modification_lines, modifications_lines, revision_lines,
    revisions_lines,
};
use crate::app::clipboard::{base64_of, digit64};
use crate::app::{AppView, PendingActionView};
use crate::model::{MaterialRevisionView, ModificationView, PipelineInstanceView};
use crate::text;

verus! {

/// What an action that is done is told to have done.
pub open spec fn done_word(a: PendingActionView) -> Seq<char> {
    match a {
        PendingActionView::Trigger(_) => "Triggered "@,
        PendingActionView::TriggerWithVars { .. } => "Triggered "@,
        PendingActionView::Pause(_) => "Paused "@,
        PendingActionView::Unpause(_) => "Unpaused "@,
        PendingActionView::CancelStage { .. } => "Cancelled "@,
        PendingActionView::RerunFailedJobs { .. } => "Rerunning failed jobs of "@,
        PendingActionView::RerunStage { .. } => "Rerunning stage "@,
    }
}

/// What an action that was sent is told to be doing.
pub open spec fn doing_word(a: PendingActionView) -> Seq<char> {
    match a {
        PendingActionView::Trigger(_) => "Triggering "@,
        PendingActionView::TriggerWithVars { .. } => "Triggering "@,
        PendingActionView::Pause(_) => "Pausing "@,
        PendingActionView::Unpause(_) => "Unpausing "@,
        PendingActionView::CancelStage { .. } => "Cancelling "@,
        PendingActionView::RerunFailedJobs { .. } => "Rerunning failed jobs of "@,
        PendingActionView::RerunStage { .. } => "Rerunning stage "@,
    }
}

/// The pipeline that an action is on.
pub open spec fn on(a: PendingActionView) -> Seq<char> {
    match a {
        PendingActionView::Trigger(n) => n,
        PendingActionView::Pause(n) => n,
        PendingActionView::Unpause(n) => n,
        PendingActionView::TriggerWithVars { pipeline, .. } => pipeline,
        PendingActionView::CancelStage { pipeline, .. } => pipeline,
        PendingActionView::RerunFailedJobs { pipeline, .. } => pipeline,
        PendingActionView::RerunStage { pipeline, .. } => pipeline,
    }
}

proof fn lemma_told(head: Seq<char>, name: Seq<char>, tail: Seq<char>)
    ensures
        starts_with(head + name + tail, head),
        text::has(head + name + tail, name),
{
    let s = head + name + tail;
    assert(s.subrange(0, head.len() as int) =~= head);
    assert(s.subrange(head.len() as int, (head.len() + name.len()) as int) =~= name);
    assert(text::occurs_at(s, name, head.len() as int));
}

/// What was asked for is told while it is under way and when it is done: what it is,
/// and on which pipeline.
pub proof fn actions_are_told(a: PendingActionView)
    ensures
        starts_with(a.underway(), doing_word(a)),
        text::has(a.underway(), on(a)),
        starts_with(a.completed(), done_word(a)),
        text::has(a.completed(), on(a)),
        a.pipeline() == on(a),
{
    let none = Seq::<char>::empty();
    match a {
        PendingActionView::Trigger(n) | PendingActionView::Pause(n) | PendingActionView::Unpause(
            n,
        ) => {
            lemma_told(doing_word(a), n, "..."@);
            lemma_told(done_word(a), n, none);
            assert(done_word(a) + n + none =~= done_word(a) + n);
        },
        PendingActionView::TriggerWithVars { pipeline, vars } => {
            lemma_told(doing_word(a), pipeline, "..."@);
            let tail = " with "@ + text::dec(vars.len()) + " variable(s)"@;
            lemma_told(done_word(a), pipeline, tail);
            assert(done_word(a) + pipeline + tail =~= a.completed());
        },
        PendingActionView::CancelStage { pipeline, stage, .. }
        | PendingActionView::RerunFailedJobs { pipeline, stage, .. }
        | PendingActionView::RerunStage { pipeline, stage, .. } => {
            lemma_told(doing_word(a) + stage + " on "@, pipeline, "..."@);
            lemma_told(done_word(a) + stage + " on "@, pipeline, none);
            let u = a.underway();
            let d = a.completed();
            assert(done_word(a) + stage + " on "@ + pipeline + none =~= d);
            assert(u.subrange(0, doing_word(a).len() as int) =~= doing_word(a));
            assert(d.subrange(0, done_word(a).len() as int) =~= done_word(a));
        },
    }
}

/// A pipeline is paused with a cause that names this program.
pub proof fn the_cause_of_a_pause_is_given(name: Seq<char>, c: GoCdClientView)
    requires
        !c.demo,
    ensures
        PendingActionView::Pause(name).call(c) matches CallView::Send(req) && req.body
            == BodyView::PauseCause("paused via lazygocd"@),
{
}

// ---- materials -----------------------------------------------------------

/// The lines of a text that are shown of a comment.
pub open spec fn shown_of(comment: Seq<char>) -> Seq<Seq<char>> {
    let ls = text::lines_of(comment);
    if ls.len() <= 3 {
        ls
    } else {
        ls.subrange(0, 3)
    }
}

/// A change is told by the first twelve characters of its revision and by who made
/// it, and by up to three lines of what was said of it.
pub proof fn changes_are_told(m: ModificationView, sha: Seq<char>, who: Seq<char>, i: int)
    requires
        m.revision == Some(sha),
        m.user_name == Some(who),
    ensures
        modification_lines(m)[0] == "  "@ + (if sha.len() <= 12 {
            sha
        } else {
            sha.subrange(0, 12)
        }) + " by "@ + who,
        m.comment is None ==> modification_lines(m).len() == 1,
        m.comment is Some ==> modification_lines(m).len() == 1 + shown_of(m.comment->0).len(),
        m.comment is Some && 0 <= i < shown_of(m.comment->0).len() ==> modification_lines(m)[1 + i]
            == "    "@ + shown_of(m.comment->0)[i],
{
    assert(sha.len() > 12 ==> sha.take(12) =~= sha.subrange(0, 12));
    let all = modification_lines(m);
    let below = comment_lines(m.comment);
    assert(all.len() == 1 + below.len());
    if m.comment is Some && 0 <= i < below.len() {
        assert(all[1 + i] == below[i]);
    }
}

proof fn lemma_modifications(ms: Seq<ModificationView>, k: int)
    requires
        0 <= k < ms.len(),
    ensures
        modifications_lines(ms).contains(modification_lines(ms[k])[0]),
    decreases ms.len(),
{
    let d = ms.drop_last();
    let above = modifications_lines(d);
    let all = modifications_lines(ms);
    let x = modification_lines(ms[k])[0];
    if k < d.len() {
        lemma_modifications(d, k);
        assert(d[k] == ms[k]);
        let j = choose|j: int| 0 <= j < above.len() && above[j] == x;
        assert(all[j] == x);
    } else {
        assert(ms.last() == ms[k]);
        assert(all[above.len() as int] == x);
    }
}

proof fn lemma_revisions(revs: Seq<MaterialRevisionView>, r: int, x: Seq<char>)
    requires
        0 <= r < revs.len(),
        revision_lines(revs[r]).contains(x),
    ensures
        revisions_lines(revs).contains(x),
    decreases revs.len(),
{
    let d = revs.drop_last();
    let above = revisions_lines(d);
    let all = revisions_lines(revs);
    if r < d.len() {
        assert(d[r] == revs[r]);
        lemma_revisions(d, r, x);
        let j = choose|j: int| 0 <= j < above.len() && above[j] == x;
        assert(all[j] == x);
    } else {
        assert(revs.last() == revs[r]);
        let last = revision_lines(revs[r]);
        let j = choose|j: int| 0 <= j < last.len() && last[j] == x;
        assert(all[above.len() + j] == x);
    }
}

/// The materials of a run tell why it ran, every material, and every change in it.
#[verifier::rlimit(40)]
pub proof fn materials_tell_every_change(run: PipelineInstanceView, r: int, k: int)
    requires
        run.build_cause is Some,
    ensures
        run.build_cause->0.trigger_message is Some ==> material_lines(run)[0] == "Trigger: "@
            + run.build_cause->0.trigger_message->0,
        0 <= r < run.revisions().len() && run.revisions()[r].material.description is Some
            ==> material_lines(run).contains(run.revisions()[r].material.description->0),
        0 <= r < run.revisions().len() && 0 <= k < run.revisions()[r].modifications.len()
            ==> material_lines(run).contains(
            modification_lines(run.revisions()[r].modifications[k])[0],
        ),
{
    let cause = run.build_cause->0;
    let all = material_lines(run);
    let top: Seq<Seq<char>> = match cause.trigger_message {
        Some(msg) => seq!["Trigger: "@ + msg],
        None => Seq::empty(),
    };
    let rest = revisions_lines(cause.material_revisions);
    assert(all == top + rest);
    assert forall|x: Seq<char>| #[trigger] rest.contains(x) implies all.contains(x) by {
        let j = choose|j: int| 0 <= j < rest.len() && rest[j] == x;
        assert(all[top.len() + j] == x);
    }
    if 0 <= r < run.revisions().len() {
        let mr = run.revisions()[r];
        let own = revision_lines(mr);
        if mr.material.description is Some {
            assert(own[1] == mr.material.description->0);
            assert(own.contains(mr.material.description->0));
            lemma_revisions(cause.material_revisions, r, mr.material.description->0);
        }
        if 0 <= k < mr.modifications.len() {
            lemma_modifications(mr.modifications, k);
            let ms = modifications_lines(mr.modifications);
            let x = modification_lines(mr.modifications[k])[0];
            let j = choose|j: int| 0 <= j < ms.len() && ms[j] == x;
            let n = own.len() - ms.len();
            assert(own[n + j] == x);
            assert(own.contains(x));
            lemma_revisions(cause.material_revisions, r, x);
        }
    }
}

// ---- outcomes ------------------------------------------------------------

/// What could be done is said as done, and what could not as an error with the
/// reason; nothing else changes.
pub proof fn outcomes_are_told(v: AppView, done: Seq<char>, e: String, path: String)
    ensures
        v.copy_noted(done, Ok(())) == (AppView { status_line: done, ..v }),
        v.browse_noted(done, Ok(())) == (AppView { status_line: done, ..v }),
        v.edit_noted(Ok(None)) == (AppView { status_line: "Opened in editor"@, ..v }),
        v.edit_noted(Ok(Some(path))) == (AppView {
            status_line: "Opened in editor"@ + ": "@ + path@,
            ..v
        }),
        v.copy_noted(done, Err(e)) == (AppView {
            error_line: Some("Copy failed: "@ + e@),
            ..v
        }),
        v.browse_noted(done, Err(e)) == (AppView {
            error_line: Some("Couldn't open browser: "@ + e@),
            ..v
        }),
        v.edit_noted(Err(e)) == (AppView { error_line: Some(e@), ..v }),
{
    reveal_strlit("Opened in editor");
    reveal_strlit("Opened in editor: ");
    reveal_strlit(": ");
    assert("Opened in editor: "@ =~= "Opened in editor"@ + ": "@);
}

// ---- the clipboard -------------------------------------------------------

/// The digits are the letters, first the capitals, then the numbers, plus and slash.
pub proof fn the_digits_are_in_their_order(d: int)
    requires
        0 <= d < 64,
    ensures
        d < 26 ==> digit64(d) as int == 'A' as int + d,
        26 <= d < 52 ==> digit64(d) as int == 'a' as int + (d - 26),
        52 <= d < 62 ==> digit64(d) as int == '0' as int + (d - 52),
        d == 62 ==> digit64(d) == '+',
        d == 63 ==> digit64(d) == '/',
{
}

#[verifier::rlimit(40)]
proof fn lemma_bits(a: int, b: int, c: int)
    requires
        0 <= a < 256,
        0 <= b < 256,
        0 <= c < 256,
    ensures
        (a * 65536 + b * 256 + c) / 262144 == a / 4,
        (a * 65536 + b * 256 + c) / 4096 % 64 == a % 4 * 16 + b / 16,
        (a * 65536 + b * 256 + c) / 64 % 64 == b % 16 * 4 + c / 64,
        (a * 65536 + b * 256 + c) % 64 == c % 64,
{
    let n = a * 65536 + b * 256 + c;
    assert(n / 4096 == a * 16 + b / 16);
    assert(n / 64 == a * 1024 + b * 4 + c / 64);
}

/// Three bytes make four digits, the high bits first.
pub proof fn bytes_are_cut_into_digits(a: u8, b: u8, c: u8, rest: Seq<u8>)
    ensures
        base64_of(seq![a, b, c] + rest) == seq![
            digit64(a as int / 4),
            digit64(a as int % 4 * 16 + b as int / 16),
            digit64(b as int % 16 * 4 + c as int / 64),
            digit64(c as int % 64),
        ] + base64_of(rest),
{
    lemma_bits(a as int, b as int, c as int);
    let s = seq![a, b, c] + rest;
    assert(s.skip(3) =~= rest);
    assert(s[0] == a && s[1] == b && s[2] == c);
}

/// What is missing of three bytes at the end is filled up with equals signs.
pub proof fn the_end_is_filled_up(a: u8, b: u8)
    ensures
        base64_of(seq![a]) == seq![digit64(a as int / 4), digit64(a as int % 4 * 16), '=', '='],
        base64_of(seq![a, b]) == seq![
            digit64(a as int / 4),
            digit64(a as int % 4 * 16 + b as int / 16),
            digit64(b as int % 16 * 4),
            '=',
        ],
{
    lemma_bits(a as int, 0, 0);
    lemma_bits(a as int, b as int, 0);
}

} // verus!
