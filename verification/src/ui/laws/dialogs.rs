//! What dialogs and notices show, and what they do not.

use vstd::prelude::*;
use vstd::string::*;

use crate::app::{
    AppView, ConsoleLogStateView, JobTab, ReauthFormView, ReauthStep, TriggerVarsFormView,
};
use crate::model::ViewFilterView;
use crate::text;
use crate::ui::console::status_row;
use crate::ui::dialogs::{
    choice_spans, confirm_text, entered_vars, github_text, picker_text, question_lines,
    reauth_step, reauth_summary, reauth_text, save_view_text, vars_text, view_choices,
};
use crate::ui::laws::words_of;
use crate::ui::lists::{history_notice, tree_notice};
use crate::ui::panes::{fleet_part, header_spans};
use crate::ui::{SpanView, Tint};

verus! {

proof fn lemma_one_span(line: Seq<SpanView>)
    ensures
        line.len() == 1 ==> words_of(line) == line[0].content,
        line.len() == 3 ==> words_of(line) == line[0].content + line[1].content + line[2].content,
{
    reveal_with_fuel(words_of, 4);
    if line.len() == 1 {
        assert(words_of(line.drop_last()) =~= Seq::<char>::empty());
        assert(words_of(line) =~= line[0].content);
    }
    if line.len() == 3 {
        let two = line.drop_last();
        let one = two.drop_last();
        assert(words_of(one.drop_last()) =~= Seq::<char>::empty());
        assert(words_of(one) =~= line[0].content);
        assert(words_of(two) =~= line[0].content + line[1].content);
    }
}

/// Whether a line of a text has these words.
pub open spec fn reads(lines: Seq<Seq<SpanView>>, words: Seq<char>) -> bool {
    exists|i: int| 0 <= i < lines.len() && words_of(#[trigger] lines[i]) == words
}

proof fn lemma_reads(lines: Seq<Seq<SpanView>>, i: int, words: Seq<char>)
    requires
        0 <= i < lines.len(),
        words_of(lines[i]) == words,
    ensures
        reads(lines, words),
{
}

// ---- secrets -------------------------------------------------------------

/// A secret is not on the screen: two of one length look the same.
pub proof fn secrets_look_the_same(form: ReauthFormView, a: Seq<char>, b: Seq<char>)
    requires
        form.step == ReauthStep::Secret,
        a.len() == b.len(),
    ensures
        reauth_text(ReauthFormView { input: a, ..form }) == reauth_text(
            ReauthFormView { input: b, ..form },
        ),
        github_text(a) == github_text(b),
{
}

/// What is typed and is no secret can be read, and so can what was entered
/// before it.
#[verifier::rlimit(40)]
pub proof fn what_is_typed_is_shown(form: ReauthFormView)
    ensures
        form.step == ReauthStep::ServerUrl || form.step == ReauthStep::Username ==> reads(
            reauth_text(form),
            "> "@ + form.input,
        ),
        form.step != ReauthStep::ServerUrl ==> reads(
            reauth_text(form),
            "\u{2713} "@ + ("Server"@ + ": "@) + form.server_url,
        ),
        form.step == ReauthStep::Secret && form.use_token ==> reads(
            reauth_text(form),
            "Access token"@,
        ),
        form.step == ReauthStep::Secret && !form.use_token ==> reads(reauth_text(form), "Password"@),
        form.step == ReauthStep::Secret && !form.use_token && form.username.len() > 0 ==> reads(
            reauth_text(form),
            "\u{2713} "@ + ("User"@ + ": "@) + form.username,
        ),
{
    let all = reauth_text(form);
    let top = reauth_summary(form);
    let step = reauth_step(form);
    if form.step == ReauthStep::ServerUrl || form.step == ReauthStep::Username {
        let i = top.len() as int + 3;
        assert(all[i] == step[3]);
        lemma_one_span(all[i]);
        lemma_reads(all, i, "> "@ + form.input);
    }
    if form.step != ReauthStep::ServerUrl {
        assert(all[0] == top[0]);
        lemma_one_span(all[0]);
        lemma_reads(all, 0, "\u{2713} "@ + ("Server"@ + ": "@) + form.server_url);
    }
    if form.step == ReauthStep::Secret {
        let i = top.len() as int;
        assert(all[i] == step[0]);
        lemma_one_span(all[i]);
        if form.use_token {
            lemma_reads(all, i, "Access token"@);
        } else {
            lemma_reads(all, i, "Password"@);
            if form.username.len() > 0 {
                assert(all[2] == top[2]);
                lemma_one_span(all[2]);
                lemma_reads(all, 2, "\u{2713} "@ + ("User"@ + ": "@) + form.username);
            }
        }
    }
}

/// Of the two ways to sign in the chosen one is marked.
pub proof fn the_chosen_way_is_marked(form: ReauthFormView)
    requires
        form.step == ReauthStep::ChooseAuthMethod,
    ensures
        form.choice_index == 0 ==> reads(reauth_text(form), "\u{25b6} Username & password"@)
            && reads(reauth_text(form), "  Access token (recommended)"@),
        form.choice_index == 1 ==> reads(
            reauth_text(form),
            "\u{25b6} Access token (recommended)"@,
        ) && reads(reauth_text(form), "  Username & password"@),
{
    let all = reauth_text(form);
    let top = reauth_summary(form);
    let step = reauth_step(form);
    let i = top.len() as int + 2;
    assert(all[i] == step[2]);
    assert(all[i + 1] == step[3]);
    lemma_one_span(all[i]);
    lemma_one_span(all[i + 1]);
    reveal_strlit("\u{25b6} ");
    reveal_strlit("  ");
    reveal_strlit("Username & password");
    reveal_strlit("Access token (recommended)");
    reveal_strlit("\u{25b6} Username & password");
    reveal_strlit("\u{25b6} Access token (recommended)");
    reveal_strlit("  Username & password");
    reveal_strlit("  Access token (recommended)");
    if form.choice_index == 0 {
        assert("\u{25b6} "@ + "Username & password"@ =~= "\u{25b6} Username & password"@);
        assert("  "@ + "Access token (recommended)"@ =~= "  Access token (recommended)"@);
        lemma_reads(all, i, "\u{25b6} Username & password"@);
        lemma_reads(all, i + 1, "  Access token (recommended)"@);
    }
    if form.choice_index == 1 {
        assert("  "@ + "Username & password"@ =~= "  Username & password"@);
        assert("\u{25b6} "@ + "Access token (recommended)"@
            =~= "\u{25b6} Access token (recommended)"@);
        lemma_reads(all, i, "  Username & password"@);
        lemma_reads(all, i + 1, "\u{25b6} Access token (recommended)"@);
    }
}

// ---- questions -----------------------------------------------------------

/// A question is asked in full.
pub proof fn questions_are_asked_in_full(message: Seq<char>, i: int)
    requires
        0 <= i < text::lines_of(message).len(),
    ensures
        reads(confirm_text(message), text::lines_of(message)[i]),
{
    let all = confirm_text(message);
    let ls = text::lines_of(message);
    assert(all[i] == question_lines(ls)[i]);
    lemma_one_span(all[i]);
    lemma_reads(all, i, ls[i]);
}

/// The variables of a run can be checked before it is triggered: each is
/// listed, and the question names the pipeline and counts them. Until then what
/// is typed is shown, and what is wrong with it.
#[verifier::rlimit(40)]
pub proof fn variables_are_listed(form: TriggerVarsFormView, i: int)
    ensures
        0 <= i < form.vars.len() ==> reads(
            vars_text(form),
            "\u{2713} "@ + (form.vars[i].0 + ": "@) + form.vars[i].1,
        ),
        form.confirming ==> reads(
            vars_text(form),
            "Trigger a new run of '"@ + form.pipeline + "' with "@ + text::dec(form.vars.len())
                + " variable(s)?"@,
        ),
        !form.confirming ==> reads(vars_text(form), "> "@ + form.input),
        !form.confirming && form.error is Some ==> reads(vars_text(form), form.error->0),
{
    let all = vars_text(form);
    let top = entered_vars(form.vars);
    let n = top.len() as int + if form.vars.len() > 0 {
        1int
    } else {
        0
    };
    if 0 <= i < form.vars.len() {
        assert(all[i] == top[i]);
        lemma_one_span(all[i]);
        lemma_reads(all, i, "\u{2713} "@ + (form.vars[i].0 + ": "@) + form.vars[i].1);
    }
    if form.confirming {
        let q = "Trigger a new run of '"@ + form.pipeline + "' with "@ + text::dec(
            form.vars.len(),
        ) + " variable(s)?"@;
        assert(all[n].len() == 1 && all[n][0].content == q);
        lemma_one_span(all[n]);
        lemma_reads(all, n, q);
    } else {
        assert(all[n + 3].len() == 1 && all[n + 3][0].content == "> "@ + form.input);
        lemma_one_span(all[n + 3]);
        lemma_reads(all, n + 3, "> "@ + form.input);
        if form.error is Some {
            assert(all[n + 4].len() == 1 && all[n + 4][0].content == form.error->0);
            lemma_one_span(all[n + 4]);
            lemma_reads(all, n + 4, form.error->0);
        }
    }
}

/// Saving a view says how many pipelines it will hold.
pub proof fn the_size_of_a_view_is_said(input: Seq<char>, count: nat)
    ensures
        reads(save_view_text(input, count), "> "@ + input),
        reads(
            save_view_text(input, count),
            text::dec(count) + " pipelines will be in this view (shows in the web UI too)"@,
        ),
{
    let all = save_view_text(input, count);
    lemma_one_span(all[3]);
    lemma_one_span(all[1]);
    lemma_reads(all, 3, "> "@ + input);
    lemma_reads(
        all,
        1,
        text::dec(count) + " pipelines will be in this view (shows in the web UI too)"@,
    );
}

/// Whether a line is a choice, marked or not.
pub open spec fn offers(line: Seq<SpanView>, label: Seq<char>, marked: bool) -> bool {
    words_of(line) == if marked {
        "\u{25b6} "@ + label
    } else {
        "  "@ + label
    }
}

/// Every view is offered with its size, behind all pipelines, and the selected
/// line alone is marked.
pub proof fn the_selected_view_is_marked(views: Seq<ViewFilterView>, selected: usize, i: int)
    requires
        0 <= i < views.len(),
    ensures
        offers(picker_text(views, selected)[2], "All pipelines"@, selected == 0),
        offers(
            picker_text(views, selected)[3 + i],
            views[i].name + " ("@ + text::dec(views[i].pipelines.len()) + ")"@,
            selected == i + 1,
        ),
{
    let all = picker_text(views, selected);
    let cs = view_choices(views, selected);
    assert(all[2] == choice_spans("All pipelines"@, selected == 0));
    assert(all[3 + i] == cs[i]);
    lemma_one_span(all[2]);
    lemma_one_span(all[3 + i]);
}

// ---- notices -------------------------------------------------------------

/// Whether a line has a span of these words in that colour.
pub open spec fn shows(line: Seq<SpanView>, words: Seq<char>, fg: Tint) -> bool {
    exists|i: int|
        0 <= i < line.len() && (#[trigger] line[i]).content == words && line[i].style.fg == Some(fg)
}

proof fn lemma_shows(line: Seq<SpanView>, i: int, words: Seq<char>, fg: Tint)
    requires
        0 <= i < line.len(),
        line[i].content == words,
        line[i].style.fg == Some(fg),
    ensures
        shows(line, words, fg),
{
}

/// Below a log stands how many lines there are, which match is shown out of how
/// many, whether it is being followed, and what went wrong.
#[verifier::rlimit(40)]
pub proof fn the_state_of_a_log_is_said(s: ConsoleLogStateView, tick: u64)
    ensures
        shows(status_row(s, tick), text::dec(s.lines.len()) + " lines"@, Tint::Muted),
        s.search.len() > 0 && s.matches.len() > 0 ==> shows(
            status_row(s, tick),
            "  "@ + text::dec((s.match_idx + 1) as nat) + "/"@ + text::dec(s.matches.len())
                + " matches"@,
            Tint::Muted,
        ),
        s.search.len() > 0 && s.matches.len() == 0 ==> shows(
            status_row(s, tick),
            "  "@ + text::dec(0) + "/"@ + text::dec(0) + " matches"@,
            Tint::Danger,
        ),
        s.following && s.tab == JobTab::Console ==> shows(
            status_row(s, tick),
            "following"@,
            Tint::Success,
        ),
        s.error is Some ==> shows(status_row(s, tick), "! "@ + s.error->0, Tint::Danger),
        s.result is Some ==> status_row(s, tick)[0].content == s.result->0,
{
    let row = status_row(s, tick);
    let head = crate::ui::console::result_part(s).push(row[if s.result is Some {
        2int
    } else {
        0
    }]);
    let n = head.len() as int;
    lemma_shows(row, n - 1, text::dec(s.lines.len()) + " lines"@, Tint::Muted);
    let found = crate::ui::console::search_part(s);
    let tail = crate::ui::console::progress_part(s, tick);
    if s.search.len() > 0 {
        assert(row[n + 2] == found[2]);
        if s.matches.len() > 0 {
            lemma_shows(
                row,
                n + 2,
                "  "@ + text::dec((s.match_idx + 1) as nat) + "/"@ + text::dec(s.matches.len())
                    + " matches"@,
                Tint::Muted,
            );
        } else {
            lemma_shows(
                row,
                n + 2,
                "  "@ + text::dec(0) + "/"@ + text::dec(0) + " matches"@,
                Tint::Danger,
            );
        }
    }
    let m = n + found.len();
    let busy: int = if s.loading || s.artifacts_loading {
        2
    } else {
        0
    };
    let led: int = if s.following && s.tab == JobTab::Console {
        2
    } else {
        0
    };
    if led > 0 {
        assert(row[m + busy + 1] == tail[busy + 1]);
        lemma_shows(row, m + busy + 1, "following"@, Tint::Success);
    }
    if s.error is Some {
        assert(row[m + busy + led + 1] == tail[busy + led + 1]);
        lemma_shows(row, m + busy + led + 1, "! "@ + s.error->0, Tint::Danger);
    }
}

/// An empty tree says why it is empty, and a filled one says nothing; the same
/// holds of the history.
pub proof fn empty_panes_say_why(v: AppView)
    ensures
        v.groups.len() > 0 ==> tree_notice(v) is None,
        v.groups.len() == 0 && v.loading_groups ==> tree_notice(v) is Some,
        v.groups.len() == 0 && !v.loading_groups && v.error_line is None && v.modal is None
            ==> tree_notice(v) == Some("Press 'A' to connect to a GoCD server"@),
        v.selected_pipeline is None ==> history_notice(v) == Some(
            "Select a pipeline (enter) to view its history"@,
        ),
        v.selected_pipeline is Some && v.history.len() > 0 ==> history_notice(v) is None,
        v.selected_pipeline is Some && v.history.len() == 0 && !v.history_loading
            ==> history_notice(v) == Some("No runs yet"@),
{
}

/// The header shows the filter and the view that are in force, and no other.
pub proof fn the_header_says_what_is_in_force(v: AppView, with_groups: bool)
    ensures
        v.filter.len() > 0 ==> shows(
            header_spans(v, with_groups),
            "/"@ + v.filter,
            Tint::Accent,
        ),
        v.active_view is Some && v.active_view->0 < v.views.len() ==> shows(
            header_spans(v, with_groups),
            "["@ + v.views[v.active_view->0 as int].name + "]"@,
            Tint::Favorite,
        ),
{
    let all = header_spans(v, with_groups);
    let n = 5 + fleet_part(v).len() as int;
    let m = n + if v.filter.len() > 0 {
        3int
    } else {
        0
    };
    if v.filter.len() > 0 {
        assert(all[n + 1].content == "/"@ + v.filter);
        lemma_shows(all, n + 1, "/"@ + v.filter, Tint::Accent);
    }
    if v.active_view is Some && v.active_view->0 < v.views.len() {
        let name = "["@ + v.views[v.active_view->0 as int].name + "]"@;
        assert(all[m + 1].content == name);
        lemma_shows(all, m + 1, name, Tint::Favorite);
    }
}

} // verus!
