//! What is shown over the panes: the help, questions and forms.

use vstd::prelude::*;
use vstd::string::*;

use crate::app::{
    ReauthForm, ReauthFormView, ReauthMode, ReauthStep, TriggerVarsForm, TriggerVarsFormView,
};
use crate::model::{ViewFilter, ViewFilterView};
use crate::text;
use crate::ui::panes::{hint, hv, Hint, HintView};
use crate::ui::{
    blank, blank_line, bold, bold_tint, bold_tinted, bolded, muted, muted_line, no_lines, no_spans,
    one, put, put_line, raw, raw_sp, sp, span, span_of, tint, tinted, Line, SpanView, Tint,
};

verus! {

// ---- parts of forms ------------------------------------------------------

/// An entry that was made.
pub open spec fn summary_spans(label: Seq<char>, value: Seq<char>) -> Seq<SpanView> {
    seq![
        sp("\u{2713} "@, tinted(Tint::Success)),
        sp(label + ": "@, tinted(Tint::Muted)),
        raw_sp(value),
    ]
}

pub fn summary_line(label: &str, value: &str) -> (r: Line)
    ensures
        r.deep_view() == summary_spans(label@, value@),
{
    let mut out = no_spans();
    put(&mut out, span("\u{2713} ", tint(Tint::Success)));
    put(&mut out, span_of(text::cat2(label, ": "), tint(Tint::Muted)));
    put(&mut out, raw(value));
    assert(out.deep_view() =~= summary_spans(label@, value@));
    out
}

pub open spec fn field_spans(t: Seq<char>) -> Seq<SpanView> {
    seq![sp(t, bold())]
}

pub fn field_label(t: &str) -> (r: Line)
    ensures
        r.deep_view() == field_spans(t@),
{
    one(span(t, bolded()))
}

/// What is typed; a secret as one dot for each character.
pub open spec fn input_spans(input: Seq<char>, masked: bool) -> Seq<SpanView> {
    seq![
        sp(
            "> "@ + if masked {
                text::repeated('\u{2022}', input.len())
            } else {
                input
            },
            tinted(Tint::Accent),
        ),
    ]
}

pub fn input_line(input: &str, masked: bool) -> (r: Line)
    ensures
        r.deep_view() == input_spans(input@, masked),
{
    let shown = if masked {
        text::repeat('\u{2022}', input.unicode_len())
    } else {
        text::owned(input)
    };
    one(span_of(text::cat2("> ", shown.as_str()), tint(Tint::Accent)))
}

pub open spec fn choice_spans(label: Seq<char>, selected: bool) -> Seq<SpanView> {
    if selected {
        seq![sp("\u{25b6} "@ + label, bold_tinted(Tint::Accent))]
    } else {
        seq![sp("  "@ + label, tinted(Tint::Muted))]
    }
}

pub fn choice_line(label: &str, selected: bool) -> (r: Line)
    ensures
        r.deep_view() == choice_spans(label@, selected),
{
    if selected {
        one(span_of(text::cat2("\u{25b6} ", label), bold_tint(Tint::Accent)))
    } else {
        one(span_of(text::cat2("  ", label), tint(Tint::Muted)))
    }
}

// ---- the filter ----------------------------------------------------------

pub open spec fn filter_title_of(with_groups: bool) -> Seq<char> {
    if with_groups {
        "Filter  ^g groups:on"@
    } else {
        "Filter  ^g groups:off"@
    }
}

/// Over the filter: whether groups are matched too.
pub fn filter_title(with_groups: bool) -> (r: &'static str)
    ensures
        r@ == filter_title_of(with_groups),
{
    if with_groups {
        "Filter  ^g groups:on"
    } else {
        "Filter  ^g groups:off"
    }
}

// ---- questions -----------------------------------------------------------

/// The lines of a question: the first, which says what it is about, stands out.
pub open spec fn question_lines(ls: Seq<Seq<char>>) -> Seq<Seq<SpanView>> {
    Seq::new(
        ls.len(),
        |i: int|
            if i == 0 {
                seq![sp(ls[0], bold_tinted(Tint::Accent))]
            } else {
                seq![raw_sp(ls[i])]
            },
    )
}

pub open spec fn confirm_text(message: Seq<char>) -> Seq<Seq<SpanView>> {
    question_lines(text::lines_of(message)) + seq![
        blank_line(),
        muted_line("y/enter confirm   n/esc cancel"@),
    ]
}

pub fn confirm_lines(message: &str) -> (r: Vec<Line>)
    ensures
        r.deep_view() == confirm_text(message@),
{
    let ls = text::lines(message);
    let ghost all = ls.deep_view();
    let ghost want = question_lines(all);
    let mut out = no_lines();
    let mut i: usize = 0;
    assert(out.deep_view() =~= want.take(0));
    while i < ls.len()
        invariant
            all == ls.deep_view(),
            want == question_lines(all),
            i <= ls@.len(),
            out.deep_view() == want.take(i as int),
        decreases ls@.len() - i,
    {
        assert(all[i as int] == ls@[i as int]@);
        let line = if i == 0 {
            one(span(ls[i], bold_tint(Tint::Accent)))
        } else {
            one(raw(ls[i]))
        };
        put_line(&mut out, line);
        assert(want.take(i + 1) =~= want.take(i as int).push(want[i as int]));
        i = i + 1;
    }
    assert(want.take(i as int) =~= want);
    put_line(&mut out, blank());
    put_line(&mut out, muted("y/enter confirm   n/esc cancel"));
    assert(out.deep_view() =~= confirm_text(message@));
    out
}

// ---- variables -----------------------------------------------------------

pub open spec fn vars_title(form: TriggerVarsFormView) -> Seq<char> {
    "Trigger "@ + form.pipeline + " with variables"@
}

pub fn trigger_vars_title(form: &TriggerVarsForm) -> (r: String)
    ensures
        r@ == vars_title(form.deep_view()),
{
    text::cat3("Trigger ", form.pipeline.as_str(), " with variables")
}

pub open spec fn entered_vars(vars: Seq<(Seq<char>, Seq<char>)>) -> Seq<Seq<SpanView>> {
    Seq::new(vars.len(), |i: int| summary_spans(vars[i].0, vars[i].1))
}

/// The variables so far, and the next one or the question.
pub open spec fn vars_text(form: TriggerVarsFormView) -> Seq<Seq<SpanView>> {
    entered_vars(form.vars) + (if form.vars.len() > 0 {
        seq![blank_line()]
    } else {
        Seq::empty()
    }) + if form.confirming {
        seq![
            seq![
                raw_sp(
                    "Trigger a new run of '"@ + form.pipeline + "' with "@ + text::dec(
                        form.vars.len(),
                    ) + " variable(s)?"@,
                ),
            ],
            blank_line(),
            muted_line("y/enter trigger   n/esc cancel   backspace edit"@),
        ]
    } else {
        seq![
            field_spans("Environment variable (NAME=VALUE)"@),
            muted_line("enter adds another; an empty entry finishes"@),
            blank_line(),
            input_spans(form.input, false),
        ] + (match form.error {
            Some(e) => seq![seq![sp(e, tinted(Tint::Danger))]],
            None => Seq::empty(),
        }) + seq![blank_line(), muted_line("enter add/finish   esc cancel"@)]
    }
}

fn vars_into(vars: &Vec<(String, String)>, out: &mut Vec<Line>)
    ensures
        final(out).deep_view() == old(out).deep_view() + entered_vars(vars.deep_view()),
{
    let ghost start = out.deep_view();
    let ghost all = vars.deep_view();
    let ghost want = entered_vars(all);
    let mut i: usize = 0;
    assert(start + want.take(0) =~= start);
    while i < vars.len()
        invariant
            all == vars.deep_view(),
            want == entered_vars(all),
            i <= vars@.len(),
            out.deep_view() == start + want.take(i as int),
        decreases vars@.len() - i,
    {
        assert(all[i as int] == vars@[i as int].deep_view());
        put_line(out, summary_line(vars[i].0.as_str(), vars[i].1.as_str()));
        assert(start + want.take(i + 1) =~= (start + want.take(i as int)).push(want[i as int]));
        i = i + 1;
    }
    assert(want.take(i as int) =~= want);
}

pub fn trigger_vars_lines(form: &TriggerVarsForm) -> (r: Vec<Line>)
    ensures
        r.deep_view() == vars_text(form.deep_view()),
{
    let mut out = no_lines();
    vars_into(&form.vars, &mut out);
    assert(out.deep_view() =~= entered_vars(form.deep_view().vars));
    assert(form.deep_view().vars.len() == form.vars@.len());
    if form.vars.len() > 0 {
        put_line(&mut out, blank());
    }
    if form.confirming {
        let n = text::decimal_n(form.vars.len());
        let words = text::cat5(
            "Trigger a new run of '",
            form.pipeline.as_str(),
            "' with ",
            n.as_str(),
            " variable(s)?",
        );
        put_line(&mut out, one(raw(words.as_str())));
        put_line(&mut out, blank());
        put_line(&mut out, muted("y/enter trigger   n/esc cancel   backspace edit"));
    } else {
        put_line(&mut out, field_label("Environment variable (NAME=VALUE)"));
        put_line(&mut out, muted("enter adds another; an empty entry finishes"));
        put_line(&mut out, blank());
        put_line(&mut out, input_line(form.input.as_str(), false));
        if let Some(e) = &form.error {
            put_line(&mut out, one(span(e.as_str(), tint(Tint::Danger))));
        }
        put_line(&mut out, blank());
        put_line(&mut out, muted("enter add/finish   esc cancel"));
    }
    assert(out.deep_view() =~= vars_text(form.deep_view()));
    out
}

// ---- views ---------------------------------------------------------------

pub open spec fn save_view_text(input: Seq<char>, count: nat) -> Seq<Seq<SpanView>> {
    seq![
        field_spans("Save current filter matches as a GoCD view"@),
        muted_line(
            text::dec(count) + " pipelines will be in this view (shows in the web UI too)"@,
        ),
        blank_line(),
        input_spans(input, false),
        blank_line(),
        muted_line("enter save   esc cancel"@),
    ]
}

pub fn save_view_lines(input: &str, count: usize) -> (r: Vec<Line>)
    ensures
        r.deep_view() == save_view_text(input@, count as nat),
{
    let mut out = no_lines();
    let n = text::decimal_n(count);
    let words = text::cat2(
        n.as_str(),
        " pipelines will be in this view (shows in the web UI too)",
    );
    put_line(&mut out, field_label("Save current filter matches as a GoCD view"));
    put_line(&mut out, muted(words.as_str()));
    put_line(&mut out, blank());
    put_line(&mut out, input_line(input, false));
    put_line(&mut out, blank());
    put_line(&mut out, muted("enter save   esc cancel"));
    assert(out.deep_view() =~= save_view_text(input@, count as nat));
    out
}

pub open spec fn view_choices(views: Seq<ViewFilterView>, selected: usize) -> Seq<Seq<SpanView>> {
    Seq::new(
        views.len(),
        |i: int|
            choice_spans(
                views[i].name + " ("@ + text::dec(views[i].pipelines.len()) + ")"@,
                selected == i + 1,
            ),
    )
}

pub open spec fn picker_text(views: Seq<ViewFilterView>, selected: usize) -> Seq<Seq<SpanView>> {
    seq![
        field_spans("Personalized dashboard views"@),
        blank_line(),
        choice_spans("All pipelines"@, selected == 0),
    ] + view_choices(views, selected) + seq![
        blank_line(),
        muted_line("j/k select   enter apply   esc close"@),
    ]
}

pub fn view_picker_lines(views: &Vec<ViewFilter>, selected: usize) -> (r: Vec<Line>)
    ensures
        r.deep_view() == picker_text(views.deep_view(), selected),
{
    let ghost all = views.deep_view();
    let ghost want = view_choices(all, selected);
    let mut out = no_lines();
    put_line(&mut out, field_label("Personalized dashboard views"));
    put_line(&mut out, blank());
    put_line(&mut out, choice_line("All pipelines", selected == 0));
    let ghost head = out.deep_view();
    assert(head =~= seq![
        field_spans("Personalized dashboard views"@),
        blank_line(),
        choice_spans("All pipelines"@, selected == 0),
    ]);
    let mut i: usize = 0;
    assert(head + want.take(0) =~= head);
    while i < views.len()
        invariant
            all == views.deep_view(),
            want == view_choices(all, selected),
            i <= views@.len(),
            out.deep_view() == head + want.take(i as int),
        decreases views@.len() - i,
    {
        assert(all[i as int] == views@[i as int].deep_view());
        assert(all[i as int].pipelines.len() == views@[i as int].pipelines@.len());
        let n = text::decimal_n(views[i].pipelines.len());
        let label = text::cat4(views[i].name.as_str(), " (", n.as_str(), ")");
        put_line(&mut out, choice_line(label.as_str(), selected > 0 && selected - 1 == i));
        assert(head + want.take(i + 1) =~= (head + want.take(i as int)).push(want[i as int]));
        i = i + 1;
    }
    assert(want.take(i as int) =~= want);
    put_line(&mut out, blank());
    put_line(&mut out, muted("j/k select   enter apply   esc close"));
    assert(out.deep_view() =~= picker_text(all, selected));
    out
}

// ---- connecting ----------------------------------------------------------

pub open spec fn github_text(input: Seq<char>) -> Seq<Seq<SpanView>> {
    seq![
        field_spans("GitHub personal access token"@),
        muted_line(
            "optional - leave blank to use `gh auth token` automatically if you have the GitHub CLI"@,
        ),
        blank_line(),
        input_spans(input, true),
        blank_line(),
        muted_line("enter save   esc cancel"@),
    ]
}

pub fn github_connect_lines(input: &str) -> (r: Vec<Line>)
    ensures
        r.deep_view() == github_text(input@),
{
    let mut out = no_lines();
    put_line(&mut out, field_label("GitHub personal access token"));
    put_line(
        &mut out,
        muted(
            "optional - leave blank to use `gh auth token` automatically if you have the GitHub CLI",
        ),
    );
    put_line(&mut out, blank());
    put_line(&mut out, input_line(input, true));
    put_line(&mut out, blank());
    put_line(&mut out, muted("enter save   esc cancel"));
    assert(out.deep_view() =~= github_text(input@));
    out
}

pub open spec fn reauth_title_of(mode: ReauthMode) -> Seq<char> {
    match mode {
        ReauthMode::Connect => "Connect to GoCD"@,
        ReauthMode::Reconnect => "Reconnect to GoCD"@,
    }
}

pub fn reauth_title(mode: ReauthMode) -> (r: &'static str)
    ensures
        r@ == reauth_title_of(mode),
{
    match mode {
        ReauthMode::Connect => "Connect to GoCD",
        ReauthMode::Reconnect => "Reconnect to GoCD",
    }
}

/// What was entered in the earlier steps.
pub open spec fn reauth_summary(form: ReauthFormView) -> Seq<Seq<SpanView>> {
    if form.step == ReauthStep::ServerUrl {
        Seq::empty()
    } else {
        let server = seq![summary_spans("Server"@, form.server_url)];
        let method = if form.step == ReauthStep::ChooseAuthMethod {
            Seq::empty()
        } else {
            seq![
                summary_spans(
                    "Method"@,
                    if form.use_token {
                        "Access token"@
                    } else {
                        "Username & password"@
                    },
                ),
            ]
        };
        let user = if form.step == ReauthStep::Secret && !form.use_token && form.username.len()
            > 0 {
            seq![summary_spans("User"@, form.username)]
        } else {
            Seq::empty()
        };
        (server + method + user).push(blank_line())
    }
}

/// The step of the form.
pub open spec fn reauth_step(form: ReauthFormView) -> Seq<Seq<SpanView>> {
    match form.step {
        ReauthStep::ServerUrl => seq![
            field_spans("GoCD server URL"@),
            muted_line("e.g. https://gocd.example.com/go"@),
            blank_line(),
            input_spans(form.input, false),
        ],
        ReauthStep::ChooseAuthMethod => seq![
            field_spans("Authenticate with"@),
            blank_line(),
            choice_spans("Username & password"@, form.choice_index == 0),
            choice_spans("Access token (recommended)"@, form.choice_index == 1),
        ],
        ReauthStep::Username => seq![
            field_spans("Username"@),
            muted_line("leave blank if the server has no auth"@),
            blank_line(),
            input_spans(form.input, false),
        ],
        ReauthStep::Secret => seq![
            field_spans(
                if form.use_token {
                    "Access token"@
                } else {
                    "Password"@
                },
            ),
            blank_line(),
            input_spans(form.input, true),
        ],
    }
}

pub open spec fn reauth_text(form: ReauthFormView) -> Seq<Seq<SpanView>> {
    reauth_summary(form) + reauth_step(form) + seq![
        blank_line(),
        muted_line(
            if form.step == ReauthStep::ChooseAuthMethod {
                "\u{2191}/\u{2193} or j/k select   enter confirm   esc cancel"@
            } else {
                "enter confirm   esc cancel"@
            },
        ),
    ]
}

fn reauth_summary_lines(form: &ReauthForm) -> (r: Vec<Line>)
    ensures
        r.deep_view() == reauth_summary(form.deep_view()),
{
    let mut out = no_lines();
    if form.step == ReauthStep::ServerUrl {
        return out;
    }
    put_line(&mut out, summary_line("Server", form.server_url.as_str()));
    if form.step != ReauthStep::ChooseAuthMethod {
        put_line(
            &mut out,
            summary_line(
                "Method",
                if form.use_token {
                    "Access token"
                } else {
                    "Username & password"
                },
            ),
        );
    }
    if form.step == ReauthStep::Secret && !form.use_token && form.username.as_str().unicode_len()
        > 0 {
        put_line(&mut out, summary_line("User", form.username.as_str()));
    }
    put_line(&mut out, blank());
    assert(out.deep_view() =~= reauth_summary(form.deep_view()));
    out
}

fn reauth_step_into(form: &ReauthForm, out: &mut Vec<Line>)
    ensures
        final(out).deep_view() == old(out).deep_view() + reauth_step(form.deep_view()),
{
    let ghost start = out.deep_view();
    match form.step {
        ReauthStep::ServerUrl => {
            put_line(out, field_label("GoCD server URL"));
            put_line(out, muted("e.g. https://gocd.example.com/go"));
            put_line(out, blank());
            put_line(out, input_line(form.input.as_str(), false));
        },
        ReauthStep::ChooseAuthMethod => {
            put_line(out, field_label("Authenticate with"));
            put_line(out, blank());
            put_line(out, choice_line("Username & password", form.choice_index == 0));
            put_line(out, choice_line("Access token (recommended)", form.choice_index == 1));
        },
        ReauthStep::Username => {
            put_line(out, field_label("Username"));
            put_line(out, muted("leave blank if the server has no auth"));
            put_line(out, blank());
            put_line(out, input_line(form.input.as_str(), false));
        },
        ReauthStep::Secret => {
            put_line(
                out,
                field_label(
                    if form.use_token {
                        "Access token"
                    } else {
                        "Password"
                    },
                ),
            );
            put_line(out, blank());
            put_line(out, input_line(form.input.as_str(), true));
        },
    }
    assert(out.deep_view() =~= start + reauth_step(form.deep_view()));
}

pub fn reauth_lines(form: &ReauthForm) -> (r: Vec<Line>)
    ensures
        r.deep_view() == reauth_text(form.deep_view()),
{
    let mut out = reauth_summary_lines(form);
    reauth_step_into(form, &mut out);
    put_line(&mut out, blank());
    put_line(
        &mut out,
        muted(
            if form.step.is_choice() {
                "\u{2191}/\u{2193} or j/k select   enter confirm   esc cancel"
            } else {
                "enter confirm   esc cancel"
            },
        ),
    );
    assert(out.deep_view() =~= reauth_text(form.deep_view()));
    out
}

// ---- help ----------------------------------------------------------------

pub open spec fn move_keys() -> Seq<HintView> {
    seq![
        hv("j/k \u{2193}\u{2191}", "row", false),
        hv("g/G", "top / bottom", false),
        hv("ctrl-d/u", "half page", false),
        hv("tab", "next pane", false),
        hv("1 2 3", "tree/history/jobs", false),
        hv("enter", "open", false),
        hv("h/esc", "collapse / back", false),
        hv("/", "filter pipelines", false),
        hv("^g", "incl. group names", false),
    ]
}

pub open spec fn job_keys() -> Seq<HintView> {
    seq![
        hv("1 2 3", "console/art/mat", false),
        hv("tab", "cycle tabs", false),
        hv("/", "search log", false),
        hv("n/N", "next / prev hit", false),
        hv("g/G", "top / bottom", false),
        hv("e", "open in $EDITOR", false),
        hv("y", "copy artifact url", false),
        hv("q/esc", "close", false),
    ]
}

pub open spec fn change_keys() -> Seq<HintView> {
    seq![
        hv("t", "trigger", true),
        hv("T", "trigger + vars", true),
        hv("R", "rerun failed", true),
        hv("X", "cancel stage", true),
        hv("p", "pause / unpause", true),
        hv("V", "save view", true),
    ]
}

pub open spec fn server_keys() -> Seq<HintView> {
    seq![
        hv("A", "reconnect GoCD", false),
        hv("@", "GitHub token", false),
        hv("v", "switch view", false),
        hv("r", "refresh", false),
        hv("f", "favorite", false),
        hv("y", "copy sha / name", false),
        hv("o", "open commit", false),
        hv("O", "open in GoCD", false),
    ]
}

pub open spec fn headings(left: Seq<char>, lc: Tint, right: Seq<char>) -> Seq<SpanView> {
    seq![
        raw_sp("  "@),
        sp(text::padded(left, 28), bold_tinted(lc)),
        sp(right, bold_tinted(Tint::Accent)),
    ]
}

/// A key and what it does in one of two columns; the last is not padded.
pub open spec fn help_cell(h: HintView, last: bool) -> Seq<SpanView> {
    seq![
        sp(
            text::padded(h.key, 9),
            bold_tinted(
                if h.mutates {
                    Tint::Danger
                } else {
                    Tint::Accent
                },
            ),
        ),
        sp(
            if last {
                h.does
            } else {
                text::padded(h.does, 19)
            },
            tinted(Tint::Muted),
        ),
    ]
}

/// Row `i` of two columns.
pub open spec fn help_row(left: Seq<HintView>, right: Seq<HintView>, i: int) -> Seq<SpanView> {
    seq![raw_sp("  "@)] + (if i < left.len() {
        help_cell(left[i], false)
    } else {
        seq![raw_sp(text::repeated(' ', 28))]
    }) + (if i < right.len() {
        help_cell(right[i], true)
    } else {
        Seq::empty()
    })
}

pub open spec fn help_rows(left: Seq<HintView>, right: Seq<HintView>) -> Seq<Seq<SpanView>> {
    Seq::new(
        if left.len() < right.len() {
            right.len()
        } else {
            left.len()
        },
        |i: int| help_row(left, right, i),
    )
}

pub open spec fn legend() -> Seq<SpanView> {
    seq![
        sp("  \u{25cf} "@, tinted(Tint::Danger)),
        sp("failed   "@, tinted(Tint::Muted)),
        sp("\u{25d0} "@, tinted(Tint::Warning)),
        sp("building   "@, tinted(Tint::Muted)),
        sp("\u{25cf} "@, tinted(Tint::Success)),
        sp("passed   "@, tinted(Tint::Muted)),
        sp("\u{23f8} "@, tinted(Tint::Warning)),
        sp("paused   "@, tinted(Tint::Muted)),
        sp("\u{2605} "@, tinted(Tint::Favorite)),
        sp("favorite"@, tinted(Tint::Muted)),
    ]
}

/// The keys in four blocks over two columns, and what the signs mean.
pub open spec fn help_text() -> Seq<Seq<SpanView>> {
    seq![headings("MOVE"@, Tint::Accent, "JOB & LOGS"@)] + help_rows(move_keys(), job_keys())
        + seq![
        blank_line(),
        headings("CHANGES THINGS"@, Tint::Danger, "SERVER & VIEW"@),
    ] + help_rows(change_keys(), server_keys()) + seq![
        blank_line(),
        legend(),
        muted_line("  mouse: click focuses a pane, wheel scrolls it. q/ctrl-c quits."@),
        muted_line("  any key closes this"@),
    ]
}

fn headings_line(left: &str, lc: Tint, right: &str) -> (r: Line)
    ensures
        r.deep_view() == headings(left@, lc, right@),
{
    let mut out = no_spans();
    put(&mut out, raw("  "));
    put(&mut out, span_of(text::pad(left, 28), bold_tint(lc)));
    put(&mut out, span(right, bold_tint(Tint::Accent)));
    assert(out.deep_view() =~= headings(left@, lc, right@));
    out
}

fn cell_into(h: &Hint, last: bool, out: &mut Line)
    ensures
        final(out).deep_view() == old(out).deep_view() + help_cell(h.deep_view(), last),
{
    let ghost start = out.deep_view();
    put(
        out,
        span_of(
            text::pad(h.key, 9),
            bold_tint(
                if h.mutates {
                    Tint::Danger
                } else {
                    Tint::Accent
                },
            ),
        ),
    );
    let does = if last {
        text::owned(h.does)
    } else {
        text::pad(h.does, 19)
    };
    put(out, span_of(does, tint(Tint::Muted)));
    assert(out.deep_view() =~= start + help_cell(h.deep_view(), last));
}

fn row_line(left: &Vec<Hint>, right: &Vec<Hint>, i: usize) -> (r: Line)
    ensures
        r.deep_view() == help_row(left.deep_view(), right.deep_view(), i as int),
{
    let ghost lv = left.deep_view();
    let ghost rv = right.deep_view();
    assert(lv.len() == left@.len());
    assert(rv.len() == right@.len());
    let mut out = no_spans();
    put(&mut out, raw("  "));
    assert(out.deep_view() =~= seq![raw_sp("  "@)]);
    if i < left.len() {
        assert(lv[i as int] == left@[i as int].deep_view());
        cell_into(&left[i], false, &mut out);
    } else {
        let ghost before = out.deep_view();
        let space = text::repeat(' ', 28);
        put(&mut out, raw(space.as_str()));
        assert(out.deep_view() =~= before + seq![raw_sp(text::repeated(' ', 28))]);
    }
    if i < right.len() {
        assert(rv[i as int] == right@[i as int].deep_view());
        cell_into(&right[i], true, &mut out);
    }
    assert(out.deep_view() =~= help_row(lv, rv, i as int));
    out
}

fn rows_into(left: &Vec<Hint>, right: &Vec<Hint>, out: &mut Vec<Line>)
    ensures
        final(out).deep_view() == old(out).deep_view() + help_rows(
            left.deep_view(),
            right.deep_view(),
        ),
{
    let ghost start = out.deep_view();
    let ghost lv = left.deep_view();
    let ghost rv = right.deep_view();
    let ghost want = help_rows(lv, rv);
    let n: usize = if left.len() < right.len() { right.len() } else { left.len() };
    let mut i: usize = 0;
    assert(start + want.take(0) =~= start);
    while i < n
        invariant
            lv == left.deep_view(),
            rv == right.deep_view(),
            want == help_rows(lv, rv),
            want.len() == n,
            i <= n,
            out.deep_view() == start + want.take(i as int),
        decreases n - i,
    {
        put_line(out, row_line(left, right, i));
        assert(start + want.take(i + 1) =~= (start + want.take(i as int)).push(want[i as int]));
        i = i + 1;
    }
    assert(want.take(i as int) =~= want);
}

fn keys_to_move() -> (r: Vec<Hint>)
    ensures
        r.deep_view() == move_keys(),
{
    let r = vec![
        hint("j/k \u{2193}\u{2191}", "row", false),
        hint("g/G", "top / bottom", false),
        hint("ctrl-d/u", "half page", false),
        hint("tab", "next pane", false),
        hint("1 2 3", "tree/history/jobs", false),
        hint("enter", "open", false),
        hint("h/esc", "collapse / back", false),
        hint("/", "filter pipelines", false),
        hint("^g", "incl. group names", false),
    ];
    assert(r.deep_view() =~= move_keys());
    r
}

fn keys_of_jobs() -> (r: Vec<Hint>)
    ensures
        r.deep_view() == job_keys(),
{
    let r = vec![
        hint("1 2 3", "console/art/mat", false),
        hint("tab", "cycle tabs", false),
        hint("/", "search log", false),
        hint("n/N", "next / prev hit", false),
        hint("g/G", "top / bottom", false),
        hint("e", "open in $EDITOR", false),
        hint("y", "copy artifact url", false),
        hint("q/esc", "close", false),
    ];
    assert(r.deep_view() =~= job_keys());
    r
}

fn keys_that_change() -> (r: Vec<Hint>)
    ensures
        r.deep_view() == change_keys(),
{
    let r = vec![
        hint("t", "trigger", true),
        hint("T", "trigger + vars", true),
        hint("R", "rerun failed", true),
        hint("X", "cancel stage", true),
        hint("p", "pause / unpause", true),
        hint("V", "save view", true),
    ];
    assert(r.deep_view() =~= change_keys());
    r
}

fn keys_of_server() -> (r: Vec<Hint>)
    ensures
        r.deep_view() == server_keys(),
{
    let r = vec![
        hint("A", "reconnect GoCD", false),
        hint("@", "GitHub token", false),
        hint("v", "switch view", false),
        hint("r", "refresh", false),
        hint("f", "favorite", false),
        hint("y", "copy sha / name", false),
        hint("o", "open commit", false),
        hint("O", "open in GoCD", false),
    ];
    assert(r.deep_view() =~= server_keys());
    r
}

fn legend_line() -> (r: Line)
    ensures
        r.deep_view() == legend(),
{
    let mut out = no_spans();
    put(&mut out, span("  \u{25cf} ", tint(Tint::Danger)));
    put(&mut out, span("failed   ", tint(Tint::Muted)));
    put(&mut out, span("\u{25d0} ", tint(Tint::Warning)));
    put(&mut out, span("building   ", tint(Tint::Muted)));
    put(&mut out, span("\u{25cf} ", tint(Tint::Success)));
    put(&mut out, span("passed   ", tint(Tint::Muted)));
    put(&mut out, span("\u{23f8} ", tint(Tint::Warning)));
    put(&mut out, span("paused   ", tint(Tint::Muted)));
    put(&mut out, span("\u{2605} ", tint(Tint::Favorite)));
    put(&mut out, span("favorite", tint(Tint::Muted)));
    assert(out.deep_view() =~= legend());
    out
}

/// The keys, in four blocks over two columns.
pub fn help_lines() -> (r: Vec<Line>)
    ensures
        r.deep_view() == help_text(),
{
    let mut out = no_lines();
    put_line(&mut out, headings_line("MOVE", Tint::Accent, "JOB & LOGS"));
    assert(out.deep_view() =~= seq![headings("MOVE"@, Tint::Accent, "JOB & LOGS"@)]);
    let a = keys_to_move();
    let b = keys_of_jobs();
    rows_into(&a, &b, &mut out);
    let ghost mid = out.deep_view();
    put_line(&mut out, blank());
    put_line(&mut out, headings_line("CHANGES THINGS", Tint::Danger, "SERVER & VIEW"));
    assert(out.deep_view() =~= mid + seq![
        blank_line(),
        headings("CHANGES THINGS"@, Tint::Danger, "SERVER & VIEW"@),
    ]);
    let c = keys_that_change();
    let d = keys_of_server();
    rows_into(&c, &d, &mut out);
    let ghost tail = out.deep_view();
    put_line(&mut out, blank());
    put_line(&mut out, legend_line());
    put_line(
        &mut out,
        muted("  mouse: click focuses a pane, wheel scrolls it. q/ctrl-c quits."),
    );
    put_line(&mut out, muted("  any key closes this"));
    assert(out.deep_view() =~= tail + seq![
        blank_line(),
        legend(),
        muted_line("  mouse: click focuses a pane, wheel scrolls it. q/ctrl-c quits."@),
        muted_line("  any key closes this"@),
    ]);
    out
}

// ---- laws ----------------------------------------------------------------

/// A secret is never shown: what is seen of it depends on its length alone.
pub proof fn secrets_are_not_shown(a: Seq<char>, b: Seq<char>)
    requires
        a.len() == b.len(),
    ensures
        input_spans(a, true) == input_spans(b, true),
{
}

} // verus!
