//! What the rows of the panes show, one by one.

use vstd::prelude::*;
use vstd::string::*;

use crate::app::AppView;
use crate::model::{ArtifactRowView, ModificationView, PipelineInstanceView};
use crate::text;
use crate::ui::console::{artifact_spans, match_style};
use crate::ui::detail::{
    cause_part, commit_part, detail_scroll, detail_text, head_part, DetailTimesView,
};
use crate::ui::laws::seven;
use crate::ui::lists::{favorites_item, name_view, pipeline_icon, pipeline_item, runs};
use crate::ui::{SpanView, Tint};

verus! {

proof fn lemma_runs_style(name: Seq<char>, hits: Seq<int>, n: int, i: int)
    requires
        0 <= n <= name.len(),
        0 <= i < runs(name, hits, n).len(),
    ensures
        runs(name, hits, n)[i].style.fg is None || runs(name, hits, n)[i].style.fg == Some(
            Tint::Accent,
        ),
    decreases n,
{
    if n > 0 {
        let before = runs(name, hits, n - 1);
        let all = runs(name, hits, n);
        if i < before.len() && all[i] == before[i] {
            lemma_runs_style(name, hits, n - 1, i);
        }
    }
}

proof fn lemma_name_style(name: Seq<char>, filter: Seq<char>)
    ensures
        forall|i: int|
            0 <= i < name_view(name, filter).len() ==> {
                let fg = (#[trigger] name_view(name, filter)[i]).style.fg;
                fg is None || fg == Some(Tint::Accent)
            },
{
    let all = name_view(name, filter);
    assert forall|i: int| 0 <= i < all.len() implies {
        let fg = (#[trigger] all[i]).style.fg;
        fg is None || fg == Some(Tint::Accent)
    } by {
        if filter.len() > 0 {
            if let Some(hits) = crate::app::matching::matched(name, filter, 0) {
                lemma_runs_style(name, hits, name.len() as int, i);
            }
        }
    }
}

/// Whether a line has a span in that colour.
pub open spec fn coloured(line: Seq<SpanView>, fg: Tint) -> bool {
    exists|i: int| 0 <= i < line.len() && (#[trigger] line[i]).style.fg == Some(fg)
}

/// A favorite has its star where stars are shown, and nothing else has one; a locked
/// pipeline has its lock at the end, and no other has.
#[verifier::rlimit(40)]
pub proof fn stars_and_locks_are_shown(v: AppView, name: Seq<char>, show_star: bool)
    ensures
        coloured(pipeline_item(v, name, show_star), Tint::Favorite) <==> show_star
            && v.favorites.contains(name),
        show_star && v.favorites.contains(name) ==> pipeline_item(v, name, show_star)[3].content
            == "\u{2605} "@,
        v.pipeline_info.contains_key(name) && v.pipeline_info[name].locked ==> {
            let item = pipeline_item(v, name, show_star);
            item[item.len() - 1].content == " \u{1f512}"@ && item[item.len() - 1].style.fg == Some(
                Tint::Muted,
            )
        },
        !(v.pipeline_info.contains_key(name) && v.pipeline_info[name].locked) ==> {
            let item = pipeline_item(v, name, show_star);
            item[item.len() - 1].style.fg != Some(Tint::Muted)
        },
        pipeline_item(v, name, show_star)[1] == pipeline_icon(v, name),
{
    let item = pipeline_item(v, name, show_star);
    let names = name_view(name, v.filter);
    lemma_name_style(name, v.filter);
    let star: int = if show_star && v.favorites.contains(name) {
        1
    } else {
        0
    };
    if star == 1 {
        assert(item[3].style.fg == Some(Tint::Favorite));
    } else if coloured(item, Tint::Favorite) {
        let i = choose|i: int|
            0 <= i < item.len() && (#[trigger] item[i]).style.fg == Some(Tint::Favorite);
        if 3 <= i < 3 + names.len() {
            assert(item[i] == names[i - 3]);
        }
    }
    let locked = v.pipeline_info.contains_key(name) && v.pipeline_info[name].locked;
    if !locked {
        if names.len() > 0 {
            assert(item[item.len() - 1] == names[names.len() - 1]);
        }
    }
}

/// The header of the favorites says how many there are, and whether they are open.
pub proof fn favorites_are_counted(v: AppView)
    ensures
        v.favorites_expanded ==> favorites_item(v)[0].content == "\u{25be}"@
            + " \u{2605} Favorites"@,
        !v.favorites_expanded ==> favorites_item(v)[0].content == "\u{25b8}"@
            + " \u{2605} Favorites"@,
        favorites_item(v)[1].content == " ("@ + text::dec(
            crate::names::ordered(v.favorites).len(),
        ) + ")"@,
{
}

/// Whether the details say `value` behind `label`.
pub open spec fn says_of(lines: Seq<Seq<SpanView>>, label: Seq<char>, value: Seq<char>) -> bool {
    exists|i: int|
        {
            &&& 0 <= i < lines.len()
            &&& (#[trigger] lines[i]).len() >= 2
            &&& lines[i][0].content == label
            &&& lines[i][1].content == value
        }
}

proof fn lemma_says_of(lines: Seq<Seq<SpanView>>, i: int, label: Seq<char>, value: Seq<char>)
    requires
        0 <= i < lines.len(),
        lines[i].len() >= 2,
        lines[i][0].content == label,
        lines[i][1].content == value,
    ensures
        says_of(lines, label, value),
{
}

proof fn lemma_says_in(
    a: Seq<Seq<SpanView>>,
    b: Seq<Seq<SpanView>>,
    c: Seq<Seq<SpanView>>,
    label: Seq<char>,
    value: Seq<char>,
)
    requires
        says_of(b, label, value),
    ensures
        says_of(a + b + c, label, value),
{
    let i = choose|i: int|
        {
            &&& 0 <= i < b.len()
            &&& (#[trigger] b[i]).len() >= 2
            &&& b[i][0].content == label
            &&& b[i][1].content == value
        };
    let all = a + b + c;
    assert(all[a.len() + i] == b[i]);
    lemma_says_of(all, a.len() + i, label, value);
}

#[verifier::rlimit(40)]
proof fn lemma_says_some(
    a: Seq<Seq<SpanView>>,
    b: Seq<Seq<SpanView>>,
    c: Seq<Seq<SpanView>>,
    d: Seq<Seq<SpanView>>,
    e: Seq<Seq<SpanView>>,
    f: Seq<Seq<SpanView>>,
    label: Seq<char>,
    value: Seq<char>,
)
    requires
        says_of(a, label, value) || says_of(b, label, value) || says_of(c, label, value)
            || says_of(d, label, value) || says_of(e, label, value),
    ensures
        says_of(a + b + c + d + e + f, label, value),
{
    let none = Seq::<Seq<SpanView>>::empty();
    let all = a + b + c + d + e + f;
    if says_of(a, label, value) {
        lemma_says_in(none, a, b + c + d + e + f, label, value);
        assert(none + a + (b + c + d + e + f) =~= all);
    } else if says_of(b, label, value) {
        lemma_says_in(a, b, c + d + e + f, label, value);
        assert(a + b + (c + d + e + f) =~= all);
    } else if says_of(c, label, value) {
        lemma_says_in(a + b, c, d + e + f, label, value);
        assert(a + b + c + (d + e + f) =~= all);
    } else if says_of(d, label, value) {
        lemma_says_in(a + b + c, d, e + f, label, value);
        assert(a + b + c + d + (e + f) =~= all);
    } else {
        lemma_says_in(a + b + c + d, e, f, label, value);
    }
}

proof fn lemma_cause_says(r: PipelineInstanceView)
    ensures
        r.build_cause is Some && r.build_cause->0.trigger_message is Some ==> says_of(
            cause_part(r),
            "Cause: "@,
            r.build_cause->0.trigger_message->0,
        ),
        r.build_cause is Some && r.build_cause->0.approver is Some ==> says_of(
            cause_part(r),
            "By: "@,
            r.build_cause->0.approver->0,
        ),
{
    let cause = cause_part(r);
    if r.build_cause is Some {
        let c = r.build_cause->0;
        if c.trigger_message is Some {
            lemma_says_of(cause, 0, "Cause: "@, c.trigger_message->0);
        }
        if c.approver is Some {
            lemma_says_of(cause, cause.len() - 1, "By: "@, c.approver->0);
        }
    }
}

proof fn lemma_commit_says(r: PipelineInstanceView, committed: Seq<char>, m: ModificationView)
    requires
        r.modification() == Some(m),
    ensures
        m.revision is Some ==> says_of(
            commit_part(r, committed),
            "Commit: "@,
            seven(m.revision->0),
        ),
        m.user_name is Some ==> says_of(commit_part(r, committed), "Author: "@, m.user_name->0),
        m.modified_time is Some ==> says_of(commit_part(r, committed), "Committed: "@, committed),
{
    let commit = commit_part(r, committed);
    let has: int = if m.revision is Some {
        1
    } else {
        0
    };
    if m.revision is Some {
        let sha = m.revision->0;
        assert(sha.len() > 7 ==> sha.take(7) =~= sha.subrange(0, 7));
        lemma_says_of(commit, 0, "Commit: "@, seven(sha));
    }
    if m.user_name is Some {
        lemma_says_of(commit, has, "Author: "@, m.user_name->0);
    }
    if m.modified_time is Some {
        lemma_says_of(commit, commit.len() - 1, "Committed: "@, committed);
    }
}

/// The parts of the details in their order.
proof fn lemma_detail_parts(
    v: AppView,
    r: PipelineInstanceView,
    t: DetailTimesView,
    run: Seq<Seq<SpanView>>,
    end: Seq<Seq<SpanView>>,
)
    requires
        run == seq![
            crate::ui::detail::labelled(
                "Run "@,
                "#"@ + text::dec_int(r.counter as int) + " "@ + r.label,
            ),
        ],
        end == seq![crate::ui::blank_line()] + crate::ui::detail::stage_part(
            r.stages,
            t.stages,
            crate::ui::detail::cursor_row_of(v),
        ) + crate::ui::detail::check_part(v),
    ensures
        detail_text(v, r, t) == run + crate::ui::detail::when_line(
            "Started: "@,
            r.scheduled_date,
            t.started,
        ) + crate::ui::detail::maybe_line("Comment: "@, r.comment) + cause_part(r) + commit_part(
            r,
            t.committed,
        ) + end,
{
    let when = crate::ui::detail::when_line("Started: "@, r.scheduled_date, t.started);
    let comment = crate::ui::detail::maybe_line("Comment: "@, r.comment);
    let parts = run + when + comment + cause_part(r) + commit_part(r, t.committed);
    assert(head_part(r, t) =~= parts + seq![crate::ui::blank_line()]);
    assert(detail_text(v, r, t) =~= parts + end);
}

/// The details say which run it is and when it started, why it ran and who started
/// it, the commit by its first seven characters and the author of it, each where it
/// is known.
#[verifier::rlimit(40)]
pub proof fn details_tell_of_the_run(
    v: AppView,
    r: PipelineInstanceView,
    t: DetailTimesView,
    m: ModificationView,
)
    requires
        r.modification() == Some(m),
    ensures
        ({
            let all = detail_text(v, r, t);
            &&& says_of(all, "Run "@, "#"@ + text::dec_int(r.counter as int) + " "@ + r.label)
            &&& r.scheduled_date is Some ==> says_of(all, "Started: "@, t.started)
            &&& r.comment is Some ==> says_of(all, "Comment: "@, r.comment->0)
            &&& r.build_cause is Some && r.build_cause->0.trigger_message is Some ==> says_of(
                all,
                "Cause: "@,
                r.build_cause->0.trigger_message->0,
            )
            &&& r.build_cause is Some && r.build_cause->0.approver is Some ==> says_of(
                all,
                "By: "@,
                r.build_cause->0.approver->0,
            )
            &&& m.revision is Some ==> says_of(all, "Commit: "@, seven(m.revision->0))
            &&& m.user_name is Some ==> says_of(all, "Author: "@, m.user_name->0)
            &&& m.modified_time is Some ==> says_of(all, "Committed: "@, t.committed)
        }),
{
    let all = detail_text(v, r, t);
    let number = "#"@ + text::dec_int(r.counter as int) + " "@ + r.label;
    let run = seq![crate::ui::detail::labelled("Run "@, number)];
    let when = crate::ui::detail::when_line("Started: "@, r.scheduled_date, t.started);
    let comment = crate::ui::detail::maybe_line("Comment: "@, r.comment);
    let cause = cause_part(r);
    let commit = commit_part(r, t.committed);
    let end = seq![crate::ui::blank_line()] + crate::ui::detail::stage_part(
        r.stages,
        t.stages,
        crate::ui::detail::cursor_row_of(v),
    ) + crate::ui::detail::check_part(v);
    lemma_detail_parts(v, r, t, run, end);
    lemma_cause_says(r);
    lemma_commit_says(r, t.committed, m);
    lemma_says_of(run, 0, "Run "@, number);
    lemma_says_some(run, when, comment, cause, commit, end, "Run "@, number);
    if r.scheduled_date is Some {
        lemma_says_of(when, 0, "Started: "@, t.started);
        lemma_says_some(run, when, comment, cause, commit, end, "Started: "@, t.started);
    }
    if r.comment is Some {
        lemma_says_of(comment, 0, "Comment: "@, r.comment->0);
        lemma_says_some(run, when, comment, cause, commit, end, "Comment: "@, r.comment->0);
    }
    if r.build_cause is Some {
        let c = r.build_cause->0;
        if c.trigger_message is Some {
            let msg = c.trigger_message->0;
            lemma_says_some(run, when, comment, cause, commit, end, "Cause: "@, msg);
        }
        if c.approver is Some {
            lemma_says_some(run, when, comment, cause, commit, end, "By: "@, c.approver->0);
        }
    }
    if m.revision is Some {
        let sha = seven(m.revision->0);
        lemma_says_some(run, when, comment, cause, commit, end, "Commit: "@, sha);
    }
    if m.user_name is Some {
        lemma_says_some(run, when, comment, cause, commit, end, "Author: "@, m.user_name->0);
    }
    if m.modified_time is Some {
        lemma_says_some(run, when, comment, cause, commit, end, "Committed: "@, t.committed);
    }
}

/// The details are scrolled just as far as it takes for the line with the cursor to
/// be seen.
pub proof fn the_cursor_is_on_screen(k: int, height: int, len: int)
    requires
        0 <= k < len,
        0 < height,
    ensures
        detail_scroll(Some(k), height, len) <= k < detail_scroll(Some(k), height, len) + height,
        0 <= detail_scroll(Some(k), height, len),
        k < height ==> detail_scroll(Some(k), height, len) == 0,
        k >= height ==> k == detail_scroll(Some(k), height, len) + height - 1,
        detail_scroll(None, height, len) == 0,
{
}

/// An artifact stands below its folder by two columns for each that it is in; a
/// folder shows whether it is open; the selected one is marked.
pub proof fn artifacts_stand_in_their_folders(row: ArtifactRowView, selected: bool)
    ensures
        ({
            let line = artifact_spans(row, selected);
            &&& line.len() == 3
            &&& (line[0].content == "\u{25b6} "@) == selected
            &&& line[1].content.len() == row.depth + row.depth
            &&& forall|i: int| 0 <= i < line[1].content.len() ==> line[1].content[i] == ' '
            &&& row.is_folder && row.expanded ==> line[2].content == "\u{25be} "@ + row.name
            &&& row.is_folder && !row.expanded ==> line[2].content == "\u{25b8} "@ + row.name
            &&& !row.is_folder ==> line[2].content == "  "@ + row.name
        }),
{
    reveal_strlit("\u{25b6} ");
    reveal_strlit("  ");
    assert("\u{25b6} "@[0] == '\u{25b6}' && "  "@[0] == ' ');
}

/// The match that is shown looks different from the others.
pub proof fn the_match_at_hand_stands_out()
    ensures
        match_style(true) != match_style(false),
        match_style(true).bg == Some(Tint::Warning),
        match_style(false).bg == Some(Tint::Accent),
{
}

} // verus!
