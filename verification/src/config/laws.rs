//! What holds of the settings: where they are, what overrides them, and what the
//! commands in them give.

use vstd::prelude::*;
use vstd::string::*;

use crate::app::laws::acting::starts_with;
use crate::config::{
    config_dir_of, outcome_value, overridden, resolved, under, wrapped_command, CommandOutcome,
    ConfigView, Overrides, ResolutionView,
};
use crate::text;
use crate::text::laws::{bare, blank, what_is_around_is_trimmed};

verus! {

/// The directory that is named is taken as it is; else it is one of its own
/// under `$XDG_CONFIG_HOME`, unless that is empty; else one under the home
/// directory. Nothing else decides.
pub proof fn the_directory_is_found(
    dir: Seq<char>,
    flag: Option<Seq<char>>,
    xdg: Option<Seq<char>>,
    home: Option<Seq<char>>,
)
    ensures
        flag == Some(dir) ==> config_dir_of(flag, xdg, home) == Ok::<_, Seq<char>>(dir),
        flag is None && xdg == Some(dir.push('x')) ==> config_dir_of(flag, xdg, home) == Ok::<
            _,
            Seq<char>,
        >(dir.push('x') + "/lazygocd"@),
        flag is None && (xdg is None || xdg->0.len() == 0) && home == Some(dir.push('x'))
            ==> config_dir_of(flag, xdg, home) == Ok::<_, Seq<char>>(
            dir.push('x') + "/.config/lazygocd"@,
        ),
        config_dir_of(flag, xdg, home) is Err <==> flag is None && (xdg is None || xdg->0.len()
            == 0) && home is None,
{
    reveal_strlit("/");
    reveal_strlit("lazygocd");
    reveal_strlit("/lazygocd");
    reveal_strlit(".config");
    reveal_strlit("/.config/lazygocd");
    let base = dir.push('x');
    assert(base.last() == 'x');
    assert(under(base, "lazygocd"@) =~= base + "/lazygocd"@);
    let mid = under(base, ".config"@);
    assert(mid =~= base + "/"@ + ".config"@);
    assert(mid.last() == 'g');
    assert(under(mid, "lazygocd"@) =~= base + "/.config/lazygocd"@);
}

/// Whether a setting is the one of the environment where that has it, and else
/// the one that was there.
pub open spec fn wins(env: Option<Seq<char>>, was: Option<Seq<char>>, is: Option<Seq<char>>) -> bool {
    &&& env is Some ==> is == env
    &&& env is None ==> is == was
}

/// What the environment sets overrides the file, setting by setting, and what it
/// leaves alone stays.
pub proof fn the_environment_wins(cfg: ConfigView, env: Overrides)
    ensures
        ({
            let is = overridden(cfg, env);
            &&& wins(env.url.deep_view(), Some(cfg.server_url), Some(is.server_url))
            &&& wins(env.username.deep_view(), cfg.username, is.username)
            &&& wins(env.password.deep_view(), cfg.password, is.password)
            &&& wins(env.token.deep_view(), cfg.auth_token, is.auth_token)
            &&& wins(env.github_token.deep_view(), cfg.github_token, is.github_token)
            &&& is.insecure_skip_verify <==> env.insecure || cfg.insecure_skip_verify
            &&& is.poll_interval_secs == cfg.poll_interval_secs
            &&& is.github_api_base == cfg.github_api_base
            &&& is.notifications == cfg.notifications
            &&& is.editor == cfg.editor
        }),
{
}

/// What stands between the marks is the command, without the whitespace around.
pub proof fn the_command_stands_between_the_marks(
    before: Seq<char>,
    command: Seq<char>,
    after: Seq<char>,
)
    requires
        blank(before),
        blank(after),
        bare(command) || command.len() == 0,
    ensures
        wrapped_command(before + ("{{cmd:"@ + (before + command + after) + "}}"@) + after) == Some(
            command,
        ),
{
    reveal_strlit("{{cmd:");
    reveal_strlit("}}");
    let inner = before + command + after;
    let s = "{{cmd:"@ + inner + "}}"@;
    assert(s[0] == '{');
    assert(s.last() == '}');
    what_is_around_is_trimmed(before, s, after);
    what_is_around_is_trimmed(before, command, after);
    assert(s =~= "{{cmd:"@ + (inner + "}}"@));
    crate::text::laws::what_is_joined_comes_apart("{{cmd:"@, inner + "}}"@);
    crate::text::laws::what_is_joined_comes_apart(inner, "}}"@);
}

/// A command gives what it printed, without the whitespace around, exactly where
/// it ran well and printed anything; whatever else happened names the setting.
pub proof fn commands_give_what_they_print(
    field: Seq<char>,
    body: Seq<char>,
    out: CommandOutcome,
    before: Seq<char>,
    value: Seq<char>,
    after: Seq<char>,
)
    requires
        blank(before),
        blank(after),
        bare(value) || value.len() == 0,
    ensures
        out matches CommandOutcome::Succeeded { stdout: Some(s) } && s@ == before + value + after
            && value.len() > 0 ==> outcome_value(field, body, out) == Ok::<_, Seq<char>>(value),
        out matches CommandOutcome::Succeeded { stdout: Some(s) } && s@ == before + value + after
            && value.len() == 0 ==> outcome_value(field, body, out) is Err,
        !(out is Succeeded) ==> outcome_value(field, body, out) is Err,
        outcome_value(field, body, out) is Err ==> starts_with(
            outcome_value(field, body, out)->Err_0,
            field + ": "@,
        ),
{
    what_is_around_is_trimmed(before, value, after);
    reveal_strlit(": ");
    reveal_strlit(": running `");
    reveal_strlit(": `");
    if let Err(e) = outcome_value(field, body, out) {
        let head = field + ": "@;
        assert(e.subrange(0, head.len() as int) =~= head);
    }
}

/// A failed command is answered with what it said of it.
pub proof fn failed_commands_are_quoted(field: Seq<char>, body: Seq<char>, out: CommandOutcome)
    requires
        out is Failed,
    ensures
        outcome_value(field, body, out) is Err,
        text::has(outcome_value(field, body, out)->Err_0, body),
        text::has(outcome_value(field, body, out)->Err_0, out->status@),
        text::trimmed(out->stderr@).len() > 0 ==> text::has(
            outcome_value(field, body, out)->Err_0,
            text::trimmed(out->stderr@),
        ),
{
    if let Err(e) = outcome_value(field, body, out) {
        let a = field + ": `"@;
        let b = a + body + "` failed ("@;
        let status = out->status@;
        let d = b + status + "): "@;
        assert(e.subrange(a.len() as int, (a.len() + body.len()) as int) =~= body);
        assert(text::occurs_at(e, body, a.len() as int));
        assert(e.subrange(b.len() as int, (b.len() + status.len()) as int) =~= status);
        assert(text::occurs_at(e, status, b.len() as int));
        let t = text::trimmed(out->stderr@);
        if t.len() > 0 {
            assert(e.subrange(d.len() as int, (d.len() + t.len()) as int) =~= t);
            assert(text::occurs_at(e, t, d.len() as int));
        }
    }
}

/// A setting whose command is empty or fails stops the start, and one whose
/// command has not been run yet is what is asked for next.
pub proof fn the_first_command_decides(cfg: ConfigView, command: Seq<char>, out: CommandOutcome)
    requires
        wrapped_command(cfg.server_url) == Some(command),
    ensures
        command.len() == 0 ==> resolved(cfg, 0, Seq::empty()).1 is Failed,
        command.len() > 0 ==> resolved(cfg, 0, Seq::empty()) == (
            cfg,
            ResolutionView::Needs { field: "server_url"@, body: command },
        ),
        command.len() > 0 && outcome_value("server_url"@, command, out) is Err ==> resolved(
            cfg,
            0,
            seq![out],
        ) == (
            cfg,
            ResolutionView::Failed(outcome_value("server_url"@, command, out)->Err_0),
        ),
{
    reveal_with_fuel(resolved, 2);
    assert(seq![out][0] == out);
}

} // verus!
