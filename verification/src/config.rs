//! The settings: their defaults, where they live, and how values that wrap a
//! command are resolved.

use vstd::prelude::*;
use vstd::string::*;

use crate::dup::Dup;
use crate::text;

pub mod laws;

verus! {

/// The settings.
#[derive(Debug)]
pub struct Config {
    /// e.g. "https://gocd.example.com/go" (no trailing slash). Empty means unconfigured.
    pub server_url: String,
    pub username: Option<String>,
    pub password: Option<String>,
    /// Personal access token, used instead of username and password where set.
    pub auth_token: Option<String>,
    pub insecure_skip_verify: bool,
    pub poll_interval_secs: u64,
    /// GitHub token; without one only public repositories can be checked.
    pub github_token: Option<String>,
    /// GitHub REST API root: a GitHub Enterprise instance's /api/v3, or the public one.
    pub github_api_base: String,
    /// Desktop notification when a favorite pipeline's latest run turns Failed.
    pub notifications: bool,
    /// Editor for 'e', e.g. "nvim" or "code --wait"; beats $VISUAL and $EDITOR.
    pub editor: Option<String>,
}

#[verifier::ext_equal]
pub struct ConfigView {
    pub server_url: Seq<char>,
    pub username: Option<Seq<char>>,
    pub password: Option<Seq<char>>,
    pub auth_token: Option<Seq<char>>,
    pub insecure_skip_verify: bool,
    pub poll_interval_secs: u64,
    pub github_token: Option<Seq<char>>,
    pub github_api_base: Seq<char>,
    pub notifications: bool,
    pub editor: Option<Seq<char>>,
}

impl DeepView for Config {
    type V = ConfigView;

    open spec fn deep_view(&self) -> ConfigView {
        ConfigView {
            server_url: self.server_url@,
            username: self.username.deep_view(),
            password: self.password.deep_view(),
            auth_token: self.auth_token.deep_view(),
            insecure_skip_verify: self.insecure_skip_verify,
            poll_interval_secs: self.poll_interval_secs,
            github_token: self.github_token.deep_view(),
            github_api_base: self.github_api_base@,
            notifications: self.notifications,
            editor: self.editor.deep_view(),
        }
    }
}

impl Dup for Config {
    fn dup(&self) -> (r: Self) {
        Config {
            server_url: self.server_url.dup(),
            username: self.username.dup(),
            password: self.password.dup(),
            auth_token: self.auth_token.dup(),
            insecure_skip_verify: self.insecure_skip_verify,
            poll_interval_secs: self.poll_interval_secs,
            github_token: self.github_token.dup(),
            github_api_base: self.github_api_base.dup(),
            notifications: self.notifications,
            editor: self.editor.dup(),
        }
    }
}


// ---- defaults ------------------------------------------------------------

pub fn default_poll_interval() -> (r: u64)
    ensures
        r == 30,
{
    30
}

pub fn default_github_api_base() -> (r: String)
    ensures
        r@ == "https://api.github.com"@,
{
    text::owned("https://api.github.com")
}

pub fn default_true() -> (r: bool)
    ensures
        r,
{
    true
}

/// An unconfigured server, the public GitHub API, and notifications on.
pub open spec fn unconfigured() -> ConfigView {
    ConfigView {
        server_url: Seq::empty(),
        username: None,
        password: None,
        auth_token: None,
        insecure_skip_verify: false,
        poll_interval_secs: 30,
        github_token: None,
        github_api_base: "https://api.github.com"@,
        notifications: true,
        editor: None,
    }
}

impl Default for Config {
    fn default() -> (r: Config)
        ensures
            r.deep_view() == unconfigured(),
    {
        let r = Config {
            server_url: String::new(),
            username: None,
            password: None,
            auth_token: None,
            insecure_skip_verify: false,
            poll_interval_secs: default_poll_interval(),
            github_token: None,
            github_api_base: default_github_api_base(),
            notifications: default_true(),
            editor: None,
        };
        assert(r.server_url@ =~= Seq::<char>::empty());
        r
    }
}

// ---- where the files are -------------------------------------------------

/// Which directory the settings live in.
#[derive(Debug, Clone, Copy, PartialEq, Eq, Structural)]
pub enum DirChoice {
    /// The one named on the command line, as it is.
    Flag,
    /// `lazygocd` under `$XDG_CONFIG_HOME`.
    Xdg,
    /// `.config/lazygocd` under the home directory.
    Home,
    /// Nothing says where.
    Unknown,
}

/// The command line beats a non-empty `$XDG_CONFIG_HOME`, which beats the home
/// directory.
pub fn choose_config_dir(flag: bool, xdg_non_empty: bool, home: bool) -> (r: DirChoice)
    ensures
        r == if flag {
            DirChoice::Flag
        } else if xdg_non_empty {
            DirChoice::Xdg
        } else if home {
            DirChoice::Home
        } else {
            DirChoice::Unknown
        },
{
    if flag {
        DirChoice::Flag
    } else if xdg_non_empty {
        DirChoice::Xdg
    } else if home {
        DirChoice::Home
    } else {
        DirChoice::Unknown
    }
}

/// `leaf` under the directory `base`.
pub open spec fn under(base: Seq<char>, leaf: Seq<char>) -> Seq<char> {
    if base.len() == 0 || base.last() == '/' {
        base + leaf
    } else {
        base + "/"@ + leaf
    }
}

fn join_path(base: &str, leaf: &str) -> (r: String)
    ensures
        r@ == under(base@, leaf@),
{
    let n: usize = base.unicode_len();
    if n == 0 || base.get_char(n - 1) == '/' {
        text::cat2(base, leaf)
    } else {
        text::cat3(base, "/", leaf)
    }
}

pub open spec fn config_dir_of(
    flag: Option<Seq<char>>,
    xdg: Option<Seq<char>>,
    home: Option<Seq<char>>,
) -> Result<Seq<char>, Seq<char>> {
    match (flag, xdg, home) {
        (Some(dir), _, _) => Ok(dir),
        (None, Some(x), _) if x.len() > 0 => Ok(under(x, "lazygocd"@)),
        (None, _, Some(h)) => Ok(under(under(h, ".config"@), "lazygocd"@)),
        _ => Err("could not determine home directory"@),
    }
}

/// The directory of the settings, by `choose_config_dir`.
pub fn resolve_config_dir(flag: Option<&str>, xdg: Option<&str>, home: Option<&str>) -> (r: Result<
    String,
    String,
>)
    ensures
        match r {
            Ok(dir) => config_dir_of(flag.deep_view(), xdg.deep_view(), home.deep_view()) == Ok::<
                Seq<char>,
                Seq<char>,
            >(dir@),
            Err(e) => config_dir_of(flag.deep_view(), xdg.deep_view(), home.deep_view()) == Err::<
                Seq<char>,
                Seq<char>,
            >(e@),
        },
{
    let filled = match xdg {
        Some(x) => x.unicode_len() > 0,
        None => false,
    };
    match choose_config_dir(flag.is_some(), filled, home.is_some()) {
        DirChoice::Flag => Ok(text::owned(flag.unwrap())),
        DirChoice::Xdg => Ok(join_path(xdg.unwrap(), "lazygocd")),
        DirChoice::Home => {
            let config = join_path(home.unwrap(), ".config");
            Ok(join_path(config.as_str(), "lazygocd"))
        },
        DirChoice::Unknown => Err(text::owned("could not determine home directory")),
    }
}

pub fn config_path(dir: &str) -> (r: String)
    ensures
        r@ == under(dir@, "config.toml"@),
{
    join_path(dir, "config.toml")
}

/// The last dashboard that was loaded, shown at the next start at once.
pub fn dashboard_cache_path(dir: &str) -> (r: String)
    ensures
        r@ == under(dir@, "dashboard_cache.json"@),
{
    join_path(dir, "dashboard_cache.json")
}

/// The names of the starred pipelines.
pub fn favorites_path(dir: &str) -> (r: String)
    ensures
        r@ == under(dir@, "favorites.json"@),
{
    join_path(dir, "favorites.json")
}

// ---- values that wrap a command ------------------------------------------

/// What running a command gave.
#[derive(Debug)]
pub enum CommandOutcome {
    /// It could not be run.
    NotRun,
    /// It ended with a failure: the status in words and the error output.
    Failed { status: String, stderr: String },
    /// It succeeded; no text where the output is not UTF-8.
    Succeeded { stdout: Option<String> },
}

/// The command that a value wraps: `{{cmd: ...}}`.
pub open spec fn wrapped_command(raw: Seq<char>) -> Option<Seq<char>> {
    match text::after_prefix(text::trimmed(raw), "{{cmd:"@) {
        Some(rest) => match text::before_suffix(rest, "}}"@) {
            Some(body) => Some(text::trimmed(body)),
            None => None,
        },
        None => None,
    }
}

/// What to do for a configured value.
#[derive(Debug, PartialEq, Eq)]
pub enum ValueStep {
    /// Use it as it is.
    Literal(String),
    /// Run this command and take its output.
    Run(String),
    /// It cannot be used, for this reason.
    Rejected(String),
}

pub open spec fn empty_command(field: Seq<char>) -> Seq<char> {
    field + ": {{cmd: ... }} is empty, expected a command to run"@
}

/// Whether a value is taken literally or wraps a command. What is not wrapped
/// passes through untouched.
pub fn resolve_value(raw: &str, field: &str) -> (r: ValueStep)
    ensures
        match wrapped_command(raw@) {
            None => r matches ValueStep::Literal(v) && v@ == raw@,
            Some(body) => if body.len() == 0 {
                r matches ValueStep::Rejected(e) && e@ == empty_command(field@)
            } else {
                r matches ValueStep::Run(b) && b@ == body
            },
        },
{
    let trimmed = text::trim(raw);
    if let Some(rest) = text::strip_prefix(trimmed, "{{cmd:") {
        if let Some(inner) = text::strip_suffix(rest, "}}") {
            let body = text::trim(inner);
            return if body.unicode_len() == 0 {
                ValueStep::Rejected(
                    text::cat2(field, ": {{cmd: ... }} is empty, expected a command to run"),
                )
            } else {
                ValueStep::Run(text::owned(body))
            };
        }
    }
    ValueStep::Literal(text::owned(raw))
}

/// The value that a command's outcome stands for: its output, trimmed.
pub open spec fn outcome_value(field: Seq<char>, body: Seq<char>, out: CommandOutcome) -> Result<
    Seq<char>,
    Seq<char>,
> {
    match out {
        CommandOutcome::NotRun => Err(field + ": running `"@ + body + "`"@),
        CommandOutcome::Failed { status, stderr } => {
            let detail = text::trimmed(stderr@);
            Err(
                field + ": `"@ + body + "` failed ("@ + status@ + "): "@ + if detail.len() == 0 {
                    "no stderr"@
                } else {
                    detail
                },
            )
        },
        CommandOutcome::Succeeded { stdout: None } => Err(
            field + ": `"@ + body + "` produced non-UTF-8 output"@,
        ),
        CommandOutcome::Succeeded { stdout: Some(s) } => if text::trimmed(s@).len() == 0 {
            Err(field + ": `"@ + body + "` succeeded but produced no output"@)
        } else {
            Ok(text::trimmed(s@))
        },
    }
}

/// Two results that say the same.
pub open spec fn says(r: Result<String, String>, want: Result<Seq<char>, Seq<char>>) -> bool {
    match (r, want) {
        (Ok(a), Ok(b)) => a@ == b,
        (Err(a), Err(b)) => a@ == b,
        _ => false,
    }
}

/// The value from the outcome of the command `body`, or why there is none.
/// Trailing newlines would otherwise end up inside a token.
pub fn run_value_command(body: &str, field: &str, out: &CommandOutcome) -> (r: Result<
    String,
    String,
>)
    ensures
        says(r, outcome_value(field@, body@, *out)),
{
    match out {
        CommandOutcome::NotRun => Err(text::cat4(field, ": running `", body, "`")),
        CommandOutcome::Failed { status, stderr } => {
            let trimmed = text::trim(stderr.as_str());
            let detail = if trimmed.unicode_len() == 0 {
                "no stderr"
            } else {
                trimmed
            };
            Err(text::cat7(field, ": `", body, "` failed (", status.as_str(), "): ", detail))
        },
        CommandOutcome::Succeeded { stdout: None } => Err(
            text::cat4(field, ": `", body, "` produced non-UTF-8 output"),
        ),
        CommandOutcome::Succeeded { stdout: Some(s) } => {
            let value = text::trim(s.as_str());
            if value.unicode_len() == 0 {
                Err(text::cat4(field, ": `", body, "` succeeded but produced no output"))
            } else {
                Ok(text::owned(value))
            }
        },
    }
}

/// How far the settings could be resolved.
#[derive(Debug, PartialEq, Eq)]
pub enum Resolution {
    /// Every value is resolved.
    Done,
    /// The outcome of this command is needed next, for this field.
    Needs { field: String, body: String },
    /// A value cannot be resolved, for this reason.
    Failed(String),
}

#[verifier::ext_equal]
pub enum ResolutionView {
    Done,
    Needs { field: Seq<char>, body: Seq<char> },
    Failed(Seq<char>),
}

impl DeepView for Resolution {
    type V = ResolutionView;

    open spec fn deep_view(&self) -> ResolutionView {
        match self {
            Resolution::Done => ResolutionView::Done,
            Resolution::Needs { field, body } => ResolutionView::Needs {
                field: field@,
                body: body@,
            },
            Resolution::Failed(e) => ResolutionView::Failed(e@),
        }
    }
}

/// The settings that hold a string, in the order in which they are resolved.
pub open spec fn field_name(i: int) -> Seq<char> {
    if i == 0 {
        "server_url"@
    } else if i == 1 {
        "github_api_base"@
    } else if i == 2 {
        "username"@
    } else if i == 3 {
        "password"@
    } else if i == 4 {
        "auth_token"@
    } else if i == 5 {
        "github_token"@
    } else {
        "editor"@
    }
}

impl ConfigView {
    pub open spec fn field(self, i: int) -> Option<Seq<char>> {
        if i == 0 {
            Some(self.server_url)
        } else if i == 1 {
            Some(self.github_api_base)
        } else if i == 2 {
            self.username
        } else if i == 3 {
            self.password
        } else if i == 4 {
            self.auth_token
        } else if i == 5 {
            self.github_token
        } else {
            self.editor
        }
    }

    pub open spec fn with_field(self, i: int, v: Seq<char>) -> ConfigView {
        if i == 0 {
            ConfigView { server_url: v, ..self }
        } else if i == 1 {
            ConfigView { github_api_base: v, ..self }
        } else if i == 2 {
            ConfigView { username: Some(v), ..self }
        } else if i == 3 {
            ConfigView { password: Some(v), ..self }
        } else if i == 4 {
            ConfigView { auth_token: Some(v), ..self }
        } else if i == 5 {
            ConfigView { github_token: Some(v), ..self }
        } else {
            ConfigView { editor: Some(v), ..self }
        }
    }
}

/// The settings from field `i` on, given the outcomes of the commands that they
/// wrap, one for each in the order of the fields.
pub open spec fn resolved(cfg: ConfigView, i: int, outs: Seq<CommandOutcome>) -> (
    ConfigView,
    ResolutionView,
)
    decreases 7 - i,
{
    if i >= 7 {
        (cfg, ResolutionView::Done)
    } else {
        let command = match cfg.field(i) {
            Some(raw) => wrapped_command(raw),
            None => None,
        };
        match command {
            None => resolved(cfg, i + 1, outs),
            Some(body) => if body.len() == 0 {
                (cfg, ResolutionView::Failed(empty_command(field_name(i))))
            } else if outs.len() == 0 {
                (cfg, ResolutionView::Needs { field: field_name(i), body })
            } else {
                match outcome_value(field_name(i), body, outs[0]) {
                    Ok(v) => resolved(cfg.with_field(i, v), i + 1, outs.skip(1)),
                    Err(e) => (cfg, ResolutionView::Failed(e)),
                }
            },
        }
    }
}

fn name_of_field(i: usize) -> (r: &'static str)
    ensures
        r@ == field_name(i as int),
{
    if i == 0 {
        "server_url"
    } else if i == 1 {
        "github_api_base"
    } else if i == 2 {
        "username"
    } else if i == 3 {
        "password"
    } else if i == 4 {
        "auth_token"
    } else if i == 5 {
        "github_token"
    } else {
        "editor"
    }
}

impl Config {
    fn field_text(&self, i: usize) -> (r: Option<String>)
        ensures
            r.deep_view() == self.deep_view().field(i as int),
    {
        if i == 0 {
            Some(self.server_url.clone())
        } else if i == 1 {
            Some(self.github_api_base.clone())
        } else if i == 2 {
            self.username.dup()
        } else if i == 3 {
            self.password.dup()
        } else if i == 4 {
            self.auth_token.dup()
        } else if i == 5 {
            self.github_token.dup()
        } else {
            self.editor.dup()
        }
    }

    fn set_field(&mut self, i: usize, v: String)
        ensures
            final(self).deep_view() == old(self).deep_view().with_field(i as int, v@),
    {
        if i == 0 {
            self.server_url = v;
        } else if i == 1 {
            self.github_api_base = v;
        } else if i == 2 {
            self.username = Some(v);
        } else if i == 3 {
            self.password = Some(v);
        } else if i == 4 {
            self.auth_token = Some(v);
        } else if i == 5 {
            self.github_token = Some(v);
        } else {
            self.editor = Some(v);
        }
    }
}

/// A setting that may be unset: `None` where it is, and else what to do for it.
pub fn resolve_opt(slot: &Option<String>, field: &str) -> (r: Option<ValueStep>)
    ensures
        match slot.deep_view() {
            None => r is None,
            Some(raw) => match wrapped_command(raw) {
                None => r matches Some(ValueStep::Literal(v)) && v@ == raw,
                Some(body) => if body.len() == 0 {
                    r matches Some(ValueStep::Rejected(e)) && e@ == empty_command(field@)
                } else {
                    r matches Some(ValueStep::Run(b)) && b@ == body
                },
            },
        },
{
    match slot {
        Some(raw) => Some(resolve_value(raw.as_str(), field)),
        None => None,
    }
}

/// Puts in place of every value that wraps a command the value that its outcome
/// stands for. `outcomes` are those of the commands run so far, in the order in
/// which `Resolution::Needs` asked for them; where it asks for one more, nothing is
/// put in place yet. Applied to all settings that hold a string, not only to
/// secrets.
pub fn resolve_command_values(cfg: &mut Config, outcomes: &Vec<CommandOutcome>) -> (r: Resolution)
    ensures
        r.deep_view() == resolved(old(cfg).deep_view(), 0, outcomes@).1,
        final(cfg).deep_view() == if r is Needs {
            old(cfg).deep_view()
        } else {
            resolved(old(cfg).deep_view(), 0, outcomes@).0
        },
{
    let ghost first = cfg.deep_view();
    let ghost outs = outcomes@;
    let mut work = cfg.dup();
    let mut i: usize = 0;
    let mut used: usize = 0;
    assert(outs.skip(0) =~= outs);
    while i < 7
        invariant
            i <= 7,
            first == old(cfg).deep_view(),
            cfg.deep_view() == first,
            outs == outcomes@,
            used <= outs.len(),
            resolved(work.deep_view(), i as int, outs.skip(used as int)) == resolved(
                first,
                0,
                outs,
            ),
        decreases 7 - i,
    {
        let slot = work.field_text(i);
        match resolve_opt(&slot, name_of_field(i)) {
            None => {},
            Some(ValueStep::Literal(_)) => {},
            Some(ValueStep::Rejected(e)) => {
                *cfg = work;
                return Resolution::Failed(e);
            },
            Some(ValueStep::Run(body)) => {
                if used == outcomes.len() {
                    return Resolution::Needs { field: text::owned(name_of_field(i)), body };
                }
                assert(outs.skip(used as int)[0] == outs[used as int]);
                match run_value_command(body.as_str(), name_of_field(i), &outcomes[used]) {
                    Ok(v) => {
                        work.set_field(i, v);
                        assert(outs.skip(used as int).skip(1) =~= outs.skip(used + 1));
                        used = used + 1;
                    },
                    Err(e) => {
                        *cfg = work;
                        return Resolution::Failed(e);
                    },
                }
            },
        }
        i = i + 1;
    }
    *cfg = work;
    Resolution::Done
}

// ---- the environment -----------------------------------------------------

/// The environment variables that override the file.
#[derive(Debug)]
pub struct Overrides {
    pub url: Option<String>,
    pub username: Option<String>,
    pub password: Option<String>,
    pub token: Option<String>,
    pub insecure: bool,
    pub github_token: Option<String>,
}

/// The settings with each variable that is set in place of the file's value.
pub open spec fn overridden(cfg: ConfigView, env: Overrides) -> ConfigView {
    ConfigView {
        server_url: match env.url.deep_view() {
            Some(v) => v,
            None => cfg.server_url,
        },
        username: if env.username is Some {
            env.username.deep_view()
        } else {
            cfg.username
        },
        password: if env.password is Some {
            env.password.deep_view()
        } else {
            cfg.password
        },
        auth_token: if env.token is Some {
            env.token.deep_view()
        } else {
            cfg.auth_token
        },
        insecure_skip_verify: env.insecure || cfg.insecure_skip_verify,
        github_token: if env.github_token is Some {
            env.github_token.deep_view()
        } else {
            cfg.github_token
        },
        ..cfg
    }
}

/// Environment variables always override the file.
pub fn apply_overrides(cfg: &mut Config, env: Overrides)
    ensures
        final(cfg).deep_view() == overridden(old(cfg).deep_view(), env),
{
    if let Some(v) = env.url {
        cfg.server_url = v;
    }
    if env.username.is_some() {
        cfg.username = env.username;
    }
    if env.password.is_some() {
        cfg.password = env.password;
    }
    if env.token.is_some() {
        cfg.auth_token = env.token;
    }
    if env.insecure {
        cfg.insecure_skip_verify = true;
    }
    if env.github_token.is_some() {
        cfg.github_token = env.github_token;
    }
}

// ---- laws ----------------------------------------------------------------

/// Settings that wrap no command are left as they are, and no command is asked
/// for.
pub proof fn plain_settings_are_untouched(cfg: ConfigView, outs: Seq<CommandOutcome>)
    requires
        forall|i: int|
            0 <= i < 7 ==> match #[trigger] cfg.field(i) {
                Some(raw) => wrapped_command(raw) is None,
                None => true,
            },
    ensures
        resolved(cfg, 0, outs) == (cfg, ResolutionView::Done),
{
    assert(cfg.field(0) == cfg.field(0));
    assert(cfg.field(1) == cfg.field(1));
    assert(cfg.field(2) == cfg.field(2));
    assert(cfg.field(3) == cfg.field(3));
    assert(cfg.field(4) == cfg.field(4));
    assert(cfg.field(5) == cfg.field(5));
    assert(cfg.field(6) == cfg.field(6));
    reveal_with_fuel(resolved, 8);
}

/// Every string is resolved, not only the token: where all seven wrap commands
/// that succeed, each holds the trimmed output of its own.
pub proof fn every_field_is_resolved(cfg: ConfigView, outs: Seq<CommandOutcome>)
    requires
        outs.len() == 7,
        forall|i: int|
            0 <= i < 7 ==> (#[trigger] cfg.field(i) matches Some(raw) && wrapped_command(
                raw,
            ) matches Some(body) && body.len() > 0 && outcome_value(
                field_name(i),
                body,
                outs[i],
            ) is Ok),
    ensures
        resolved(cfg, 0, outs).1 == ResolutionView::Done,
        forall|i: int|
            0 <= i < 7 ==> #[trigger] resolved(cfg, 0, outs).0.field(i) == Some(
                outcome_value(
                    field_name(i),
                    wrapped_command(cfg.field(i)->Some_0)->Some_0,
                    outs[i],
                )->Ok_0,
            ),
{
    assert(cfg.field(0) is Some);
    assert(cfg.field(1) is Some);
    assert(cfg.field(2) is Some);
    assert(cfg.field(3) is Some);
    assert(cfg.field(4) is Some);
    assert(cfg.field(5) is Some);
    assert(cfg.field(6) is Some);
    let o1 = outs.skip(1);
    let o2 = o1.skip(1);
    let o3 = o2.skip(1);
    let o4 = o3.skip(1);
    let o5 = o4.skip(1);
    let o6 = o5.skip(1);
    assert(o1[0] == outs[1] && o2[0] == outs[2] && o3[0] == outs[3] && o4[0] == outs[4] && o5[0]
        == outs[5] && o6[0] == outs[6]);
    reveal_with_fuel(resolved, 8);
}

/// A literal that does not both begin with the mark and finish with its end is
/// never run.
pub proof fn only_wrapped_values_run(raw: Seq<char>)
    requires
        !text::begins(text::trimmed(raw), "{{cmd:"@) || !text::finishes(text::trimmed(raw), "}}"@),
    ensures
        wrapped_command(raw) is None,
{
    let t = text::trimmed(raw);
    if text::begins(t, "{{cmd:"@) {
        let rest = t.skip("{{cmd:"@.len() as int);
        if text::finishes(rest, "}}"@) {
            let k = rest.len() - "}}"@.len();
            assert(rest.subrange(k, k + "}}"@.len()) =~= t.subrange(
                t.len() - "}}"@.len(),
                t.len() as int,
            ));
        }
    }
}

} // verus!
