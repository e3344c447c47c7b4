//! What each key does in the forms and pickers.

use vstd::prelude::*;
use vstd::string::*;

use crate::api::{GoCdClient, GoCdClientView};
use crate::app::hints::{env_var, parse_env_var};
use crate::app::{
    App, AppView, Effect, EffectView, GithubState, GithubStateView, Key, KeyCode, Modal, ModalView,
    PendingAction, PendingActionView, ReauthForm, ReauthFormView, ReauthMode, ReauthStep,
    TriggerVarsForm, TriggerVarsFormView,
};
use crate::config::{Config, ConfigView};
use crate::dup::Dup;
use crate::github::{is_configured, GitHubClient, GitHubClientView};
use crate::names::{NameMap, NameSet};
use crate::text;

verus! {

impl AppView {
    pub open spec fn closed(self) -> AppView {
        AppView { modal: None, ..self }
    }

    pub open spec fn showing(self, m: ModalView) -> AppView {
        AppView { modal: Some(m), ..self }
    }

    // ---- confirmation ----

    /// A confirmed action started.
    #[verifier::opaque]
    pub open spec fn acting(self, action: PendingActionView) -> AppView {
        self.closed().saying(action.underway()).emitting(EffectView::RunAction(action))
    }

    /// A key while an action waits for confirmation. 'a' runs the whole stage
    /// where the failed jobs were asked for.
    #[verifier::opaque]
    pub open spec fn confirm_keyed(
        self,
        key: Key,
        action: PendingActionView,
        message: Seq<char>,
    ) -> AppView {
        match key.code {
            KeyCode::Char('y') | KeyCode::Enter => self.acting(action),
            KeyCode::Char('a') => match action {
                PendingActionView::RerunFailedJobs {
                    pipeline,
                    pipeline_counter,
                    stage,
                    stage_counter,
                } => self.acting(
                    PendingActionView::RerunStage {
                        pipeline,
                        pipeline_counter,
                        stage,
                        stage_counter,
                    },
                ),
                _ => self.showing(ModalView::Confirm { action, message }),
            },
            KeyCode::Char('n') | KeyCode::Esc => self.closed(),
            _ => self.showing(ModalView::Confirm { action, message }),
        }
    }
}

impl App {
    fn act(&mut self, action: PendingAction)
        ensures
            final(self).deep_view() == old(self).deep_view().acting(action.deep_view()),
    {
        proof {
            reveal(AppView::acting);
        }
        self.modal = None;
        let label = action.underway();
        self.say(label);
        self.emit(Effect::RunAction(action));
    }

    pub(crate) fn handle_confirm_key(&mut self, key: Key, action: PendingAction, message: String)
        ensures
            final(self).deep_view() == old(self).deep_view().confirm_keyed(
                key,
                action.deep_view(),
                message@,
            ),
    {
        proof {
            reveal(AppView::confirm_keyed);
        }
        match key.code {
            KeyCode::Char('y') | KeyCode::Enter => {
                self.act(action);
            },
            KeyCode::Char('a') => match action {
                PendingAction::RerunFailedJobs {
                    pipeline,
                    pipeline_counter,
                    stage,
                    stage_counter,
                } => {
                    self.act(
                        PendingAction::RerunStage {
                            pipeline,
                            pipeline_counter,
                            stage,
                            stage_counter,
                        },
                    );
                },
                other => {
                    self.modal = Some(Modal::Confirm { action: other, message });
                },
            },
            KeyCode::Char('n') | KeyCode::Esc => {
                self.modal = None;
            },
            _ => {
                self.modal = Some(Modal::Confirm { action, message });
            },
        }
    }
}

// ---- variables -----------------------------------------------------------

impl TriggerVarsFormView {
    /// Enter on an entry: an empty one leads to the confirmation, a variable is
    /// taken, anything else is refused.
    pub open spec fn entered(self) -> TriggerVarsFormView {
        let entry = text::trimmed(self.input);
        if entry.len() == 0 {
            TriggerVarsFormView { confirming: true, error: None, ..self }
        } else {
            match env_var(entry) {
                Some(var) => TriggerVarsFormView {
                    vars: self.vars.push(var),
                    input: Seq::empty(),
                    error: None,
                    ..self
                },
                None => TriggerVarsFormView { error: Some("Expected NAME=VALUE"@), ..self },
            }
        }
    }

    /// A key while entries are typed.
    pub open spec fn typed(self, code: KeyCode) -> TriggerVarsFormView {
        match code {
            KeyCode::Backspace => TriggerVarsFormView {
                input: text::without_last(self.input),
                ..self
            },
            KeyCode::Enter => self.entered(),
            KeyCode::Char(c) => TriggerVarsFormView { input: self.input.push(c), ..self },
            _ => self,
        }
    }
}

impl AppView {
    #[verifier::opaque]
    pub open spec fn vars_keyed(self, key: Key, form: TriggerVarsFormView) -> AppView {
        if key.code == KeyCode::Esc {
            self.closed()
        } else if form.confirming {
            match key.code {
                KeyCode::Char('y') | KeyCode::Enter => self.acting(
                    PendingActionView::TriggerWithVars { pipeline: form.pipeline, vars: form.vars },
                ),
                KeyCode::Char('n') => self.closed(),
                KeyCode::Backspace => self.showing(
                    ModalView::TriggerVars(TriggerVarsFormView { confirming: false, ..form }),
                ),
                _ => self.showing(ModalView::TriggerVars(form)),
            }
        } else {
            self.showing(ModalView::TriggerVars(form.typed(key.code)))
        }
    }
}

impl TriggerVarsForm {
    fn enter(&mut self)
        ensures
            final(self).deep_view() == old(self).deep_view().entered(),
    {
        let entry = text::trim(self.input.as_str());
        if entry.unicode_len() == 0 {
            self.confirming = true;
            self.error = None;
            return;
        }
        match parse_env_var(entry) {
            Some(var) => {
                let ghost before = self.vars.deep_view();
                self.vars.push(var);
                assert(self.vars.deep_view() =~= before.push(var.deep_view()));
                self.input = text::empty();
                self.error = None;
            },
            None => {
                self.error = Some(text::owned("Expected NAME=VALUE"));
            },
        }
    }

    fn type_key(&mut self, code: KeyCode)
        ensures
            final(self).deep_view() == old(self).deep_view().typed(code),
    {
        match code {
            KeyCode::Backspace => {
                self.input = text::pop_last(self.input.as_str());
            },
            KeyCode::Enter => {
                self.enter();
            },
            KeyCode::Char(c) => {
                self.input.push(c);
            },
            _ => {},
        }
    }
}

impl App {
    pub(crate) fn handle_trigger_vars_key(&mut self, key: Key, form: TriggerVarsForm)
        ensures
            final(self).deep_view() == old(self).deep_view().vars_keyed(key, form.deep_view()),
    {
        proof {
            reveal(AppView::vars_keyed);
        }
        let mut form = form;
        if key.code == KeyCode::Esc {
            self.modal = None;
            return;
        }
        if form.confirming {
            match key.code {
                KeyCode::Char('y') | KeyCode::Enter => {
                    self.act(
                        PendingAction::TriggerWithVars { pipeline: form.pipeline, vars: form.vars },
                    );
                    return;
                },
                KeyCode::Char('n') => {
                    self.modal = None;
                    return;
                },
                KeyCode::Backspace => {
                    form.confirming = false;
                },
                _ => {},
            }
        } else {
            form.type_key(key.code);
        }
        self.modal = Some(Modal::TriggerVars(form));
    }
}

// ---- connecting ----------------------------------------------------------

impl ReauthStep {
    /// Steps shown as a list to choose from rather than as free text.
    pub fn is_choice(self) -> (r: bool)
        ensures
            r == (self == ReauthStep::ChooseAuthMethod),
    {
        self == ReauthStep::ChooseAuthMethod
    }
}

/// The connect form as it opens.
pub open spec fn fresh_reauth(mode: ReauthMode, url: Seq<char>) -> ReauthFormView {
    ReauthFormView {
        mode,
        step: ReauthStep::ServerUrl,
        use_token: false,
        server_url: Seq::empty(),
        username: Seq::empty(),
        secret: Seq::empty(),
        choice_index: 0,
        input: url,
    }
}

impl ReauthForm {
    pub fn new(mode: ReauthMode, current_server_url: &str) -> (r: ReauthForm)
        ensures
            r.deep_view() == fresh_reauth(mode, current_server_url@),
    {
        ReauthForm {
            mode,
            step: ReauthStep::ServerUrl,
            use_token: false,
            server_url: text::empty(),
            username: text::empty(),
            secret: text::empty(),
            choice_index: 0,
            input: text::owned(current_server_url),
        }
    }
}

impl ReauthForm {
    fn choice_key(&mut self, code: KeyCode)
        ensures
            final(self).deep_view() == old(self).deep_view().choice_keyed(code),
    {
        proof {
            reveal(ReauthFormView::choice_keyed);
        }
        match code {
            KeyCode::Up | KeyCode::Down | KeyCode::Char('j') | KeyCode::Char('k')
            | KeyCode::Tab => {
                self.choice_index = if self.choice_index == 0 { 1 } else { 0 };
            },
            KeyCode::Enter => {
                self.use_token = self.choice_index == 1;
                self.choice_index = 0;
                self.step = if self.use_token {
                    ReauthStep::Secret
                } else {
                    ReauthStep::Username
                };
            },
            _ => {},
        }
    }

    fn text_key(&mut self, code: KeyCode)
        ensures
            final(self).deep_view() == old(self).deep_view().text_keyed(code),
    {
        proof {
            reveal(ReauthFormView::text_keyed);
        }
        match code {
            KeyCode::Backspace => {
                self.input = text::pop_last(self.input.as_str());
            },
            KeyCode::Char(c) => {
                self.input.push(c);
            },
            KeyCode::Enter => match self.step {
                ReauthStep::ServerUrl => {
                    let url = text::trim_end_of(text::trim(self.input.as_str()), '/');
                    if url.unicode_len() > 0 {
                        self.server_url = text::owned(url);
                        self.input = text::empty();
                        self.choice_index = 0;
                        self.step = ReauthStep::ChooseAuthMethod;
                    }
                },
                ReauthStep::Username => {
                    self.username = text::owned(text::trim(self.input.as_str()));
                    self.input = text::empty();
                    self.choice_index = 0;
                    self.step = ReauthStep::Secret;
                },
                _ => {
                    self.secret = self.input.clone();
                    self.input = text::empty();
                    self.choice_index = 0;
                },
            },
            _ => {},
        }
    }

    fn is_last(&self) -> (r: bool)
        ensures
            r == self.deep_view().finishes(),
    {
        self.step == ReauthStep::Secret || (self.step == ReauthStep::Username && text::trim(
            self.input.as_str(),
        ).unicode_len() == 0)
    }
}

/// The settings with the server and the credential of the form; nothing else
/// changes. Without a user name there is no credential.
pub open spec fn reconnect_config(cfg: ConfigView, form: ReauthFormView) -> ConfigView {
    let named = ConfigView { server_url: form.server_url, ..cfg };
    if form.use_token {
        ConfigView {
            auth_token: if form.secret.len() > 0 {
                Some(form.secret)
            } else {
                None
            },
            username: None,
            password: None,
            ..named
        }
    } else if form.username.len() == 0 {
        ConfigView { auth_token: None, username: None, password: None, ..named }
    } else {
        ConfigView {
            auth_token: None,
            username: Some(form.username),
            password: Some(form.secret),
            ..named
        }
    }
}

impl ReauthFormView {
    /// Enter on the choice: a user name comes next, or the token at once.
    pub open spec fn chosen(self) -> ReauthFormView {
        ReauthFormView {
            use_token: self.choice_index == 1,
            choice_index: 0,
            step: if self.choice_index == 1 {
                ReauthStep::Secret
            } else {
                ReauthStep::Username
            },
            ..self
        }
    }

    /// Enter on the URL: it is taken without white space and slashes at its end,
    /// unless nothing is left.
    pub open spec fn url_entered(self) -> ReauthFormView {
        let url = text::without_tail(text::trimmed(self.input), '/');
        if url.len() == 0 {
            self
        } else {
            ReauthFormView {
                server_url: url,
                input: Seq::empty(),
                choice_index: 0,
                step: ReauthStep::ChooseAuthMethod,
                ..self
            }
        }
    }

    pub open spec fn name_entered(self) -> ReauthFormView {
        ReauthFormView {
            username: text::trimmed(self.input),
            input: Seq::empty(),
            choice_index: 0,
            step: ReauthStep::Secret,
            ..self
        }
    }

    pub open spec fn secret_entered(self) -> ReauthFormView {
        ReauthFormView { secret: self.input, input: Seq::empty(), choice_index: 0, ..self }
    }

    /// A key while one of two ways is chosen.
    #[verifier::opaque]
    pub open spec fn choice_keyed(self, code: KeyCode) -> ReauthFormView {
        match code {
            KeyCode::Up | KeyCode::Down | KeyCode::Char('j') | KeyCode::Char('k')
            | KeyCode::Tab => ReauthFormView {
                choice_index: if self.choice_index == 0 {
                    1
                } else {
                    0
                },
                ..self
            },
            KeyCode::Enter => self.chosen(),
            _ => self,
        }
    }

    /// A key while a text is typed.
    #[verifier::opaque]
    pub open spec fn text_keyed(self, code: KeyCode) -> ReauthFormView {
        match code {
            KeyCode::Backspace => ReauthFormView { input: text::without_last(self.input), ..self },
            KeyCode::Char(c) => ReauthFormView { input: self.input.push(c), ..self },
            KeyCode::Enter => match self.step {
                ReauthStep::ServerUrl => self.url_entered(),
                ReauthStep::Username => self.name_entered(),
                _ => self.secret_entered(),
            },
            _ => self,
        }
    }

    /// Whether Enter completes the form: at the secret, and at a user name that
    /// is blank.
    pub open spec fn finishes(self) -> bool {
        ||| self.step == ReauthStep::Secret
        ||| self.step == ReauthStep::Username && text::trimmed(self.input).len() == 0
    }
}

impl AppView {
    /// The form is complete: connect with what it says.
    #[verifier::opaque]
    pub open spec fn reauth_applied(self, form: ReauthFormView) -> AppView {
        self.closed().emitting(
            EffectView::Reconnect { cfg: reconnect_config(self.cfg, form), save: !self.demo },
        )
    }

    #[verifier::opaque]
    pub open spec fn reauth_keyed(self, key: Key, form: ReauthFormView) -> AppView {
        if key.code == KeyCode::Esc {
            self.closed()
        } else if form.step == ReauthStep::ChooseAuthMethod {
            self.showing(ModalView::Reauth(form.choice_keyed(key.code)))
        } else if key.code == KeyCode::Enter && form.finishes() {
            self.reauth_applied(form.text_keyed(key.code))
        } else {
            self.showing(ModalView::Reauth(form.text_keyed(key.code)))
        }
    }

    /// A new connection: nothing of the old server is left, and its dashboard is
    /// asked for.
    #[verifier::opaque]
    pub open spec fn reconnected(self, cfg: ConfigView, save_error: Option<Seq<char>>) -> AppView {
        AppView {
            client: GoCdClientView {
                base_url: text::without_tail(cfg.server_url, '/'),
                username: cfg.username,
                password: cfg.password,
                token: cfg.auth_token,
                demo: false,
            },
            server_url: cfg.server_url,
            cfg,
            error_line: match save_error {
                Some(e) => Some("Reconnected, but failed to save config: "@ + e),
                None => None,
            },
            status_line: "Reconnecting..."@,
            server_gen: (self.server_gen + 1) as u64,
            dashboard_etag: None,
            views: Seq::empty(),
            active_view: None,
            views_error: None,
            groups: Seq::empty(),
            pipeline_info: Map::empty(),
            rows: Seq::empty(),
            selected: 0,
            selected_pipeline: None,
            history: Seq::empty(),
            history_selected: 0,
            history_cache: Map::empty(),
            history_next: Map::empty(),
            history_more_inflight: None,
            expanded: Set::empty(),
            hover_target: None,
            detail_rows: Seq::empty(),
            detail_selected: 0,
            github_checks: Seq::empty(),
            github_state: GithubStateView::Idle,
            loading_groups: true,
            ..self
        }.loading_dashboard()
    }
}

impl App {
    fn apply_reauth(&mut self, form: ReauthForm)
        ensures
            final(self).deep_view() == old(self).deep_view().reauth_applied(form.deep_view()),
    {
        proof {
            reveal(AppView::reauth_applied);
        }
        let mut cfg = self.cfg.dup();
        cfg.server_url = form.server_url;
        if form.use_token {
            cfg.auth_token = if form.secret.as_str().unicode_len() > 0 {
                Some(form.secret)
            } else {
                None
            };
            cfg.username = None;
            cfg.password = None;
        } else if form.username.as_str().unicode_len() == 0 {
            cfg.auth_token = None;
            cfg.username = None;
            cfg.password = None;
        } else {
            cfg.auth_token = None;
            cfg.username = Some(form.username);
            cfg.password = Some(form.secret);
        }
        self.modal = None;
        let save = !self.demo;
        self.emit(Effect::Reconnect { cfg, save });
    }

    pub(crate) fn handle_reauth_key(&mut self, key: Key, form: ReauthForm)
        ensures
            final(self).deep_view() == old(self).deep_view().reauth_keyed(key, form.deep_view()),
    {
        proof {
            reveal(AppView::reauth_keyed);
        }
        let mut form = form;
        if key.code == KeyCode::Esc {
            self.modal = None;
            return;
        }
        if form.step.is_choice() {
            form.choice_key(key.code);
            self.modal = Some(Modal::Reauth(form));
            return;
        }
        let complete = key.code == KeyCode::Enter && form.is_last();
        form.text_key(key.code);
        if complete {
            self.apply_reauth(form);
        } else {
            self.modal = Some(Modal::Reauth(form));
        }
    }

    /// The connection with the settings could be made; `save_error` is why they
    /// could not be saved.
    pub fn reconnect(&mut self, cfg: Config, save_error: Option<String>)
        requires
            old(self).server_gen < u64::MAX,
        ensures
            final(self).deep_view() == old(self).deep_view().reconnected(
                cfg.deep_view(),
                save_error.deep_view(),
            ),
    {
        proof {
            reveal(AppView::reconnected);
        }
        self.client = GoCdClient::new(&cfg);
        self.server_url = cfg.server_url.clone();
        self.cfg = cfg;
        self.error_line = match save_error {
            Some(e) => Some(text::cat2("Reconnected, but failed to save config: ", e.as_str())),
            None => None,
        };
        self.say(text::owned("Reconnecting..."));
        self.server_gen = self.server_gen + 1;
        self.dashboard_etag = None;
        self.views = Vec::new();
        self.active_view = None;
        self.views_error = None;
        self.groups = Vec::new();
        self.pipeline_info = NameMap::new();
        self.rows = Vec::new();
        self.selected = 0;
        self.selected_pipeline = None;
        self.history = Vec::new();
        self.history_selected = 0;
        self.history_cache = NameMap::new();
        self.history_next = NameMap::new();
        self.history_more_inflight = None;
        self.expanded = NameSet::new();
        self.hover_target = None;
        self.detail_rows = Vec::new();
        self.detail_selected = 0;
        self.github_checks = Vec::new();
        self.github_state = GithubState::Idle;
        self.loading_groups = true;
        let ghost want = AppView {
            outbox: self.deep_view().outbox,
            ..old(self).deep_view().reconnected(cfg.deep_view(), save_error.deep_view())
        };
        proof {
            let v = self.deep_view();
            assert(v.views =~= want.views);
            assert(v.groups =~= want.groups);
            assert(v.pipeline_info =~= want.pipeline_info);
            assert(v.rows =~= want.rows);
            assert(v.history =~= want.history);
            assert(v.history_cache =~= want.history_cache);
            assert(v.history_next =~= want.history_next);
            assert(v.github_checks =~= want.github_checks);
            assert(v =~= want);
        }
        self.spawn_load_dashboard();
    }

    pub fn reconnect_failed(&mut self, e: &str)
        ensures
            final(self).deep_view() == old(self).deep_view().failing("Failed to reconnect: "@ + e@),
    {
        self.fail(text::cat2("Failed to reconnect: ", e));
    }
}

// ---- GitHub --------------------------------------------------------------

impl AppView {
    /// A key while the token is typed. Enter takes it; a blank one disconnects.
    #[verifier::opaque]
    pub open spec fn github_keyed(self, key: Key, input: Seq<char>) -> AppView {
        match key.code {
            KeyCode::Esc => self.closed(),
            KeyCode::Backspace => self.showing(
                ModalView::GithubConnect { input: text::without_last(input) },
            ),
            KeyCode::Char(c) => self.showing(ModalView::GithubConnect { input: input.push(c) }),
            KeyCode::Enter => {
                let token = text::trimmed(input);
                let cfg = ConfigView {
                    github_token: if token.len() > 0 {
                        Some(token)
                    } else {
                        None
                    },
                    ..self.cfg
                };
                AppView { cfg, ..self.closed() }.emitting(
                    EffectView::ConnectGithub { cfg, save: !self.demo },
                )
            },
            _ => self.showing(ModalView::GithubConnect { input }),
        }
    }

    /// The new token in use: the checks of the open pipeline are made again.
    #[verifier::opaque]
    pub open spec fn github_connected(
        self,
        gh: Option<Seq<char>>,
        save_error: Option<Seq<char>>,
    ) -> AppView {
        let ready = AppView {
            github: GitHubClientView {
                token: if is_configured(self.cfg.github_token) {
                    self.cfg.github_token
                } else {
                    gh
                },
                api_base: text::without_tail(self.cfg.github_api_base, '/'),
            },
            status_line: if self.cfg.github_token is None {
                "GitHub disconnected (checks now unauthenticated, public repos only)"@
            } else {
                "GitHub connected"@
            },
            error_line: match save_error {
                Some(e) => Some("Connected, but failed to save config: "@ + e),
                None => self.error_line,
            },
            ..self
        };
        match self.selected_pipeline {
            Some(name) => if self.github_checks.len() > 0 {
                ready.checks_started(name)
            } else {
                ready
            },
            None => ready,
        }
    }
}

impl App {
    pub(crate) fn handle_github_connect_key(&mut self, key: Key, input: String)
        ensures
            final(self).deep_view() == old(self).deep_view().github_keyed(key, input@),
    {
        proof {
            reveal(AppView::github_keyed);
        }
        let mut input = input;
        match key.code {
            KeyCode::Esc => {
                self.modal = None;
                return;
            },
            KeyCode::Backspace => {
                input = text::pop_last(input.as_str());
            },
            KeyCode::Char(c) => {
                input.push(c);
            },
            KeyCode::Enter => {
                let token = text::trim(input.as_str());
                self.modal = None;
                self.cfg.github_token = if token.unicode_len() > 0 {
                    Some(text::owned(token))
                } else {
                    None
                };
                let cfg = self.cfg.dup();
                let save = !self.demo;
                self.emit(Effect::ConnectGithub { cfg, save });
                return;
            },
            _ => {},
        }
        self.modal = Some(Modal::GithubConnect { input });
    }

    /// The client for GitHub could be made; `gh` is what `gh auth token` gave.
    pub fn connect_github(&mut self, gh: Option<String>, save_error: Option<String>)
        ensures
            final(self).deep_view() == old(self).deep_view().github_connected(
                gh.deep_view(),
                save_error.deep_view(),
            ),
    {
        proof {
            reveal(AppView::github_connected);
        }
        let token = self.cfg.github_token.dup();
        self.github = GitHubClient::new(token, self.cfg.github_api_base.as_str(), gh);
        let words = if self.cfg.github_token.is_none() {
            "GitHub disconnected (checks now unauthenticated, public repos only)"
        } else {
            "GitHub connected"
        };
        self.say(text::owned(words));
        if let Some(e) = save_error {
            self.fail(text::cat2("Connected, but failed to save config: ", e.as_str()));
        }
        assert(self.github_checks.deep_view().len() == self.github_checks@.len());
        if self.github_checks.len() > 0 {
            if let Some(name) = self.selected_pipeline.dup() {
                self.start_github_checks(name);
            }
        }
    }

    pub fn github_failed(&mut self, e: &str)
        ensures
            final(self).deep_view() == old(self).deep_view().failing(
                "Failed to update GitHub client: "@ + e@,
            ),
    {
        self.fail(text::cat2("Failed to update GitHub client: ", e));
    }
}

// ---- views ---------------------------------------------------------------

impl AppView {
    /// A key while a name for a view is typed. Enter without one does nothing.
    #[verifier::opaque]
    pub open spec fn save_view_keyed(
        self,
        key: Key,
        input: Seq<char>,
        pipelines: Seq<Seq<char>>,
    ) -> AppView {
        match key.code {
            KeyCode::Esc => self.closed(),
            KeyCode::Backspace => self.showing(
                ModalView::SaveView { input: text::without_last(input), pipelines },
            ),
            KeyCode::Char(c) => self.showing(
                ModalView::SaveView { input: input.push(c), pipelines },
            ),
            KeyCode::Enter => {
                let name = text::trimmed(input);
                if name.len() == 0 {
                    self.showing(ModalView::SaveView { input, pipelines })
                } else {
                    self.closed().saying(
                        "Saving view '"@ + name + "' ("@ + text::dec(pipelines.len())
                            + " pipelines)..."@,
                    ).emitting(
                        EffectView::SaveView { generation: self.server_gen, name, pipelines },
                    )
                }
            },
            _ => self.showing(ModalView::SaveView { input, pipelines }),
        }
    }

    /// The view picked: the server filters by it, so the dashboard is fetched
    /// anew.
    #[verifier::opaque]
    pub open spec fn view_picked(self, selected: usize) -> AppView {
        let active_view = if selected > 0 {
            Some((selected - 1) as usize)
        } else {
            None
        };
        AppView {
            active_view,
            modal: None,
            status_line: match active_view {
                Some(i) => "Loading view: "@ + self.views[i as int].name + "..."@,
                None => "Loading all pipelines..."@,
            },
            dashboard_etag: None,
            loading_groups: true,
            selected: 0,
            ..self
        }.loading_dashboard()
    }

    #[verifier::opaque]
    pub open spec fn picker_keyed(self, key: Key, selected: usize) -> AppView {
        let last = self.views.len();
        match key.code {
            KeyCode::Esc | KeyCode::Char('q') | KeyCode::Char('v') => self.closed(),
            KeyCode::Up | KeyCode::Char('k') => self.showing(
                ModalView::ViewPicker {
                    selected: if selected > 0 {
                        (selected - 1) as usize
                    } else {
                        0
                    },
                },
            ),
            KeyCode::Down | KeyCode::Char('j') => self.showing(
                ModalView::ViewPicker {
                    selected: if selected < last {
                        (selected + 1) as usize
                    } else {
                        last as usize
                    },
                },
            ),
            KeyCode::Char('g') | KeyCode::Home => self.showing(ModalView::ViewPicker { selected: 0 }),
            KeyCode::Char('G') | KeyCode::End => self.showing(
                ModalView::ViewPicker { selected: last as usize },
            ),
            KeyCode::Enter => self.view_picked(selected),
            _ => self.showing(ModalView::ViewPicker { selected }),
        }
    }
}

impl App {
    pub(crate) fn handle_save_view_key(&mut self, key: Key, input: String, pipelines: Vec<String>)
        ensures
            final(self).deep_view() == old(self).deep_view().save_view_keyed(
                key,
                input@,
                pipelines.deep_view(),
            ),
    {
        proof {
            reveal(AppView::save_view_keyed);
        }
        let mut input = input;
        match key.code {
            KeyCode::Esc => {
                self.modal = None;
                return;
            },
            KeyCode::Backspace => {
                input = text::pop_last(input.as_str());
            },
            KeyCode::Char(c) => {
                input.push(c);
            },
            KeyCode::Enter => {
                let name = text::owned(text::trim(input.as_str()));
                if name.as_str().unicode_len() > 0 {
                    self.modal = None;
                    assert(pipelines.deep_view().len() == pipelines@.len());
                    let n = text::decimal_n(pipelines.len());
                    self.say(
                        text::cat5(
                            "Saving view '",
                            name.as_str(),
                            "' (",
                            n.as_str(),
                            " pipelines)...",
                        ),
                    );
                    let generation: u64 = self.server_gen;
                    self.emit(Effect::SaveView { generation, name, pipelines });
                    return;
                }
            },
            _ => {},
        }
        self.modal = Some(Modal::SaveView { input, pipelines });
    }

    fn pick_view(&mut self, selected: usize)
        requires
            selected <= old(self).views@.len(),
        ensures
            final(self).deep_view() == old(self).deep_view().view_picked(selected),
    {
        proof {
            reveal(AppView::view_picked);
        }
        let words = if selected > 0 {
            let i: usize = selected - 1;
            assert(self.deep_view().views[i as int].name == self.views@[i as int].name@);
            self.active_view = Some(i);
            text::cat3("Loading view: ", self.views[i].name.as_str(), "...")
        } else {
            self.active_view = None;
            text::owned("Loading all pipelines...")
        };
        self.modal = None;
        self.say(words);
        self.dashboard_etag = None;
        self.loading_groups = true;
        self.selected = 0;
        self.spawn_load_dashboard();
    }

    pub(crate) fn handle_view_picker_key(&mut self, key: Key, selected: usize)
        requires
            key.code == KeyCode::Enter ==> selected <= old(self).views@.len(),
        ensures
            final(self).deep_view() == old(self).deep_view().picker_keyed(key, selected),
    {
        proof {
            reveal(AppView::picker_keyed);
        }
        let last: usize = self.views.len();
        assert(last == self.deep_view().views.len());
        let to: usize = match key.code {
            KeyCode::Esc | KeyCode::Char('q') | KeyCode::Char('v') => {
                self.modal = None;
                return;
            },
            KeyCode::Up | KeyCode::Char('k') => if selected > 0 {
                selected - 1
            } else {
                0
            },
            KeyCode::Down | KeyCode::Char('j') => if selected < last {
                selected + 1
            } else {
                last
            },
            KeyCode::Char('g') | KeyCode::Home => 0,
            KeyCode::Char('G') | KeyCode::End => last,
            KeyCode::Enter => {
                self.pick_view(selected);
                return;
            },
            _ => selected,
        };
        self.modal = Some(Modal::ViewPicker { selected: to });
    }
}

} // verus!
