//! The state at the start.

use vstd::prelude::*;
use vstd::string::*;

use crate::api::{GoCdClient, GoCdClientView};
use crate::app::events::{by_name, index_pipelines};
use crate::app::forms::fresh_reauth;
use crate::app::hints::{age_text, format_age};
use crate::app::{
    App, AppView, EffectView, Focus, GithubState, GithubStateView, Modal, ModalView, ReauthForm,
    ReauthMode, Rect, RowView,
};
use crate::config::{unconfigured, Config, ConfigView};
use crate::demo::fixture_list;
use crate::dup::Dup;
use crate::github::{is_configured, GitHubClient, GitHubClientView};
use crate::model::{
    DashboardGroup, DashboardGroupView, DashboardPipeline, DashboardPipelineView, GitRefView,
    PipelineInstanceView, ViewFilterView,
};
use crate::names::{NameMap, NameSet};
use crate::text;

verus! {

/// The last dashboard that was loaded, and when.
#[derive(Debug)]
pub struct DashboardCache {
    pub saved_at_ms: i64,
    pub groups: Vec<DashboardGroup>,
    pub pipelines: Vec<DashboardPipeline>,
}

#[verifier::ext_equal]
pub struct DashboardCacheView {
    pub saved_at_ms: i64,
    pub groups: Seq<DashboardGroupView>,
    pub pipelines: Seq<DashboardPipelineView>,
}

impl DeepView for DashboardCache {
    type V = DashboardCacheView;

    open spec fn deep_view(&self) -> DashboardCacheView {
        DashboardCacheView {
            saved_at_ms: self.saved_at_ms,
            groups: self.groups.deep_view(),
            pipelines: self.pipelines.deep_view(),
        }
    }
}


/// Whether the server still has to be named.
pub open spec fn lacks_server(cfg: ConfigView) -> bool {
    text::trimmed(cfg.server_url).len() == 0
}

pub fn needs_setup(cfg: &Config) -> (r: bool)
    ensures
        r == lacks_server(cfg.deep_view()),
{
    text::trim(cfg.server_url.as_str()).unicode_len() == 0
}

/// Whether the dashboard of the last run is shown at first: not in the demo, and
/// not before a server is named.
pub fn reads_cache(cfg: &Config, demo: bool) -> (r: bool)
    ensures
        r == (!demo && !lacks_server(cfg.deep_view())),
{
    !demo && !needs_setup(cfg)
}

/// The favorites that the demo has in place of the user's.
pub open spec fn demo_favorites() -> Seq<Seq<char>> {
    seq!["web-app-deploy-prod"@, "api-build-test"@]
}

pub open spec fn no_area() -> Rect {
    Rect { x: 0, y: 0, width: 0, height: 0 }
}

/// The state before anything is loaded.
#[verifier::opaque]
pub open spec fn blank(
    cfg: ConfigView,
    client: GoCdClientView,
    demo: bool,
    favorites: Set<Seq<char>>,
    gh: Option<Seq<char>>,
    now: u64,
) -> AppView {
    AppView {
        client,
        cfg,
        server_url: cfg.server_url,
        groups: Seq::empty(),
        expanded: Set::empty(),
        pipeline_info: Map::empty(),
        views: Seq::empty(),
        active_view: None,
        views_error: None,
        favorites,
        favorites_expanded: true,
        filter: Seq::empty(),
        filter_active: false,
        rows: Seq::empty(),
        selected: 0,
        focus: Focus::Groups,
        tree_offset: 0,
        history_offset: 0,
        tree_area: no_area(),
        history_area: no_area(),
        detail_area: no_area(),
        console_view_height: 0,
        selected_pipeline: None,
        history: Seq::empty(),
        history_selected: 0,
        history_loading: false,
        history_cache: Map::empty(),
        history_next: Map::empty(),
        history_more_inflight: None,
        hover_target: None,
        last_poll: now,
        detail_rows: Seq::empty(),
        detail_selected: 0,
        last_console_poll: now,
        github: GitHubClientView {
            token: if is_configured(cfg.github_token) {
                cfg.github_token
            } else {
                gh
            },
            api_base: text::without_tail(cfg.github_api_base, '/'),
        },
        github_checks: Seq::empty(),
        github_state: GithubStateView::Idle,
        demo,
        pending_edit: None,
        server_gen: 0,
        dashboard_etag: None,
        loading_groups: false,
        status_line: Seq::empty(),
        error_line: None,
        modal: None,
        should_quit: false,
        tick: 0,
        outbox: Seq::empty(),
    }
}

impl AppView {
    /// The first screen: the form where no server is named; else the dashboard
    /// of the last run where there is one, and in any case a fresh one asked for.
    #[verifier::opaque]
    pub open spec fn started(self, cached: Option<DashboardCacheView>, wall: i64) -> AppView {
        if lacks_server(self.cfg) {
            self.saying("Connect to a GoCD server to get started"@).showing(
                ModalView::Reauth(fresh_reauth(ReauthMode::Connect, Seq::empty())),
            )
        } else {
            match cached {
                Some(c) => if self.demo {
                    AppView { loading_groups: true, ..self }.saying(
                        "Loading dashboard..."@,
                    ).loading_dashboard()
                } else {
                    self.from_cache(c, wall).loading_dashboard()
                },
                None => AppView { loading_groups: true, ..self }.saying(
                    "Loading dashboard..."@,
                ).loading_dashboard(),
            }
        }
    }

    /// The dashboard of the last run shown, with its age.
    #[verifier::opaque]
    pub open spec fn from_cache(self, c: DashboardCacheView, wall: i64) -> AppView {
        let v = AppView {
            groups: c.groups,
            pipeline_info: by_name(c.pipelines),
            status_line: "Showing cached data ("@ + age_text(c.saved_at_ms as int, wall as int)
                + "), refreshing..."@,
            ..self
        };
        if c.groups.len() > 0 {
            v.rebuilt()
        } else {
            AppView { loading_groups: true, ..v }
        }
    }
}

impl App {
    fn blank(
        cfg: &Config,
        client: GoCdClient,
        demo: bool,
        favorites: NameSet,
        gh: Option<String>,
        now: u64,
    ) -> (r: App)
        ensures
            r.deep_view() == blank(
                cfg.deep_view(),
                client.deep_view(),
                demo,
                favorites@,
                gh.deep_view(),
                now,
            ),
    {
        let none = Rect { x: 0, y: 0, width: 0, height: 0 };
        let app = App {
            client,
            cfg: cfg.dup(),
            server_url: cfg.server_url.clone(),
            groups: Vec::new(),
            expanded: NameSet::new(),
            pipeline_info: NameMap::new(),
            views: Vec::new(),
            active_view: None,
            views_error: None,
            favorites,
            favorites_expanded: true,
            filter: text::empty(),
            filter_active: false,
            rows: Vec::new(),
            selected: 0,
            focus: Focus::Groups,
            tree_offset: 0,
            history_offset: 0,
            tree_area: none,
            history_area: none,
            detail_area: none,
            console_view_height: 0,
            selected_pipeline: None,
            history: Vec::new(),
            history_selected: 0,
            history_loading: false,
            history_cache: NameMap::new(),
            history_next: NameMap::new(),
            history_more_inflight: None,
            hover_target: None,
            last_poll: now,
            detail_rows: Vec::new(),
            detail_selected: 0,
            last_console_poll: now,
            github: GitHubClient::new(cfg.github_token.dup(), cfg.github_api_base.as_str(), gh),
            github_checks: Vec::new(),
            github_state: GithubState::Idle,
            demo,
            pending_edit: None,
            server_gen: 0,
            dashboard_etag: None,
            loading_groups: false,
            status_line: text::empty(),
            error_line: None,
            modal: None,
            should_quit: false,
            tick: 0,
            outbox: Vec::new(),
        };
        proof {
            reveal(blank);
            let v = app.deep_view();
            assert(v.groups =~= Seq::<DashboardGroupView>::empty());
            assert(v.pipeline_info =~= Map::<Seq<char>, DashboardPipelineView>::empty());
            assert(v.views =~= Seq::<ViewFilterView>::empty());
            assert(v.rows =~= Seq::<RowView>::empty());
            assert(v.history =~= Seq::<PipelineInstanceView>::empty());
            assert(v.history_cache =~= Map::<Seq<char>, Seq<PipelineInstanceView>>::empty());
            assert(v.history_next =~= Map::<Seq<char>, u64>::empty());
            assert(v.github_checks =~= Seq::<(GitRefView, GithubStateView)>::empty());
            assert(v.outbox =~= Seq::<EffectView>::empty());
        }
        app
    }

    fn show_cache(&mut self, c: DashboardCache, wall: i64)
        ensures
            final(self).deep_view() == old(self).deep_view().from_cache(c.deep_view(), wall),
    {
        proof {
            reveal(AppView::from_cache);
        }
        let age = format_age(c.saved_at_ms, wall);
        assert(c.groups.deep_view().len() == c.groups@.len());
        let any = c.groups.len() > 0;
        self.groups = c.groups;
        self.pipeline_info = index_pipelines(c.pipelines);
        self.say(text::cat3("Showing cached data (", age.as_str(), "), refreshing..."));
        if any {
            self.rebuild_rows();
        } else {
            self.loading_groups = true;
        }
    }

    fn start(&mut self, cached: Option<DashboardCache>, wall: i64)
        ensures
            final(self).deep_view() == old(self).deep_view().started(cached.deep_view(), wall),
    {
        proof {
            reveal(AppView::started);
        }
        if needs_setup(&self.cfg) {
            self.say(text::owned("Connect to a GoCD server to get started"));
            let form = ReauthForm::new(ReauthMode::Connect, text::empty().as_str());
            self.modal = Some(Modal::Reauth(form));
            return;
        }
        let cached = if self.demo {
            None
        } else {
            cached
        };
        match cached {
            Some(c) => {
                self.show_cache(c, wall);
            },
            None => {
                self.loading_groups = true;
                self.say(text::owned("Loading dashboard..."));
            },
        }
        self.spawn_load_dashboard();
    }

    /// The state for a server. `cached` is the dashboard of the last run,
    /// `favorites` the saved names, `gh` what `gh auth token` gave, `now` the
    /// time that events count from and `wall` the time in epoch millis.
    pub fn new(
        cfg: &Config,
        cached: Option<DashboardCache>,
        favorites: &Vec<String>,
        gh: Option<String>,
        now: u64,
        wall: i64,
    ) -> (r: App)
        ensures
            r.deep_view() == blank(
                cfg.deep_view(),
                GoCdClientView {
                    base_url: text::without_tail(cfg.server_url@, '/'),
                    username: cfg.username.deep_view(),
                    password: cfg.password.deep_view(),
                    token: cfg.auth_token.deep_view(),
                    demo: false,
                },
                false,
                favorites.deep_view().to_set(),
                gh.deep_view(),
                now,
            ).started(cached.deep_view(), wall),
    {
        let client = GoCdClient::new(cfg);
        let mut app = Self::blank(cfg, client, false, NameSet::from_names(favorites), gh, now);
        app.start(cached, wall);
        app
    }

    /// The state for `--demo`: canned answers, and favorites of its own, so that
    /// nothing of the user's is shown.
    pub fn demo(gh: Option<String>, now: u64) -> (r: App)
        ensures
            r.deep_view() == (AppView {
                server_url: "demo mode - fictional data, nothing is real"@,
                status_line: "Demo mode: no server, no credentials. Press ? for keys, q to quit."@,
                ..blank(
                    ConfigView { server_url: "demo"@, ..unconfigured() },
                    GoCdClientView {
                        base_url: "demo"@,
                        username: None,
                        password: None,
                        token: None,
                        demo: true,
                    },
                    true,
                    demo_favorites().to_set(),
                    gh.deep_view(),
                    now,
                ).started(None, 0)
            }),
    {
        let mut cfg = Config::default();
        cfg.server_url = text::owned("demo");
        let names: Vec<String> = vec![
            text::owned("web-app-deploy-prod"),
            text::owned("api-build-test"),
        ];
        assert(names.deep_view() =~= demo_favorites());
        let client = GoCdClient::demo();
        let mut app = Self::blank(&cfg, client, true, NameSet::from_names(&names), gh, now);
        app.start(None, 0);
        app.server_url = text::owned("demo mode - fictional data, nothing is real");
        app.say(
            text::owned("Demo mode: no server, no credentials. Press ? for keys, q to quit."),
        );
        app
    }
}

// ---- laws ----------------------------------------------------------------

/// Every favorite of the demo is one of its own pipelines: no name of the user's
/// is shown.
pub proof fn demo_favorites_are_fixtures(name: Seq<char>)
    requires
        demo_favorites().to_set().contains(name),
    ensures
        exists|i: int| 0 <= i < fixture_list().len() && #[trigger] fixture_list()[i].name == name,
{
    assert(demo_favorites().contains(name));
    assert(fixture_list()[2].name == "web-app-deploy-prod"@);
    assert(fixture_list()[4].name == "api-build-test"@);
}

} // verus!
