//! What the forms are for: connecting to a server and to GitHub, and personal views.

use vstd::prelude::*;
use vstd::string::*;

use crate::app::keys::{names_matching, pipelines_matching};
use crate::app::laws::acting::in_panes;
use crate::app::laws::console::plain;
use crate::app::matching::matched;
use crate::app::results::named_views;
use crate::app::{
    ApiEvent, AppView, EffectView, KeyCode, ModalView, ReauthFormView, ReauthMode, ReauthStep,
};
use crate::config::ConfigView;
use crate::model::{DashboardGroupView, ViewFilter, ViewFilterView};
use crate::text;

verus! {

/// The form that is open for a server.
pub open spec fn form_of(v: AppView) -> Option<ReauthFormView> {
    match v.modal {
        Some(ModalView::Reauth(f)) => Some(f),
        _ => None,
    }
}

// ---- a server ------------------------------------------------------------

/// `A` asks for a server, starting from the one at hand.
pub proof fn reconnecting_starts_from_the_server_at_hand(v: AppView, now: u64)
    requires
        in_panes(v),
    ensures
        form_of(v.keyed(plain(KeyCode::Char('A')), now)) matches Some(f) && f.step
            == ReauthStep::ServerUrl && f.input == v.server_url && f.mode == ReauthMode::Reconnect,
        v.keyed(plain(KeyCode::Char('A')), now).outbox == v.outbox,
{
    reveal(AppView::keyed);
    reveal(AppView::pane_keyed);
    reveal(AppView::motion);
    reveal(AppView::action_keyed);
    reveal(AppView::form_keyed);
}

/// The steps of the form. A URL that is not blank leads on to the choice, without blanks
/// around it or slashes at its end; a blank one stays. The choice is between a user name
/// and a token, and leads to the one that was chosen. Nothing is asked for before the end.
pub proof fn the_form_goes_step_by_step(v: AppView, f: ReauthFormView, now: u64)
    requires
        v.modal == Some(ModalView::Reauth(f)),
    ensures
        v.keyed(plain(KeyCode::Esc), now).modal is None,
        v.keyed(plain(KeyCode::Esc), now).outbox == v.outbox,
        f.step == ReauthStep::ServerUrl ==> {
            let w = v.keyed(plain(KeyCode::Enter), now);
            let url = text::without_tail(text::trimmed(f.input), '/');
            &&& w.outbox == v.outbox
            &&& form_of(w) is Some
            &&& url.len() == 0 ==> form_of(w) == Some(f)
            &&& url.len() > 0 ==> form_of(w)->0.step == ReauthStep::ChooseAuthMethod
                && form_of(w)->0.server_url == url && form_of(w)->0.input.len() == 0
        },
        f.step == ReauthStep::ChooseAuthMethod && f.choice_index <= 1 ==> {
            let w = v.keyed(plain(KeyCode::Enter), now);
            let j = v.keyed(plain(KeyCode::Char('j')), now);
            &&& w.outbox == v.outbox && j.outbox == v.outbox
            &&& form_of(w) is Some && form_of(j) is Some
            &&& form_of(w)->0.use_token == (f.choice_index == 1)
            &&& form_of(w)->0.step == if f.choice_index == 1 {
                ReauthStep::Secret
            } else {
                ReauthStep::Username
            }
            &&& form_of(w)->0.server_url == f.server_url
            &&& form_of(j)->0.choice_index == 1 - f.choice_index
        },
        f.step == ReauthStep::Username && text::trimmed(f.input).len() > 0 ==> {
            let w = v.keyed(plain(KeyCode::Enter), now);
            &&& w.outbox == v.outbox
            &&& form_of(w) is Some
            &&& form_of(w)->0.username == text::trimmed(f.input)
            &&& form_of(w)->0.step == ReauthStep::Secret
            &&& form_of(w)->0.input.len() == 0
            &&& form_of(w)->0.server_url == f.server_url
            &&& form_of(w)->0.use_token == f.use_token
        },
{
    reveal(AppView::keyed);
    reveal(AppView::modal_keyed);
    reveal(AppView::reauth_keyed);
    reveal(ReauthFormView::choice_keyed);
    reveal(ReauthFormView::text_keyed);
}

/// The end of the form: it closes, and the connection that was entered is asked for. A
/// token is used without a user name, a user name with the password, and a blank user name
/// means none of them. All other settings stay, and they are saved but in the demo.
pub proof fn the_form_ends_in_what_was_entered(v: AppView, f: ReauthFormView, now: u64)
    requires
        v.modal == Some(ModalView::Reauth(f)),
        f.step == ReauthStep::Secret || f.step == ReauthStep::Username && text::trimmed(
            f.input,
        ).len() == 0 && !f.use_token,
    ensures
        ({
            let w = v.keyed(plain(KeyCode::Enter), now);
            &&& w.modal is None
            &&& w.outbox.len() == v.outbox.len() + 1
            &&& w.outbox[v.outbox.len() as int] matches EffectView::Reconnect { cfg, save }
            &&& save == !v.demo
            &&& cfg.server_url == f.server_url
            &&& cfg.insecure_skip_verify == v.cfg.insecure_skip_verify
            &&& cfg.poll_interval_secs == v.cfg.poll_interval_secs
            &&& cfg.github_token == v.cfg.github_token
            &&& cfg.github_api_base == v.cfg.github_api_base
            &&& cfg.notifications == v.cfg.notifications
            &&& cfg.editor == v.cfg.editor
            &&& if f.step == ReauthStep::Username {
                cfg.auth_token is None && cfg.username is None && cfg.password is None
            } else if f.use_token {
                &&& cfg.username is None && cfg.password is None
                &&& f.input.len() > 0 ==> cfg.auth_token == Some(f.input)
                &&& f.input.len() == 0 ==> cfg.auth_token is None
            } else if f.username.len() > 0 {
                cfg.auth_token is None && cfg.username == Some(f.username) && cfg.password == Some(
                    f.input,
                )
            } else {
                cfg.auth_token is None && cfg.username is None && cfg.password is None
            }
        }),
{
    reveal(AppView::keyed);
    reveal(AppView::modal_keyed);
    reveal(AppView::reauth_keyed);
    reveal(AppView::reauth_applied);
    reveal(ReauthFormView::text_keyed);
}

/// A new connection is to the server of the settings, with their credentials, and its
/// dashboard is asked for afresh: all of it, and under a number of its own.
pub proof fn a_new_connection_is_asked_afresh(
    v: AppView,
    cfg: ConfigView,
    save_error: Option<Seq<char>>,
)
    requires
        v.server_gen < u64::MAX,
    ensures
        ({
            let w = v.reconnected(cfg, save_error);
            &&& w.cfg == cfg
            &&& w.client.token == cfg.auth_token
            &&& w.client.username == cfg.username
            &&& w.client.password == cfg.password
            &&& w.client.base_url == text::without_tail(cfg.server_url, '/')
            &&& !w.client.demo
            &&& w.server_url == cfg.server_url
            &&& w.server_gen == v.server_gen + 1
            &&& w.outbox == v.outbox.push(
                EffectView::LoadDashboard {
                    generation: (v.server_gen + 1) as u64,
                    etag: None,
                    view: None,
                },
            )
            &&& w.favorites == v.favorites
            &&& save_error is None ==> w.error_line is None
            &&& save_error is Some ==> w.error_line is Some
        }),
{
    reveal(AppView::reconnected);
}

/// What is typed into a form is added to it as it is, and can be taken back.
pub proof fn forms_take_what_is_typed(v: AppView, f: ReauthFormView, c: char, now: u64)
    requires
        v.modal == Some(ModalView::Reauth(f)),
        f.step != ReauthStep::ChooseAuthMethod,
    ensures
        form_of(v.keyed(plain(KeyCode::Char(c)), now)) == Some(
            ReauthFormView { input: f.input.push(c), ..f },
        ),
        f.input.len() > 0 ==> form_of(v.keyed(plain(KeyCode::Backspace), now)) == Some(
            ReauthFormView { input: f.input.take(f.input.len() - 1), ..f },
        ),
        v.keyed(plain(KeyCode::Char(c)), now).outbox == v.outbox,
{
    reveal(AppView::keyed);
    reveal(AppView::modal_keyed);
    reveal(AppView::reauth_keyed);
    reveal(ReauthFormView::text_keyed);
    if f.input.len() > 0 {
        assert(text::without_last(f.input) =~= f.input.take(f.input.len() - 1));
    }
}

// ---- GitHub --------------------------------------------------------------

/// Enter takes the token that was typed, without blanks around it, and none where that is
/// blank; all other settings stay. It is saved but in the demo.
pub proof fn the_github_token_is_taken(v: AppView, input: Seq<char>, now: u64)
    requires
        v.modal == Some(ModalView::GithubConnect { input }),
    ensures
        ({
            let w = v.keyed(plain(KeyCode::Enter), now);
            let token = text::trimmed(input);
            &&& w.modal is None
            &&& w.cfg == ConfigView {
                github_token: if token.len() > 0 {
                    Some(token)
                } else {
                    None
                },
                ..v.cfg
            }
            &&& w.outbox == v.outbox.push(
                EffectView::ConnectGithub { cfg: w.cfg, save: !v.demo },
            )
        }),
        v.keyed(plain(KeyCode::Esc), now).modal is None,
        v.keyed(plain(KeyCode::Esc), now).cfg == v.cfg,
        v.keyed(plain(KeyCode::Esc), now).outbox == v.outbox,
{
    reveal(AppView::keyed);
    reveal(AppView::modal_keyed);
    reveal(AppView::github_keyed);
}

/// The token of the settings is used for checks, and that of `gh` only where there is none
/// but blanks.
pub proof fn the_configured_token_comes_first(
    v: AppView,
    gh: Option<Seq<char>>,
    save_error: Option<Seq<char>>,
)
    ensures
        ({
            let w = v.github_connected(gh, save_error);
            let own = v.cfg.github_token;
            &&& own is Some && text::trimmed(own->0).len() > 0 ==> w.github.token == own
            &&& own is None || text::trimmed(own->0).len() == 0 ==> w.github.token == gh
            &&& w.github.api_base == text::without_tail(v.cfg.github_api_base, '/')
            &&& save_error is Some ==> w.error_line is Some
            &&& save_error is None ==> w.error_line == v.error_line
            &&& v.selected_pipeline is Some && v.github_checks.len() > 0 && v.history.len() > 0
                && v.history[0].refs().len() > 0 ==> {
                &&& w.github_state is Checking
                &&& w.outbox.len() == v.outbox.len() + v.history[0].refs().len()
            }
            &&& v.selected_pipeline is None || v.github_checks.len() == 0 ==> w.outbox == v.outbox
        }),
{
    reveal(AppView::github_connected);
    reveal(AppView::checks_started);
}

// ---- views ---------------------------------------------------------------

proof fn lemma_named(views: Seq<ViewFilterView>, n: int)
    requires
        0 <= n <= views.len(),
    ensures
        forall|i: int|
            0 <= i < n && (#[trigger] views[i]).name != "Default"@ ==> named_views(
                views.take(n),
            ).contains(views[i]),
        forall|k: int|
            0 <= k < named_views(views.take(n)).len() ==> (#[trigger] named_views(
                views.take(n),
            )[k]).name != "Default"@,
    decreases n,
{
    let all = named_views(views.take(n));
    if n > 0 {
        lemma_named(views, n - 1);
        let above = named_views(views.take(n - 1));
        assert(views.take(n).drop_last() =~= views.take(n - 1));
        assert(views.take(n).last() == views[n - 1]);
        assert forall|i: int| 0 <= i < n && (#[trigger] views[i]).name != "Default"@ implies all.contains(
            views[i],
        ) by {
            if i < n - 1 {
                let k = choose|k: int| 0 <= k < above.len() && above[k] == views[i];
                assert(all[k] == above[k]);
            } else {
                assert(all[above.len() as int] == views[i]);
            }
        }
        assert forall|k: int| 0 <= k < all.len() implies (#[trigger] all[k]).name != "Default"@ by {
            if k < above.len() {
                assert(all[k] == above[k]);
            }
        }
    } else {
        assert(views.take(0).len() == 0);
    }
}

/// The views that come are offered, but for the one of all pipelines. That they could not
/// be loaded is noted, and is no error until they are asked for.
pub proof fn views_are_offered(v: AppView, views: Vec<ViewFilter>, e: String, i: int)
    requires
        0 <= i < views@.len(),
        views.deep_view()[i].name != "Default"@,
    ensures
        v.after_event(ApiEvent::Views(v.server_gen, Ok(views))).views.contains(
            views.deep_view()[i],
        ),
        v.after_event(ApiEvent::Views(v.server_gen, Ok(views))).views_error is None,
        forall|k: int|
            0 <= k < v.after_event(ApiEvent::Views(v.server_gen, Ok(views))).views.len() ==> (
            #[trigger] v.after_event(ApiEvent::Views(v.server_gen, Ok(views))).views[k]).name
                != "Default"@,
        v.after_event(ApiEvent::Views(v.server_gen, Err(e))) == (AppView {
            views_error: Some(e@),
            ..v
        }),
{
    reveal(AppView::after_event);
    reveal(AppView::views_loaded);
    let all = views.deep_view();
    lemma_named(all, all.len() as int);
    assert(all.take(all.len() as int) =~= all);
    assert(all.len() == views@.len());
}

/// Enter in the picker makes the view at hand active, and asks for the whole dashboard
/// through it; the first entry stands for all pipelines.
pub proof fn a_picked_view_is_loaded(v: AppView, selected: usize, now: u64)
    requires
        v.modal == Some(ModalView::ViewPicker { selected }),
        selected <= v.views.len(),
    ensures
        ({
            let w = v.keyed(plain(KeyCode::Enter), now);
            &&& w.modal is None
            &&& w.views == v.views
            &&& w.selected == 0
            &&& w.loading_groups
            &&& w.outbox == v.outbox.push(
                EffectView::LoadDashboard {
                    generation: v.server_gen,
                    etag: None,
                    view: if selected == 0 {
                        None
                    } else {
                        Some(v.views[selected - 1].name)
                    },
                },
            )
            &&& selected == 0 ==> w.active_view is None
            &&& selected > 0 ==> w.active_view == Some((selected - 1) as usize)
        }),
        selected < v.views.len() ==> v.keyed(plain(KeyCode::Char('j')), now).modal == Some(
            ModalView::ViewPicker { selected: (selected + 1) as usize },
        ),
        selected > 0 ==> v.keyed(plain(KeyCode::Char('k')), now).modal == Some(
            ModalView::ViewPicker { selected: (selected - 1) as usize },
        ),
        selected == v.views.len() ==> v.keyed(plain(KeyCode::Char('j')), now).modal == v.modal,
        selected == 0 ==> v.keyed(plain(KeyCode::Char('k')), now).modal == v.modal,
        v.keyed(plain(KeyCode::Char('g')), now).modal == Some(
            ModalView::ViewPicker { selected: 0 },
        ),
        v.views.len() <= usize::MAX ==> v.keyed(plain(KeyCode::Char('G')), now).modal == Some(
            ModalView::ViewPicker { selected: v.views.len() as usize },
        ),
        v.keyed(plain(KeyCode::Esc), now).modal is None,
        v.keyed(plain(KeyCode::Esc), now).outbox == v.outbox,
{
    reveal(AppView::keyed);
    reveal(AppView::modal_keyed);
    reveal(AppView::picker_keyed);
    reveal(AppView::view_picked);
}

/// `v` opens the picker on the view that is active. That there are no views is said in
/// other words than that they could not be loaded, which is an error.
pub proof fn views_are_asked_for(v: AppView, now: u64)
    requires
        in_panes(v),
        v.active_view matches Some(i) ==> i < usize::MAX,
    ensures
        ({
            let w = v.keyed(plain(KeyCode::Char('v')), now);
            &&& v.views.len() > 0 ==> w.modal == Some(
                ModalView::ViewPicker {
                    selected: if v.active_view is Some {
                        (v.active_view->0 + 1) as usize
                    } else {
                        0
                    },
                },
            )
            &&& v.views.len() == 0 ==> w.modal is None
            &&& v.views.len() == 0 && v.views_error is Some ==> w.error_line is Some
            &&& v.views.len() == 0 && v.views_error is None ==> w.error_line is None
            &&& w.outbox == v.outbox
        }),
{
    reveal(AppView::keyed);
    reveal(AppView::pane_keyed);
    reveal(AppView::motion);
    reveal(AppView::action_keyed);
    reveal(AppView::views_asked);
}

proof fn lemma_names_matching(names: Seq<Seq<char>>, filter: Seq<char>, x: Seq<char>)
    ensures
        names_matching(names, filter).contains(x) <==> names.contains(x) && matched(x, filter, 0)
            is Some,
    decreases names.len(),
{
    let all = names_matching(names, filter);
    if names.len() > 0 {
        let d = names.drop_last();
        let above = names_matching(d, filter);
        lemma_names_matching(d, filter, x);
        if d.contains(x) {
            let k = choose|k: int| 0 <= k < d.len() && d[k] == x;
            assert(names[k] == x);
        }
        if names.contains(x) {
            let k = choose|k: int| 0 <= k < names.len() && names[k] == x;
            if k < d.len() {
                assert(d[k] == x);
            }
        }
        assert(names[names.len() - 1] == names.last());
        if above.contains(x) {
            let k = choose|k: int| 0 <= k < above.len() && above[k] == x;
            assert(all[k] == x);
        }
        if all.contains(x) {
            let k = choose|k: int| 0 <= k < all.len() && all[k] == x;
            if k < above.len() {
                assert(above[k] == x);
            }
        }
        if matched(names.last(), filter, 0) is Some {
            assert(all[above.len() as int] == names.last());
        }
    }
}

proof fn lemma_pipelines_matching(
    groups: Seq<DashboardGroupView>,
    n: int,
    filter: Seq<char>,
    x: Seq<char>,
)
    requires
        0 <= n <= groups.len(),
    ensures
        pipelines_matching(groups.take(n), filter).contains(x) <==> (exists|g: int|
            0 <= g < n && (#[trigger] groups[g]).pipelines.contains(x)) && matched(x, filter, 0)
            is Some,
    decreases n,
{
    let all = pipelines_matching(groups.take(n), filter);
    if n > 0 {
        lemma_pipelines_matching(groups, n - 1, filter, x);
        assert(groups.take(n).drop_last() =~= groups.take(n - 1));
        assert(groups.take(n).last() == groups[n - 1]);
        let a = pipelines_matching(groups.take(n - 1), filter);
        let b = names_matching(groups[n - 1].pipelines, filter);
        lemma_names_matching(groups[n - 1].pipelines, filter, x);
        assert(all == a + b);
        if a.contains(x) {
            let k = choose|k: int| 0 <= k < a.len() && a[k] == x;
            assert(all[k] == x);
            let g = choose|g: int| 0 <= g < n - 1 && (#[trigger] groups[g]).pipelines.contains(x);
            assert(groups[g].pipelines.contains(x));
        }
        if b.contains(x) {
            let k = choose|k: int| 0 <= k < b.len() && b[k] == x;
            assert(all[a.len() + k] == x);
            assert(groups[n - 1].pipelines.contains(x));
        }
        if all.contains(x) {
            let k = choose|k: int| 0 <= k < all.len() && all[k] == x;
            if k < a.len() {
                assert(a[k] == x);
            } else {
                assert(b[k - a.len()] == x);
            }
        }
        if (exists|g: int| 0 <= g < n && (#[trigger] groups[g]).pipelines.contains(x)) && matched(
            x,
            filter,
            0,
        ) is Some {
            let g = choose|g: int| 0 <= g < n && (#[trigger] groups[g]).pipelines.contains(x);
            if g < n - 1 {
                assert(a.contains(x));
            }
        }
    } else {
        assert(groups.take(0).len() == 0);
    }
}

/// `V` offers to save exactly the pipelines of the dashboard that the filter matches; where
/// there is no filter, or it matches none, nothing is offered.
pub proof fn the_matches_are_saved_as_a_view(v: AppView, x: Seq<char>, now: u64)
    requires
        in_panes(v),
    ensures
        ({
            let w = v.keyed(plain(KeyCode::Char('V')), now);
            let fits = (exists|g: int|
                0 <= g < v.groups.len() && (#[trigger] v.groups[g]).pipelines.contains(x))
                && matched(x, v.filter, 0) is Some;
            &&& w.outbox == v.outbox
            &&& v.filter.len() == 0 ==> w.modal is None
            &&& v.filter.len() > 0 && fits ==> w.modal is Some
            &&& w.modal matches Some(m) ==> m is SaveView && m->SaveView_input.len() == 0 && (
            m->SaveView_pipelines.contains(x) <==> fits)
        }),
{
    reveal(AppView::keyed);
    reveal(AppView::pane_keyed);
    reveal(AppView::motion);
    reveal(AppView::action_keyed);
    reveal(AppView::save_view_asked);
    lemma_pipelines_matching(v.groups, v.groups.len() as int, v.filter, x);
    assert(v.groups.take(v.groups.len() as int) =~= v.groups);
}

/// Enter saves those pipelines under the name that was typed, without blanks around it;
/// without a name nothing is saved. A view that was saved has the views asked for again.
pub proof fn a_view_is_saved_under_its_name(
    v: AppView,
    input: Seq<char>,
    pipelines: Seq<Seq<char>>,
    now: u64,
    name: String,
)
    requires
        v.modal == Some(ModalView::SaveView { input, pipelines }),
    ensures
        ({
            let w = v.keyed(plain(KeyCode::Enter), now);
            if text::trimmed(input).len() == 0 {
                w.modal == v.modal && w.outbox == v.outbox
            } else {
                w.modal is None && w.outbox == v.outbox.push(
                    EffectView::SaveView {
                        generation: v.server_gen,
                        name: text::trimmed(input),
                        pipelines,
                    },
                )
            }
        }),
        v.keyed(plain(KeyCode::Esc), now).modal is None,
        v.keyed(plain(KeyCode::Esc), now).outbox == v.outbox,
        v.after_event(ApiEvent::ViewSaved(v.server_gen, Ok(name))).outbox == v.outbox.push(
            EffectView::LoadViews(v.server_gen),
        ),
{
    reveal(AppView::keyed);
    reveal(AppView::modal_keyed);
    reveal(AppView::save_view_keyed);
    reveal(AppView::after_event);
    reveal(AppView::view_saved);
}

} // verus!
