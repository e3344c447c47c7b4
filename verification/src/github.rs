//! The latest commit of a branch, by GitHub's API.

use vstd::prelude::*;
use vstd::string::*;

use crate::api::{encode_segment, encoded};
use crate::dup::Dup;
use crate::text;

pub mod laws;

verus! {

/// The GitHub API and the token for it.
#[derive(Debug)]
pub struct GitHubClient {
    pub token: Option<String>,
    /// API root, e.g. "https://api.github.com" or the ".../api/v3" of an enterprise host.
    pub api_base: String,
}

#[verifier::ext_equal]
pub struct GitHubClientView {
    pub token: Option<Seq<char>>,
    pub api_base: Seq<char>,
}

impl DeepView for GitHubClient {
    type V = GitHubClientView;

    open spec fn deep_view(&self) -> GitHubClientView {
        GitHubClientView {
            token: self.token.deep_view(),
            api_base: self.api_base@,
        }
    }
}

impl Dup for GitHubClient {
    fn dup(&self) -> (r: Self) {
        GitHubClient {
            token: self.token.dup(),
            api_base: self.api_base.dup(),
        }
    }
}

/// What a successful check found, and whether the configured token had to be
/// left aside for it, which the interface says.
#[derive(Debug, PartialEq, Eq)]
pub struct CommitCheck {
    pub sha: String,
    pub fell_back: bool,
}

#[verifier::ext_equal]
pub struct CommitCheckView {
    pub sha: Seq<char>,
    pub fell_back: bool,
}

impl DeepView for CommitCheck {
    type V = CommitCheckView;

    open spec fn deep_view(&self) -> CommitCheckView {
        CommitCheckView {
            sha: self.sha@,
            fell_back: self.fell_back,
        }
    }
}

impl Dup for CommitCheck {
    fn dup(&self) -> (r: Self) {
        CommitCheck {
            sha: self.sha.dup(),
            fell_back: self.fell_back,
        }
    }
}

/// One HTTP attempt. A rejection is data: it can be worth another attempt with
/// another token.
#[derive(Debug)]
pub enum Attempt {
    Found(String),
    Rejected { status: u16, body: String },
    /// The request was not answered, or not with a commit.
    Failed(String),
}

#[verifier::ext_equal]
pub enum AttemptView {
    Found(Seq<char>),
    Rejected { status: u16, body: Seq<char> },
    Failed(Seq<char>),
}

impl DeepView for Attempt {
    type V = AttemptView;

    open spec fn deep_view(&self) -> AttemptView {
        match self {
            Attempt::Found(x) => AttemptView::Found(x@),
            Attempt::Rejected { status, body } => AttemptView::Rejected { status: *status, body: body@ },
            Attempt::Failed(x) => AttemptView::Failed(x@),
        }
    }
}

/// A request to GitHub; a token where it may be sent.
#[derive(Debug, PartialEq, Eq)]
pub struct GithubRequest {
    pub url: String,
    pub headers: Vec<(String, String)>,
    pub bearer: Option<String>,
}

#[verifier::ext_equal]
pub struct GithubRequestView {
    pub url: Seq<char>,
    pub headers: Seq<(Seq<char>, Seq<char>)>,
    pub bearer: Option<Seq<char>>,
}

impl DeepView for GithubRequest {
    type V = GithubRequestView;

    open spec fn deep_view(&self) -> GithubRequestView {
        GithubRequestView {
            url: self.url@,
            headers: self.headers.deep_view(),
            bearer: self.bearer.deep_view(),
        }
    }
}

/// What is known so far of a check.
#[derive(Debug)]
pub struct CommitProgress {
    /// The attempt with the token of the client.
    pub first: Option<Attempt>,
    /// What `gh auth token` gave.
    pub gh: Option<Option<String>>,
    /// The attempt with the token of `gh`.
    pub retry: Option<Attempt>,
}

#[verifier::ext_equal]
pub struct CommitProgressView {
    pub first: Option<AttemptView>,
    pub gh: Option<Option<Seq<char>>>,
    pub retry: Option<AttemptView>,
}

impl DeepView for CommitProgress {
    type V = CommitProgressView;

    open spec fn deep_view(&self) -> CommitProgressView {
        CommitProgressView {
            first: self.first.deep_view(),
            gh: self.gh.deep_view(),
            retry: self.retry.deep_view(),
        }
    }
}

/// What a check does next.
#[derive(Debug, PartialEq, Eq)]
pub enum CommitStep {
    /// Make this attempt.
    Send(GithubRequest),
    /// Run `gh auth token`.
    AskGh,
    Found(CommitCheck),
    Failed(String),
}

#[verifier::ext_equal]
pub enum CommitStepView {
    Send(GithubRequestView),
    AskGh,
    Found(CommitCheckView),
    Failed(Seq<char>),
}

impl DeepView for CommitStep {
    type V = CommitStepView;

    open spec fn deep_view(&self) -> CommitStepView {
        match self {
            CommitStep::Send(x) => CommitStepView::Send(x.deep_view()),
            CommitStep::AskGh => CommitStepView::AskGh,
            CommitStep::Found(x) => CommitStepView::Found(x.deep_view()),
            CommitStep::Failed(x) => CommitStepView::Failed(x@),
        }
    }
}


// ---- tokens --------------------------------------------------------------

/// A token that is set and not blank.
pub open spec fn is_configured(token: Option<Seq<char>>) -> bool {
    token matches Some(t) && text::trimmed(t).len() > 0
}

/// Whether the settings name a token; a blank one is none.
pub fn token_configured(token: &Option<String>) -> (r: bool)
    ensures
        r == is_configured(token.deep_view()),
{
    match token {
        Some(t) => text::trim(t.as_str()).unicode_len() > 0,
        None => false,
    }
}

pub open spec fn token_of(configured: Option<Seq<char>>, gh: Option<Seq<char>>) -> Option<
    Seq<char>,
> {
    if is_configured(configured) {
        configured
    } else {
        gh
    }
}

/// The configured token, or else the one that `gh auth token` gave.
pub fn resolve_token(configured: Option<String>, gh: Option<String>) -> (r: Option<String>)
    ensures
        r.deep_view() == token_of(configured.deep_view(), gh.deep_view()),
{
    if token_configured(&configured) {
        configured
    } else {
        gh
    }
}

pub open spec fn gh_token(success: bool, stdout: Option<Seq<char>>) -> Option<Seq<char>> {
    match stdout {
        Some(s) => if success && text::trimmed(s).len() > 0 {
            Some(text::trimmed(s))
        } else {
            None
        },
        None => None,
    }
}

/// The token in the output of `gh auth token`: none where it failed, where the
/// output is no text, or where it is blank.
pub fn gh_auth_token(success: bool, stdout: Option<&str>) -> (r: Option<String>)
    ensures
        r.deep_view() == gh_token(success, stdout.deep_view()),
{
    match stdout {
        Some(s) => {
            let t = text::trim(s);
            if success && t.unicode_len() > 0 {
                Some(text::owned(t))
            } else {
                None
            }
        },
        None => None,
    }
}

// ---- rejections ----------------------------------------------------------

pub open spec fn first_300(s: Seq<char>) -> Seq<char> {
    if s.len() > 300 {
        s.take(300)
    } else {
        s
    }
}

/// At most 300 characters of `s`.
pub fn truncate(s: &str) -> (r: String)
    ensures
        r@ == first_300(s@),
{
    let n: usize = s.unicode_len();
    let m: usize = if n > 300 { 300 } else { n };
    let r = text::owned(s.substring_char(0, m));
    assert(r@ =~= first_300(s@));
    r
}

/// What is said of a rejection: what to do about it where the status tells, and
/// else GitHub's own wording.
pub open spec fn rejection(status: u16, body: Seq<char>, owner: Seq<char>, what: Seq<char>) -> Seq<
    char,
> {
    if status == 403 && (text::has(body, "SAML"@) || text::has(body, "SSO"@)) {
        "GitHub 403 for "@ + what + ": this token is not SSO-authorized for the "@ + owner
            + " organization. Authorize it under Settings > Developer settings > Personal access tokens > Configure SSO, or clear github_token to use `gh auth token`."@
    } else if status == 401 {
        "GitHub 401 for "@ + what + ": the token is invalid or revoked."@
    } else if status == 403 {
        "GitHub 403 for "@ + what + ": the token lacks access, or you are rate limited. "@
            + first_300(body)
    } else if status == 404 {
        "GitHub 404 for "@ + what + ": no such repo or branch, or the token cannot see it."@
    } else {
        "GitHub returned "@ + text::dec(status as nat) + " for "@ + what + ": "@ + first_300(body)
    }
}

pub fn explain_rejection(status: u16, body: &str, owner: &str, what: &str) -> (r: String)
    ensures
        r@ == rejection(status, body@, owner@, what@),
{
    if status == 403 && (text::contains(body, "SAML") || text::contains(body, "SSO")) {
        text::cat5(
            "GitHub 403 for ",
            what,
            ": this token is not SSO-authorized for the ",
            owner,
            " organization. Authorize it under Settings > Developer settings > Personal access tokens > Configure SSO, or clear github_token to use `gh auth token`.",
        )
    } else if status == 401 {
        text::cat3("GitHub 401 for ", what, ": the token is invalid or revoked.")
    } else if status == 403 {
        let b = truncate(body);
        text::cat4(
            "GitHub 403 for ",
            what,
            ": the token lacks access, or you are rate limited. ",
            b.as_str(),
        )
    } else if status == 404 {
        text::cat3(
            "GitHub 404 for ",
            what,
            ": no such repo or branch, or the token cannot see it.",
        )
    } else {
        let b = truncate(body);
        let n = text::decimal_u(status as u64);
        text::cat6("GitHub returned ", n.as_str(), " for ", what, ": ", b.as_str())
    }
}

/// What is said of an answer that holds no commit.
pub fn commit_parse_failure(body: &str) -> (r: String)
    ensures
        r@ == "parsing GitHub commit response: "@ + first_300(body@),
{
    let b = truncate(body);
    text::cat2("parsing GitHub commit response: ", b.as_str())
}

// ---- checks --------------------------------------------------------------

pub open spec fn commit_url(base: Seq<char>, owner: Seq<char>, repo: Seq<char>, branch: Seq<char>) -> Seq<
    char,
> {
    base + "/repos/"@ + encoded(owner) + "/"@ + encoded(repo) + "/commits/"@ + encoded(branch)
}

/// The branch in words.
pub open spec fn branch_words(owner: Seq<char>, repo: Seq<char>, branch: Seq<char>) -> Seq<char> {
    owner + "/"@ + repo + "@"@ + branch
}

impl GitHubClientView {
    /// An attempt with a token. The token goes out over `https` only.
    pub open spec fn attempt(self, url: Seq<char>, token: Option<Seq<char>>) -> GithubRequestView {
        GithubRequestView {
            url,
            headers: seq![
                ("Accept"@, "application/vnd.github+json"@),
                ("User-Agent"@, "lazygocd"@),
            ],
            bearer: if text::begins(self.api_base, "https://"@) {
                token
            } else {
                None
            },
        }
    }

    /// A rejected token is worth another attempt with the one of `gh`, once: a
    /// hand-made token is often not authorized for an organization where the
    /// one of `gh` is.
    pub open spec fn next_step(
        self,
        owner: Seq<char>,
        repo: Seq<char>,
        branch: Seq<char>,
        so_far: CommitProgressView,
    ) -> CommitStepView {
        let url = commit_url(self.api_base, owner, repo, branch);
        let what = branch_words(owner, repo, branch);
        match so_far.first {
            None => CommitStepView::Send(self.attempt(url, self.token)),
            Some(AttemptView::Failed(e)) => CommitStepView::Failed(e),
            Some(AttemptView::Found(sha)) => CommitStepView::Found(
                CommitCheckView { sha, fell_back: false },
            ),
            Some(AttemptView::Rejected { status, body }) => {
                let failed = CommitStepView::Failed(rejection(status, body, owner, what));
                if status != 401 && status != 403 {
                    failed
                } else {
                    match so_far.gh {
                        None => CommitStepView::AskGh,
                        Some(gh) => if gh is None || gh == self.token {
                            failed
                        } else {
                            match so_far.retry {
                                None => CommitStepView::Send(self.attempt(url, gh)),
                                Some(AttemptView::Found(sha)) => CommitStepView::Found(
                                    CommitCheckView { sha, fell_back: true },
                                ),
                                Some(_) => failed,
                            }
                        },
                    }
                }
            },
        }
    }
}

fn same_token(a: &Option<String>, b: &Option<String>) -> (r: bool)
    ensures
        r == (a.deep_view() == b.deep_view()),
{
    match (a, b) {
        (Some(x), Some(y)) => text::same(x.as_str(), y.as_str()),
        (None, None) => true,
        _ => false,
    }
}

impl GitHubClient {
    /// `gh` is what `gh auth token` gave, which counts where no token is
    /// configured. A slash at the end of the API root would double in every URL.
    pub fn new(token: Option<String>, api_base: &str, gh: Option<String>) -> (r: GitHubClient)
        ensures
            r.deep_view() == (GitHubClientView {
                token: if is_configured(token.deep_view()) {
                    token.deep_view()
                } else {
                    gh.deep_view()
                },
                api_base: text::without_tail(api_base@, '/'),
            }),
    {
        GitHubClient {
            token: resolve_token(token, gh),
            api_base: text::owned(text::trim_end_of(api_base, '/')),
        }
    }

    fn attempt(&self, url: &str, token: &Option<String>) -> (r: GithubRequest)
        ensures
            r.deep_view() == self.deep_view().attempt(url@, token.deep_view()),
    {
        let headers = vec![
            (text::owned("Accept"), text::owned("application/vnd.github+json")),
            (text::owned("User-Agent"), text::owned("lazygocd")),
        ];
        assert(headers.deep_view() =~= seq![
            ("Accept"@, "application/vnd.github+json"@),
            ("User-Agent"@, "lazygocd"@),
        ]);
        GithubRequest {
            url: text::owned(url),
            headers,
            bearer: if text::starts_with(self.api_base.as_str(), "https://") {
                token.dup()
            } else {
                None
            },
        }
    }

    /// The next step of a check for the latest commit of a branch, given what is
    /// known so far. Without a token public repositories can be checked.
    pub fn latest_commit(
        &self,
        owner: &str,
        repo: &str,
        branch: &str,
        so_far: &CommitProgress,
    ) -> (r: CommitStep)
        ensures
            r.deep_view() == self.deep_view().next_step(
                owner@,
                repo@,
                branch@,
                so_far.deep_view(),
            ),
    {
        let o = encode_segment(owner);
        let p = encode_segment(repo);
        let b = encode_segment(branch);
        let url = text::cat7(
            self.api_base.as_str(),
            "/repos/",
            o.as_str(),
            "/",
            p.as_str(),
            "/commits/",
            b.as_str(),
        );
        let what = text::cat5(owner, "/", repo, "@", branch);
        let (status, body) = match &so_far.first {
            None => {
                return CommitStep::Send(self.attempt(url.as_str(), &self.token));
            },
            Some(Attempt::Failed(e)) => {
                return CommitStep::Failed(e.clone());
            },
            Some(Attempt::Found(sha)) => {
                return CommitStep::Found(CommitCheck { sha: sha.clone(), fell_back: false });
            },
            Some(Attempt::Rejected { status, body }) => (*status, body),
        };
        if status == 401 || status == 403 {
            match &so_far.gh {
                None => {
                    return CommitStep::AskGh;
                },
                Some(gh) => if gh.is_some() && !same_token(gh, &self.token) {
                    match &so_far.retry {
                        None => {
                            return CommitStep::Send(self.attempt(url.as_str(), gh));
                        },
                        Some(Attempt::Found(sha)) => {
                            return CommitStep::Found(
                                CommitCheck { sha: sha.clone(), fell_back: true },
                            );
                        },
                        Some(_) => {},
                    }
                },
            }
        }
        CommitStep::Failed(explain_rejection(status, body.as_str(), owner, what.as_str()))
    }
}

// ---- laws ----------------------------------------------------------------

/// No token goes out to an API root that is not `https`.
pub proof fn tokens_go_over_https_only(
    c: GitHubClientView,
    owner: Seq<char>,
    repo: Seq<char>,
    branch: Seq<char>,
    so_far: CommitProgressView,
)
    requires
        !text::begins(c.api_base, "https://"@),
    ensures
        c.next_step(owner, repo, branch, so_far) matches CommitStepView::Send(req)
            ==> req.bearer is None,
{
}

/// A check falls back only after a rejection with 401 or 403, and to a token
/// that the client did not already use.
pub proof fn fallback_follows_a_rejection(
    c: GitHubClientView,
    owner: Seq<char>,
    repo: Seq<char>,
    branch: Seq<char>,
    so_far: CommitProgressView,
)
    requires
        c.next_step(owner, repo, branch, so_far) matches CommitStepView::Found(check)
            && check.fell_back,
    ensures
        so_far.first matches Some(AttemptView::Rejected { status, .. }) && (status == 401 || status
            == 403),
        so_far.gh matches Some(gh) && gh is Some && gh != c.token,
        so_far.retry matches Some(AttemptView::Found(_)),
{
}

/// Once all outcomes are known a check is over.
pub proof fn checks_end(
    c: GitHubClientView,
    owner: Seq<char>,
    repo: Seq<char>,
    branch: Seq<char>,
    so_far: CommitProgressView,
)
    requires
        so_far.first is Some,
        so_far.gh is Some,
        so_far.retry is Some,
    ensures
        c.next_step(owner, repo, branch, so_far) is Found || c.next_step(
            owner,
            repo,
            branch,
            so_far,
        ) is Failed,
{
}

} // verus!
