//! What holds of asking GitHub: with which token, where, and what comes of it.

use vstd::prelude::*;
use vstd::string::*;

use crate::api::encoded;
use crate::app::laws::acting::{ends_in, starts_with};
use crate::github::{
    gh_token, rejection, token_of, AttemptView, CommitCheckView, CommitProgressView,
    CommitStepView, GitHubClientView,
};
use crate::text;
use crate::text::laws::{bare, blank, what_is_around_is_trimmed};

verus! {

/// The configured token is used where it is more than whitespace, and else the
/// one of `gh`.
pub proof fn the_configured_token_is_used(
    before: Seq<char>,
    token: Seq<char>,
    after: Seq<char>,
    gh: Option<Seq<char>>,
)
    requires
        blank(before),
        blank(after),
        bare(token),
    ensures
        token_of(Some(before + token + after), gh) == Some(before + token + after),
        token_of(Some(before), gh) == gh,
        token_of(None, gh) == gh,
{
    what_is_around_is_trimmed(before, token, after);
    let none = Seq::<char>::empty();
    what_is_around_is_trimmed(before, none, none);
    assert(before + none + none =~= before);
}

/// The token of `gh` is what it printed, without the line end, where it ran
/// well and printed anything.
pub proof fn gh_prints_its_token(
    before: Seq<char>,
    token: Seq<char>,
    after: Seq<char>,
    success: bool,
)
    requires
        blank(before),
        blank(after),
        bare(token),
    ensures
        gh_token(true, Some(before + token + after)) == Some(token),
        gh_token(false, Some(before + token + after)) is None,
        gh_token(success, Some(before)) is None,
        gh_token(success, None) is None,
{
    what_is_around_is_trimmed(before, token, after);
    let none = Seq::<char>::empty();
    what_is_around_is_trimmed(before, none, none);
    assert(before + none + none =~= before);
}

/// A check that was not begun asks for the commits of the branch of that
/// repository, with the token of the client.
pub proof fn the_branch_is_asked_for(
    g: GitHubClientView,
    owner: Seq<char>,
    repo: Seq<char>,
    branch: Seq<char>,
    p: CommitProgressView,
)
    requires
        p.first is None,
    ensures
        g.next_step(owner, repo, branch, p) matches CommitStepView::Send(req) && {
            &&& starts_with(req.url, g.api_base + "/repos/"@ + encoded(owner))
            &&& ends_in(req.url, "/"@ + encoded(repo) + "/commits/"@ + encoded(branch))
            &&& starts_with(g.api_base, "https://"@) ==> req.bearer == g.token
            &&& !starts_with(g.api_base, "https://"@) ==> req.bearer is None
        },
{
    if let CommitStepView::Send(req) = g.next_step(owner, repo, branch, p) {
        let head = g.api_base + "/repos/"@ + encoded(owner);
        let tail = "/"@ + encoded(repo) + "/commits/"@ + encoded(branch);
        assert(req.url =~= head + tail);
        assert(req.url.subrange(0, head.len() as int) =~= head);
        assert(req.url.subrange(head.len() as int, req.url.len() as int) =~= tail);
    }
}

/// What was found is the answer. A request that was never answered is not tried
/// again, and neither is one that another token would not help.
pub proof fn the_first_answer_counts(
    g: GitHubClientView,
    owner: Seq<char>,
    repo: Seq<char>,
    branch: Seq<char>,
    p: CommitProgressView,
)
    ensures
        p.first is Some && p.first->0 is Found ==> g.next_step(owner, repo, branch, p)
            == CommitStepView::Found(CommitCheckView { sha: p.first->0->Found_0, fell_back: false }),
        p.first is Some && p.first->0 is Failed ==> g.next_step(owner, repo, branch, p)
            == CommitStepView::Failed(p.first->0->Failed_0),
        p.first is Some && p.first->0 is Rejected && p.first->0->status != 401
            && p.first->0->status != 403 ==> g.next_step(owner, repo, branch, p) is Failed,
{
}

/// Where a token was rejected, `gh` is asked for another; one that is new is
/// tried for the same commits, and what it finds is the answer, marked as found
/// that way. Where `gh` has none, or the same, the rejection stands.
pub proof fn another_token_is_tried(
    g: GitHubClientView,
    owner: Seq<char>,
    repo: Seq<char>,
    branch: Seq<char>,
    status: u16,
    body: Seq<char>,
    gh: Seq<char>,
    sha: Seq<char>,
)
    requires
        status == 401 || status == 403,
        g.token != Some(gh),
    ensures
        ({
            let first = Some(AttemptView::Rejected { status, body });
            let begun = CommitProgressView { first: None, gh: None, retry: None };
            let asked = CommitProgressView { first, gh: None, retry: None };
            let other = CommitProgressView { first, gh: Some(Some(gh)), retry: None };
            let tried = CommitProgressView { retry: Some(AttemptView::Found(sha)), ..other };
            &&& g.next_step(owner, repo, branch, asked) is AskGh
            &&& g.next_step(owner, repo, branch, begun) matches CommitStepView::Send(one)
            &&& g.next_step(owner, repo, branch, other) matches CommitStepView::Send(two)
            &&& one.url == two.url
            &&& starts_with(g.api_base, "https://"@) ==> two.bearer == Some(gh)
            &&& g.next_step(owner, repo, branch, tried) == CommitStepView::Found(
                CommitCheckView { sha, fell_back: true },
            )
            &&& g.next_step(
                owner,
                repo,
                branch,
                CommitProgressView { first, gh: Some(None), retry: None },
            ) is Failed
            &&& g.next_step(
                owner,
                repo,
                branch,
                CommitProgressView { first, gh: Some(g.token), retry: None },
            ) is Failed
        }),
{
}

/// A rejection names its status and what was asked for, and the status tells
/// what is wrong: not signed on to the organization, an invalid token, too
/// little access, or nothing to be seen there.
pub proof fn rejections_say_what_is_wrong(
    status: u16,
    body: Seq<char>,
    owner: Seq<char>,
    what: Seq<char>,
)
    ensures
        status == 403 && (text::has(body, "SAML"@) || text::has(body, "SSO"@)) ==> starts_with(
            rejection(status, body, owner, what),
            "GitHub 403 for "@ + what + ": this token is not SSO-authorized for the "@ + owner,
        ),
        status == 403 && !text::has(body, "SAML"@) && !text::has(body, "SSO"@) ==> starts_with(
            rejection(status, body, owner, what),
            "GitHub 403 for "@ + what + ": the token lacks access"@,
        ),
        status == 401 ==> rejection(status, body, owner, what) == "GitHub 401 for "@ + what
            + ": the token is invalid or revoked."@,
        status == 404 ==> starts_with(
            rejection(status, body, owner, what),
            "GitHub 404 for "@ + what + ": no such repo or branch"@,
        ),
        status != 401 && status != 403 && status != 404 ==> starts_with(
            rejection(status, body, owner, what),
            "GitHub returned "@ + text::dec(status as nat),
        ),
        status != 401 && status != 404 && body.len() <= 300 && !text::has(body, "SAML"@)
            && !text::has(body, "SSO"@) ==> ends_in(rejection(status, body, owner, what), body),
{
    let r = rejection(status, body, owner, what);
    if status == 403 && (text::has(body, "SAML"@) || text::has(body, "SSO"@)) {
        let head = "GitHub 403 for "@ + what + ": this token is not SSO-authorized for the "@
            + owner;
        assert(r.subrange(0, head.len() as int) =~= head);
    } else if status == 403 {
        reveal_strlit(": the token lacks access, or you are rate limited. ");
        reveal_strlit(": the token lacks access");
        let head = "GitHub 403 for "@ + what + ": the token lacks access"@;
        assert(r.subrange(0, head.len() as int) =~= head);
        if body.len() <= 300 {
            assert(r.subrange(r.len() - body.len(), r.len() as int) =~= body);
        }
    } else if status == 404 {
        reveal_strlit(": no such repo or branch, or the token cannot see it.");
        reveal_strlit(": no such repo or branch");
        let head = "GitHub 404 for "@ + what + ": no such repo or branch"@;
        assert(r.subrange(0, head.len() as int) =~= head);
    } else if status != 401 {
        let head = "GitHub returned "@ + text::dec(status as nat);
        assert(r.subrange(0, head.len() as int) =~= head);
        if body.len() <= 300 {
            assert(r.subrange(r.len() - body.len(), r.len() as int) =~= body);
        }
    }
}

} // verus!
