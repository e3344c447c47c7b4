//! The server's API: which request each call makes, and how its answer is read.

use vstd::prelude::*;
use vstd::string::*;
use vstd::utf8::encode_utf8;

pub mod laws;

use crate::config::{Config, ConfigView};
use crate::demo;
use crate::dup::Dup;
use crate::model::{
    next_page_cursor, HistoryResponse, HistoryResponseView, PipelineInstance, PipelineInstanceView,
    ViewFilter, ViewFilterView, ViewFilters, ViewFiltersView,
};
use crate::text;

verus! {

/// The HTTP method of a request.
#[derive(Debug, Clone, Copy, PartialEq, Eq, Structural)]
pub enum Verb {
    Get,
    Post,
    Put,
}

/// What a request authenticates with.
#[derive(Debug, PartialEq, Eq)]
pub enum Credential {
    Anonymous,
    Bearer(String),
    Basic(String, Option<String>),
}

#[verifier::ext_equal]
pub enum CredentialView {
    Anonymous,
    Bearer(Seq<char>),
    Basic(Seq<char>, Option<Seq<char>>),
}

impl DeepView for Credential {
    type V = CredentialView;

    open spec fn deep_view(&self) -> CredentialView {
        match self {
            Credential::Anonymous => CredentialView::Anonymous,
            Credential::Bearer(x) => CredentialView::Bearer(x@),
            Credential::Basic(x0, x1) => CredentialView::Basic(x0@, x1.deep_view()),
        }
    }
}

impl Dup for Credential {
    fn dup(&self) -> (r: Self) {
        match self {
            Credential::Anonymous => Credential::Anonymous,
            Credential::Bearer(x) => Credential::Bearer(x.dup()),
            Credential::Basic(x0, x1) => Credential::Basic(x0.dup(), x1.dup()),
        }
    }
}

/// What a request carries.
#[derive(Debug)]
pub enum Body {
    Nothing,
    /// Sent as it is.
    Text(String),
    /// JSON: one-off environment variables of a run, whether they are secrets, and
    /// whether materials are looked up first.
    Variables { vars: Vec<(String, String)>, secure: bool, update_materials: bool },
    /// JSON: why a pipeline is paused.
    PauseCause(String),
    /// JSON: all personal views.
    Views(ViewFilters),
}

#[verifier::ext_equal]
pub enum BodyView {
    Nothing,
    Text(Seq<char>),
    Variables { vars: Seq<(Seq<char>, Seq<char>)>, secure: bool, update_materials: bool },
    PauseCause(Seq<char>),
    Views(ViewFiltersView),
}

impl DeepView for Body {
    type V = BodyView;

    open spec fn deep_view(&self) -> BodyView {
        match self {
            Body::Nothing => BodyView::Nothing,
            Body::Text(x) => BodyView::Text(x@),
            Body::Variables { vars, secure, update_materials } => BodyView::Variables {
                vars: vars.deep_view(),
                secure: *secure,
                update_materials: *update_materials,
            },
            Body::PauseCause(x) => BodyView::PauseCause(x@),
            Body::Views(x) => BodyView::Views(x.deep_view()),
        }
    }
}

impl Dup for Body {
    fn dup(&self) -> (r: Self) {
        match self {
            Body::Nothing => Body::Nothing,
            Body::Text(x) => Body::Text(x.dup()),
            Body::Variables { vars, secure, update_materials } => Body::Variables {
                vars: vars.dup(),
                secure: *secure,
                update_materials: *update_materials,
            },
            Body::PauseCause(x) => Body::PauseCause(x.dup()),
            Body::Views(x) => Body::Views(x.dup()),
        }
    }
}

/// A request to the server, and the words for each way in which it can fail.
#[derive(Debug)]
pub struct Request {
    pub verb: Verb,
    pub url: String,
    pub headers: Vec<(String, String)>,
    pub query: Option<(String, String)>,
    pub credential: Credential,
    pub body: Body,
    /// Said where it cannot be sent.
    pub sending: String,
    /// Said where the answer cannot be read.
    pub reading: String,
    /// Follows the status of a refusal.
    pub refused: String,
    /// Said where the answer does not parse.
    pub parsing: String,
}

#[verifier::ext_equal]
pub struct RequestView {
    pub verb: Verb,
    pub url: Seq<char>,
    pub headers: Seq<(Seq<char>, Seq<char>)>,
    pub query: Option<(Seq<char>, Seq<char>)>,
    pub credential: CredentialView,
    pub body: BodyView,
    pub sending: Seq<char>,
    pub reading: Seq<char>,
    pub refused: Seq<char>,
    pub parsing: Seq<char>,
}

impl DeepView for Request {
    type V = RequestView;

    open spec fn deep_view(&self) -> RequestView {
        RequestView {
            verb: self.verb,
            url: self.url@,
            headers: self.headers.deep_view(),
            query: self.query.deep_view(),
            credential: self.credential.deep_view(),
            body: self.body.deep_view(),
            sending: self.sending@,
            reading: self.reading@,
            refused: self.refused@,
            parsing: self.parsing@,
        }
    }
}

impl Dup for Request {
    fn dup(&self) -> (r: Self) {
        Request {
            verb: self.verb,
            url: self.url.dup(),
            headers: self.headers.dup(),
            query: self.query.dup(),
            credential: self.credential.dup(),
            body: self.body.dup(),
            sending: self.sending.dup(),
            reading: self.reading.dup(),
            refused: self.refused.dup(),
            parsing: self.parsing.dup(),
        }
    }
}

/// How a call is served.
#[derive(Debug)]
pub enum Call {
    /// By this text, as if the server had answered with it.
    Canned(String),
    /// Nothing is sent.
    Done,
    /// By sending the request.
    Send(Request),
}

#[verifier::ext_equal]
pub enum CallView {
    Canned(Seq<char>),
    Done,
    Send(RequestView),
}

impl DeepView for Call {
    type V = CallView;

    open spec fn deep_view(&self) -> CallView {
        match self {
            Call::Canned(x) => CallView::Canned(x@),
            Call::Done => CallView::Done,
            Call::Send(x) => CallView::Send(x.deep_view()),
        }
    }
}

impl Dup for Call {
    fn dup(&self) -> (r: Self) {
        match self {
            Call::Canned(x) => Call::Canned(x.dup()),
            Call::Done => Call::Done,
            Call::Send(x) => Call::Send(x.dup()),
        }
    }
}

/// A GoCD server and the credential for it.
#[derive(Debug)]
pub struct GoCdClient {
    pub base_url: String,
    pub username: Option<String>,
    pub password: Option<String>,
    pub token: Option<String>,
    /// `--demo`: serve canned answers and never touch the network.
    pub demo: bool,
}

#[verifier::ext_equal]
pub struct GoCdClientView {
    pub base_url: Seq<char>,
    pub username: Option<Seq<char>>,
    pub password: Option<Seq<char>>,
    pub token: Option<Seq<char>>,
    pub demo: bool,
}

impl DeepView for GoCdClient {
    type V = GoCdClientView;

    open spec fn deep_view(&self) -> GoCdClientView {
        GoCdClientView {
            base_url: self.base_url@,
            username: self.username.deep_view(),
            password: self.password.deep_view(),
            token: self.token.deep_view(),
            demo: self.demo,
        }
    }
}

impl Dup for GoCdClient {
    fn dup(&self) -> (r: Self) {
        GoCdClient {
            base_url: self.base_url.dup(),
            username: self.username.dup(),
            password: self.password.dup(),
            token: self.token.dup(),
            demo: self.demo,
        }
    }
}


// ---- path segments -------------------------------------------------------

/// The bytes that stand for themselves in a path segment.
pub open spec fn unreserved(b: u8) -> bool {
    ||| 65 <= b <= 90
    ||| 97 <= b <= 122
    ||| 48 <= b <= 57
    ||| b == 45
    ||| b == 46
    ||| b == 95
    ||| b == 126
}

pub open spec fn hex_digit(d: int) -> char {
    if d < 10 {
        (d + 48) as char
    } else {
        (d + 55) as char
    }
}

pub open spec fn encoded_byte(b: u8) -> Seq<char> {
    if unreserved(b) {
        seq![b as char]
    } else {
        seq!['%', hex_digit(b as int / 16), hex_digit(b as int % 16)]
    }
}

pub open spec fn encoded_bytes(bytes: Seq<u8>) -> Seq<char>
    decreases bytes.len(),
{
    if bytes.len() == 0 {
        Seq::empty()
    } else {
        encoded_bytes(bytes.drop_last()) + encoded_byte(bytes.last())
    }
}

/// `s` percent-encoded, byte by byte.
pub open spec fn encoded(s: Seq<char>) -> Seq<char> {
    encoded_bytes(encode_utf8(s))
}

fn hex(d: u8) -> (r: char)
    requires
        d < 16,
    ensures
        r == hex_digit(d as int),
{
    if d < 10 {
        (d + 48) as char
    } else {
        (d + 55) as char
    }
}

/// Names come from the server and go into request paths. Encoding keeps each
/// one inside its own path segment.
pub fn encode_segment(s: &str) -> (r: String)
    ensures
        r@ == encoded(s@),
{
    let bytes = s.as_bytes();
    let ghost bs = encode_utf8(s@);
    let mut out = String::new();
    let mut i: usize = 0;
    assert(out@ =~= encoded_bytes(bs.take(0)));
    while i < bytes.len()
        invariant
            bytes@ == bs,
            i <= bs.len(),
            out@ == encoded_bytes(bs.take(i as int)),
        decreases bs.len() - i,
    {
        let b: u8 = bytes[i];
        let ghost before = out@;
        assert(bs.take(i + 1).drop_last() =~= bs.take(i as int));
        if (65 <= b && b <= 90) || (97 <= b && b <= 122) || (48 <= b && b <= 57) || b == 45 || b
            == 46 || b == 95 || b == 126 {
            out.push(b as char);
        } else {
            out.push('%');
            out.push(hex(b / 16));
            out.push(hex(b % 16));
        }
        assert(out@ =~= before + encoded_byte(b));
        i = i + 1;
    }
    assert(bs.take(i as int) =~= bs);
    out
}

// ---- error bodies --------------------------------------------------------

pub open spec fn ascii_lowered(s: Seq<char>) -> Seq<char> {
    s.map_values(|c: char| text::ascii_lower(c))
}

pub fn lower_ascii(s: &str) -> (r: String)
    ensures
        r@ == ascii_lowered(s@),
{
    let cs = text::chars_of(s);
    let mut r = String::new();
    let mut i: usize = 0;
    assert(r@ =~= ascii_lowered(s@).take(0));
    while i < cs.len()
        invariant
            cs@ == s@,
            i <= cs@.len(),
            r@ == ascii_lowered(s@).take(i as int),
        decreases cs@.len() - i,
    {
        r.push(text::lower(cs[i]));
        i = i + 1;
        assert(r@ =~= ascii_lowered(s@).take(i as int));
    }
    assert(ascii_lowered(s@).take(i as int) =~= ascii_lowered(s@));
    r
}

/// A page of markup, as a proxy sends, in place of the server's JSON.
pub open spec fn is_markup(t: Seq<char>) -> bool {
    t.len() > 0 && t[0] == '<' || text::has(ascii_lowered(t), "<html"@)
}

/// What of an error body is shown: at most 300 characters, and no markup.
pub open spec fn shortened(s: Seq<char>) -> Seq<char> {
    let t = text::trimmed(s);
    if is_markup(t) {
        "a proxy or gateway answered instead of GoCD"@
    } else if t.len() > 300 {
        t.take(300)
    } else {
        t
    }
}

/// Error bodies are normally JSON, but a proxy answers with an HTML page, which
/// would be noise in a one-line status bar.
pub fn truncate(s: &str) -> (r: String)
    ensures
        r@ == shortened(s@),
{
    let t = text::trim(s);
    let n: usize = t.unicode_len();
    let lowered = lower_ascii(t);
    if (n > 0 && t.get_char(0) == '<') || text::contains(lowered.as_str(), "<html") {
        return text::owned("a proxy or gateway answered instead of GoCD");
    }
    let m: usize = if n > 300 { 300 } else { n };
    let r = text::owned(t.substring_char(0, m));
    assert(r@ =~= shortened(s@));
    r
}

// ---- requests ------------------------------------------------------------

pub open spec fn accept_header(version: nat) -> (Seq<char>, Seq<char>) {
    ("Accept"@, "application/vnd.go.cd.v"@ + text::dec(version) + "+json"@)
}

/// GoCD takes a request that changes something only with this header.
pub open spec fn confirm_header() -> (Seq<char>, Seq<char>) {
    ("X-GoCD-Confirm"@, "true"@)
}

pub open spec fn json_header() -> (Seq<char>, Seq<char>) {
    ("Content-Type"@, "application/json"@)
}

impl GoCdClientView {
    /// A token is used instead of user name and password.
    pub open spec fn credential(self) -> CredentialView {
        match (self.token, self.username) {
            (Some(t), _) => CredentialView::Bearer(t),
            (None, Some(u)) => CredentialView::Basic(u, self.password),
            (None, None) => CredentialView::Anonymous,
        }
    }

    /// A request to the plain file server, without an `Accept` header.
    pub open spec fn raw(
        self,
        verb: Verb,
        path: Seq<char>,
        sending: Seq<char>,
        reading: Seq<char>,
        refused: Seq<char>,
        parsing: Seq<char>,
    ) -> RequestView {
        RequestView {
            verb,
            url: self.base_url + path,
            headers: Seq::empty(),
            query: None,
            credential: self.credential(),
            body: BodyView::Nothing,
            sending,
            reading,
            refused,
            parsing,
        }
    }

    /// A request to the versioned API that reads something.
    pub open spec fn get(
        self,
        path: Seq<char>,
        version: nat,
        sending: Seq<char>,
        reading: Seq<char>,
        refused: Seq<char>,
        parsing: Seq<char>,
    ) -> RequestView {
        RequestView {
            headers: seq![accept_header(version)],
            ..self.raw(Verb::Get, path, sending, reading, refused, parsing)
        }
    }

    /// A confirmed request to the versioned API that changes something.
    pub open spec fn post(
        self,
        path: Seq<char>,
        version: nat,
        body: BodyView,
        sending: Seq<char>,
        refused: Seq<char>,
    ) -> RequestView {
        RequestView {
            headers: seq![accept_header(version), confirm_header()],
            body,
            ..self.raw(Verb::Post, path, sending, Seq::empty(), refused, Seq::empty())
        }
    }
}

/// The answer that `--demo` gives to a call that changes something.
pub open spec fn unless_demo(c: GoCdClientView, req: RequestView) -> CallView {
    if c.demo {
        CallView::Done
    } else {
        CallView::Send(req)
    }
}

pub open spec fn pipeline_path(name: Seq<char>, tail: Seq<char>) -> Seq<char> {
    "/api/pipelines/"@ + encoded(name) + tail
}

pub open spec fn stage_path(
    pipeline: Seq<char>,
    counter: i64,
    stage: Seq<char>,
    stage_counter: Seq<char>,
    verb: Seq<char>,
) -> Seq<char> {
    "/api/stages/"@ + encoded(pipeline) + "/"@ + text::dec_int(counter as int) + "/"@ + encoded(
        stage,
    ) + "/"@ + encoded(stage_counter) + "/"@ + verb
}

/// A stage run in words.
pub open spec fn stage_words(
    pipeline: Seq<char>,
    counter: i64,
    stage: Seq<char>,
    stage_counter: Seq<char>,
) -> Seq<char> {
    pipeline + "/"@ + text::dec_int(counter as int) + "/"@ + stage + "/"@ + stage_counter
}

pub open spec fn job_path(
    pipeline: Seq<char>,
    counter: i64,
    stage: Seq<char>,
    stage_counter: Seq<char>,
    job: Seq<char>,
    tail: Seq<char>,
) -> Seq<char> {
    "/files/"@ + encoded(pipeline) + "/"@ + text::dec_int(counter as int) + "/"@ + encoded(stage)
        + "/"@ + encoded(stage_counter) + "/"@ + encoded(job) + tail
}

fn accept(version: u64) -> (r: (String, String))
    ensures
        r.deep_view() == accept_header(version as nat),
{
    let v = text::decimal_u(version);
    (text::owned("Accept"), text::cat3("application/vnd.go.cd.v", v.as_str(), "+json"))
}

fn confirm() -> (r: (String, String))
    ensures
        r.deep_view() == confirm_header(),
{
    (text::owned("X-GoCD-Confirm"), text::owned("true"))
}

fn add_header(headers: &mut Vec<(String, String)>, h: (String, String))
    ensures
        final(headers).deep_view() == old(headers).deep_view().push(h.deep_view()),
{
    headers.push(h);
    assert(headers.deep_view() =~= old(headers).deep_view().push(h.deep_view()));
}

fn stage_url(pipeline: &str, counter: i64, stage: &str, stage_counter: &str, verb: &str) -> (r:
    String)
    ensures
        r@ == stage_path(pipeline@, counter, stage@, stage_counter@, verb@),
{
    let p = encode_segment(pipeline);
    let c = text::decimal_i(counter);
    let s = encode_segment(stage);
    let sc = encode_segment(stage_counter);
    let mut r = String::from_str("/api/stages/");
    r.append(p.as_str());
    r.append("/");
    r.append(c.as_str());
    r.append("/");
    r.append(s.as_str());
    r.append("/");
    r.append(sc.as_str());
    r.append("/");
    r.append(verb);
    r
}

fn stage_text(pipeline: &str, counter: i64, stage: &str, stage_counter: &str) -> (r: String)
    ensures
        r@ == stage_words(pipeline@, counter, stage@, stage_counter@),
{
    let c = text::decimal_i(counter);
    text::cat7(pipeline, "/", c.as_str(), "/", stage, "/", stage_counter)
}

fn job_url(
    pipeline: &str,
    counter: i64,
    stage: &str,
    stage_counter: &str,
    job: &str,
    tail: &str,
) -> (r: String)
    ensures
        r@ == job_path(pipeline@, counter, stage@, stage_counter@, job@, tail@),
{
    let p = encode_segment(pipeline);
    let c = text::decimal_i(counter);
    let s = encode_segment(stage);
    let sc = encode_segment(stage_counter);
    let j = encode_segment(job);
    let mut r = String::from_str("/files/");
    r.append(p.as_str());
    r.append("/");
    r.append(c.as_str());
    r.append("/");
    r.append(s.as_str());
    r.append("/");
    r.append(sc.as_str());
    r.append("/");
    r.append(j.as_str());
    r.append(tail);
    r
}

impl GoCdClient {
    /// The server that the settings name, without slashes at the end of its URL.
    pub fn new(cfg: &Config) -> (r: GoCdClient)
        ensures
            r.deep_view() == client_of(cfg.deep_view()),
    {
        GoCdClient {
            base_url: text::owned(text::trim_end_of(cfg.server_url.as_str(), '/')),
            username: cfg.username.dup(),
            password: cfg.password.dup(),
            token: cfg.auth_token.dup(),
            demo: false,
        }
    }

    /// No credentials and no requests, canned answers only.
    pub fn demo() -> (r: GoCdClient)
        ensures
            r.deep_view() == (GoCdClientView {
                base_url: "demo"@,
                username: None,
                password: None,
                token: None,
                demo: true,
            }),
    {
        GoCdClient {
            base_url: text::owned("demo"),
            username: None,
            password: None,
            token: None,
            demo: true,
        }
    }

    fn credential(&self) -> (r: Credential)
        ensures
            r.deep_view() == self.deep_view().credential(),
    {
        match &self.token {
            Some(t) => Credential::Bearer(t.clone()),
            None => match &self.username {
                Some(u) => Credential::Basic(u.clone(), self.password.dup()),
                None => Credential::Anonymous,
            },
        }
    }

    fn request_raw(
        &self,
        verb: Verb,
        path: &str,
        sending: &str,
        reading: &str,
        refused: &str,
        parsing: &str,
    ) -> (r: Request)
        ensures
            r.deep_view() == self.deep_view().raw(
                verb,
                path@,
                sending@,
                reading@,
                refused@,
                parsing@,
            ),
    {
        let r = Request {
            verb,
            url: text::cat2(self.base_url.as_str(), path),
            headers: Vec::new(),
            query: None,
            credential: self.credential(),
            body: Body::Nothing,
            sending: text::owned(sending),
            reading: text::owned(reading),
            refused: text::owned(refused),
            parsing: text::owned(parsing),
        };
        assert(r.headers.deep_view() =~= Seq::<(Seq<char>, Seq<char>)>::empty());
        r
    }

    fn request_get(
        &self,
        path: &str,
        version: u64,
        sending: &str,
        reading: &str,
        refused: &str,
        parsing: &str,
    ) -> (r: Request)
        ensures
            r.deep_view() == self.deep_view().get(
                path@,
                version as nat,
                sending@,
                reading@,
                refused@,
                parsing@,
            ),
    {
        let mut r = self.request_raw(Verb::Get, path, sending, reading, refused, parsing);
        add_header(&mut r.headers, accept(version));
        assert(r.headers.deep_view() =~= seq![accept_header(version as nat)]);
        r
    }

    fn request_post(&self, path: &str, version: u64, body: Body, sending: &str, refused: &str) -> (r:
        Request)
        ensures
            r.deep_view() == self.deep_view().post(
                path@,
                version as nat,
                body.deep_view(),
                sending@,
                refused@,
            ),
    {
        let mut r = self.request_raw(Verb::Post, path, sending, "", refused, "");
        add_header(&mut r.headers, accept(version));
        add_header(&mut r.headers, confirm());
        r.body = body;
        proof {
            reveal_strlit("");
            assert(""@ =~= Seq::<char>::empty());
            assert(r.headers.deep_view() =~= seq![
                accept_header(version as nat),
                confirm_header(),
            ]);
        }
        r
    }

    fn changing(&self, req: Request) -> (r: Call)
        ensures
            r.deep_view() == unless_demo(self.deep_view(), req.deep_view()),
    {
        if self.demo {
            Call::Done
        } else {
            Call::Send(req)
        }
    }

    /// Groups, membership, pause state and latest-run status of every pipeline
    /// that the user can see. With the tag of the last answer the server can say
    /// that nothing changed; with a view it answers with that view only.
    pub fn fetch_dashboard(&self, etag: Option<&str>, view: Option<&str>) -> (r: Call)
        ensures
            r.deep_view() == dashboard_call(self.deep_view(), etag.deep_view(), view.deep_view()),
    {
        if self.demo {
            return Call::Canned(demo::dashboard_json(view));
        }
        let mut req = self.request_get(
            "/api/dashboard",
            4,
            "requesting dashboard",
            "reading dashboard response body",
            "for dashboard",
            "parsing dashboard response",
        );
        if let Some(v) = view {
            req.query = Some((text::owned("viewName"), text::owned(v)));
        }
        if let Some(t) = etag {
            let ghost before = req.headers.deep_view();
            add_header(&mut req.headers, (text::owned("If-None-Match"), text::owned(t)));
            assert(req.headers.deep_view() =~= before.push(("If-None-Match"@, t@)));
            assert(req.headers.deep_view() =~= seq![accept_header(4), ("If-None-Match"@, t@)]);
        }
        Call::Send(req)
    }

    /// One page of runs, newest first. `after` is the cursor of the page before;
    /// `now` is the time in epoch millis.
    pub fn fetch_history_page(&self, pipeline_name: &str, after: Option<u64>, now: i64) -> (r: Call)
        ensures
            r.deep_view() == history_call(self.deep_view(), pipeline_name@, after, now as int),
    {
        if self.demo {
            return Call::Canned(demo::history_json(pipeline_name, after, now));
        }
        let p = encode_segment(pipeline_name);
        let tail = match after {
            Some(n) => {
                let d = text::decimal_u(n);
                text::cat2("/history?after=", d.as_str())
            },
            None => text::owned("/history"),
        };
        let path = text::cat3("/api/pipelines/", p.as_str(), tail.as_str());
        let sending = text::cat2("requesting history for ", pipeline_name);
        let refused = text::cat3("for ", pipeline_name, " history");
        let parsing = text::cat2("parsing history response for ", pipeline_name);
        Call::Send(
            self.request_get(
                path.as_str(),
                1,
                sending.as_str(),
                "reading history response body",
                refused.as_str(),
                parsing.as_str(),
            ),
        )
    }

    /// Starts a run.
    pub fn trigger_pipeline(&self, pipeline_name: &str) -> (r: Call)
        ensures
            r.deep_view() == trigger_call(self.deep_view(), pipeline_name@),
    {
        let p = encode_segment(pipeline_name);
        let path = text::cat3("/api/pipelines/", p.as_str(), "/schedule");
        let words = text::cat2("triggering ", pipeline_name);
        let mut req = self.request_post(
            path.as_str(),
            1,
            Body::Text(text::owned("{}")),
            words.as_str(),
            words.as_str(),
        );
        add_header(&mut req.headers, (text::owned("Content-Type"), text::owned("application/json")));
        assert(req.headers.deep_view() =~= seq![accept_header(1), confirm_header(), json_header()]);
        self.changing(req)
    }

    /// Starts a run with environment variables of its own.
    pub fn trigger_pipeline_with_vars(&self, pipeline_name: &str, vars: &Vec<(String, String)>) -> (r:
        Call)
        ensures
            r.deep_view() == trigger_vars_call(self.deep_view(), pipeline_name@, vars.deep_view()),
    {
        let p = encode_segment(pipeline_name);
        let path = text::cat3("/api/pipelines/", p.as_str(), "/schedule");
        let sending = text::cat3("triggering ", pipeline_name, " with variables");
        let refused = text::cat2("triggering ", pipeline_name);
        let req = self.request_post(
            path.as_str(),
            1,
            Body::Variables { vars: vars.dup(), secure: false, update_materials: true },
            sending.as_str(),
            refused.as_str(),
        );
        self.changing(req)
    }

    /// Runs the failed jobs of a completed stage run again.
    pub fn rerun_failed_jobs(
        &self,
        pipeline_name: &str,
        pipeline_counter: i64,
        stage_name: &str,
        stage_counter: &str,
    ) -> (r: Call)
        ensures
            r.deep_view() == rerun_call(
                self.deep_view(),
                pipeline_name@,
                pipeline_counter,
                stage_name@,
                stage_counter@,
                "run-failed-jobs"@,
            ),
    {
        self.rerun(pipeline_name, pipeline_counter, stage_name, stage_counter, "run-failed-jobs")
    }

    /// Runs a whole stage run again, the passed jobs too.
    pub fn rerun_stage(
        &self,
        pipeline_name: &str,
        pipeline_counter: i64,
        stage_name: &str,
        stage_counter: &str,
    ) -> (r: Call)
        ensures
            r.deep_view() == rerun_call(
                self.deep_view(),
                pipeline_name@,
                pipeline_counter,
                stage_name@,
                stage_counter@,
                "run"@,
            ),
    {
        self.rerun(pipeline_name, pipeline_counter, stage_name, stage_counter, "run")
    }

    fn rerun(
        &self,
        pipeline_name: &str,
        pipeline_counter: i64,
        stage_name: &str,
        stage_counter: &str,
        verb: &str,
    ) -> (r: Call)
        ensures
            r.deep_view() == rerun_call(
                self.deep_view(),
                pipeline_name@,
                pipeline_counter,
                stage_name@,
                stage_counter@,
                verb@,
            ),
    {
        let path = stage_url(pipeline_name, pipeline_counter, stage_name, stage_counter, verb);
        let words = stage_text(pipeline_name, pipeline_counter, stage_name, stage_counter);
        let sending = text::cat4("rerunning (", verb, ") ", words.as_str());
        let req = self.request_post(
            path.as_str(),
            3,
            Body::Nothing,
            sending.as_str(),
            "rerunning stage",
        );
        self.changing(req)
    }

    /// Stops scheduling of a pipeline.
    pub fn pause_pipeline(&self, pipeline_name: &str, cause: &str) -> (r: Call)
        ensures
            r.deep_view() == pause_call(self.deep_view(), pipeline_name@, cause@),
    {
        let p = encode_segment(pipeline_name);
        let path = text::cat3("/api/pipelines/", p.as_str(), "/pause");
        let words = text::cat2("pausing ", pipeline_name);
        let req = self.request_post(
            path.as_str(),
            1,
            Body::PauseCause(text::owned(cause)),
            words.as_str(),
            words.as_str(),
        );
        self.changing(req)
    }

    /// Lets a pipeline be scheduled again.
    pub fn unpause_pipeline(&self, pipeline_name: &str) -> (r: Call)
        ensures
            r.deep_view() == unpause_call(self.deep_view(), pipeline_name@),
    {
        let p = encode_segment(pipeline_name);
        let path = text::cat3("/api/pipelines/", p.as_str(), "/unpause");
        let words = text::cat2("unpausing ", pipeline_name);
        let req = self.request_post(
            path.as_str(),
            1,
            Body::Nothing,
            words.as_str(),
            words.as_str(),
        );
        self.changing(req)
    }

    /// Stops a stage run in flight. Later scheduling is not affected.
    pub fn cancel_stage(
        &self,
        pipeline_name: &str,
        pipeline_counter: i64,
        stage_name: &str,
        stage_counter: &str,
    ) -> (r: Call)
        ensures
            r.deep_view() == cancel_call(
                self.deep_view(),
                pipeline_name@,
                pipeline_counter,
                stage_name@,
                stage_counter@,
            ),
    {
        let path = stage_url(pipeline_name, pipeline_counter, stage_name, stage_counter, "cancel");
        let words = stage_text(pipeline_name, pipeline_counter, stage_name, stage_counter);
        let sending = text::cat2("cancelling ", words.as_str());
        let req = self.request_post(
            path.as_str(),
            3,
            Body::Nothing,
            sending.as_str(),
            "cancelling stage",
        );
        self.changing(req)
    }

    /// One run by its counter. The demo answers with a page of history, from
    /// which `pick_instance` takes the run.
    pub fn fetch_pipeline_instance(&self, name: &str, counter: i64, now: i64) -> (r: Call)
        ensures
            r.deep_view() == instance_call(self.deep_view(), name@, counter, now as int),
    {
        if self.demo {
            return Call::Canned(demo::history_json(name, None, now));
        }
        let p = encode_segment(name);
        let c = text::decimal_i(counter);
        let tail = text::cat2("/", c.as_str());
        let path = text::cat3("/api/pipelines/", p.as_str(), tail.as_str());
        let words = text::cat3(name, "/", c.as_str());
        let sending = text::cat4("requesting ", name, " run ", c.as_str());
        let refused = text::cat2("for ", words.as_str());
        let parsing = text::cat2("parsing ", words.as_str());
        Call::Send(
            self.request_get(
                path.as_str(),
                1,
                sending.as_str(),
                "reading instance body",
                refused.as_str(),
                parsing.as_str(),
            ),
        )
    }

    /// The personal views of the user.
    pub fn fetch_views(&self) -> (r: Call)
        ensures
            r.deep_view() == views_call(self.deep_view()),
    {
        if self.demo {
            return Call::Canned(text::owned(demo::views_json()));
        }
        Call::Send(
            self.request_get(
                "/api/internal/pipeline_selection",
                1,
                "requesting personalized views",
                "reading views body",
                "for pipeline_selection",
                "parsing views",
            ),
        )
    }

    /// Puts back all views, `current` as they were just fetched with `name`
    /// created or replaced. With the tag of that fetch an edit made meanwhile
    /// fails loudly instead of being lost.
    pub fn save_view(
        &self,
        name: &str,
        pipelines: Vec<String>,
        current: ViewFilters,
        etag: Option<&str>,
    ) -> (r: Call)
        ensures
            r.deep_view() == save_view_call(
                self.deep_view(),
                name@,
                pipelines.deep_view(),
                current.deep_view().filters,
                etag.deep_view(),
            ),
    {
        let views = upsert_view(current, name, pipelines);
        let mut req = self.request_raw(
            Verb::Put,
            "/api/internal/pipeline_selection",
            "saving view",
            "",
            "saving view",
            "",
        );
        proof {
            reveal_strlit("");
            assert(""@ =~= Seq::<char>::empty());
        }
        add_header(&mut req.headers, accept(1));
        add_header(&mut req.headers, (text::owned("Content-Type"), text::owned("application/json")));
        assert(req.headers.deep_view() =~= seq![accept_header(1), json_header()]);
        req.body = Body::Views(views);
        if let Some(t) = etag {
            add_header(&mut req.headers, (text::owned("If-Match"), text::owned(t)));
            assert(req.headers.deep_view() =~= seq![
                accept_header(1),
                json_header(),
                ("If-Match"@, t@),
            ]);
        }
        self.changing(req)
    }

    /// The artifact tree of one job run, from the file server's listing.
    pub fn fetch_artifacts(
        &self,
        pipeline_name: &str,
        pipeline_counter: i64,
        stage_name: &str,
        stage_counter: &str,
        job_name: &str,
    ) -> (r: Call)
        ensures
            r.deep_view() == artifacts_call(
                self.deep_view(),
                pipeline_name@,
                pipeline_counter,
                stage_name@,
                stage_counter@,
                job_name@,
            ),
    {
        if self.demo {
            return Call::Canned(text::owned(demo::artifacts_json()));
        }
        let path = job_url(
            pipeline_name,
            pipeline_counter,
            stage_name,
            stage_counter,
            job_name,
            ".json",
        );
        Call::Send(
            self.request_raw(
                Verb::Get,
                path.as_str(),
                "requesting artifacts",
                "reading artifacts body",
                "for artifacts",
                "parsing artifacts",
            ),
        )
    }

    /// The console output of one job run, from line `start_line` on, so that
    /// following a log appends to it.
    pub fn fetch_console_log(
        &self,
        pipeline_name: &str,
        pipeline_counter: i64,
        stage_name: &str,
        stage_counter: &str,
        job_name: &str,
        start_line: usize,
    ) -> (r: Call)
        ensures
            r.deep_view() == log_call(
                self.deep_view(),
                pipeline_name@,
                pipeline_counter,
                stage_name@,
                stage_counter@,
                job_name@,
                start_line as nat,
            ),
    {
        if self.demo {
            return Call::Canned(demo::console_log(start_line));
        }
        let tail = if start_line > 0 {
            let d = text::decimal_n(start_line);
            text::cat2("/cruise-output/console.log?startLineNumber=", d.as_str())
        } else {
            text::owned("/cruise-output/console.log")
        };
        let path = job_url(
            pipeline_name,
            pipeline_counter,
            stage_name,
            stage_counter,
            job_name,
            tail.as_str(),
        );
        proof {
            reveal_strlit("");
            assert(""@ =~= Seq::<char>::empty());
        }
        Call::Send(
            self.request_raw(
                Verb::Get,
                path.as_str(),
                "requesting console log",
                "reading console log body",
                "for console log",
                "",
            ),
        )
    }
}

/// The client that the settings describe.
pub open spec fn client_of(cfg: ConfigView) -> GoCdClientView {
    GoCdClientView {
        base_url: text::without_tail(cfg.server_url, '/'),
        username: cfg.username,
        password: cfg.password,
        token: cfg.auth_token,
        demo: false,
    }
}

pub open spec fn dashboard_call(
    c: GoCdClientView,
    etag: Option<Seq<char>>,
    view: Option<Seq<char>>,
) -> CallView {
    if c.demo {
        CallView::Canned(demo::dashboard_text(view))
    } else {
        CallView::Send(
            RequestView {
                headers: match etag {
                    Some(t) => seq![accept_header(4), ("If-None-Match"@, t)],
                    None => seq![accept_header(4)],
                },
                query: match view {
                    Some(v) => Some(("viewName"@, v)),
                    None => None,
                },
                ..c.get(
                    "/api/dashboard"@,
                    4,
                    "requesting dashboard"@,
                    "reading dashboard response body"@,
                    "for dashboard"@,
                    "parsing dashboard response"@,
                )
            },
        )
    }
}

pub open spec fn history_call(
    c: GoCdClientView,
    name: Seq<char>,
    after: Option<u64>,
    now: int,
) -> CallView {
    if c.demo {
        CallView::Canned(demo::history_text(name, after, now))
    } else {
        CallView::Send(
            c.get(
                pipeline_path(
                    name,
                    match after {
                        Some(n) => "/history?after="@ + text::dec(n as nat),
                        None => "/history"@,
                    },
                ),
                1,
                "requesting history for "@ + name,
                "reading history response body"@,
                "for "@ + name + " history"@,
                "parsing history response for "@ + name,
            ),
        )
    }
}

pub open spec fn instance_call(
    c: GoCdClientView,
    name: Seq<char>,
    counter: i64,
    now: int,
) -> CallView {
    if c.demo {
        CallView::Canned(demo::history_text(name, None, now))
    } else {
        let words = name + "/"@ + text::dec_int(counter as int);
        CallView::Send(
            c.get(
                pipeline_path(name, "/"@ + text::dec_int(counter as int)),
                1,
                "requesting "@ + name + " run "@ + text::dec_int(counter as int),
                "reading instance body"@,
                "for "@ + words,
                "parsing "@ + words,
            ),
        )
    }
}

pub open spec fn views_call(c: GoCdClientView) -> CallView {
    if c.demo {
        CallView::Canned(demo::VIEWS@)
    } else {
        CallView::Send(views_request(c))
    }
}

pub open spec fn save_view_call(
    c: GoCdClientView,
    name: Seq<char>,
    pipelines: Seq<Seq<char>>,
    current: Seq<ViewFilterView>,
    etag: Option<Seq<char>>,
) -> CallView {
    unless_demo(
        c,
        RequestView {
            headers: match etag {
                Some(t) => seq![accept_header(1), json_header(), ("If-Match"@, t)],
                None => seq![accept_header(1), json_header()],
            },
            body: BodyView::Views(
                ViewFiltersView {
                    filters: upserted(current, name, pipelines),
                },
            ),
            ..c.raw(
                Verb::Put,
                "/api/internal/pipeline_selection"@,
                "saving view"@,
                Seq::empty(),
                "saving view"@,
                Seq::empty(),
            )
        },
    )
}

pub open spec fn artifacts_call(
    c: GoCdClientView,
    pipeline: Seq<char>,
    counter: i64,
    stage: Seq<char>,
    stage_counter: Seq<char>,
    job: Seq<char>,
) -> CallView {
    if c.demo {
        CallView::Canned(demo::ARTIFACTS@)
    } else {
        CallView::Send(
            c.raw(
                Verb::Get,
                job_path(pipeline, counter, stage, stage_counter, job, ".json"@),
                "requesting artifacts"@,
                "reading artifacts body"@,
                "for artifacts"@,
                "parsing artifacts"@,
            ),
        )
    }
}

pub open spec fn log_call(
    c: GoCdClientView,
    pipeline: Seq<char>,
    counter: i64,
    stage: Seq<char>,
    stage_counter: Seq<char>,
    job: Seq<char>,
    start: nat,
) -> CallView {
    if c.demo {
        CallView::Canned(
            text::joined(
                if start < 46 {
                    demo::log_lines().skip(start as int)
                } else {
                    Seq::empty()
                },
                "\n"@,
            ),
        )
    } else {
        CallView::Send(
            c.raw(
                Verb::Get,
                job_path(
                    pipeline,
                    counter,
                    stage,
                    stage_counter,
                    job,
                    if start > 0 {
                        "/cruise-output/console.log?startLineNumber="@ + text::dec(start)
                    } else {
                        "/cruise-output/console.log"@
                    },
                ),
                "requesting console log"@,
                "reading console log body"@,
                "for console log"@,
                Seq::empty(),
            ),
        )
    }
}

pub open spec fn trigger_call(c: GoCdClientView, name: Seq<char>) -> CallView {
    unless_demo(
        c,
        RequestView {
            headers: seq![accept_header(1), confirm_header(), json_header()],
            ..c.post(
                pipeline_path(name, "/schedule"@),
                1,
                BodyView::Text("{}"@),
                "triggering "@ + name,
                "triggering "@ + name,
            )
        },
    )
}

pub open spec fn trigger_vars_call(
    c: GoCdClientView,
    name: Seq<char>,
    vars: Seq<(Seq<char>, Seq<char>)>,
) -> CallView {
    unless_demo(
        c,
        c.post(
            pipeline_path(name, "/schedule"@),
            1,
            (BodyView::Variables { vars, secure: false, update_materials: true }),
            "triggering "@ + name + " with variables"@,
            "triggering "@ + name,
        ),
    )
}

pub open spec fn pause_call(c: GoCdClientView, name: Seq<char>, cause: Seq<char>) -> CallView {
    unless_demo(
        c,
        c.post(
            pipeline_path(name, "/pause"@),
            1,
            BodyView::PauseCause(cause),
            "pausing "@ + name,
            "pausing "@ + name,
        ),
    )
}

pub open spec fn unpause_call(c: GoCdClientView, name: Seq<char>) -> CallView {
    unless_demo(
        c,
        c.post(
            pipeline_path(name, "/unpause"@),
            1,
            BodyView::Nothing,
            "unpausing "@ + name,
            "unpausing "@ + name,
        ),
    )
}

pub open spec fn cancel_call(
    c: GoCdClientView,
    pipeline: Seq<char>,
    counter: i64,
    stage: Seq<char>,
    stage_counter: Seq<char>,
) -> CallView {
    unless_demo(
        c,
        c.post(
            stage_path(pipeline, counter, stage, stage_counter, "cancel"@),
            3,
            BodyView::Nothing,
            "cancelling "@ + stage_words(pipeline, counter, stage, stage_counter),
            "cancelling stage"@,
        ),
    )
}

pub open spec fn rerun_call(
    c: GoCdClientView,
    pipeline: Seq<char>,
    counter: i64,
    stage: Seq<char>,
    stage_counter: Seq<char>,
    verb: Seq<char>,
) -> CallView {
    unless_demo(
        c,
        c.post(
            stage_path(pipeline, counter, stage, stage_counter, verb),
            3,
            BodyView::Nothing,
            "rerunning ("@ + verb + ") "@ + stage_words(pipeline, counter, stage, stage_counter),
            "rerunning stage"@,
        ),
    )
}

pub open spec fn views_request(c: GoCdClientView) -> RequestView {
    c.get(
        "/api/internal/pipeline_selection"@,
        1,
        "requesting personalized views"@,
        "reading views body"@,
        "for pipeline_selection"@,
        "parsing views"@,
    )
}

// ---- views ---------------------------------------------------------------

/// The first place of a view of that name; the number of views where there is
/// none.
pub open spec fn view_place(views: Seq<ViewFilterView>, name: Seq<char>) -> int
    decreases views.len(),
{
    if views.len() == 0 || views[0].name == name {
        0
    } else {
        1 + view_place(views.skip(1), name)
    }
}

/// The view that shows exactly these pipelines.
pub open spec fn whitelist(name: Seq<char>, pipelines: Seq<Seq<char>>) -> ViewFilterView {
    ViewFilterView { name, kind: "whitelist"@, state: Seq::empty(), pipelines }
}

/// The views with the one of that name replaced, or added at the end.
pub open spec fn upserted(
    views: Seq<ViewFilterView>,
    name: Seq<char>,
    pipelines: Seq<Seq<char>>,
) -> Seq<ViewFilterView> {
    let p = view_place(views, name);
    if p < views.len() {
        views.update(p, whitelist(name, pipelines))
    } else {
        views.push(whitelist(name, pipelines))
    }
}

proof fn lemma_view_place(views: Seq<ViewFilterView>, name: Seq<char>, p: int)
    requires
        0 <= p <= views.len(),
        forall|i: int| 0 <= i < p ==> (#[trigger] views[i]).name != name,
        p < views.len() ==> views[p].name == name,
    ensures
        view_place(views, name) == p,
    decreases p,
{
    if p > 0 {
        let t = views.skip(1);
        assert forall|i: int| 0 <= i < p - 1 implies (#[trigger] t[i]).name != name by {
            assert(t[i] == views[i + 1]);
        }
        assert(views[0].name != name);
        lemma_view_place(t, name, p - 1);
    }
}

pub fn upsert_view(current: ViewFilters, name: &str, pipelines: Vec<String>) -> (r: ViewFilters)
    ensures
        r.deep_view().filters == upserted(current.deep_view().filters, name@, pipelines.deep_view()),
{
    let mut filters = current.filters;
    let ghost all = filters.deep_view();
    let mut i: usize = 0;
    while i < filters.len() && !text::same(filters[i].name.as_str(), name)
        invariant
            all == filters.deep_view(),
            i <= filters@.len(),
            forall|k: int| 0 <= k < i ==> (#[trigger] all[k]).name != name@,
        decreases filters@.len() - i,
    {
        assert(all[i as int] == filters@[i as int].deep_view());
        i = i + 1;
    }
    proof {
        if i < filters@.len() {
            assert(all[i as int] == filters@[i as int].deep_view());
        }
        lemma_view_place(all, name@, i as int);
    }
    let entry = ViewFilter {
        name: text::owned(name),
        kind: text::owned("whitelist"),
        state: Vec::new(),
        pipelines,
    };
    assert(entry.state.deep_view() =~= Seq::<Seq<char>>::empty());
    let ghost ev = entry.deep_view();
    if i < filters.len() {
        filters.set(i, entry);
        assert(filters.deep_view() =~= all.update(i as int, ev));
    } else {
        filters.push(entry);
        assert(filters.deep_view() =~= all.push(ev));
    }
    ViewFilters { filters }
}

/// `s` without the occurrences of `needle`, taken from the left.
pub open spec fn without_all(s: Seq<char>, needle: Seq<char>) -> Seq<char>
    decreases s.len(),
    via without_all_shrinks
{
    match text::first_place(s, needle) {
        Some(i) => if needle.len() > 0 {
            s.take(i) + without_all(s.skip(i + needle.len()), needle)
        } else {
            s
        },
        None => s,
    }
}

#[via_fn]
proof fn without_all_shrinks(s: Seq<char>, needle: Seq<char>) {
    text::lemma_first_place_found(s, needle);
}

fn remove_all(s: &str, needle: &str) -> (r: String)
    ensures
        r@ == without_all(s@, needle@),
    decreases s@.len(),
{
    let n: usize = s.unicode_len();
    let m: usize = needle.unicode_len();
    match text::find(s, needle) {
        Some(i) => if m > 0 {
            let head = s.substring_char(0, i);
            let tail = s.substring_char(i + m, n);
            assert(head@ =~= s@.take(i as int));
            assert(tail@ =~= s@.skip(i + m));
            let rest = remove_all(tail, needle);
            text::cat2(head, rest.as_str())
        } else {
            text::owned(s)
        },
        None => text::owned(s),
    }
}

/// The tag of the views as it has to be sent back: the server's compression
/// leaves a mark in it that it does not take.
pub fn views_etag(raw: &str) -> (r: String)
    ensures
        r@ == without_all(raw@, "--gzip"@),
{
    remove_all(raw, "--gzip")
}

// ---- answers -------------------------------------------------------------

pub open spec fn is_success(status: u16) -> bool {
    200 <= status < 300
}

/// What is said of a refused request.
pub open spec fn refusal(refused: Seq<char>, status_text: Seq<char>, body: Seq<char>) -> Seq<char> {
    "GoCD returned "@ + status_text + " "@ + refused + ": "@ + shortened(body)
}

/// Whether the answer to `req` can be used; where it was refused, why.
pub fn check_reply(req: &Request, status: u16, status_text: &str, body: &str) -> (r: Result<
    (),
    String,
>)
    ensures
        match r {
            Ok(_) => is_success(status),
            Err(e) => !is_success(status) && e@ == refusal(req.refused@, status_text@, body@),
        },
{
    if 200 <= status && status < 300 {
        Ok(())
    } else {
        let b = truncate(body);
        Err(
            text::cat6(
                "GoCD returned ",
                status_text,
                " ",
                req.refused.as_str(),
                ": ",
                b.as_str(),
            ),
        )
    }
}

/// What is said of an answer that does not parse.
pub fn parse_failure(req: &Request, body: &str) -> (r: String)
    ensures
        r@ == req.parsing@ + ": "@ + shortened(body@),
{
    let b = truncate(body);
    text::cat3(req.parsing.as_str(), ": ", b.as_str())
}

/// What is said of a request that could not be sent. A rejected certificate is
/// said with what to do about it.
pub open spec fn send_failure_text(sending: Seq<char>, cause: Seq<char>) -> Seq<char> {
    sending + ": "@ + if text::has(ascii_lowered(cause), "certificate"@) {
        "the server's certificate was rejected. Add the server's CA to your trust store, or set `insecure_skip_verify = true` in config.toml"@
    } else {
        cause
    }
}

pub fn send_failure(req: &Request, cause: &str) -> (r: String)
    ensures
        r@ == send_failure_text(req.sending@, cause@),
{
    let lowered = lower_ascii(cause);
    if text::contains(lowered.as_str(), "certificate") {
        text::cat3(
            req.sending.as_str(),
            ": ",
            "the server's certificate was rejected. Add the server's CA to your trust store, or set `insecure_skip_verify = true` in config.toml",
        )
    } else {
        text::cat3(req.sending.as_str(), ": ", cause)
    }
}

/// How the server answered for the dashboard.
#[derive(Debug, PartialEq, Eq)]
pub enum DashboardAnswer {
    /// Nothing changed since the tagged answer.
    NotModified,
    /// The body holds the dashboard.
    Fresh,
    /// The request was refused, for this reason.
    Refused(String),
}

pub fn dashboard_answer(req: &Request, status: u16, status_text: &str, body: &str) -> (r:
    DashboardAnswer)
    ensures
        r is NotModified <==> status == 304,
        r is Fresh <==> is_success(status),
        match r {
            DashboardAnswer::Refused(e) => e@ == refusal(req.refused@, status_text@, body@),
            _ => true,
        },
{
    if status == 304 {
        return DashboardAnswer::NotModified;
    }
    match check_reply(req, status, status_text, body) {
        Ok(_) => DashboardAnswer::Fresh,
        Err(e) => DashboardAnswer::Refused(e),
    }
}

impl HistoryResponseView {
    pub open spec fn cursor(self) -> Option<nat> {
        match self.links {
            Some(l) => match l.next {
                Some(n) => crate::model::cursor_of(n.href),
                None => None,
            },
            None => None,
        }
    }
}

impl HistoryResponse {
    /// The cursor of the next page, where there is one.
    pub fn next_cursor(&self) -> (r: Option<u64>)
        ensures
            match r {
                Some(n) => self.deep_view().cursor() == Some(n as nat),
                None => self.deep_view().cursor() is None,
            },
    {
        match &self.links {
            Some(l) => match &l.next {
                Some(n) => next_page_cursor(n.href.as_str()),
                None => None,
            },
            None => None,
        }
    }
}

/// The first place of the run with that counter; the number of runs where there
/// is none.
pub open spec fn run_place(runs: Seq<PipelineInstanceView>, counter: i64) -> int
    decreases runs.len(),
{
    if runs.len() == 0 || runs[0].counter == counter {
        0
    } else {
        1 + run_place(runs.skip(1), counter)
    }
}

pub open spec fn picked(all: Seq<PipelineInstanceView>, counter: i64) -> Option<
    PipelineInstanceView,
> {
    let p = run_place(all, counter);
    if p < all.len() {
        Some(all[p])
    } else if all.len() > 0 {
        Some(all[0])
    } else {
        None
    }
}

/// The run with that counter, or the newest one.
pub fn pick_instance(runs: Vec<PipelineInstance>, counter: i64) -> (r: Option<PipelineInstance>)
    ensures
        r.deep_view() == picked(runs.deep_view(), counter),
{
    let mut runs = runs;
    let ghost all = runs.deep_view();
    let mut i: usize = 0;
    assert(all.skip(0) =~= all);
    while i < runs.len() && runs[i].counter != counter
        invariant
            all == runs.deep_view(),
            i <= runs@.len(),
            run_place(all, counter) == i + run_place(all.skip(i as int), counter),
        decreases runs@.len() - i,
    {
        assert(all.skip(i as int)[0] == runs@[i as int].deep_view());
        assert(all.skip(i as int).skip(1) =~= all.skip(i + 1));
        i = i + 1;
    }
    proof {
        if i < runs@.len() {
            assert(all.skip(i as int)[0] == runs@[i as int].deep_view());
        }
    }
    if i < runs.len() {
        let x = runs.swap_remove(i);
        assert(x.deep_view() == all[i as int]);
        Some(x)
    } else if runs.len() > 0 {
        let x = runs.swap_remove(0);
        assert(x.deep_view() == all[0]);
        Some(x)
    } else {
        None
    }
}

// ---- laws ----------------------------------------------------------------

/// A character of an encoded segment: an unreserved one or a percent sign.
pub open spec fn segment_char(c: char) -> bool {
    text::is_alnum(c) || c == '-' || c == '.' || c == '_' || c == '~' || c == '%'
}

/// An encoded name holds nothing that ends a path segment: it stays inside its
/// own.
pub proof fn encoding_stays_in_its_segment(bytes: Seq<u8>)
    ensures
        forall|i: int|
            0 <= i < encoded_bytes(bytes).len() ==> segment_char(#[trigger] encoded_bytes(bytes)[i]),
    decreases bytes.len(),
{
    if bytes.len() > 0 {
        encoding_stays_in_its_segment(bytes.drop_last());
        let e = encoded_byte(bytes.last());
        assert forall|i: int| 0 <= i < e.len() implies segment_char(#[trigger] e[i]) by {}
        let d = encoded_bytes(bytes.drop_last());
        assert forall|i: int| 0 <= i < encoded_bytes(bytes).len() implies segment_char(
            #[trigger] encoded_bytes(bytes)[i],
        ) by {
            if i < d.len() {
                assert(encoded_bytes(bytes)[i] == d[i]);
            } else {
                assert(encoded_bytes(bytes)[i] == e[i - d.len()]);
            }
        }
    }
}

proof fn lemma_encoded_front(bytes: Seq<u8>)
    requires
        bytes.len() > 0,
    ensures
        encoded_bytes(bytes) == encoded_byte(bytes[0]) + encoded_bytes(bytes.skip(1)),
    decreases bytes.len(),
{
    if bytes.len() == 1 {
        assert(bytes.drop_last() =~= Seq::empty());
        assert(bytes.skip(1) =~= Seq::empty());
        assert(encoded_bytes(bytes.drop_last()) =~= Seq::<char>::empty());
        assert(bytes.last() == bytes[0]);
        assert(encoded_bytes(bytes) == encoded_bytes(bytes.drop_last()) + encoded_byte(bytes[0]));
        assert(encoded_bytes(bytes) =~= encoded_byte(bytes[0]));
        assert(encoded_bytes(Seq::empty()) =~= Seq::empty());
        assert(encoded_byte(bytes[0]) + Seq::<char>::empty() =~= encoded_byte(bytes[0]));
    } else {
        let d = bytes.drop_last();
        lemma_encoded_front(d);
        assert(d.skip(1) =~= bytes.skip(1).drop_last());
        assert(encoded_bytes(bytes) =~= encoded_byte(bytes[0]) + encoded_bytes(bytes.skip(1)));
    }
}

/// Different bytes have different encodings.
pub proof fn encoding_of_bytes_is_injective(a: Seq<u8>, b: Seq<u8>)
    requires
        encoded_bytes(a) == encoded_bytes(b),
    ensures
        a == b,
    decreases a.len(),
{
    if a.len() > 0 {
        lemma_encoded_front(a);
    }
    if b.len() > 0 {
        lemma_encoded_front(b);
    }
    if a.len() == 0 || b.len() == 0 {
        if a.len() > 0 {
            assert(encoded_byte(a[0]).len() > 0);
            assert(encoded_bytes(a).len() > 0);
        }
        if b.len() > 0 {
            assert(encoded_byte(b[0]).len() > 0);
            assert(encoded_bytes(b).len() > 0);
        }
        assert(a =~= b);
    } else {
        let ea = encoded_byte(a[0]);
        let eb = encoded_byte(b[0]);
        let ra = encoded_bytes(a.skip(1));
        let rb = encoded_bytes(b.skip(1));
        let e = ea + ra;
        assert(e == eb + rb);
        assert(e[0] == ea[0] && e[0] == eb[0]);
        assert(unreserved(a[0]) == unreserved(b[0]));
        if !unreserved(a[0]) {
            assert(e[1] == ea[1] && e[1] == eb[1]);
            assert(e[2] == ea[2] && e[2] == eb[2]);
            assert(a[0] as int / 16 == b[0] as int / 16);
            assert(a[0] as int % 16 == b[0] as int % 16);
        }
        assert(a[0] == b[0]);
        assert(ra =~= e.skip(ea.len() as int));
        assert(rb =~= e.skip(eb.len() as int));
        encoding_of_bytes_is_injective(a.skip(1), b.skip(1));
        assert(a =~= seq![a[0]] + a.skip(1));
        assert(b =~= seq![b[0]] + b.skip(1));
    }
}

/// Different names have different encodings: a request reaches the pipeline,
/// stage or job that it names and no other.
pub proof fn encoding_is_injective(a: Seq<char>, b: Seq<char>)
    requires
        encoded(a) == encoded(b),
    ensures
        a == b,
{
    encoding_of_bytes_is_injective(encode_utf8(a), encode_utf8(b));
    vstd::utf8::encode_utf8_decode_utf8(a);
    vstd::utf8::encode_utf8_decode_utf8(b);
}

/// What is shown of an error body is short, and never starts with markup.
pub proof fn shown_bodies_are_bounded_and_plain(s: Seq<char>)
    ensures
        shortened(s).len() <= 300,
        shortened(s).len() > 0 ==> shortened(s)[0] != '<',
{
    reveal_strlit("a proxy or gateway answered instead of GoCD");
    assert("a proxy or gateway answered instead of GoCD"@[0] == 'a');
}

/// Saving a view leaves all views of other names as they are, in their places.
pub proof fn saving_a_view_keeps_the_others(
    views: Seq<ViewFilterView>,
    name: Seq<char>,
    pipelines: Seq<Seq<char>>,
    i: int,
)
    requires
        0 <= i < views.len(),
        views[i].name != name,
    ensures
        upserted(views, name, pipelines)[i] == views[i],
{
    lemma_place_found(views, name);
}

/// After saving a view, the first of that name shows exactly its pipelines.
pub proof fn a_saved_view_reads_back(
    views: Seq<ViewFilterView>,
    name: Seq<char>,
    pipelines: Seq<Seq<char>>,
)
    ensures
        view_place(upserted(views, name, pipelines), name) < upserted(views, name, pipelines).len(),
        upserted(views, name, pipelines)[view_place(upserted(views, name, pipelines), name)]
            == whitelist(name, pipelines),
{
    lemma_place_found(views, name);
    let p = view_place(views, name);
    let u = upserted(views, name, pipelines);
    assert forall|i: int| 0 <= i < p implies (#[trigger] u[i]).name != name by {
        assert(u[i] == views[i]);
    }
    lemma_view_place(u, name, p);
}

proof fn lemma_place_found(views: Seq<ViewFilterView>, name: Seq<char>)
    ensures
        0 <= view_place(views, name) <= views.len(),
        forall|i: int| 0 <= i < view_place(views, name) ==> (#[trigger] views[i]).name != name,
        view_place(views, name) < views.len() ==> views[view_place(views, name)].name == name,
    decreases views.len(),
{
    if views.len() > 0 && views[0].name != name {
        let t = views.skip(1);
        lemma_place_found(t, name);
        assert forall|i: int| 0 <= i < view_place(views, name) implies (#[trigger] views[i]).name
            != name by {
            if i > 0 {
                assert(t[i - 1] == views[i]);
            }
        }
    }
}

} // verus!
