//! The request handler, as a sequence of decisions: each takes what is known
//! of the request and of the outside exchanges so far, and says what to do
//! next. The program around the library performs each step (calls GitHub,
//! serves files, sends the reply) and hands back what it found.

use vstd::prelude::*;
use crate::config::Config;
use crate::cookie::{cookie_value, create, decode_checked, made_cookie, oversized_cookie, reads_back};
use vstd::utf8::encode_utf8;
use crate::simple_html::{make_login, make_page, page_text, LOGIN_PAGE};
use crate::text::{
    ascii_alphanumeric, chars_of, contains_text, join, lemma_join_first_two, lemma_last_value_absent,
    lemma_last_value_at, lemma_split_join, lemma_trim_form, trimmed_from, percent_byte, last_value, lookup_last, opt_view, pair_views, same_text, split,
    split_chars, string_of, string_views, trim, trim_chars, views,
};

verus! {

broadcast use vstd::string::group_string_axioms;

/// The query pairs of `url` (`url::Url::parse`, then `query_pairs`),
/// percent-decoded and in order; `None` where the URL does not parse.
pub uninterp spec fn url_query_pairs(url: Seq<char>) -> Option<Seq<(Seq<char>, Seq<char>)>>;

/// Bytes percent-encoded: letters, digits and `- . _ ~` unchanged, any
/// other byte as `%` and two upper-case hex digits.
pub open spec fn percent_encoded(b: Seq<u8>) -> Seq<char>
    decreases b.len(),
{
    if b.len() == 0 {
        Seq::empty()
    } else {
        (if ascii_alphanumeric(b[0]) || b[0] == 45 || b[0] == 46 || b[0] == 95 || b[0] == 126 {
            seq![b[0] as char]
        } else {
            percent_byte(b[0])
        }) + percent_encoded(b.drop_first())
    }
}

/// `urlencoding::encode`: the UTF-8 bytes of `text`, percent-encoded.
pub open spec fn url_encoding(text: Seq<char>) -> Seq<char> {
    percent_encoded(encode_utf8(text))
}

/// `url::Url::parse(url)`, then `query_pairs`, each pair turned into owned
/// strings.
#[verifier::external_body]
fn query_pairs_of(url: &str) -> (pairs: Option<Vec<(String, String)>>)
    ensures
        match pairs {
            Some(p) => url_query_pairs(url@) == Some(pair_views(p@)),
            None => url_query_pairs(url@) is None,
        },
{
    match url::Url::parse(url) {
        Err(_) => None,
        Ok(u) => Some(u.query_pairs().map(|(k, v)| (k.into_owned(), v.into_owned())).collect()),
    }
}

/// `urlencoding::encode(text)`, as an owned string: [`url_encoding`].
#[verifier::external_body]
fn url_encode(text: &str) -> (encoded: String)
    ensures
        encoded@ == url_encoding(text@),
{
    urlencoding::encode(text).into_owned()
}

/// A request header as the handler reads it.
#[derive(Debug, Clone)]
pub enum HeaderText {
    /// The request has no such header.
    Absent,
    /// The header's value is not visible ASCII, so it cannot be read as text.
    Opaque,
    /// The header's value.
    Text(String),
}

/// What the handler reads of a request.
#[derive(Debug, Clone)]
pub struct Request {
    pub method: String,
    pub path: String,
    pub query: Option<String>,
    pub scheme: Option<String>,
    pub host: HeaderText,
    pub cookie: HeaderText,
}

/// A reply: a status, the optional `Content-Type`, `Set-Cookie` and
/// `Location` headers, and a body.
#[derive(Debug, Clone)]
pub struct Reply {
    pub status: u16,
    pub content_type: Option<String>,
    pub set_cookie: Option<String>,
    pub location: Option<String>,
    pub body: String,
}

/// What to do next with a request.
#[derive(Debug)]
pub enum Step {
    /// Send this reply.
    Respond(Reply),
    /// Exchange this authorization code for an access token, then go on with
    /// [`after_exchange`].
    ExchangeCode(String),
    /// Ask GitHub whose this access token is, then go on with [`after_login`].
    FetchLogin(String),
    /// Serve the requested file from the root directory; on failure reply
    /// with [`serve_failure`].
    ServeFiles,
    /// Give the request up without a reply, by panicking: something the
    /// handler needs is missing or unreadable (the host to redirect to, the
    /// `Cookie` header, an entry of it, the callback URL), or a length passes
    /// what the cipher takes (a session cookie's ciphertext, or a login, longer
    /// than `i32::MAX` bytes).
    Abort,
}

/// A reply as plain values.
#[verifier::ext_equal]
pub struct ReplyModel {
    pub status: u16,
    pub content_type: Option<Seq<char>>,
    pub set_cookie: Option<Seq<char>>,
    pub location: Option<Seq<char>>,
    pub body: Seq<char>,
}

/// A step as plain values.
#[verifier::ext_equal]
pub enum StepModel {
    Respond(ReplyModel),
    ExchangeCode(Seq<char>),
    FetchLogin(Seq<char>),
    ServeFiles,
    Abort,
}

impl View for Reply {
    type V = ReplyModel;

    open spec fn view(&self) -> ReplyModel {
        ReplyModel {
            status: self.status,
            content_type: opt_view(self.content_type),
            set_cookie: opt_view(self.set_cookie),
            location: opt_view(self.location),
            body: self.body@,
        }
    }
}

impl View for Step {
    type V = StepModel;

    open spec fn view(&self) -> StepModel {
        match self {
            Step::Respond(r) => StepModel::Respond(r@),
            Step::ExchangeCode(c) => StepModel::ExchangeCode(c@),
            Step::FetchLogin(t) => StepModel::FetchLogin(t@),
            Step::ServeFiles => StepModel::ServeFiles,
            Step::Abort => StepModel::Abort,
        }
    }
}

/// The path of the login page.
pub open spec fn login_path() -> Seq<char> {
    "/__gh_auth/login"@
}

/// The cookie that holds the session.
pub open spec fn session_cookie_name() -> Seq<char> {
    "__gh_auth_session"@
}

/// The `Set-Cookie` value sent to a signed-in user who may not use the
/// service. It names another cookie than the session's, so it leaves the
/// session cookie in place.
pub open spec fn expired_cookie() -> Seq<char> {
    "__gh_session_id=0; Expires=Thu, 01 Jan 1970 00:00:00 GMT; HttpOnly; Path=/"@
}

/// The message of a failed upstream exchange.
pub open spec fn upstream_failure() -> Seq<char> {
    "Invalid response from upstream authentication service"@
}

/// The URL of `path` on the host that the request names, with the request's
/// scheme (`http` where it has none); `None` without a readable host.
pub open spec fn location_for(req: Request, path: Seq<char>) -> Option<Seq<char>> {
    match req.host {
        HeaderText::Text(h) => Some(
            match req.scheme {
                Some(s) => s@,
                None => "http"@,
            } + "://"@ + h@ + path,
        ),
        _ => None,
    }
}

/// A page reply.
pub open spec fn page_reply(status: u16, title: Seq<char>, message: Seq<char>) -> ReplyModel {
    ReplyModel {
        status,
        content_type: Some("text/html"@),
        set_cookie: None,
        location: None,
        body: page_text(title, message),
    }
}

/// A temporary redirect to `location`, setting `set_cookie` where given.
pub open spec fn redirect_reply(location: Seq<char>, set_cookie: Option<Seq<char>>) -> ReplyModel {
    ReplyModel {
        status: 307,
        content_type: None,
        set_cookie,
        location: Some(location),
        body: Seq::empty(),
    }
}

/// Redirect to `path` on the request's host; give up without a readable host.
pub open spec fn redirect_step(req: Request, path: Seq<char>, set_cookie: Option<Seq<char>>) -> StepModel {
    match location_for(req, path) {
        Some(l) => StepModel::Respond(redirect_reply(l, set_cookie)),
        None => StepModel::Abort,
    }
}

/// The page that starts the sign-in: GitHub's authorization page for the
/// application, which sends the user back to `callback`.
pub open spec fn authorize_url(client_id: Seq<char>, callback: Seq<char>) -> Seq<char> {
    "https://github.com/login/oauth/authorize?client_id="@ + client_id + "&redirect_uri="@
        + url_encoding(callback) + "&allow_signup=false"@
}

/// The entries of a `Cookie` header: its pieces between `;`, trimmed.
pub open spec fn cookie_entries(header: Seq<char>) -> Seq<Seq<char>> {
    split(header, ';').map_values(|c: Seq<char>| trim(c))
}

/// Every entry of a `Cookie` header holds an `=`.
pub open spec fn cookie_header_ok(header: Seq<char>) -> bool {
    forall|i: int|
        0 <= i < cookie_entries(header).len() ==> #[trigger] split(cookie_entries(header)[i], '=').len()
            >= 2
}

/// The name-value pairs of a `Cookie` header: of each entry, the text before
/// its first `=` and the text between its first and second `=`.
pub open spec fn cookie_pairs(header: Seq<char>) -> Seq<(Seq<char>, Seq<char>)> {
    cookie_entries(header).map_values(|c: Seq<char>| (split(c, '=')[0], split(c, '=')[1]))
}

/// What to do with a request that is not one of the sign-in pages: serve it
/// to a user whose session cookie names an allowed login, and otherwise send
/// the user to sign in.
pub open spec fn session_step(cfg: Config, req: Request) -> StepModel {
    match req.cookie {
        HeaderText::Absent => redirect_step(req, login_path(), None),
        HeaderText::Opaque => StepModel::Abort,
        HeaderText::Text(h) => if !cookie_header_ok(h@) {
            StepModel::Abort
        } else {
            match last_value(cookie_pairs(h@), session_cookie_name()) {
                None => redirect_step(req, login_path(), None),
                Some(v) => if oversized_cookie(v) {
                    StepModel::Abort
                } else {
                    match cookie_value(cfg.secret@, v) {
                        None => redirect_step(req, login_path(), None),
                        Some(name) => if string_views(cfg.allowed_users@).contains(name) {
                            StepModel::ServeFiles
                        } else {
                            redirect_step(req, Seq::empty(), Some(expired_cookie()))
                        },
                    }
                },
            }
        },
    }
}

/// What to do first with a request.
pub open spec fn handle_step(cfg: Config, req: Request) -> StepModel {
    let get = req.method@ == "GET"@;
    if get && req.path@ == login_path() {
        StepModel::Respond(
            ReplyModel {
                status: 200,
                content_type: Some("text/html"@),
                set_cookie: None,
                location: None,
                body: LOGIN_PAGE@,
            },
        )
    } else if get && req.path@ == "/__gh_auth/begin"@ {
        match location_for(req, "/__gh_auth/callback"@) {
            None => StepModel::Abort,
            Some(u) => StepModel::Respond(
                redirect_reply(authorize_url(cfg.github_key@, u), None),
            ),
        }
    } else if get && req.path@ == "/__gh_auth/callback"@ {
        match req.query {
            None => StepModel::Respond(
                page_reply(400, "Bad Request"@, "Invalid authorization code"@),
            ),
            Some(q) => match url_query_pairs("https://example.com/?"@ + q@) {
                None => StepModel::Abort,
                Some(pairs) => match last_value(pairs, "code"@) {
                    None => StepModel::Respond(
                        page_reply(400, "Bad Request"@, "Invalid authorization code"@),
                    ),
                    Some(code) => StepModel::ExchangeCode(code),
                },
            },
        }
    } else {
        session_step(cfg, req)
    }
}

/// What to do once a session cookie was made, or failed to be: set it and
/// send the user to the root of the site.
pub open spec fn cookie_step(req: Request, cookie: Option<Seq<char>>) -> StepModel {
    match cookie {
        None => StepModel::Respond(page_reply(403, "Error"@, "Internal error."@)),
        Some(c) => redirect_step(
            req,
            Seq::empty(),
            Some("__gh_auth_session="@ + c + "; HttpOnly; Path=/"@),
        ),
    }
}

/// The URL of `path` on the host the request names (see [`location_for`]).
pub fn url_for(req: &Request, path: &str) -> (url: Option<String>)
    requires
        !(req.host is Opaque),
    ensures
        opt_view(url) == location_for(*req, path@),
{
    match &req.host {
        HeaderText::Text(h) => {
            let scheme = match &req.scheme {
                Some(s) => s.clone(),
                None => String::from_str("http"),
            };
            Some(scheme.concat("://").concat(h.as_str()).concat(path))
        },
        _ => None,
    }
}

fn page(status: u16, title: &str, message: &str) -> (r: Reply)
    ensures
        r@ == page_reply(status, title@, message@),
{
    Reply {
        status,
        content_type: Some(String::from_str("text/html")),
        set_cookie: None,
        location: None,
        body: make_page(title, message),
    }
}

/// A "Bad Request" page, status 400.
pub fn bad_request(message: &str) -> (r: Reply)
    ensures
        r@ == page_reply(400, "Bad Request"@, message@),
{
    page(400, "Bad Request", message)
}

/// An "Access Denied" page, status 403.
pub fn forbidden(message: &str) -> (r: Reply)
    ensures
        r@ == page_reply(403, "Access Denied"@, message@),
{
    page(403, "Access Denied", message)
}

/// An "Error" page, with status 403 as well.
pub fn server_error(message: &str) -> (r: Reply)
    ensures
        r@ == page_reply(403, "Error"@, message@),
{
    page(403, "Error", message)
}

/// The reply when serving a file failed.
pub fn serve_failure() -> (r: Reply)
    ensures
        r@ == page_reply(403, "Error"@, "An error occurred serving files"@),
{
    server_error("An error occurred serving files")
}

/// A redirect to the login page on the request's host.
pub fn redirect_to_login(req: &Request) -> (r: Reply)
    requires
        req.host is Text,
    ensures
        r@ == redirect_reply(location_for(*req, login_path()).unwrap(), None),
{
    let location = url_for(req, "/__gh_auth/login");
    Reply {
        status: 307,
        content_type: None,
        set_cookie: None,
        location,
        body: String::new(),
    }
}

fn redirect(req: &Request, path: &str, set_cookie: Option<String>) -> (step: Step)
    ensures
        step@ == redirect_step(*req, path@, opt_view(set_cookie)),
{
    match &req.host {
        HeaderText::Text(_) => {
            let location = url_for(req, path);
            Step::Respond(Reply { status: 307, content_type: None, set_cookie, location, body: String::new() })
        },
        _ => Step::Abort,
    }
}

/// The entries of a `Cookie` header, as pairs; `None` where an entry holds no
/// `=` (see [`cookie_pairs`]).
pub fn parse_cookies(header: &str) -> (pairs: Option<Vec<(String, String)>>)
    ensures
        match pairs {
            Some(p) => cookie_header_ok(header@) && pair_views(p@) == cookie_pairs(header@),
            None => !cookie_header_ok(header@),
        },
{
    let cs = chars_of(header);
    let pieces = split_chars(cs.as_slice(), ';');
    let ghost entries = cookie_entries(header@);
    let mut pairs: Vec<(String, String)> = Vec::new();
    for i in 0..pieces.len()
        invariant
            views(pieces@) == split(header@, ';'),
            entries == cookie_entries(header@),
            entries.len() == pieces@.len(),
            forall|k: int| 0 <= k < i ==> #[trigger] split(entries[k], '=').len() >= 2,
            pair_views(pairs@) == cookie_pairs(header@).take(i as int),
    {
        let entry = trim_chars(pieces[i].as_slice());
        assert(pieces@[i as int]@ == views(pieces@)[i as int]);
        assert(entry@ == entries[i as int]);
        let vals = split_chars(entry.as_slice(), '=');
        if vals.len() < 2 {
            assert(split(entries[i as int], '=').len() < 2);
            return None;
        }
        let ghost before = pairs@;
        assert(vals@[0]@ == views(vals@)[0]);
        assert(vals@[1]@ == views(vals@)[1]);
        pairs.push((string_of(vals[0].as_slice()), string_of(vals[1].as_slice())));
        assert(cookie_pairs(header@)[i as int] == (views(vals@)[0], views(vals@)[1]));
        assert(pair_views(pairs@) =~= pair_views(before).push((vals@[0]@, vals@[1]@)));
        assert(pair_views(pairs@) =~= cookie_pairs(header@).take(i + 1));
    }
    assert(cookie_pairs(header@).take(pieces@.len() as int) =~= cookie_pairs(header@));
    Some(pairs)
}

/// What to do with a request that is not one of the sign-in pages.
fn serve_or_sign_in(cfg: &Config, req: &Request) -> (step: Step)
    ensures
        step@ == session_step(*cfg, *req),
{
    let header = match &req.cookie {
        HeaderText::Absent => return redirect(req, "/__gh_auth/login", None),
        HeaderText::Opaque => return Step::Abort,
        HeaderText::Text(h) => h,
    };
    let cookies = match parse_cookies(header.as_str()) {
        None => return Step::Abort,
        Some(c) => c,
    };
    let session = match lookup_last(&cookies, "__gh_auth_session") {
        None => return redirect(req, "/__gh_auth/login", None),
        Some(v) => v,
    };
    let name = match decode_checked(cfg, session) {
        None => return Step::Abort,
        Some(None) => return redirect(req, "/__gh_auth/login", None),
        Some(Some(n)) => n,
    };
    if !contains_text(&cfg.allowed_users, name.as_str()) {
        proof {
            reveal_strlit("");
        }
        return redirect(
            req,
            "",
            Some(
                String::from_str(
                    "__gh_session_id=0; Expires=Thu, 01 Jan 1970 00:00:00 GMT; HttpOnly; Path=/",
                ),
            ),
        );
    }
    Step::ServeFiles
}

/// Decides what to do first with a request.
pub fn handle(cfg: &Config, req: &Request) -> (step: Step)
    ensures
        step@ == handle_step(*cfg, *req),
{
    let get = same_text(req.method.as_str(), "GET");
    if get && same_text(req.path.as_str(), "/__gh_auth/login") {
        return Step::Respond(
            Reply {
                status: 200,
                content_type: Some(String::from_str("text/html")),
                set_cookie: None,
                location: None,
                body: make_login(),
            },
        );
    }
    if get && same_text(req.path.as_str(), "/__gh_auth/begin") {
        let callback = match &req.host {
            HeaderText::Text(_) => url_for(req, "/__gh_auth/callback").unwrap(),
            _ => return Step::Abort,
        };
        let url = String::from_str("https://github.com/login/oauth/authorize?client_id=").concat(
            cfg.github_key.as_str(),
        ).concat("&redirect_uri=").concat(url_encode(callback.as_str()).as_str()).concat(
            "&allow_signup=false",
        );
        return Step::Respond(
            Reply { status: 307, content_type: None, set_cookie: None, location: Some(url), body: String::new() },
        );
    }
    if get && same_text(req.path.as_str(), "/__gh_auth/callback") {
        let query = match &req.query {
            None => return Step::Respond(bad_request("Invalid authorization code")),
            Some(q) => q,
        };
        let url = String::from_str("https://example.com/?").concat(query.as_str());
        let pairs = match query_pairs_of(url.as_str()) {
            None => return Step::Abort,
            Some(p) => p,
        };
        return match lookup_last(&pairs, "code") {
            None => Step::Respond(bad_request("Invalid authorization code")),
            Some(code) => Step::ExchangeCode(code),
        };
    }
    serve_or_sign_in(cfg, req)
}

/// Decides what to do once the authorization code was exchanged: ask whose
/// the token is, or report the failed exchange.
pub fn after_exchange(token: Option<String>) -> (step: Step)
    ensures
        step@ == match token {
            Some(t) => StepModel::FetchLogin(t@),
            None => StepModel::Respond(page_reply(400, "Bad Request"@, upstream_failure())),
        },
{
    match token {
        None => Step::Respond(bad_request("Invalid response from upstream authentication service")),
        Some(t) => Step::FetchLogin(t),
    }
}

/// Decides what to do once a session cookie was made for a login, or failed
/// to be (see [`cookie_step`]).
pub fn after_cookie(req: &Request, cookie: Option<String>) -> (step: Step)
    ensures
        step@ == cookie_step(*req, opt_view(cookie)),
{
    match cookie {
        None => Step::Respond(server_error("Internal error.")),
        Some(c) => {
            proof {
                reveal_strlit("");
            }
            let value = String::from_str("__gh_auth_session=").concat(c.as_str()).concat(
                "; HttpOnly; Path=/",
            );
            redirect(req, "", Some(value))
        },
    }
}

/// Decides what to do once GitHub said whose the token is: refuse a login
/// that is not allowed, and otherwise give the user a session cookie for it,
/// made with a fresh random initialisation vector, that reads back as the
/// login. A login too long to encrypt gives the request up.
pub fn after_login(cfg: &Config, req: &Request, login: Option<String>) -> (step: Step)
    ensures
        match login {
            None => step@ == StepModel::Respond(page_reply(400, "Bad Request"@, upstream_failure())),
            Some(l) => if !string_views(cfg.allowed_users@).contains(l@) {
                step@ == StepModel::Respond(page_reply(403, "Access Denied"@, "Access denied."@))
            } else if encode_utf8(l@).len() > i32::MAX {
                step@ == StepModel::Abort
            } else {
                exists|c: Option<Seq<char>>|
                    {
                        &&& #[trigger] cookie_step(*req, c) == step@
                        &&& c matches Some(t) ==> made_cookie(cfg.secret@, l@, t) && reads_back(
                            cfg.secret@,
                            l@,
                            t,
                        )
                    }
            },
        },
{
    let login = match login {
        None => return Step::Respond(bad_request("Invalid response from upstream authentication service")),
        Some(l) => l,
    };
    if !contains_text(&cfg.allowed_users, login.as_str()) {
        return Step::Respond(forbidden("Access denied."));
    }
    if login.as_str().as_bytes().len() > 2147483647 {
        return Step::Abort;
    }
    let cookie = create(cfg, login);
    let step = after_cookie(req, cookie);
    assert(cookie_step(*req, opt_view(cookie)) == step@);
    step
}

/// Files are served only to a request whose last session cookie reads, under
/// the configured secret, as a login on the allowed list.
pub proof fn lemma_files_only_for_allowed_users(cfg: Config, req: Request)
    requires
        handle_step(cfg, req) == StepModel::ServeFiles,
    ensures
        req.cookie is Text,
        ({
            let h = req.cookie->Text_0;
            &&& last_value(cookie_pairs(h@), session_cookie_name()) is Some
            &&& cookie_value(cfg.secret@, last_value(cookie_pairs(h@), session_cookie_name())->Some_0)
                matches Some(name)
            &&& string_views(cfg.allowed_users@).contains(name)
        }),
{
}

/// A request that is not a GET of one of the three sign-in pages is served,
/// or sent to the login page (possibly after being told its session is over),
/// or given up; it never reaches GitHub.
pub proof fn lemma_other_requests_never_reach_github(cfg: Config, req: Request)
    requires
        !(req.method@ == "GET"@ && (req.path@ == login_path() || req.path@ == "/__gh_auth/begin"@
            || req.path@ == "/__gh_auth/callback"@)),
    ensures
        !(handle_step(cfg, req) is ExchangeCode),
        !(handle_step(cfg, req) is FetchLogin),
        handle_step(cfg, req) matches StepModel::Respond(r) ==> r.status == 307,
{
}

/// A request that is not a GET of a sign-in page is served when its `Cookie`
/// header is well formed and has an entry named `__gh_auth_session`, at any
/// position, whose value (the last one, if the name comes more than once)
/// reads under the configured secret as an allowed login.
pub proof fn lemma_session_anywhere_is_served(cfg: Config, req: Request, header: String, i: int)
    requires
        !(req.method@ == "GET"@ && (req.path@ == "/__gh_auth/login"@ || req.path@
            == "/__gh_auth/begin"@ || req.path@ == "/__gh_auth/callback"@)),
        req.cookie == HeaderText::Text(header),
        cookie_header_ok(header@),
        0 <= i < cookie_pairs(header@).len(),
        cookie_pairs(header@)[i].0 == "__gh_auth_session"@,
        forall|j: int|
            i < j < cookie_pairs(header@).len() ==> (#[trigger] cookie_pairs(header@)[j]).0
                != "__gh_auth_session"@,
        !oversized_cookie(cookie_pairs(header@)[i].1),
        cookie_value(cfg.secret@, cookie_pairs(header@)[i].1) matches Some(name)
            && string_views(cfg.allowed_users@).contains(name),
    ensures
        handle_step(cfg, req) == StepModel::ServeFiles,
{
    lemma_last_value_at(cookie_pairs(header@), "__gh_auth_session"@, i);
}

/// The same request is sent to the login page when no entry of its
/// well-formed `Cookie` header is named `__gh_auth_session`.
pub proof fn lemma_no_session_goes_to_login(cfg: Config, req: Request, header: String)
    requires
        !(req.method@ == "GET"@ && (req.path@ == "/__gh_auth/login"@ || req.path@
            == "/__gh_auth/begin"@ || req.path@ == "/__gh_auth/callback"@)),
        req.cookie == HeaderText::Text(header),
        cookie_header_ok(header@),
        forall|j: int|
            0 <= j < cookie_pairs(header@).len() ==> (#[trigger] cookie_pairs(header@)[j]).0
                != "__gh_auth_session"@,
    ensures
        handle_step(cfg, req) == redirect_step(req, "/__gh_auth/login"@, None),
{
    lemma_last_value_absent(cookie_pairs(header@), "__gh_auth_session"@);
}

/// The callback exchanges the value of the query's `code` parameter,
/// wherever it stands among the other parameters (the last one, if `code`
/// comes more than once).
pub proof fn lemma_callback_exchanges_the_code(
    cfg: Config,
    req: Request,
    query: String,
    pairs: Seq<(Seq<char>, Seq<char>)>,
    i: int,
)
    requires
        req.method@ == "GET"@,
        req.path@ == "/__gh_auth/callback"@,
        req.query == Some(query),
        url_query_pairs("https://example.com/?"@ + query@) == Some(pairs),
        0 <= i < pairs.len(),
        pairs[i].0 == "code"@,
        forall|j: int| i < j < pairs.len() ==> (#[trigger] pairs[j]).0 != "code"@,
    ensures
        handle_step(cfg, req) == StepModel::ExchangeCode(pairs[i].1),
{
    reveal_strlit("/__gh_auth/login");
    reveal_strlit("/__gh_auth/begin");
    reveal_strlit("/__gh_auth/callback");
    assert("/__gh_auth/callback"@[11] != "/__gh_auth/login"@[11]);
    assert("/__gh_auth/callback"@[11] != "/__gh_auth/begin"@[11]);
    lemma_last_value_at(pairs, "code"@, i);
}

/// A callback whose query has no `code` parameter is a bad request.
pub proof fn lemma_callback_without_code(
    cfg: Config,
    req: Request,
    query: String,
    pairs: Seq<(Seq<char>, Seq<char>)>,
)
    requires
        req.method@ == "GET"@,
        req.path@ == "/__gh_auth/callback"@,
        req.query == Some(query),
        url_query_pairs("https://example.com/?"@ + query@) == Some(pairs),
        forall|j: int| 0 <= j < pairs.len() ==> (#[trigger] pairs[j]).0 != "code"@,
    ensures
        handle_step(cfg, req) == StepModel::Respond(
            page_reply(400, "Bad Request"@, "Invalid authorization code"@),
        ),
{
    reveal_strlit("/__gh_auth/login");
    reveal_strlit("/__gh_auth/begin");
    reveal_strlit("/__gh_auth/callback");
    assert("/__gh_auth/callback"@[11] != "/__gh_auth/login"@[11]);
    assert("/__gh_auth/callback"@[11] != "/__gh_auth/begin"@[11]);
    lemma_last_value_absent(pairs, "code"@);
}

/// `pair` is what a `Cookie` header entry `piece` gives: the entry trimmed is
/// the name, `=`, the value, and then nothing or more text after another `=`;
/// neither name nor value holds an `=`.
pub open spec fn entry_gives(piece: Seq<char>, pair: (Seq<char>, Seq<char>)) -> bool {
    exists|entry: Seq<char>, rest: Seq<char>|
        #![trigger trimmed_from(piece, entry), entry_splits(entry, pair.0, pair.1, rest)]
        trimmed_from(piece, entry) && entry_splits(entry, pair.0, pair.1, rest)
}

/// `entry` is `name`, `=`, `value`, then `rest`, which is empty or starts
/// with `=`; neither name nor value holds an `=`.
pub open spec fn entry_splits(entry: Seq<char>, name: Seq<char>, value: Seq<char>, rest: Seq<char>) -> bool {
    &&& entry == name + seq!['='] + value + rest
    &&& !name.contains('=')
    &&& !value.contains('=')
    &&& rest.len() == 0 || rest[0] == '='
}

/// The pairs of a well-formed `Cookie` header are its entries between `;`,
/// all of them and in order, each read as its trimmed `name=value`.
pub proof fn lemma_cookie_pairs_form(header: Seq<char>)
    requires
        cookie_header_ok(header),
    ensures
        exists|pieces: Seq<Seq<char>>|
            {
                &&& join(pieces, ';') == header
                &&& forall|i: int| 0 <= i < pieces.len() ==> !(#[trigger] pieces[i]).contains(';')
                &&& cookie_pairs(header).len() == pieces.len()
                &&& forall|i: int|
                    0 <= i < pieces.len() ==> entry_gives(pieces[i], #[trigger] cookie_pairs(header)[i])
            },
{
    let pieces = split(header, ';');
    lemma_split_join(header, ';');
    assert forall|i: int| 0 <= i < pieces.len() implies entry_gives(
        pieces[i],
        #[trigger] cookie_pairs(header)[i],
    ) by {
        let entry = trim(pieces[i]);
        assert(entry == cookie_entries(header)[i]);
        lemma_trim_form(pieces[i]);
        let vals = split(entry, '=');
        assert(vals.len() >= 2);
        lemma_split_join(entry, '=');
        lemma_join_first_two(vals, '=');
        let rest = choose|rest: Seq<char>|
            join(vals, '=') == vals[0] + seq!['='] + vals[1] + rest && (rest.len() == 0 || rest[0]
                == '=');
        assert(cookie_pairs(header)[i] == (vals[0], vals[1]));
        assert(!vals[0].contains('='));
        assert(!vals[1].contains('='));
        assert(trimmed_from(pieces[i], entry));
        assert(entry_splits(entry, vals[0], vals[1], rest));
        assert(entry_splits(entry, cookie_pairs(header)[i].0, cookie_pairs(header)[i].1, rest));
    }
}

} // verus!
