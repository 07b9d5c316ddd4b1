use gh_auth::config::Config;
use gh_auth::cookie::create_with_iv;
use gh_auth::handler::{
    after_cookie, after_exchange, after_login, bad_request, forbidden, handle, parse_cookies,
    redirect_to_login, serve_failure, server_error, url_for, HeaderText, Reply, Request, Step,
};
use gh_auth::simple_html::{make_login, make_page};

fn config() -> Config {
    Config {
        github_key: "client-key".to_string(),
        github_secret: "client-secret".to_string(),
        secret: "Test".to_string(),
        allowed_users: vec!["octocat".to_string(), "mona".to_string()],
    }
}

fn request(method: &str, path: &str) -> Request {
    Request {
        method: method.to_string(),
        path: path.to_string(),
        query: None,
        scheme: None,
        host: HeaderText::Text("example.org:8000".to_string()),
        cookie: HeaderText::Absent,
    }
}

fn reply(step: Step) -> Reply {
    match step {
        Step::Respond(r) => r,
        other => panic!("expected a reply, got {:?}", other),
    }
}

fn session_for(login: &str) -> String {
    create_with_iv(&config(), login, &[1u8; 16]).unwrap()
}

fn with_cookie(header: &str) -> Request {
    let mut req = request("GET", "/docs/index.html");
    req.cookie = HeaderText::Text(header.to_string());
    req
}

#[test]
fn login_page_is_served_to_anyone() {
    let r = reply(handle(&config(), &request("GET", "/__gh_auth/login")));
    assert_eq!(r.status, 200);
    assert_eq!(r.content_type.as_deref(), Some("text/html"));
    assert_eq!(r.body, make_login());
    assert_eq!(r.location, None);
}

#[test]
fn begin_redirects_to_github() {
    let r = reply(handle(&config(), &request("GET", "/__gh_auth/begin")));
    assert_eq!(r.status, 307);
    assert_eq!(
        r.location.as_deref(),
        Some("https://github.com/login/oauth/authorize?client_id=client-key&redirect_uri=http%3A%2F%2Fexample.org%3A8000%2F__gh_auth%2Fcallback&allow_signup=false")
    );
    assert_eq!(r.body, "");
}

#[test]
fn begin_without_host_is_given_up() {
    let mut req = request("GET", "/__gh_auth/begin");
    req.host = HeaderText::Absent;
    assert!(matches!(handle(&config(), &req), Step::Abort));
}

#[test]
fn callback_without_query_is_a_bad_request() {
    let r = reply(handle(&config(), &request("GET", "/__gh_auth/callback")));
    assert_eq!(r.status, 400);
    assert_eq!(r.body, make_page("Bad Request", "Invalid authorization code"));
}

#[test]
fn callback_without_code_is_a_bad_request() {
    let mut req = request("GET", "/__gh_auth/callback");
    req.query = Some("state=1&codes=2".to_string());
    let r = reply(handle(&config(), &req));
    assert_eq!(r.status, 400);
}

#[test]
fn callback_exchanges_the_code() {
    let mut req = request("GET", "/__gh_auth/callback");
    req.query = Some("code=abc%2Fd&code=e+f".to_string());
    match handle(&config(), &req) {
        Step::ExchangeCode(code) => assert_eq!(code, "e f"),
        other => panic!("{:?}", other),
    }
}

#[test]
fn other_methods_need_a_session() {
    let r = reply(handle(&config(), &request("POST", "/__gh_auth/login")));
    assert_eq!(r.status, 307);
    assert_eq!(r.location.as_deref(), Some("http://example.org:8000/__gh_auth/login"));
}

#[test]
fn no_cookie_redirects_to_login() {
    let mut req = request("GET", "/file.txt");
    req.scheme = Some("https".to_string());
    let r = reply(handle(&config(), &req));
    assert_eq!(r.status, 307);
    assert_eq!(r.location.as_deref(), Some("https://example.org:8000/__gh_auth/login"));
    assert_eq!(r.set_cookie, None);
}

#[test]
fn no_cookie_and_no_host_is_given_up() {
    let mut req = request("GET", "/file.txt");
    req.host = HeaderText::Absent;
    assert!(matches!(handle(&config(), &req), Step::Abort));
}

#[test]
fn unreadable_cookie_header_is_given_up() {
    let mut req = request("GET", "/file.txt");
    req.cookie = HeaderText::Opaque;
    assert!(matches!(handle(&config(), &req), Step::Abort));
}

#[test]
fn cookie_entry_without_equals_is_given_up() {
    assert!(matches!(handle(&config(), &with_cookie("a=b; flag")), Step::Abort));
}

#[test]
fn other_cookies_redirect_to_login() {
    let r = reply(handle(&config(), &with_cookie("theme=dark; lang=en")));
    assert_eq!(r.location.as_deref(), Some("http://example.org:8000/__gh_auth/login"));
}

#[test]
fn unreadable_session_redirects_to_login() {
    let r = reply(handle(&config(), &with_cookie("__gh_auth_session=garbage")));
    assert_eq!(r.status, 307);
    assert_eq!(r.location.as_deref(), Some("http://example.org:8000/__gh_auth/login"));
}

#[test]
fn session_of_another_shape_redirects_to_login() {
    let mut bytes = vec![1u8; 3];
    bytes.push(0);
    bytes.extend_from_slice(&[2u8; 16]);
    let text = base64::encode_config(&bytes, base64::URL_SAFE_NO_PAD);
    let header = format!("__gh_auth_session={}", text);
    let r = reply(handle(&config(), &with_cookie(&header)));
    assert_eq!(r.location.as_deref(), Some("http://example.org:8000/__gh_auth/login"));
}

#[test]
fn allowed_session_is_served() {
    let header = format!("theme=dark; __gh_auth_session={}", session_for("mona"));
    assert!(matches!(handle(&config(), &with_cookie(&header)), Step::ServeFiles));
}

#[test]
fn last_session_cookie_counts() {
    let header = format!(
        "__gh_auth_session={}; __gh_auth_session={}",
        session_for("mona"),
        session_for("stranger")
    );
    let r = reply(handle(&config(), &with_cookie(&header)));
    assert_eq!(r.status, 307);
}

#[test]
fn session_of_a_user_no_longer_allowed_is_redirected() {
    let header = format!("__gh_auth_session={}", session_for("stranger"));
    let r = reply(handle(&config(), &with_cookie(&header)));
    assert_eq!(r.status, 307);
    assert_eq!(r.location.as_deref(), Some("http://example.org:8000"));
    assert_eq!(
        r.set_cookie.as_deref(),
        Some("__gh_session_id=0; Expires=Thu, 01 Jan 1970 00:00:00 GMT; HttpOnly; Path=/")
    );
}

#[test]
fn failed_exchange_is_a_bad_request() {
    let r = reply(after_exchange(None));
    assert_eq!(r.status, 400);
    assert_eq!(
        r.body,
        make_page("Bad Request", "Invalid response from upstream authentication service")
    );
    match after_exchange(Some("tok".to_string())) {
        Step::FetchLogin(t) => assert_eq!(t, "tok"),
        other => panic!("{:?}", other),
    }
}

#[test]
fn unknown_login_is_a_bad_request() {
    let req = request("GET", "/__gh_auth/callback");
    let r = reply(after_login(&config(), &req, None));
    assert_eq!(r.status, 400);
}

#[test]
fn disallowed_login_is_forbidden() {
    let req = request("GET", "/__gh_auth/callback");
    let r = reply(after_login(&config(), &req, Some("stranger".to_string())));
    assert_eq!(r.status, 403);
    assert_eq!(r.body, make_page("Access Denied", "Access denied."));
    assert_eq!(r.set_cookie, None);
}

#[test]
fn allowed_login_gets_a_session() {
    let req = request("GET", "/__gh_auth/callback");
    let r = reply(after_login(&config(), &req, Some("octocat".to_string())));
    assert_eq!(r.status, 307);
    assert_eq!(r.location.as_deref(), Some("http://example.org:8000"));
    let cookie = r.set_cookie.unwrap();
    assert!(cookie.starts_with("__gh_auth_session="));
    assert!(cookie.ends_with("; HttpOnly; Path=/"));
    let value = &cookie["__gh_auth_session=".len()..cookie.len() - "; HttpOnly; Path=/".len()];
    let header = format!("__gh_auth_session={}", value);
    let mut next = request("GET", "/docs/");
    next.cookie = HeaderText::Text(header);
    assert!(matches!(handle(&config(), &next), Step::ServeFiles));
}

#[test]
fn session_cookie_is_set_as_made() {
    let req = request("GET", "/");
    let r = reply(after_cookie(&req, Some("abc".to_string())));
    assert_eq!(r.set_cookie.as_deref(), Some("__gh_auth_session=abc; HttpOnly; Path=/"));
    let r = reply(after_cookie(&req, None));
    assert_eq!(r.status, 403);
    assert_eq!(r.body, make_page("Error", "Internal error."));
}

#[test]
fn error_pages() {
    assert_eq!(bad_request("m").status, 400);
    assert_eq!(bad_request("m").body, make_page("Bad Request", "m"));
    assert_eq!(forbidden("m").body, make_page("Access Denied", "m"));
    assert_eq!(server_error("m").status, 403);
    assert_eq!(server_error("m").body, make_page("Error", "m"));
    assert_eq!(serve_failure().body, make_page("Error", "An error occurred serving files"));
}

#[test]
fn urls_on_the_request_host() {
    let req = request("GET", "/");
    assert_eq!(url_for(&req, "/x").as_deref(), Some("http://example.org:8000/x"));
    let mut no_host = request("GET", "/");
    no_host.host = HeaderText::Absent;
    assert_eq!(url_for(&no_host, "/x"), None);
    let r = redirect_to_login(&req);
    assert_eq!(r.status, 307);
    assert_eq!(r.location.as_deref(), Some("http://example.org:8000/__gh_auth/login"));
}

#[test]
fn cookie_header_pairs() {
    let pairs = parse_cookies(" a=1 ;b = 2;c=3=4").unwrap();
    assert_eq!(
        pairs,
        vec![
            ("a".to_string(), "1".to_string()),
            ("b ".to_string(), " 2".to_string()),
            ("c".to_string(), "3".to_string()),
        ]
    );
    assert_eq!(parse_cookies("a=1; b"), None);
    assert_eq!(parse_cookies(""), None);
}
