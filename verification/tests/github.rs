use gh_auth::config::Config;
use gh_auth::github::{
    access_token_from_reply, authorization_value, login_from_reply, token_request_body, LoginReply,
};

fn config() -> Config {
    Config {
        github_key: "the key".to_string(),
        github_secret: "s&cret".to_string(),
        secret: "x".to_string(),
        allowed_users: vec![],
    }
}

#[test]
fn token_request_body_is_form_encoded() {
    assert_eq!(
        token_request_body(&config(), "a=b"),
        "client_id=the+key&client_secret=s%26cret&code=a%3Db"
    );
}

#[test]
fn access_token_is_read_from_the_reply() {
    assert_eq!(
        access_token_from_reply(b"access_token=SECRET-REDACTED&scope=repo%2Cgist&token_type=bearer"),
        Some("SECRET-REDACTED".to_string())
    );
    assert_eq!(access_token_from_reply(b"access_token=a&access_token=b%20c"), Some("b c".to_string()));
    assert_eq!(access_token_from_reply(b"error=bad_verification_code"), None);
    assert_eq!(access_token_from_reply(b""), None);
}

#[test]
fn authorization_presents_the_token() {
    assert_eq!(authorization_value("abc"), "token abc");
}

#[test]
fn login_is_read_from_the_user_description() {
    assert_eq!(
        login_from_reply(br#"{"login": "octocat", "id": 1}"#),
        LoginReply::Found("octocat".to_string())
    );
    assert_eq!(login_from_reply(b"<html>"), LoginReply::Malformed);
    assert_eq!(login_from_reply(br#"{"id": 1}"#), LoginReply::NoLogin);
    assert_eq!(login_from_reply(br#"{"login": 7}"#), LoginReply::NoLogin);
}
