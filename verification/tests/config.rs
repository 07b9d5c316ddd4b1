use gh_auth::config::{get_env, read_config, ConfigError, EnvValue};

fn value(s: &str) -> EnvValue {
    EnvValue::Value(s.to_string())
}

#[test]
fn get_env_keeps_a_value_untrimmed() {
    assert_eq!(get_env("NAME", value("  key ")).unwrap(), "  key ");
}

#[test]
fn get_env_refuses_a_blank_value() {
    let e = get_env("NAME", value(" \t\n\u{3000}")).unwrap_err();
    assert_eq!(e.message, "Environment variable must not be empty: NAME");
    let e = get_env("NAME", value("")).unwrap_err();
    assert_eq!(e.message, "Environment variable must not be empty: NAME");
}

#[test]
fn get_env_reports_a_missing_variable() {
    let e = get_env("GITHUB_KEY", EnvValue::NotPresent).unwrap_err();
    assert_eq!(e.message, "Environment variable not defined: GITHUB_KEY");
}

#[test]
fn get_env_reports_a_value_that_is_not_unicode() {
    let e = get_env("SECRET_KEY", EnvValue::NotUnicode).unwrap_err();
    assert_eq!(
        e.message,
        "Environment variable must be composed by ASCII characters only: SECRET_KEY"
    );
}

#[test]
fn read_config_reads_all_four_variables() {
    let c = read_config(value("key"), value("secret"), value("sk"), value(" alice, bob ,,carol\u{a0}"))
        .unwrap();
    assert_eq!(c.github_key, "key");
    assert_eq!(c.github_secret, "secret");
    assert_eq!(c.secret, "sk");
    assert_eq!(c.allowed_users, vec!["alice", "bob", "", "carol"]);
}

#[test]
fn read_config_reports_the_first_failing_variable() {
    let e = read_config(value("key"), EnvValue::NotPresent, value(" "), EnvValue::NotUnicode).unwrap_err();
    assert_eq!(e.message, "Environment variable not defined: GITHUB_SECRET");
    let e = read_config(value("key"), value("s"), value(" "), EnvValue::NotUnicode).unwrap_err();
    assert_eq!(e.message, "Environment variable must not be empty: SECRET_KEY");
    let e = read_config(value("key"), value("s"), value("x"), EnvValue::NotUnicode).unwrap_err();
    assert_eq!(
        e.message,
        "Environment variable must be composed by ASCII characters only: ALLOWED_USERS"
    );
}

#[test]
fn a_single_user() {
    let c = read_config(value("k"), value("s"), value("x"), value("octocat")).unwrap();
    assert_eq!(c.allowed_users, vec!["octocat"]);
}

#[test]
fn config_error_text() {
    let e = ConfigError { message: "boom".to_string() };
    assert_eq!(e.to_text(), "Configuration error: boom");
}

#[test]
fn read_users_are_trimmed_and_values_not_blank() {
    let c = read_config(value(" k "), value("s"), value("x"), value("\talice ,\u{2003}bob")).unwrap();
    for u in &c.allowed_users {
        assert_eq!(u.trim(), u);
    }
    assert!(!c.github_key.trim().is_empty());
    assert_eq!(c.github_key, " k ");
}
