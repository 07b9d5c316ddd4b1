//! Configuration read from the process environment.

use vstd::prelude::*;
use crate::text::{join, lemma_split_join, lemma_trim_form, trimmed_from, lemma_trim_idempotent, chars_of, split, split_chars, string_of, string_views, trim, trim_chars, views};

verus! {

broadcast use vstd::string::group_string_axioms;

/// Why the configuration could not be read.
#[derive(Debug, Clone)]
pub struct ConfigError {
    pub message: String,
}

/// The service's configuration.
#[derive(Debug, Clone)]
pub struct Config {
    pub github_key: String,
    pub github_secret: String,
    pub secret: String,
    pub allowed_users: Vec<String>,
}

/// What looking up an environment variable gave.
#[derive(Debug, Clone)]
pub enum EnvValue {
    /// The variable is set, to this value.
    Value(String),
    /// The variable is not set.
    NotPresent,
    /// The variable is set, but its value is not valid Unicode.
    NotUnicode,
}

/// The configuration as plain values.
pub struct ConfigModel {
    pub github_key: Seq<char>,
    pub github_secret: Seq<char>,
    pub secret: Seq<char>,
    pub allowed_users: Seq<Seq<char>>,
}

impl View for Config {
    type V = ConfigModel;

    open spec fn view(&self) -> ConfigModel {
        ConfigModel {
            github_key: self.github_key@,
            github_secret: self.github_secret@,
            secret: self.secret@,
            allowed_users: string_views(self.allowed_users@),
        }
    }
}

/// The variable names the configuration is read from.
pub open spec fn github_key_var() -> Seq<char> {
    "GITHUB_KEY"@
}

pub open spec fn github_secret_var() -> Seq<char> {
    "GITHUB_SECRET"@
}

pub open spec fn secret_key_var() -> Seq<char> {
    "SECRET_KEY"@
}

pub open spec fn allowed_users_var() -> Seq<char> {
    "ALLOWED_USERS"@
}

/// The outcome of reading variable `name`: its value, or the error message.
/// A value that is empty or all whitespace is refused; an accepted value is
/// kept as it is, untrimmed.
pub open spec fn env_outcome(name: Seq<char>, value: EnvValue) -> Result<Seq<char>, Seq<char>> {
    match value {
        EnvValue::Value(v) => if trim(v@).len() == 0 {
            Err("Environment variable must not be empty: "@ + name)
        } else {
            Ok(v@)
        },
        EnvValue::NotPresent => Err("Environment variable not defined: "@ + name),
        EnvValue::NotUnicode => Err(
            "Environment variable must be composed by ASCII characters only: "@ + name,
        ),
    }
}

/// The user names of a comma-separated list, each trimmed (empty ones kept).
pub open spec fn user_list(s: Seq<char>) -> Seq<Seq<char>> {
    split(s, ',').map_values(|u: Seq<char>| trim(u))
}

/// The configuration the four variables give, or the message of the first
/// error, the variables taken in the order key, secret, secret key, users.
pub open spec fn config_outcome(
    github_key: EnvValue,
    github_secret: EnvValue,
    secret: EnvValue,
    allowed_users: EnvValue,
) -> Result<ConfigModel, Seq<char>> {
    match env_outcome(github_key_var(), github_key) {
        Err(e) => Err(e),
        Ok(k) => match env_outcome(github_secret_var(), github_secret) {
            Err(e) => Err(e),
            Ok(s) => match env_outcome(secret_key_var(), secret) {
                Err(e) => Err(e),
                Ok(sk) => match env_outcome(allowed_users_var(), allowed_users) {
                    Err(e) => Err(e),
                    Ok(u) => Ok(
                        ConfigModel {
                            github_key: k,
                            github_secret: s,
                            secret: sk,
                            allowed_users: user_list(u),
                        },
                    ),
                },
            },
        },
    }
}

/// A checked value, or an error, as plain values.
pub open spec fn value_view(r: Result<String, ConfigError>) -> Result<Seq<char>, Seq<char>> {
    match r {
        Ok(v) => Ok(v@),
        Err(e) => Err(e.message@),
    }
}

/// A configuration, or an error, as plain values.
pub open spec fn config_view(r: Result<Config, ConfigError>) -> Result<ConfigModel, Seq<char>> {
    match r {
        Ok(c) => Ok(c@),
        Err(e) => Err(e.message@),
    }
}

impl ConfigError {
    fn new(prefix: &str, name: &str) -> (e: ConfigError)
        ensures
            e.message@ == prefix@ + name@,
    {
        ConfigError { message: String::from_str(prefix).concat(name) }
    }

    /// The text the error is shown with.
    pub fn to_text(&self) -> (s: String)
        ensures
            s@ == "Configuration error: "@ + self.message@,
    {
        String::from_str("Configuration error: ").concat(self.message.as_str())
    }
}

/// Checks the value found for variable `name`.
pub fn get_env(name: &str, value: EnvValue) -> (r: Result<String, ConfigError>)
    ensures
        value_view(r) == env_outcome(name@, value),
{
    match value {
        EnvValue::Value(v) => {
            let cs = chars_of(v.as_str());
            let t = trim_chars(cs.as_slice());
            if t.len() == 0 {
                Err(ConfigError::new("Environment variable must not be empty: ", name))
            } else {
                Ok(v)
            }
        },
        EnvValue::NotPresent => Err(ConfigError::new("Environment variable not defined: ", name)),
        EnvValue::NotUnicode => Err(
            ConfigError::new("Environment variable must be composed by ASCII characters only: ", name),
        ),
    }
}

/// The trimmed user names of a comma-separated list.
pub fn parse_user_list(s: &str) -> (users: Vec<String>)
    ensures
        string_views(users@) == user_list(s@),
{
    let cs = chars_of(s);
    let pieces = split_chars(cs.as_slice(), ',');
    let mut users: Vec<String> = Vec::new();
    for i in 0..pieces.len()
        invariant
            views(pieces@) == split(s@, ','),
            string_views(users@) == user_list(s@).take(i as int),
    {
        let ghost before = users@;
        let t = trim_chars(pieces[i].as_slice());
        users.push(string_of(t.as_slice()));
        assert(pieces@[i as int]@ == views(pieces@)[i as int]);
        assert(user_list(s@)[i as int] == trim(pieces@[i as int]@));
        assert(string_views(users@) =~= string_views(before).push(t@));
        assert(string_views(users@) =~= user_list(s@).take(i + 1));
    }
    assert(user_list(s@).take(pieces@.len() as int) =~= user_list(s@));
    users
}

/// Builds the configuration from what the four variables `GITHUB_KEY`,
/// `GITHUB_SECRET`, `SECRET_KEY` and `ALLOWED_USERS` hold.
pub fn read_config(
    github_key: EnvValue,
    github_secret: EnvValue,
    secret: EnvValue,
    allowed_users: EnvValue,
) -> (r: Result<Config, ConfigError>)
    ensures
        config_view(r) == config_outcome(
            github_key,
            github_secret,
            secret,
            allowed_users,
        ),
{
    let github_key = get_env("GITHUB_KEY", github_key)?;
    let github_secret = get_env("GITHUB_SECRET", github_secret)?;
    let secret = get_env("SECRET_KEY", secret)?;
    let allowed_users = get_env("ALLOWED_USERS", allowed_users)?;
    let allowed_users = parse_user_list(allowed_users.as_str());
    Ok(Config { github_key, github_secret, secret, allowed_users })
}

/// Every allowed user name is trimmed: trimming it again changes nothing.
pub proof fn lemma_user_names_trimmed(s: Seq<char>)
    ensures
        forall|i: int|
            0 <= i < user_list(s).len() ==> trim(#[trigger] user_list(s)[i]) == user_list(s)[i],
{
    assert forall|i: int| 0 <= i < user_list(s).len() implies trim(#[trigger] user_list(s)[i])
        == user_list(s)[i] by {
        lemma_trim_idempotent(split(s, ',')[i]);
    }
}

/// A configuration that is read holds no blank key, secret or user list.
pub proof fn lemma_config_values_not_blank(
    github_key: EnvValue,
    github_secret: EnvValue,
    secret: EnvValue,
    allowed_users: EnvValue,
)
    requires
        config_outcome(github_key, github_secret, secret, allowed_users) is Ok,
    ensures
        ({
            let c = config_outcome(github_key, github_secret, secret, allowed_users)->Ok_0;
            &&& trim(c.github_key).len() > 0
            &&& trim(c.github_secret).len() > 0
            &&& trim(c.secret).len() > 0
        }),
{
}

/// The allowed users are the pieces of `ALLOWED_USERS` between its commas,
/// all of them and in order, each with the whitespace at its ends taken off
/// and its other characters unchanged.
pub proof fn lemma_allowed_users_are_the_trimmed_pieces(
    github_key: EnvValue,
    github_secret: EnvValue,
    secret: EnvValue,
    users: String,
)
    requires
        config_outcome(github_key, github_secret, secret, EnvValue::Value(users)) is Ok,
    ensures
        ({
            let names = config_outcome(github_key, github_secret, secret, EnvValue::Value(users))->Ok_0.allowed_users;
            exists|pieces: Seq<Seq<char>>|
                {
                    &&& join(pieces, ',') == users@
                    &&& forall|i: int| 0 <= i < pieces.len() ==> !(#[trigger] pieces[i]).contains(',')
                    &&& names.len() == pieces.len()
                    &&& forall|i: int| 0 <= i < pieces.len() ==> trimmed_from(pieces[i], #[trigger] names[i])
                }
        }),
{
    let names = config_outcome(github_key, github_secret, secret, EnvValue::Value(users))->Ok_0.allowed_users;
    let pieces = split(users@, ',');
    lemma_split_join(users@, ',');
    assert(names == user_list(users@));
    assert forall|i: int| 0 <= i < pieces.len() implies trimmed_from(pieces[i], #[trigger] names[i]) by {
        lemma_trim_form(pieces[i]);
    }
}

} // verus!
