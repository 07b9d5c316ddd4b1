//! The exchanges with GitHub's OAuth service: what is sent, and what is read
//! from the replies.

use vstd::prelude::*;
use crate::config::Config;
use crate::text::{ascii_alphanumeric, lookup_last, last_value, pair_views, percent_byte};
use vstd::utf8::encode_utf8;

verus! {

broadcast use vstd::string::group_string_axioms;

/// Where an authorization code is exchanged for an access token.
pub const ACCESS_TOKEN_URL: &'static str = "https://github.com/login/oauth/access_token";

/// Where the signed-in user is described.
pub const USER_URL: &'static str = "https://api.github.com/user";

/// The `User-Agent` the requests carry.
pub const USER_AGENT: &'static str = "gh-auth/1.0 (https://github.com/heyvito/gh-auth)";

/// The form encoding of one byte: letters, digits and `* - . _` unchanged,
/// a space as `+`, any other byte as `%` and two upper-case hex digits.
pub open spec fn form_byte(b: u8) -> Seq<char> {
    if ascii_alphanumeric(b) || b == 42 || b == 45 || b == 46 || b == 95 {
        seq![b as char]
    } else if b == 32 {
        seq!['+']
    } else {
        percent_byte(b)
    }
}

/// The form encoding of a byte string, byte by byte.
pub open spec fn form_bytes(b: Seq<u8>) -> Seq<char>
    decreases b.len(),
{
    if b.len() == 0 {
        Seq::empty()
    } else {
        form_byte(b[0]) + form_bytes(b.drop_first())
    }
}

/// One name-value pair of a form: the encoded UTF-8 bytes of the name, `=`,
/// and those of the value.
pub open spec fn form_pair(p: (Seq<char>, Seq<char>)) -> Seq<char> {
    form_bytes(encode_utf8(p.0)) + seq!['='] + form_bytes(encode_utf8(p.1))
}

/// The `application/x-www-form-urlencoded` serialization of `pairs`: the
/// encoded pairs in order, joined with `&`.
pub open spec fn form_urlencoded_serialization(pairs: Seq<(Seq<char>, Seq<char>)>) -> Seq<char>
    decreases pairs.len(),
{
    if pairs.len() == 0 {
        Seq::empty()
    } else if pairs.len() == 1 {
        form_pair(pairs[0])
    } else {
        form_urlencoded_serialization(pairs.drop_last()) + seq!['&'] + form_pair(pairs.last())
    }
}

/// The name-value pairs, percent-decoded and in order, of an
/// `application/x-www-form-urlencoded` body (`form_urlencoded::parse`).
pub uninterp spec fn form_urlencoded_pairs(body: Seq<u8>) -> Seq<(Seq<char>, Seq<char>)>;

/// What the field `key` of a JSON document is: `None` where the bytes are not
/// JSON (`serde_json::from_slice` fails), `Some(None)` where the field is
/// missing or not a string (indexing a value by `key`, then `as_str`),
/// `Some(Some(s))` where it is the string `s`.
pub uninterp spec fn json_string_field(body: Seq<u8>, key: Seq<char>) -> Option<Option<Seq<char>>>;

/// What the field `login` of a JSON document is (see [`json_string_field`]).
pub open spec fn json_login_field(body: Seq<u8>) -> Option<Option<Seq<char>>> {
    json_string_field(body, "login"@)
}

/// `form_urlencoded::Serializer` over a new `String`, each pair appended with
/// `append_pair` in order, then `finish`: [`form_urlencoded_serialization`].
#[verifier::external_body]
fn form_encode(pairs: &Vec<(String, String)>) -> (body: String)
    ensures
        body@ == form_urlencoded_serialization(pair_views(pairs@)),
{
    let mut serializer = url::form_urlencoded::Serializer::new(String::new());
    for (name, value) in pairs.iter() {
        serializer.append_pair(name, value);
    }
    serializer.finish()
}

/// `form_urlencoded::parse(body)`, each pair turned into owned strings.
#[verifier::external_body]
fn form_decode(body: &[u8]) -> (pairs: Vec<(String, String)>)
    ensures
        pair_views(pairs@) == form_urlencoded_pairs(body@),
{
    url::form_urlencoded::parse(body).map(|(k, v)| (k.into_owned(), v.into_owned())).collect()
}

/// `serde_json::from_slice::<serde_json::Value>(body)`, then the field `key`
/// of the value, read with `as_str`.
#[verifier::external_body]
fn json_field_str(body: &[u8], key: &str) -> (field: Option<Option<String>>)
    ensures
        match field {
            None => json_string_field(body@, key@) is None,
            Some(None) => json_string_field(body@, key@) == Some(None::<Seq<char>>),
            Some(Some(s)) => json_string_field(body@, key@) == Some(Some(s@)),
        },
{
    match serde_json::from_slice::<serde_json::Value>(body) {
        Err(_) => None,
        Ok(v) => Some(v[key].as_str().map(|s| s.to_string())),
    }
}

/// The pairs the token request sends: the application's key and secret, and
/// the authorization code.
pub open spec fn token_request_pairs(cfg: Config, code: Seq<char>) -> Seq<(Seq<char>, Seq<char>)> {
    seq![
        ("client_id"@, cfg.github_key@),
        ("client_secret"@, cfg.github_secret@),
        ("code"@, code),
    ]
}

/// The form body that exchanges `code` for an access token.
pub fn token_request_body(cfg: &Config, code: &str) -> (body: String)
    ensures
        body@ == form_urlencoded_serialization(token_request_pairs(*cfg, code@)),
{
    let mut pairs: Vec<(String, String)> = Vec::new();
    pairs.push((String::from_str("client_id"), cfg.github_key.clone()));
    pairs.push((String::from_str("client_secret"), cfg.github_secret.clone()));
    pairs.push((String::from_str("code"), String::from_str(code)));
    assert(pair_views(pairs@) =~= token_request_pairs(*cfg, code@));
    form_encode(&pairs)
}

/// The access token of a token reply: the value of its last `access_token`
/// field.
pub fn access_token_from_reply(body: &[u8]) -> (token: Option<String>)
    ensures
        match token {
            Some(t) => last_value(form_urlencoded_pairs(body@), "access_token"@) == Some(t@),
            None => last_value(form_urlencoded_pairs(body@), "access_token"@) is None,
        },
{
    let pairs = form_decode(body);
    lookup_last(&pairs, "access_token")
}

/// The `Authorization` header value that presents `token`.
pub fn authorization_value(token: &str) -> (value: String)
    ensures
        value@ == "token "@ + token@,
{
    String::from_str("token ").concat(token)
}

/// What a user-description reply says of the login.
#[derive(Debug, PartialEq, Eq)]
pub enum LoginReply {
    /// The reply names the login.
    Found(String),
    /// The reply is not JSON.
    Malformed,
    /// The reply is JSON without a string `login` field.
    NoLogin,
}

/// Reads the login from a user-description reply.
pub fn login_from_reply(body: &[u8]) -> (r: LoginReply)
    ensures
        match r {
            LoginReply::Found(s) => json_login_field(body@) == Some(Some(s@)),
            LoginReply::Malformed => json_login_field(body@) is None,
            LoginReply::NoLogin => json_login_field(body@) == Some(None::<Seq<char>>),
        },
{
    match json_field_str(body, "login") {
        None => LoginReply::Malformed,
        Some(None) => LoginReply::NoLogin,
        Some(Some(s)) => LoginReply::Found(s),
    }
}

} // verus!
