# gh_auth

An HTTP server that serves the files of a directory only to users who signed
in with GitHub and whose login is on an allowed list. The sign-in follows
GitHub's OAuth web flow; a signed-in user carries an encrypted session cookie.

- `src/` is the verified library:
  - `text.rs`: whitespace, trimming, splitting, and name-value lookup on text;
  - `config.rs`: the configuration and how it is read from four variables;
  - `simple_html.rs`: the HTML pages;
  - `cookie.rs`: the session cookie (AES-128-CBC under a key derived from the
    configured secret, URL-safe base64);
  - `github.rs`: the token request and the reading of GitHub's replies;
  - `handler.rs`: the request handler, as a sequence of decisions.
- `app/main.rs` is the program around it: command line, environment, the
  HTTP server and client, and the file server. It performs each step the
  handler decides and hands the outcome back.
- `tests/` runs the library on concrete values.

Configuration: `GITHUB_KEY`, `GITHUB_SECRET`, `SECRET_KEY` and
`ALLOWED_USERS` (comma-separated logins); options `--host`, `--port` and the
required `--root`.
