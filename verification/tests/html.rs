use gh_auth::simple_html::{make_login, make_page};

#[test]
fn page_places_title_and_message() {
    let expected = format!(
        r#"
<!DOCTYPE html>
<html>
    <head>
        <title>{}</title>
        <style>
            body {{
                width: 35em;
                margin: 0 auto;
                font-family: Tahoma, Verdana, Arial, sans-serif;
            }}
        </style>
    </head>
    <body>
        <h1>{}</h1>
        <p>{}</p>
    </body>
</html>
"#,
        "Bad Request", "Bad Request", "Invalid authorization code"
    );
    assert_eq!(make_page("Bad Request", "Invalid authorization code"), expected);
}

#[test]
fn page_does_not_escape() {
    let page = make_page("<b>", "a & b");
    assert!(page.contains("<title><b></title>"));
    assert!(page.contains("<p>a & b</p>"));
}

#[test]
fn login_page_links_to_the_sign_in() {
    let page = make_login();
    assert!(page.starts_with("\n<!DOCTYPE html>\n<html lang=\"en\">"));
    assert!(page.contains(r#"<a href="/__gh_auth/begin" id="login">"#));
    assert!(page.contains("#login {\n"));
    assert!(page.ends_with("</html>"));
}
