use gh_auth::text::{chars_of, contains_text, lookup_last, same_text, split_chars, string_of, trim_chars};

fn trimmed(s: &str) -> String {
    let cs = chars_of(s);
    string_of(&trim_chars(&cs))
}

#[test]
fn trim_matches_str_trim() {
    for s in ["", "  ", " a b ", "\u{2003}x\u{85}", "\u{200b}x", "\tx\r\n", "x"] {
        assert_eq!(trimmed(s), s.trim());
    }
}

#[test]
fn split_matches_str_split() {
    for s in ["", ",", "a,b", ",a,,b,", "abc"] {
        let cs = chars_of(s);
        let pieces: Vec<String> = split_chars(&cs, ',').iter().map(|p| string_of(p)).collect();
        let expected: Vec<String> = s.split(',').map(|p| p.to_string()).collect();
        assert_eq!(pieces, expected);
    }
}

#[test]
fn lookup_takes_the_last_pair() {
    let pairs = vec![
        ("a".to_string(), "1".to_string()),
        ("b".to_string(), "2".to_string()),
        ("a".to_string(), "3".to_string()),
    ];
    assert_eq!(lookup_last(&pairs, "a"), Some("3".to_string()));
    assert_eq!(lookup_last(&pairs, "b"), Some("2".to_string()));
    assert_eq!(lookup_last(&pairs, "c"), None);
}

#[test]
fn texts_compare_by_characters() {
    assert!(same_text("GET", "GET"));
    assert!(!same_text("GET", "GETS"));
    assert!(!same_text("get", "GET"));
    let list = vec!["alice".to_string(), "bob".to_string()];
    assert!(contains_text(&list, "bob"));
    assert!(!contains_text(&list, "bo"));
}

#[test]
fn trimming_twice_is_trimming_once() {
    for s in ["  a b  ", "\u{3000}\u{3000}", "x", " \u{a0}x\u{a0} "] {
        let once = trimmed(s);
        assert_eq!(trimmed(&once), once);
    }
}
