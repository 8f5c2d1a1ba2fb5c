use iplayer_catalog::text::{
    first_word, is_absolute, normalize_key, normalize_ws, resolve_field_url,
    resolve_reference_url, starts_with_str, str_eq, str_has_scheme,
};

#[test]
fn normalize_collapses_runs_and_trims() {
    assert_eq!(normalize_ws("  The   Title \n"), "The Title");
    assert_eq!(normalize_ws("\t a \t b \r\n c "), "a b c");
    assert_eq!(normalize_ws("plain"), "plain");
}

#[test]
fn normalize_empty_and_blank() {
    assert_eq!(normalize_ws(""), "");
    assert_eq!(normalize_ws("   \n\t "), "");
}

#[test]
fn first_word_takes_first_candidate() {
    assert_eq!(first_word("https://img/a.jpg 1x, https://img/b.jpg 2x"), "https://img/a.jpg");
    assert_eq!(first_word("single"), "single");
    assert_eq!(first_word(""), "");
}

#[test]
fn absolute_detection() {
    assert!(is_absolute("/iplayer/films"));
    assert!(is_absolute("https://bbc.co.uk/x"));
    assert!(is_absolute("http://bbc.co.uk/x"));
    assert!(is_absolute("ftp://host/x"));
    assert!(!is_absolute("films1.html"));
    assert!(!is_absolute("?page=2"));
}

#[test]
fn scheme_detection() {
    assert!(str_has_scheme("https://bbc.co.uk"));
    assert!(str_has_scheme("mailto:someone"));
    assert!(str_has_scheme("x-proto+v1.2://y"));
    assert!(!str_has_scheme("ep2.html"));
    assert!(!str_has_scheme("/iplayer/a"));
    assert!(!str_has_scheme("?page=2:3"));
    assert!(!str_has_scheme("1http://x"));
    assert!(!str_has_scheme(""));
}

#[test]
fn other_schemes_are_kept_by_both_policies() {
    let base = "https://bbc.co.uk";
    let page = "https://bbc.co.uk/iplayer/films?page=1";
    assert_eq!(resolve_field_url(base, "ftp://host/x"), "ftp://host/x");
    assert_eq!(resolve_reference_url(base, page, "ftp://host/x"), "ftp://host/x");
}

#[test]
fn field_urls_resolve_against_base_origin() {
    assert_eq!(resolve_field_url("https://bbc.co.uk", "/iplayer/a"), "/iplayer/a");
    assert_eq!(resolve_field_url("https://bbc.co.uk", "https://cdn/x.jpg"), "https://cdn/x.jpg");
    assert_eq!(resolve_field_url("https://bbc.co.uk", "pic.jpg"), "https://bbc.co.uk/pic.jpg");
}

#[test]
fn reference_resolution_policy() {
    let base = "https://bbc.co.uk";
    let page = "https://bbc.co.uk/iplayer/films?page=1";
    assert_eq!(resolve_reference_url(base, page, "https://other/x"), "https://other/x");
    assert_eq!(resolve_reference_url(base, page, "/iplayer/a"), "https://bbc.co.uk/iplayer/a");
    assert_eq!(
        resolve_reference_url(base, page, "?page=2"),
        "https://bbc.co.uk/iplayer/films?page=2"
    );
    assert_eq!(
        resolve_reference_url(base, "https://bbc.co.uk/films/ep1.html", "ep2.html"),
        "https://bbc.co.uk/films/ep2.html"
    );
}

#[test]
fn normalized_keys_drop_one_trailing_slash() {
    assert_eq!(normalize_key("https://bbc.co.uk/a/"), "https://bbc.co.uk/a");
    assert_eq!(normalize_key("https://bbc.co.uk/a"), "https://bbc.co.uk/a");
    assert_eq!(normalize_key(""), "");
}

#[test]
fn string_primitives() {
    assert!(str_eq("abc", "abc"));
    assert!(!str_eq("abc", "abd"));
    assert!(!str_eq("abc", "ab"));
    assert!(starts_with_str("https://x", "https://"));
    assert!(!starts_with_str("http", "https://"));
}
