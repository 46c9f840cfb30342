use ilegallearn_desktop::address::{callback_value, WebUrl};

#[test]
fn address_is_read_into_parts() {
    let url = WebUrl::parse("HTTPS://ILegalLearn.com:8443/a%20b?x=1&y=a+b%26c&x=2#end").unwrap();
    assert_eq!(url.text, "https://ilegallearn.com:8443/a%20b?x=1&y=a+b%26c&x=2#end");
    assert_eq!(url.scheme, "https");
    assert_eq!(url.host, Some("ilegallearn.com".to_string()));
    assert_eq!(url.path, "/a%20b");
    assert_eq!(
        url.pairs,
        vec![
            ("x".to_string(), "1".to_string()),
            ("y".to_string(), "a b&c".to_string()),
            ("x".to_string(), "2".to_string()),
        ]
    );
}

#[test]
fn address_without_host_or_query() {
    let url = WebUrl::parse("mailto:help@ilegallearn.com").unwrap();
    assert_eq!(url.scheme, "mailto");
    assert_eq!(url.host, None);
    assert_eq!(url.path, "help@ilegallearn.com");
    assert!(url.pairs.is_empty());
}

#[test]
fn refused_address_gives_the_reason() {
    assert_eq!(WebUrl::parse("/oauth2callback"), Err("relative URL without a base".to_string()));
    assert_eq!(WebUrl::parse("http://a:99999/"), Err("invalid port number".to_string()));
}

#[test]
fn first_value_of_a_key_counts() {
    let url = WebUrl::parse("http://127.0.0.1/?k=first&K=other&k=second&empty=").unwrap();
    assert_eq!(callback_value(&url, "k"), Some("first".to_string()));
    assert_eq!(callback_value(&url, "K"), Some("other".to_string()));
    assert_eq!(callback_value(&url, "empty"), Some(String::new()));
    assert_eq!(callback_value(&url, "missing"), None);
}

#[test]
fn parts_are_told_apart() {
    let url = WebUrl::parse("https://ilegallearn.com/start").unwrap();
    assert!(url.has_scheme("https") && !url.has_scheme("http"));
    assert!(url.has_host("ilegallearn.com") && !url.has_host("www.ilegallearn.com"));
    assert!(url.has_path("/start") && !url.has_path("start"));
    assert!(!WebUrl::parse("tel:123").unwrap().has_host(""));
}
