use ilegallearn_desktop::address::WebUrl;
use ilegallearn_desktop::navigation::{
    decide_navigation, decide_new_window, desktop_oauth_client_id, is_internal_url,
    is_razorpay_embedded_url, is_system_url, needs_pdf_bridge, open_with_system,
    ExternalDecision, NavigationDecision, NewWindowDecision, APP_ORIGIN,
};

const BRIDGE: &str =
    "ilegallearn-desktop://oauth/start?client_id=42-x.apps.googleusercontent.com";

fn url(text: &str) -> WebUrl {
    WebUrl::parse(text).unwrap()
}

#[test]
fn the_application_is_internal() {
    assert!(is_internal_url(&url(APP_ORIGIN)));
    assert!(is_internal_url(&url("https://ilegallearn.com:444/page?x#y")));
    assert!(!is_internal_url(&url("http://ilegallearn.com/")));
    assert!(!is_internal_url(&url("https://www.ilegallearn.com/")));
    assert!(!is_internal_url(&url("https://ilegallearn.com.evil.example/")));
}

#[test]
fn system_schemes() {
    for text in ["http://a/", "https://a/", "mailto:a@b", "tel:+1"] {
        assert!(is_system_url(&url(text)), "{text}");
    }
    for text in ["file:///etc/passwd", "javascript:alert(1)", "ftp://a/", BRIDGE] {
        assert!(!is_system_url(&url(text)), "{text}");
    }
}

#[test]
fn payment_hosts() {
    assert!(is_razorpay_embedded_url(&url("https://api.razorpay.com/v1/checkout")));
    assert!(is_razorpay_embedded_url(&url("https://checkout.razorpay.com/")));
    assert!(!is_razorpay_embedded_url(&url("http://api.razorpay.com/")));
    assert!(!is_razorpay_embedded_url(&url("https://razorpay.com/")));
}

#[test]
fn bridge_address_names_the_client() {
    let id = "42-x.apps.googleusercontent.com".to_string();
    assert_eq!(desktop_oauth_client_id(&url(BRIDGE)), Some(id.clone()));
    let first = format!("{BRIDGE}&client_id=other");
    assert_eq!(desktop_oauth_client_id(&url(&first)), Some(id));
    for text in [
        "https://oauth/start?client_id=42-x.apps.googleusercontent.com",
        "ilegallearn-desktop://other/start?client_id=42-x.apps.googleusercontent.com",
        "ilegallearn-desktop://oauth/stop?client_id=42-x.apps.googleusercontent.com",
        "ilegallearn-desktop://oauth/start",
        "ilegallearn-desktop://oauth/start?client_id=42-x.example.com",
        "ilegallearn-desktop://oauth/start?client_id=x&client_id=42-x.apps.googleusercontent.com",
    ] {
        assert_eq!(desktop_oauth_client_id(&url(text)), None, "{text}");
    }
}

#[test]
fn external_addresses_are_opened_or_blocked() {
    assert_eq!(
        open_with_system(url("mailto:a@b")),
        ExternalDecision::Open("mailto:a@b".to_string())
    );
    assert_eq!(
        open_with_system(url("file:///x")),
        ExternalDecision::Block("file:///x".to_string())
    );
}

#[test]
fn navigation_decisions() {
    assert_eq!(decide_navigation(url("https://ilegallearn.com/x")), NavigationDecision::Stay);
    assert_eq!(
        decide_navigation(url(BRIDGE)),
        NavigationDecision::SignIn("42-x.apps.googleusercontent.com".to_string())
    );
    assert_eq!(
        decide_navigation(url("https://example.com")),
        NavigationDecision::Leave(ExternalDecision::Open("https://example.com/".to_string()))
    );
    let unknown = "ilegallearn-desktop://oauth/start?client_id=x";
    assert_eq!(
        decide_navigation(url(unknown)),
        NavigationDecision::Leave(ExternalDecision::Block(unknown.to_string()))
    );
}

#[test]
fn new_window_decisions() {
    assert_eq!(
        decide_new_window(url("https://checkout.razorpay.com/x")),
        NewWindowDecision::Ignore("https://checkout.razorpay.com/x".to_string())
    );
    assert_eq!(
        decide_navigation(url("https://checkout.razorpay.com/x")),
        NavigationDecision::Leave(ExternalDecision::Open(
            "https://checkout.razorpay.com/x".to_string()
        ))
    );
    assert_eq!(
        decide_new_window(url("tel:123")),
        NewWindowDecision::Leave(ExternalDecision::Open("tel:123".to_string()))
    );
    assert_eq!(
        decide_new_window(url(BRIDGE)),
        NewWindowDecision::Leave(ExternalDecision::Block(BRIDGE.to_string()))
    );
}

#[test]
fn bridge_goes_into_finished_application_pages() {
    assert!(needs_pdf_bridge(true, &url("https://ilegallearn.com/")));
    assert!(!needs_pdf_bridge(false, &url("https://ilegallearn.com/")));
    assert!(!needs_pdf_bridge(true, &url("https://example.com/")));
}
