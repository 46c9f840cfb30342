use ilegallearn_desktop::callback::{callback_page, request_target};

#[test]
fn target_of_a_request() {
    let request = "GET /oauth2callback?code=1 HTTP/1.1\r\nHost: 127.0.0.1\r\n\r\n";
    assert_eq!(request_target(request), Some("/oauth2callback?code=1".to_string()));
    assert_eq!(request_target("GET /x"), Some("/x".to_string()));
    assert_eq!(request_target("  GET \t /x\u{2003}HTTP/1.1"), Some("/x".to_string()));
    assert_eq!(request_target("GET /x\r\nrest"), Some("/x".to_string()));
}

#[test]
fn request_without_target() {
    for request in ["", "GET", "GET ", "\r\n", "GET\n/x HTTP/1.1", "\nGET /x HTTP/1.1"] {
        assert_eq!(request_target(request), None, "{request:?}");
    }
}

#[test]
fn page_for_a_completed_sign_in() {
    let body = "<!doctype html><html><head><meta charset=\"utf-8\"><title>Sign-in complete</title></head><body><h1>Sign-in complete</h1><p>You can close this tab and return to iLegalLearn.</p></body></html>";
    let response = format!(
        "HTTP/1.1 200 OK\r\nContent-Type: text/html; charset=utf-8\r\nContent-Length: {}\r\nConnection: close\r\n\r\n{}",
        body.len(),
        body
    );
    assert_eq!(callback_page(true), response.into_bytes());
}

#[test]
fn page_for_a_failed_sign_in() {
    let body = "<!doctype html><html><head><meta charset=\"utf-8\"><title>Sign-in could not be completed</title></head><body><h1>Sign-in could not be completed</h1><p>Return to iLegalLearn and try again.</p></body></html>";
    let response = format!(
        "HTTP/1.1 200 OK\r\nContent-Type: text/html; charset=utf-8\r\nContent-Length: {}\r\nConnection: close\r\n\r\n{}",
        body.len(),
        body
    );
    assert_eq!(callback_page(false), response.into_bytes());
}

#[test]
fn announced_length_is_what_follows() {
    for successful in [true, false] {
        let text = String::from_utf8(callback_page(successful)).unwrap();
        let (head, body) = text.split_once("\r\n\r\n").unwrap();
        assert!(head.contains(&format!("Content-Length: {}\r\n", body.len())));
    }
    assert_ne!(callback_page(true), callback_page(false));
}
