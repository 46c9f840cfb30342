use ilegallearn_desktop::address::{callback_value, WebUrl};
use ilegallearn_desktop::session::{Session, Verdict};
use ilegallearn_desktop::token::code_challenge;

fn session() -> Session {
    Session::from_tokens(4711, "STATE".to_string(), "VERIFIER".to_string())
}

fn judged(query: &str) -> Verdict {
    let text = format!("http://127.0.0.1:4711/oauth2callback?{query}");
    session().judge(&WebUrl::parse(&text).unwrap())
}

fn rejected(message: &str, answered: bool) -> Verdict {
    Verdict::Reject { message: message.to_string(), answered }
}

#[test]
fn session_keeps_what_it_is_made_of() {
    let session = session();
    assert_eq!(session.port, 4711);
    assert_eq!(session.redirect_uri, "http://127.0.0.1:4711/oauth2callback");
    assert_eq!(session.state, "STATE");
    assert_eq!(session.code_verifier, "VERIFIER");
}

#[test]
fn fresh_session() {
    let session = Session::begin(65535);
    assert_eq!(session.redirect_uri, "http://127.0.0.1:65535/oauth2callback");
    assert_eq!(session.state.len(), 48);
    assert_eq!(session.code_verifier.len(), 96);
    assert!(session.state.chars().all(|c| c.is_ascii_alphanumeric()));
    assert!(session.code_verifier.chars().all(|c| c.is_ascii_alphanumeric()));
}

#[test]
fn authorization_address() {
    let url = session().authorization_url("id & co").unwrap();
    let challenge = code_challenge("VERIFIER");
    assert_eq!(
        url.text,
        format!(
            "https://accounts.google.com/o/oauth2/v2/auth?client_id=id+%26+co\
             &redirect_uri=http%3A%2F%2F127.0.0.1%3A4711%2Foauth2callback\
             &response_type=code&scope=openid+email+profile&state=STATE\
             &code_challenge={challenge}&code_challenge_method=S256\
             &access_type=online&prompt=select_account"
        )
    );
    assert_eq!(url.host, Some("accounts.google.com".to_string()));
    assert_eq!(url.path, "/o/oauth2/v2/auth");
}

#[test]
fn authorization_address_reads_back() {
    let url = session().authorization_url("i=d&\u{e9}+").unwrap();
    let again = WebUrl::parse(&url.text).unwrap();
    assert_eq!(again, url);
    assert_eq!(callback_value(&again, "client_id"), Some("i=d&\u{e9}+".to_string()));
    assert_eq!(callback_value(&again, "state"), Some("STATE".to_string()));
    assert_eq!(callback_value(&again, "redirect_uri"), Some(session().redirect_uri));
    assert_eq!(callback_value(&again, "code_challenge"), Some(code_challenge("VERIFIER")));
    assert_eq!(callback_value(&again, "scope"), Some("openid email profile".to_string()));
    assert_eq!(again.pairs.len(), 9);
}

#[test]
fn code_is_accepted() {
    assert_eq!(judged("state=STATE&code=4%2F0"), Verdict::Accept { code: "4/0".to_string() });
    assert_eq!(
        judged("code=1&code=2&state=STATE&state=x"),
        Verdict::Accept { code: "1".to_string() }
    );
}

#[test]
fn wrong_state_is_rejected() {
    let verdict = rejected("Google sign-in returned an invalid state value.", true);
    assert_eq!(judged("state=state&code=1"), verdict);
    assert_eq!(judged("code=1"), verdict);
    assert_eq!(judged("state=x&state=STATE&code=1"), verdict);
    assert_eq!(judged("state=x&error=access_denied"), verdict);
}

#[test]
fn reported_error_is_rejected() {
    assert_eq!(
        judged("state=STATE&error=access_denied&code=1"),
        rejected("Google sign-in was not completed: access_denied", true)
    );
}

#[test]
fn missing_code_is_rejected_without_answer() {
    assert_eq!(
        judged("state=STATE"),
        rejected("Google did not return an authorization code.", false)
    );
}

#[test]
fn other_paths_are_ignored() {
    let url = WebUrl::parse("http://127.0.0.1:4711/favicon.ico?state=STATE&code=1").unwrap();
    assert_eq!(session().judge(&url), Verdict::Ignore);
}

#[test]
fn requests_are_judged() {
    let judge = |request: &[u8]| session().judge_request(request);
    assert_eq!(
        judge(b"GET /oauth2callback?state=STATE&code=c HTTP/1.1\r\nHost: x\r\n\r\n"),
        Verdict::Accept { code: "c".to_string() }
    );
    assert_eq!(judge(b"GET /favicon.ico HTTP/1.1\r\n\r\n"), Verdict::Ignore);
    assert_eq!(judge(b""), rejected("The OAuth callback request was malformed.", false));
    assert_eq!(
        judge(b"GET 99999/ HTTP/1.1\r\n"),
        rejected("The OAuth callback URL was invalid: invalid port number", false)
    );
}

#[test]
fn bytes_that_are_no_text_are_replaced() {
    assert_eq!(
        session().judge_request(b"GET /oauth2callback?state=STATE&code=a\xffb HTTP/1.1\r\n"),
        Verdict::Accept { code: "a\u{fffd}b".to_string() }
    );
}

#[test]
fn readings_are_judged() {
    assert_eq!(
        session().judge_reading(Err("empty host".to_string())),
        rejected("The OAuth callback URL was invalid: empty host", false)
    );
    assert_eq!(
        session().judge_reading(WebUrl::parse("http://127.0.0.1:4711/")),
        Verdict::Ignore
    );
}
