use ilegallearn_desktop::callback::callback_page;
use ilegallearn_desktop::report::{oauth_error, oauth_success};
use ilegallearn_desktop::session::{Session, Verdict};
use ilegallearn_desktop::sign_in::{
    follow, open_session, Action, Event, SignIn, SignInSlot, Start, OAUTH_TIMEOUT_MILLIS,
    POLL_PAUSE_MILLIS, REQUEST_LIMIT,
};

fn session() -> Session {
    Session::from_tokens(4711, "STATE".to_string(), "VERIFIER".to_string())
}

fn failed(message: &str) -> (SignIn, Action) {
    (SignIn::Finished, Action::Report { closing: None, script: oauth_error(message) })
}

fn boom() -> String {
    "boom".to_string()
}

#[test]
fn limits() {
    assert_eq!(OAUTH_TIMEOUT_MILLIS, 300 * 1000);
    assert_eq!(POLL_PAUSE_MILLIS, 100);
    assert_eq!(REQUEST_LIMIT, 16_384);
}

#[test]
fn only_one_sign_in_at_a_time() {
    let refusal = || Start::Refuse {
        script: oauth_error("A Google sign-in is already in progress."),
    };
    let start = |id: &str| Start::Begin { sign_in: SignIn::Binding { client_id: id.to_string() } };
    let mut slot = SignInSlot { running: false };
    assert_eq!(slot.request("a".to_string()), start("a"));
    assert_eq!(slot.request("b".to_string()), refusal());
    assert_eq!(slot.request("c".to_string()), refusal());
    slot.release();
    assert_eq!(slot.request("d".to_string()), start("d"));
    assert!(slot.running);
}

#[test]
fn full_course() {
    let id = "id".to_string();
    let (stage, action) =
        SignIn::Binding { client_id: id.clone() }.step(Event::Bound { error: None });
    assert_eq!(stage, SignIn::Configuring { client_id: id.clone() });
    assert_eq!(action, Action::Configure);
    let (stage, action) = stage.step(Event::Configured { error: None });
    assert_eq!(stage, SignIn::Locating { client_id: id });
    assert_eq!(action, Action::Locate);
    let (stage, action) = stage.step(Event::Located { port: 4711 });
    let address = match action {
        Action::Open { address } => address,
        _ => panic!("no browser"),
    };
    assert!(address.starts_with("https://accounts.google.com/o/oauth2/v2/auth?client_id=id&"));
    let (state, verifier, redirect) = match &stage {
        SignIn::Opening { session } => (
            session.state.clone(),
            session.code_verifier.clone(),
            session.redirect_uri.clone(),
        ),
        _ => panic!("no session"),
    };
    assert!(address.contains(&format!("&state={state}&")));
    let (stage, action) = stage.step(Event::Opened { error: None });
    assert_eq!(action, Action::ReadClock);
    let (stage, action) = stage.step(Event::Clock { millis: 0 });
    assert_eq!(action, Action::Accept);
    let (stage, action) = stage.step(Event::NoConnection);
    assert_eq!(action, Action::Pause { millis: 100 });
    let (stage, action) = stage.step(Event::Clock { millis: 299_999 });
    assert_eq!(action, Action::Accept);
    let icon = b"GET /favicon.ico HTTP/1.1\r\n\r\n".to_vec();
    let (stage, action) = stage.step(Event::Received { request: icon });
    assert_eq!(action, Action::Answer { response: callback_page(false) });
    let (stage, _) = stage.step(Event::Clock { millis: 5 });
    let request = format!("GET /oauth2callback?state={state}&code=c HTTP/1.1\r\n\r\n");
    let (stage, action) = stage.step(Event::Received { request: request.into_bytes() });
    assert_eq!(stage, SignIn::Finished);
    assert_eq!(
        action,
        Action::Report {
            closing: Some(callback_page(true)),
            script: oauth_success("c", &verifier, &redirect),
        }
    );
}

#[test]
fn failures_before_the_browser_opens() {
    let id = || "id".to_string();
    assert_eq!(
        SignIn::Binding { client_id: id() }.step(Event::Bound { error: Some(boom()) }),
        failed("Could not start the OAuth callback listener: boom")
    );
    assert_eq!(
        SignIn::Configuring { client_id: id() }.step(Event::Configured { error: Some(boom()) }),
        failed("Could not configure the OAuth callback listener: boom")
    );
    assert_eq!(
        SignIn::Locating { client_id: id() }.step(Event::NotLocated { failure: boom() }),
        failed("Could not read the OAuth callback address: boom")
    );
    assert_eq!(
        SignIn::Opening { session: session() }.step(Event::Opened { error: Some(boom()) }),
        failed("Could not open Google sign-in in the browser: boom")
    );
}

#[test]
fn failures_while_waiting() {
    assert_eq!(
        SignIn::Accepting { session: session() }.step(Event::AcceptFailed { failure: boom() }),
        failed("The OAuth callback listener failed: boom")
    );
    assert_eq!(
        SignIn::Accepting { session: session() }.step(Event::ReadFailed { failure: boom() }),
        failed("Could not read the OAuth callback: boom")
    );
}

#[test]
fn timeout() {
    assert_eq!(
        SignIn::Waiting { session: session() }.step(Event::Clock { millis: 300_000 }),
        failed("Google sign-in timed out. Please try again.")
    );
    assert_eq!(
        SignIn::Waiting { session: session() }.step(Event::Clock { millis: 299_999 }),
        (SignIn::Accepting { session: session() }, Action::Accept)
    );
}

#[test]
fn verdicts_are_followed() {
    assert_eq!(
        follow(session(), Verdict::Ignore),
        (
            SignIn::Waiting { session: session() },
            Action::Answer { response: callback_page(false) }
        )
    );
    let rejected = |answered| Verdict::Reject { message: "m".to_string(), answered };
    assert_eq!(follow(session(), rejected(false)), failed("m"));
    assert_eq!(
        follow(session(), rejected(true)),
        (
            SignIn::Finished,
            Action::Report { closing: Some(callback_page(false)), script: oauth_error("m") }
        )
    );
    assert_eq!(
        follow(session(), Verdict::Accept { code: "c".to_string() }),
        (
            SignIn::Finished,
            Action::Report {
                closing: Some(callback_page(true)),
                script: oauth_success("c", "VERIFIER", "http://127.0.0.1:4711/oauth2callback"),
            }
        )
    );
}

#[test]
fn foreign_return_ends_the_sign_in() {
    let request = b"GET /oauth2callback?state=OTHER&code=c HTTP/1.1\r\n\r\n".to_vec();
    assert_eq!(
        SignIn::Accepting { session: session() }.step(Event::Received { request }),
        (
            SignIn::Finished,
            Action::Report {
                closing: Some(callback_page(false)),
                script: oauth_error("Google sign-in returned an invalid state value."),
            }
        )
    );
}

#[test]
fn ignored_requests_change_nothing() {
    let accepting = || SignIn::Accepting { session: session() };
    let (unvisited, _) = accepting().step(Event::NoConnection);
    for target in ["/", "/favicon.ico", "/oauth2callback/?state=STATE&code=c", "/x?error=e"] {
        let request = format!("GET {target} HTTP/1.1\r\n\r\n").into_bytes();
        let (stage, action) = accepting().step(Event::Received { request });
        assert_eq!(stage, unvisited);
        assert_eq!(action, Action::Answer { response: callback_page(false) });
    }
}

#[test]
fn browser_is_opened_for_a_session() {
    let (stage, action) = open_session("id", session());
    assert_eq!(stage, SignIn::Opening { session: session() });
    let address = session().authorization_url("id").unwrap().text;
    assert_eq!(action, Action::Open { address });
}

#[test]
fn awaited_events() {
    let id = || "id".to_string();
    let stages = vec![
        SignIn::Binding { client_id: id() },
        SignIn::Configuring { client_id: id() },
        SignIn::Locating { client_id: id() },
        SignIn::Opening { session: session() },
        SignIn::Waiting { session: session() },
        SignIn::Accepting { session: session() },
        SignIn::Finished,
    ];
    let events = vec![
        Event::Bound { error: None },
        Event::Configured { error: None },
        Event::Located { port: 1 },
        Event::NotLocated { failure: boom() },
        Event::Opened { error: None },
        Event::Clock { millis: 1 },
        Event::NoConnection,
        Event::AcceptFailed { failure: boom() },
        Event::ReadFailed { failure: boom() },
        Event::Received { request: Vec::new() },
    ];
    let expected = [0usize, 1, 2, 2, 3, 4, 5, 5, 5, 5];
    for (s, stage) in stages.iter().enumerate() {
        for (e, event) in events.iter().enumerate() {
            assert_eq!(stage.awaits(event), expected[e] == s, "{s} {e}");
        }
    }
}
