//! One sign-in with Google: what the browser is sent to ask for, and which of
//! the requests that come back complete it.
use vstd::prelude::*;
use vstd::utf8::{decode_utf8, encode_utf8, valid_utf8};

use crate::address::{callback_value, first_value, pairs_view, read_url_with_fields};
use crate::address::{first_value_is_the_first, stands_first, stands_nowhere};
use crate::address::{reading_view, url_reading, url_text_with_fields, UrlParts, WebUrl};
use crate::callback::{is_target, target_is_the_second_word};
use crate::callback::{is_word, request_line_names_its_target};
use crate::callback::{lossy_text, request_target, target_of, text_of_bytes};
use crate::text::{decimal, decimal_text, join};
use crate::text::{decimal_writes_its_number, number_is_written_in_one_way, writes_number};
use crate::token::{alphanumeric, base64url_text, sha256_digest};
use crate::token::{challenge_of, code_challenge, is_token, random_token};

verus! {

/// What one sign-in keeps from its start to its end.
#[derive(Debug, PartialEq, Eq)]
pub struct Session {
    /// The local port that the browser is sent back to.
    pub port: u16,
    /// The address that the browser is sent back to.
    pub redirect_uri: String,
    /// The token by which the return is recognised.
    pub state: String,
    /// The token that proves, when the code is redeemed, who asked for it.
    pub code_verifier: String,
}

/// [`Session`] over character sequences.
pub struct SessionView {
    pub port: u16,
    pub redirect_uri: Seq<char>,
    pub state: Seq<char>,
    pub code_verifier: Seq<char>,
}

impl View for Session {
    type V = SessionView;

    open spec fn view(&self) -> SessionView {
        SessionView {
            port: self.port,
            redirect_uri: self.redirect_uri@,
            state: self.state@,
            code_verifier: self.code_verifier@,
        }
    }
}

/// The origin that a local port listens under.
pub open spec fn local_origin(port: u16) -> Seq<char> {
    "http://127.0.0.1:"@ + decimal(port as nat)
}

/// The session that is made of a port and two tokens.
pub open spec fn session_of(
    port: u16,
    state: Seq<char>,
    code_verifier: Seq<char>,
) -> SessionView {
    SessionView {
        port,
        redirect_uri: local_origin(port) + "/oauth2callback"@,
        state,
        code_verifier,
    }
}

/// A session as it is drawn for a port.
pub open spec fn is_fresh(session: SessionView, port: u16) -> bool {
    &&& session == session_of(port, session.state, session.code_verifier)
    &&& is_token(session.state, 48)
    &&& is_token(session.code_verifier, 96)
}

/// The page at Google that asks the user.
pub open spec fn authorization_page() -> Seq<char> {
    "https://accounts.google.com/o/oauth2/v2/auth"@
}

/// What the page at Google is asked for.
pub open spec fn authorization_fields(client_id: Seq<char>, session: SessionView) -> Seq<
    (Seq<char>, Seq<char>),
> {
    seq![
        ("client_id"@, client_id),
        ("redirect_uri"@, session.redirect_uri),
        ("response_type"@, "code"@),
        ("scope"@, "openid email profile"@),
        ("state"@, session.state),
        ("code_challenge"@, challenge_of(session.code_verifier)),
        ("code_challenge_method"@, "S256"@),
        ("access_type"@, "online"@),
        ("prompt"@, "select_account"@),
    ]
}

/// The address that the browser is sent to, or why there is none.
pub open spec fn authorization(client_id: Seq<char>, session: SessionView) -> Result<
    UrlParts,
    Seq<char>,
> {
    let fields = authorization_fields(client_id, session);
    match url_reading(authorization_page()) {
        Ok(parts) => Ok(
            UrlParts {
                text: url_text_with_fields(authorization_page(), fields),
                scheme: parts.scheme,
                host: parts.host,
                path: parts.path,
                pairs: fields,
            },
        ),
        Err(reason) => Err("Could not construct the Google authorization URL: "@ + reason),
    }
}

/// What a request to the local port means for the sign-in.
#[derive(Debug, PartialEq, Eq)]
pub enum Verdict {
    /// It is for something else: answer it and wait on.
    Ignore,
    /// It ends the sign-in without a code. `answered` says whether the browser
    /// still gets a page.
    Reject { message: String, answered: bool },
    /// It brings the authorization code.
    Accept { code: String },
}

/// [`Verdict`] over character sequences.
pub enum VerdictView {
    Ignore,
    Reject { message: Seq<char>, answered: bool },
    Accept { code: Seq<char> },
}

impl View for Verdict {
    type V = VerdictView;

    open spec fn view(&self) -> VerdictView {
        match self {
            Verdict::Ignore => VerdictView::Ignore,
            Verdict::Reject { message, answered } => VerdictView::Reject {
                message: message@,
                answered: *answered,
            },
            Verdict::Accept { code } => VerdictView::Accept { code: code@ },
        }
    }
}

/// What a callback address means for a session.
pub open spec fn verdict_on(session: SessionView, url: UrlParts) -> VerdictView {
    if url.path != "/oauth2callback"@ {
        VerdictView::Ignore
    } else if first_value(url.pairs, "state"@) != Some(session.state) {
        VerdictView::Reject {
            message: "Google sign-in returned an invalid state value."@,
            answered: true,
        }
    } else {
        match first_value(url.pairs, "error"@) {
            Some(error) => VerdictView::Reject {
                message: "Google sign-in was not completed: "@ + error,
                answered: true,
            },
            None => match first_value(url.pairs, "code"@) {
                Some(code) => VerdictView::Accept { code },
                None => VerdictView::Reject {
                    message: "Google did not return an authorization code."@,
                    answered: false,
                },
            },
        }
    }
}

/// What a request target means for a session, where the address it stands for
/// was read as `reading`.
pub open spec fn verdict_on_reading(
    session: SessionView,
    reading: Result<UrlParts, Seq<char>>,
) -> VerdictView {
    match reading {
        Ok(url) => verdict_on(session, url),
        Err(reason) => VerdictView::Reject {
            message: "The OAuth callback URL was invalid: "@ + reason,
            answered: false,
        },
    }
}

/// What the text of a request means for a session.
pub open spec fn verdict_on_request(session: SessionView, request: Seq<char>) -> VerdictView {
    match target_of(request) {
        Some(target) => verdict_on_reading(
            session,
            url_reading(local_origin(session.port) + target),
        ),
        None => VerdictView::Reject {
            message: "The OAuth callback request was malformed."@,
            answered: false,
        },
    }
}

impl Session {
    /// Makes a session of a port and two tokens.
    pub fn from_tokens(port: u16, state: String, code_verifier: String) -> (session: Session)
        ensures
            session@ == session_of(port, state@, code_verifier@),
    {
        let origin: String = join("http://127.0.0.1:", decimal_text(port as u64).as_str());
        let redirect_uri: String = join(origin.as_str(), "/oauth2callback");
        Session { port, redirect_uri, state, code_verifier }
    }

    /// Draws the tokens of a session for a port.
    pub fn begin(port: u16) -> (session: Session)
        ensures
            is_fresh(session@, port),
    {
        let state: String = random_token(48);
        let code_verifier: String = random_token(96);
        Session::from_tokens(port, state, code_verifier)
    }

    /// The address that asks Google to sign the user in for this session.
    pub fn authorization_url(&self, client_id: &str) -> (address: Result<WebUrl, String>)
        ensures
            reading_view(address) == authorization(client_id@, self@),
    {
        let mut fields: Vec<(String, String)> = Vec::new();
        fields.push(("client_id".to_owned(), client_id.to_owned()));
        fields.push(("redirect_uri".to_owned(), self.redirect_uri.clone()));
        fields.push(("response_type".to_owned(), "code".to_owned()));
        fields.push(("scope".to_owned(), "openid email profile".to_owned()));
        fields.push(("state".to_owned(), self.state.clone()));
        fields.push(("code_challenge".to_owned(), code_challenge(self.code_verifier.as_str())));
        fields.push(("code_challenge_method".to_owned(), "S256".to_owned()));
        fields.push(("access_type".to_owned(), "online".to_owned()));
        fields.push(("prompt".to_owned(), "select_account".to_owned()));
        proof {
            assert(pairs_view(fields@) =~= authorization_fields(client_id@, self@));
            reveal_strlit("https://accounts.google.com/o/oauth2/v2/auth");
        }
        match read_url_with_fields("https://accounts.google.com/o/oauth2/v2/auth", &fields) {
            Ok(url) => Ok(url),
            Err(reason) => Err(
                join("Could not construct the Google authorization URL: ", reason.as_str()),
            ),
        }
    }

    /// Decides what a callback address means for this session.
    pub fn judge(&self, url: &WebUrl) -> (verdict: Verdict)
        ensures
            verdict@ == verdict_on(self@, url@),
    {
        if !url.has_path("/oauth2callback") {
            return Verdict::Ignore;
        }
        let recognised: bool = match callback_value(url, "state") {
            Some(state) => state == self.state,
            None => false,
        };
        if !recognised {
            return Verdict::Reject {
                message: "Google sign-in returned an invalid state value.".to_owned(),
                answered: true,
            };
        }
        if let Some(error) = callback_value(url, "error") {
            return Verdict::Reject {
                message: join("Google sign-in was not completed: ", error.as_str()),
                answered: true,
            };
        }
        match callback_value(url, "code") {
            Some(code) => Verdict::Accept { code },
            None => Verdict::Reject {
                message: "Google did not return an authorization code.".to_owned(),
                answered: false,
            },
        }
    }

    /// Decides what a request target means for this session, once the address
    /// it stands for has been read, or could not be.
    pub fn judge_reading(&self, reading: Result<WebUrl, String>) -> (verdict: Verdict)
        ensures
            verdict@ == verdict_on_reading(self@, reading_view(reading)),
    {
        match reading {
            Ok(url) => self.judge(&url),
            Err(reason) => Verdict::Reject {
                message: join("The OAuth callback URL was invalid: ", reason.as_str()),
                answered: false,
            },
        }
    }

    /// Decides what the bytes of a request mean for this session.
    pub fn judge_request(&self, request: &[u8]) -> (verdict: Verdict)
        ensures
            verdict@ == verdict_on_request(self@, lossy_text(request@)),
            valid_utf8(request@) ==> verdict@ == verdict_on_request(self@, decode_utf8(request@)),
    {
        let text: String = text_of_bytes(request);
        match request_target(text.as_str()) {
            Some(target) => {
                let origin: String = join(
                    "http://127.0.0.1:",
                    decimal_text(self.port as u64).as_str(),
                );
                self.judge_reading(WebUrl::parse(join(origin.as_str(), target.as_str()).as_str()))
            },
            None => Verdict::Reject {
                message: "The OAuth callback request was malformed.".to_owned(),
                answered: false,
            },
        }
    }
}

/// A code is accepted only from the callback path, under the state of this very
/// session and without a reported error, and then it is the first code given.
pub proof fn code_is_accepted_only_for_its_session(
    session: SessionView,
    url: UrlParts,
    code: Seq<char>,
)
    ensures
        verdict_on(session, url) == (VerdictView::Accept { code }) <==> {
            &&& url.path == "/oauth2callback"@
            &&& first_value(url.pairs, "state"@) == Some(session.state)
            &&& first_value(url.pairs, "error"@) is None
            &&& first_value(url.pairs, "code"@) == Some(code)
        },
{
}

/// A return that carries the state of one session completes no session with
/// another state.
pub proof fn foreign_state_completes_nothing(
    own: SessionView,
    foreign: SessionView,
    url: UrlParts,
)
    requires
        own.state != foreign.state,
        first_value(url.pairs, "state"@) == Some(foreign.state),
    ensures
        verdict_on(own, url) !is Accept,
{
}

/// The names that the authorization address uses are all different.
proof fn field_names_differ()
    ensures
        forall|client_id: Seq<char>, session: SessionView, i: int, j: int|
            0 <= i < j < 9 ==> (#[trigger] authorization_fields(client_id, session)[i]).0 != (
            #[trigger] authorization_fields(client_id, session)[j]).0,
{
    reveal_strlit("client_id");
    reveal_strlit("redirect_uri");
    reveal_strlit("response_type");
    reveal_strlit("scope");
    reveal_strlit("state");
    reveal_strlit("code_challenge");
    reveal_strlit("code_challenge_method");
    reveal_strlit("access_type");
    reveal_strlit("prompt");
    assert("client_id"@.len() == 9);
    assert("redirect_uri"@.len() == 12);
    assert("response_type"@.len() == 13);
    assert("scope"@.len() == 5 && "scope"@[1] == 'c');
    assert("state"@.len() == 5 && "state"@[1] == 't');
    assert("code_challenge"@.len() == 14);
    assert("code_challenge_method"@.len() == 21);
    assert("access_type"@.len() == 11);
    assert("prompt"@.len() == 6);
}

/// Where no earlier pair has the same name, a pair is the one found under it.
proof fn value_is_found(pairs: Seq<(Seq<char>, Seq<char>)>, i: int)
    requires
        0 <= i < pairs.len(),
        forall|j: int| 0 <= j < i ==> (#[trigger] pairs[j]).0 != pairs[i].0,
    ensures
        first_value(pairs, pairs[i].0) == Some(pairs[i].1),
    decreases i,
{
    if i > 0 {
        assert(pairs[0].0 != pairs[i].0);
        assert forall|j: int| 0 <= j < i - 1 implies (
        #[trigger] pairs.drop_first()[j]).0 != pairs.drop_first()[i - 1].0 by {
            assert(pairs.drop_first()[j] == pairs[j + 1]);
        }
        value_is_found(pairs.drop_first(), i - 1);
    }
}

/// The address that the browser is sent to asks, in the query that is read back
/// from it, for this client, this session's return address and state, and the
/// S256 challenge of this session's verifier.
pub proof fn authorization_asks_for_its_session(
    client_id: Seq<char>,
    session: SessionView,
    address: UrlParts,
)
    requires
        authorization(client_id, session) == Ok::<UrlParts, Seq<char>>(address),
    ensures
        first_value(address.pairs, "client_id"@) == Some(client_id),
        first_value(address.pairs, "redirect_uri"@) == Some(session.redirect_uri),
        first_value(address.pairs, "response_type"@) == Some("code"@),
        first_value(address.pairs, "scope"@) == Some("openid email profile"@),
        first_value(address.pairs, "state"@) == Some(session.state),
        first_value(address.pairs, "code_challenge"@) == Some(
            challenge_of(session.code_verifier),
        ),
        first_value(address.pairs, "code_challenge_method"@) == Some("S256"@),
        first_value(address.pairs, "access_type"@) == Some("online"@),
        first_value(address.pairs, "prompt"@) == Some("select_account"@),
{
    field_names_differ();
    let fields = authorization_fields(client_id, session);
    assert(address.pairs == fields);
    value_is_found(fields, 0);
    value_is_found(fields, 1);
    value_is_found(fields, 2);
    value_is_found(fields, 3);
    value_is_found(fields, 4);
    value_is_found(fields, 5);
    value_is_found(fields, 6);
    value_is_found(fields, 7);
    value_is_found(fields, 8);
}

/// The return that Google sends the browser on, the redirect address with a
/// query behind it, is judged as that very address, whatever method, protocol
/// and header lines the request has.
pub proof fn return_is_judged_as_the_redirect_address(
    session: SessionView,
    query: Seq<char>,
    method: Seq<char>,
    protocol: Seq<char>,
    rest: Seq<char>,
)
    requires
        session == session_of(session.port, session.state, session.code_verifier),
        is_word(method),
        is_word("/oauth2callback"@ + query),
        forall|i: int| 0 <= i < protocol.len() ==> #[trigger] protocol[i] != '\n',
    ensures
        verdict_on_request(
            session,
            method + seq![' '] + ("/oauth2callback"@ + query) + seq![' '] + protocol + seq!['\n']
                + rest,
        ) == verdict_on_reading(session, url_reading(session.redirect_uri + query)),
{
    request_line_names_its_target(method, "/oauth2callback"@ + query, protocol, rest);
    assert(local_origin(session.port) + ("/oauth2callback"@ + query) =~= session.redirect_uri
        + query);
}

/// An address brings a code for a state: its path is that of the return, the state
/// stands first under `state`, nothing stands under `error`, and the code stands
/// first under `code`.
pub open spec fn brings_code(state: Seq<char>, url: UrlParts, code: Seq<char>) -> bool {
    &&& url.path == "/oauth2callback"@
    &&& stands_first(url.pairs, "state"@, state)
    &&& stands_nowhere(url.pairs, "error"@)
    &&& stands_first(url.pairs, "code"@, code)
}

/// An address ends a sign-in without a code, with this message, and the browser is
/// answered or not: the return has another state, or reports an error under the
/// state, or brings neither error nor code.
pub open spec fn brings_no_code(
    state: Seq<char>,
    url: UrlParts,
    message: Seq<char>,
    answered: bool,
) -> bool {
    &&& url.path == "/oauth2callback"@
    &&& {
        ||| {
            &&& !stands_first(url.pairs, "state"@, state)
            &&& message == "Google sign-in returned an invalid state value."@
            &&& answered
        }
        ||| {
            &&& stands_first(url.pairs, "state"@, state)
            &&& exists|error: Seq<char>| #[trigger]
                stands_first(url.pairs, "error"@, error) && message
                    == "Google sign-in was not completed: "@ + error
            &&& answered
        }
        ||| {
            &&& stands_first(url.pairs, "state"@, state)
            &&& stands_nowhere(url.pairs, "error"@)
            &&& stands_nowhere(url.pairs, "code"@)
            &&& message == "Google did not return an authorization code."@
            &&& !answered
        }
    }
}

/// A verdict is right for an address that came back under a state: a code is
/// accepted exactly where the address brings it, a request is ignored exactly
/// where it has another path, and every other ends the sign-in.
pub open spec fn is_right_verdict(state: Seq<char>, url: UrlParts, verdict: VerdictView) -> bool {
    &&& verdict is Ignore <==> url.path != "/oauth2callback"@
    &&& forall|code: Seq<char>|
        verdict == (VerdictView::Accept { code }) <==> #[trigger] brings_code(state, url, code)
    &&& forall|message: Seq<char>, answered: bool|
        verdict == (VerdictView::Reject { message, answered }) <==> #[trigger] brings_no_code(
            state,
            url,
            message,
            answered,
        )
}

/// A verdict stands for just what its fields hold.
pub proof fn verdict_is_its_fields(verdict: Verdict)
    ensures
        verdict is Ignore <==> verdict@ is Ignore,
        verdict is Accept <==> verdict@ is Accept,
        verdict is Reject <==> verdict@ is Reject,
        verdict matches Verdict::Accept { code } ==> verdict@ == (VerdictView::Accept {
            code: code@,
        }),
        verdict matches Verdict::Reject { message, answered } ==> verdict@ == (
        VerdictView::Reject { message: message@, answered }),
{
}

/// A session stands for just what its fields hold.
pub proof fn session_is_its_fields(session: Session)
    ensures
        session@.port == session.port,
        session@.redirect_uri == session.redirect_uri@,
        session@.state == session.state@,
        session@.code_verifier == session.code_verifier@,
{
}

/// The verdict on an address is right for the state of the session.
pub proof fn verdict_on_an_address_is_right(session: SessionView, url: UrlParts)
    ensures
        is_right_verdict(session.state, url, verdict_on(session, url)),
{
    first_value_is_the_first(url.pairs, "state"@);
    first_value_is_the_first(url.pairs, "error"@);
    first_value_is_the_first(url.pairs, "code"@);
    let verdict = verdict_on(session, url);
    let state = first_value(url.pairs, "state"@);
    let error = first_value(url.pairs, "error"@);
    let code = first_value(url.pairs, "code"@);
    assert(state == Some(session.state) <==> stands_first(url.pairs, "state"@, session.state));
    assert forall|text: Seq<char>|
        verdict == (VerdictView::Accept { code: text }) <==> #[trigger] brings_code(
            session.state,
            url,
            text,
        ) by {
        assert(code == Some(text) <==> stands_first(url.pairs, "code"@, text));
    }
    assert forall|message: Seq<char>, answered: bool|
        verdict == (VerdictView::Reject { message, answered }) <==> #[trigger] brings_no_code(
            session.state,
            url,
            message,
            answered,
        ) by {
        if let Some(text) = error {
            assert(stands_first(url.pairs, "error"@, text));
        }
        if brings_no_code(session.state, url, message, answered) && verdict_on(session, url)
            is Reject {
            assert forall|text: Seq<char>| #[trigger]
                stands_first(url.pairs, "error"@, text) implies error == Some(text) by {}
        }
    }
}

/// The text of a request asks a local port for an address that reads like this:
/// the second word of its first line, behind the origin of the port.
pub open spec fn asks_for(
    port: u16,
    request: Seq<char>,
    reading: Result<UrlParts, Seq<char>>,
) -> bool {
    exists|target: Seq<char>, number: Seq<char>|
        {
            &&& #[trigger] is_target(request, target)
            &&& #[trigger] writes_number(number, port as nat)
            &&& reading == url_reading("http://127.0.0.1:"@ + number + target)
        }
}

/// The text of a request asks for nothing: its first line has no second word.
pub open spec fn asks_for_nothing(request: Seq<char>) -> bool {
    forall|target: Seq<char>| !#[trigger] is_target(request, target)
}

/// The verdict on a request is right for the address that the request asks for:
/// its code is accepted exactly where the path is that of the return, the first
/// `state` is that of the session, no `error` is given, and it is the first
/// `code`. A request that asks for nothing, or for what is no address, ends the
/// sign-in without an answer.
pub proof fn verdict_on_a_request_is_right(
    session: SessionView,
    request: Seq<char>,
    reading: Result<UrlParts, Seq<char>>,
)
    ensures
        asks_for(session.port, request, reading) ==> match reading {
            Ok(url) => is_right_verdict(session.state, url, verdict_on_request(session, request)),
            Err(reason) => verdict_on_request(session, request) == (VerdictView::Reject {
                message: "The OAuth callback URL was invalid: "@ + reason,
                answered: false,
            }),
        },
        asks_for_nothing(request) ==> verdict_on_request(session, request) == (
        VerdictView::Reject {
            message: "The OAuth callback request was malformed."@,
            answered: false,
        }),
{
    target_is_the_second_word(request);
    decimal_writes_its_number(session.port as nat);
    if asks_for(session.port, request, reading) {
        let (target, number) = choose|target: Seq<char>, number: Seq<char>|
            {
                &&& #[trigger] is_target(request, target)
                &&& #[trigger] writes_number(number, session.port as nat)
                &&& reading == url_reading("http://127.0.0.1:"@ + number + target)
            };
        number_is_written_in_one_way(
            number,
            decimal(session.port as nat),
            session.port as nat,
        );
        assert(target_of(request) == Some(target));
        if let Ok(url) = reading {
            verdict_on_an_address_is_right(session, url);
        }
    }
    if asks_for_nothing(request) {
        if let Some(target) = target_of(request) {
            assert(is_target(request, target));
        }
    }
}

/// A code is accepted from a request exactly where the address that it asks for
/// has the path of the return, the first value under `state` is that of this very
/// session, no value stands under `error`, and it is the first value under `code`.
pub proof fn code_is_taken_from_the_return(
    session: SessionView,
    request: Seq<char>,
    url: UrlParts,
    code: Seq<char>,
)
    requires
        asks_for(session.port, request, Ok(url)),
    ensures
        verdict_on_request(session, request) == (VerdictView::Accept { code }) <==> {
            &&& url.path == "/oauth2callback"@
            &&& stands_first(url.pairs, "state"@, session.state)
            &&& stands_nowhere(url.pairs, "error"@)
            &&& stands_first(url.pairs, "code"@, code)
        },
{
    verdict_on_a_request_is_right(session, request, Ok(url));
    assert(brings_code(session.state, url, code) <==> verdict_on_request(session, request) == (
    VerdictView::Accept { code }));
}

/// [`Session::judge`] accepts a code exactly where the address has the path of the
/// return, the first value under `state` is that of the session, no value stands
/// under `error`, and it is the first value under `code`; it ignores exactly the
/// addresses with another path; and it rejects every other for its reason.
pub proof fn judge_is_right(session: Session, url: WebUrl, verdict: Verdict)
    requires
        call_ensures(Session::judge, (&session, &url), verdict),
    ensures
        verdict is Ignore <==> url.path@ != "/oauth2callback"@,
        forall|code: Seq<char>| #[trigger]
            brings_code(session.state@, url@, code) <==> (verdict matches Verdict::Accept {
                code: own,
            } && own@ == code),
        forall|text: Seq<char>, told: bool| #[trigger]
            brings_no_code(session.state@, url@, text, told) <==> (verdict matches
                Verdict::Reject { message, answered } && message@ == text && answered == told),
{
    verdict_on_an_address_is_right(session@, url@);
    right_verdict_is_right_in_its_fields(session.state@, url@, verdict);
}

/// What is right of the view of a verdict is right of its fields.
proof fn right_verdict_is_right_in_its_fields(state: Seq<char>, url: UrlParts, verdict: Verdict)
    requires
        is_right_verdict(state, url, verdict@),
    ensures
        verdict is Ignore <==> url.path != "/oauth2callback"@,
        forall|code: Seq<char>| #[trigger]
            brings_code(state, url, code) <==> (verdict matches Verdict::Accept { code: own }
                && own@ == code),
        forall|text: Seq<char>, told: bool| #[trigger]
            brings_no_code(state, url, text, told) <==> (verdict matches Verdict::Reject {
                message,
                answered,
            } && message@ == text && answered == told),
{
}

/// [`Session::judge_reading`] judges an address that was read as
/// [`Session::judge`] does, and rejects without an answer what is no address.
pub proof fn judge_reading_is_right(
    session: Session,
    reading: Result<WebUrl, String>,
    verdict: Verdict,
)
    requires
        call_ensures(Session::judge_reading, (&session, reading), verdict),
    ensures
        reading matches Ok(url) ==> {
            &&& verdict is Ignore <==> url.path@ != "/oauth2callback"@
            &&& forall|code: Seq<char>| #[trigger]
                brings_code(session.state@, url@, code) <==> (verdict matches Verdict::Accept {
                    code: own,
                } && own@ == code)
            &&& forall|text: Seq<char>, told: bool| #[trigger]
                brings_no_code(session.state@, url@, text, told) <==> (verdict matches
                    Verdict::Reject { message, answered } && message@ == text && answered == told)
        },
        reading matches Err(reason) ==> (verdict matches Verdict::Reject { message, answered }
            && message@ == "The OAuth callback URL was invalid: "@ + reason@ && !answered),
{
    if let Ok(url) = reading {
        verdict_on_an_address_is_right(session@, url@);
        right_verdict_is_right_in_its_fields(session.state@, url@, verdict);
    }
}

/// [`Session::judge_request`] judges the bytes of a request by the address that
/// their text asks the port of the session for: it accepts a code exactly where
/// that address brings it, ignores exactly the addresses with another path, and
/// rejects every other for its reason. It rejects without an answer a request that
/// asks for nothing, or for what is no address.
pub proof fn judge_request_is_right(
    session: Session,
    request: &[u8],
    verdict: Verdict,
    text: Seq<char>,
    reading: Result<UrlParts, Seq<char>>,
)
    requires
        call_ensures(Session::judge_request, (&session, request), verdict),
        text == lossy_text(request@) || (valid_utf8(request@) && text == decode_utf8(request@)),
    ensures
        asks_for(session.port, text, reading) ==> match reading {
            Ok(url) => {
                &&& verdict is Ignore <==> url.path != "/oauth2callback"@
                &&& forall|code: Seq<char>| #[trigger]
                    brings_code(session.state@, url, code) <==> (verdict matches
                        Verdict::Accept { code: own } && own@ == code)
                &&& forall|said: Seq<char>, told: bool| #[trigger]
                    brings_no_code(session.state@, url, said, told) <==> (verdict matches
                        Verdict::Reject { message, answered } && message@ == said && answered
                        == told)
            },
            Err(reason) => verdict matches Verdict::Reject { message, answered } && message@
                == "The OAuth callback URL was invalid: "@ + reason && !answered,
        },
        asks_for_nothing(text) ==> (verdict matches Verdict::Reject { message, answered }
            && message@ == "The OAuth callback request was malformed."@ && !answered),
{
    verdict_on_a_request_is_right(session@, text, reading);
    if asks_for(session.port, text, reading) {
        if let Ok(url) = reading {
            right_verdict_is_right_in_its_fields(session.state@, url, verdict);
        }
    }
}

/// An address is the one that a port is returned to: `/oauth2callback` at the
/// origin of that port.
pub open spec fn is_return_address(address: Seq<char>, port: u16) -> bool {
    exists|number: Seq<char>| #[trigger]
        writes_number(number, port as nat) && address == "http://127.0.0.1:"@ + number
            + "/oauth2callback"@
}

/// [`Session::from_tokens`] keeps the port and the two tokens, each in its place,
/// and has the browser return to that port.
pub proof fn session_keeps_its_tokens(
    port: u16,
    state: String,
    code_verifier: String,
    session: Session,
)
    requires
        call_ensures(Session::from_tokens, (port, state, code_verifier), session),
    ensures
        session.port == port,
        session.state@ == state@,
        session.code_verifier@ == code_verifier@,
        is_return_address(session.redirect_uri@, port),
{
    decimal_writes_its_number(port as nat);
}

/// [`Session::begin`] draws a state of 48 and a verifier of 96 letters and digits
/// and has the browser return to the port.
pub proof fn session_begins_with_fresh_tokens(port: u16, session: Session)
    requires
        call_ensures(Session::begin, (port,), session),
    ensures
        session.port == port,
        is_return_address(session.redirect_uri@, port),
        session.state@.len() == 48,
        forall|i: int| 0 <= i < 48 ==> {
            ||| 'a' <= #[trigger] session.state@[i] <= 'z'
            ||| 'A' <= session.state@[i] <= 'Z'
            ||| '0' <= session.state@[i] <= '9'
        },
        session.code_verifier@.len() == 96,
        forall|i: int| 0 <= i < 96 ==> {
            ||| 'a' <= #[trigger] session.code_verifier@[i] <= 'z'
            ||| 'A' <= session.code_verifier@[i] <= 'Z'
            ||| '0' <= session.code_verifier@[i] <= '9'
        },
{
    fresh_session_has_fresh_tokens(session@, port);
}

/// A fresh session has tokens of the right length and kind and returns to its
/// port.
pub proof fn fresh_session_has_fresh_tokens(session: SessionView, port: u16)
    requires
        is_fresh(session, port),
    ensures
        session.port == port,
        is_return_address(session.redirect_uri, port),
        session.state.len() == 48,
        forall|i: int| 0 <= i < 48 ==> {
            ||| 'a' <= #[trigger] session.state[i] <= 'z'
            ||| 'A' <= session.state[i] <= 'Z'
            ||| '0' <= session.state[i] <= '9'
        },
        session.code_verifier.len() == 96,
        forall|i: int| 0 <= i < 96 ==> {
            ||| 'a' <= #[trigger] session.code_verifier[i] <= 'z'
            ||| 'A' <= session.code_verifier[i] <= 'Z'
            ||| '0' <= session.code_verifier[i] <= '9'
        },
{
    decimal_writes_its_number(port as nat);
    assert(forall|i: int| 0 <= i < 48 ==> alphanumeric(#[trigger] session.state[i]));
    assert(forall|i: int| 0 <= i < 96 ==> alphanumeric(#[trigger] session.code_verifier[i]));
}

/// The address that the browser is sent to is what is written for Google's page
/// and nine fields: the client, the return address and the state of the session,
/// the S256 challenge of its verifier, and what is asked of every sign-in. Its
/// query reads back as the same fields. There is none exactly where Google's page
/// is no address.
pub proof fn authorization_is_written_for_its_session(client_id: Seq<char>, session: SessionView)
    ensures
        authorization(client_id, session) is Ok <==> url_reading(
            "https://accounts.google.com/o/oauth2/v2/auth"@,
        ) is Ok,
        authorization(client_id, session) matches Ok(address) ==> {
            let fields = seq![
                ("client_id"@, client_id),
                ("redirect_uri"@, session.redirect_uri),
                ("response_type"@, "code"@),
                ("scope"@, "openid email profile"@),
                ("state"@, session.state),
                (
                    "code_challenge"@,
                    base64url_text(sha256_digest(encode_utf8(session.code_verifier))),
                ),
                ("code_challenge_method"@, "S256"@),
                ("access_type"@, "online"@),
                ("prompt"@, "select_account"@),
            ];
            &&& address.text == url_text_with_fields(
                "https://accounts.google.com/o/oauth2/v2/auth"@,
                fields,
            )
            &&& address.pairs == fields
            &&& url_reading("https://accounts.google.com/o/oauth2/v2/auth"@) matches Ok(page)
            &&& address.scheme == page.scheme
            &&& address.host == page.host
            &&& address.path == page.path
        },
        authorization(client_id, session) matches Err(message) ==> url_reading(
            "https://accounts.google.com/o/oauth2/v2/auth"@,
        ) matches Err(reason) && message == "Could not construct the Google authorization URL: "@
            + reason,
{
}

/// [`Session::authorization_url`] gives the address whose text is what is written
/// for Google's page and nine fields: the client, the return address and the state
/// of the session, the S256 challenge of its verifier, and what is asked of every
/// sign-in. There is none exactly where Google's page is no address.
pub proof fn authorization_url_is_written_for_its_session(
    session: Session,
    client_id: &str,
    address: Result<WebUrl, String>,
)
    requires
        call_ensures(Session::authorization_url, (&session, client_id), address),
    ensures
        address is Ok <==> url_reading("https://accounts.google.com/o/oauth2/v2/auth"@) is Ok,
        address matches Ok(address) ==> {
            let fields = seq![
                ("client_id"@, client_id@),
                ("redirect_uri"@, session.redirect_uri@),
                ("response_type"@, "code"@),
                ("scope"@, "openid email profile"@),
                ("state"@, session.state@),
                (
                    "code_challenge"@,
                    base64url_text(sha256_digest(encode_utf8(session.code_verifier@))),
                ),
                ("code_challenge_method"@, "S256"@),
                ("access_type"@, "online"@),
                ("prompt"@, "select_account"@),
            ];
            &&& address.text@ == url_text_with_fields(
                "https://accounts.google.com/o/oauth2/v2/auth"@,
                fields,
            )
            &&& address@.pairs == fields
        },
        address matches Err(message) ==> (url_reading(
            "https://accounts.google.com/o/oauth2/v2/auth"@,
        ) matches Err(reason) && message@ == "Could not construct the Google authorization URL: "@
            + reason),
{
    authorization_is_written_for_its_session(client_id@, session@);
}

} // verus!
