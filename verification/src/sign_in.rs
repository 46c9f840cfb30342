//! The course of a sign-in, from the request for it to the one result that is
//! reported.
//!
//! [`SignIn`] says which outside event is awaited. [`SignIn::step`] takes the
//! event and names what has to be done next.
use vstd::prelude::*;
use vstd::utf8::{decode_utf8, encode_utf8, valid_utf8};

use crate::address::{option_view, url_reading, url_text_with_fields, UrlParts};
use crate::callback::{callback_page, lossy_text, page_response, responses_differ, target_of};
use crate::callback::{response_tells_how_the_sign_in_went, tells};
use crate::report::{error_fields, fields_script, oauth_error, oauth_success, success_fields};
use crate::report::{failure_has_no_code, success_has_no_error};
use crate::report::{failure_is_handed_over, reports_code, reports_error, success_is_handed_over};
use crate::report::{failure_is_told_from_success, reported_success_is_determined};
use crate::report::{has_member, read_script, script_reads_back, script_tail};
use crate::session::{authorization, is_fresh, local_origin, verdict_on_request};
use crate::session::{asks_for, asks_for_nothing, brings_code, brings_no_code};
use crate::session::{authorization_is_written_for_its_session, fresh_session_has_fresh_tokens};
use crate::session::{is_return_address, verdict_on_a_request_is_right};
use crate::session::{Session, SessionView, Verdict, VerdictView};
use crate::text::join;
use crate::token::{base64url_text, sha256_digest};

verus! {

/// How long the browser may take to return, in milliseconds.
pub const OAUTH_TIMEOUT_MILLIS: u64 = 300_000;

/// How long to pause before asking again for a connection, in milliseconds.
pub const POLL_PAUSE_MILLIS: u64 = 100;

/// How many bytes of a request are read.
pub const REQUEST_LIMIT: usize = 16_384;

/// Where a sign-in stands, by the event that it awaits.
#[derive(Debug, PartialEq, Eq)]
pub enum SignIn {
    /// A listener on a free local port is being bound.
    Binding { client_id: String },
    /// The listener is being set not to block.
    Configuring { client_id: String },
    /// The port of the listener is being read.
    Locating { client_id: String },
    /// The browser is being opened.
    Opening { session: Session },
    /// The clock is being read.
    Waiting { session: Session },
    /// The listener is being asked for a connection.
    Accepting { session: Session },
    /// The result has been reported.
    Finished,
}

/// What happened outside.
#[derive(Debug, PartialEq, Eq)]
pub enum Event {
    /// The listener was bound, or failed with this error.
    Bound { error: Option<String> },
    /// The listener was configured, or failed with this error.
    Configured { error: Option<String> },
    /// The listener has this port.
    Located { port: u16 },
    /// The port could not be read.
    NotLocated { failure: String },
    /// The browser was opened, or failed with this error.
    Opened { error: Option<String> },
    /// So much time has passed since the browser was opened.
    Clock { millis: u64 },
    /// No connection is there yet.
    NoConnection,
    /// The listener failed with this error.
    AcceptFailed { failure: String },
    /// A connection came and could not be read.
    ReadFailed { failure: String },
    /// A connection came with this request.
    Received { request: Vec<u8> },
}

/// What has to be done next.
#[derive(Debug, PartialEq, Eq)]
pub enum Action {
    /// Bind a listener to a free port of 127.0.0.1.
    Bind,
    /// Set the listener not to block.
    Configure,
    /// Read the port of the listener.
    Locate,
    /// Open the browser at this address.
    Open { address: String },
    /// Read the clock.
    ReadClock,
    /// Ask the listener for a connection.
    Accept,
    /// Sleep, then read the clock.
    Pause { millis: u64 },
    /// Write this response, then read the clock.
    Answer { response: Vec<u8> },
    /// Write this response, if there is one, then run this script in the page
    /// and let the next sign-in begin.
    Report { closing: Option<Vec<u8>>, script: String },
}

/// [`SignIn`] over mathematical values.
pub enum Stage {
    Binding { client_id: Seq<char> },
    Configuring { client_id: Seq<char> },
    Locating { client_id: Seq<char> },
    Opening { session: SessionView },
    Waiting { session: SessionView },
    Accepting { session: SessionView },
    Finished,
}

/// [`Event`] over mathematical values.
pub enum Happening {
    Bound { error: Option<Seq<char>> },
    Configured { error: Option<Seq<char>> },
    Located { port: u16 },
    NotLocated { failure: Seq<char> },
    Opened { error: Option<Seq<char>> },
    Clock { millis: u64 },
    NoConnection,
    AcceptFailed { failure: Seq<char> },
    ReadFailed { failure: Seq<char> },
    Received { request: Seq<u8> },
}

/// [`Action`] over mathematical values.
pub enum Deed {
    Bind,
    Configure,
    Locate,
    Open { address: Seq<char> },
    ReadClock,
    Accept,
    Pause { millis: u64 },
    Answer { response: Seq<u8> },
    Report { closing: Option<Seq<u8>>, script: Seq<char> },
}

impl View for SignIn {
    type V = Stage;

    open spec fn view(&self) -> Stage {
        match self {
            SignIn::Binding { client_id } => Stage::Binding { client_id: client_id@ },
            SignIn::Configuring { client_id } => Stage::Configuring { client_id: client_id@ },
            SignIn::Locating { client_id } => Stage::Locating { client_id: client_id@ },
            SignIn::Opening { session } => Stage::Opening { session: session@ },
            SignIn::Waiting { session } => Stage::Waiting { session: session@ },
            SignIn::Accepting { session } => Stage::Accepting { session: session@ },
            SignIn::Finished => Stage::Finished,
        }
    }
}

impl View for Event {
    type V = Happening;

    open spec fn view(&self) -> Happening {
        match self {
            Event::Bound { error } => Happening::Bound { error: option_view(*error) },
            Event::Configured { error } => Happening::Configured { error: option_view(*error) },
            Event::Located { port } => Happening::Located { port: *port },
            Event::NotLocated { failure } => Happening::NotLocated { failure: failure@ },
            Event::Opened { error } => Happening::Opened { error: option_view(*error) },
            Event::Clock { millis } => Happening::Clock { millis: *millis },
            Event::NoConnection => Happening::NoConnection,
            Event::AcceptFailed { failure } => Happening::AcceptFailed { failure: failure@ },
            Event::ReadFailed { failure } => Happening::ReadFailed { failure: failure@ },
            Event::Received { request } => Happening::Received { request: request@ },
        }
    }
}

impl View for Action {
    type V = Deed;

    open spec fn view(&self) -> Deed {
        match self {
            Action::Bind => Deed::Bind,
            Action::Configure => Deed::Configure,
            Action::Locate => Deed::Locate,
            Action::Open { address } => Deed::Open { address: address@ },
            Action::ReadClock => Deed::ReadClock,
            Action::Accept => Deed::Accept,
            Action::Pause { millis } => Deed::Pause { millis: *millis },
            Action::Answer { response } => Deed::Answer { response: response@ },
            Action::Report { closing, script } => Deed::Report {
                closing: match closing {
                    Some(closing) => Some(closing@),
                    None => None,
                },
                script: script@,
            },
        }
    }
}

/// Where a sign-in that was asked for stands at first, or the script that
/// refuses it.
#[derive(Debug, PartialEq, Eq)]
pub enum Start {
    /// Another sign-in is running: run this script in the page.
    Refuse { script: String },
    /// Bind a listener and go on with this.
    Begin { sign_in: SignIn },
}

/// Ends a sign-in with a message and no answer to any browser.
pub open spec fn failing(message: Seq<char>) -> (Stage, Deed) {
    (
        Stage::Finished,
        Deed::Report { closing: None, script: fields_script(error_fields(message)) },
    )
}

/// Opens the browser for a session, or fails where there is no address to open.
pub open spec fn opening(client_id: Seq<char>, session: SessionView) -> (Stage, Deed) {
    match authorization(client_id, session) {
        Ok(address) => (Stage::Opening { session }, Deed::Open { address: address.text }),
        Err(message) => failing(message),
    }
}

/// Follows a verdict on a request.
pub open spec fn following(session: SessionView, verdict: VerdictView) -> (Stage, Deed) {
    match verdict {
        VerdictView::Ignore => (
            Stage::Waiting { session },
            Deed::Answer { response: page_response(false) },
        ),
        VerdictView::Reject { message, answered } => (
            Stage::Finished,
            Deed::Report {
                closing: if answered {
                    Some(page_response(false))
                } else {
                    None
                },
                script: fields_script(error_fields(message)),
            },
        ),
        VerdictView::Accept { code } => (
            Stage::Finished,
            Deed::Report {
                closing: Some(page_response(true)),
                script: fields_script(
                    success_fields(code, session.code_verifier, session.redirect_uri),
                ),
            },
        ),
    }
}

/// What an awaited event leads to, and `None` for an event that is not awaited.
/// `fresh` is the session that is drawn once the port is known.
pub open spec fn next(stage: Stage, event: Happening, fresh: SessionView) -> Option<
    (Stage, Deed),
> {
    match (stage, event) {
        (Stage::Binding { client_id }, Happening::Bound { error }) => Some(
            match error {
                None => (Stage::Configuring { client_id }, Deed::Configure),
                Some(error) => failing("Could not start the OAuth callback listener: "@ + error),
            },
        ),
        (Stage::Configuring { client_id }, Happening::Configured { error }) => Some(
            match error {
                None => (Stage::Locating { client_id }, Deed::Locate),
                Some(error) => failing(
                    "Could not configure the OAuth callback listener: "@ + error,
                ),
            },
        ),
        (Stage::Locating { client_id }, Happening::Located { port }) => Some(
            opening(client_id, fresh),
        ),
        (Stage::Locating { client_id }, Happening::NotLocated { failure }) => Some(
            failing("Could not read the OAuth callback address: "@ + failure),
        ),
        (Stage::Opening { session }, Happening::Opened { error }) => Some(
            match error {
                None => (Stage::Waiting { session }, Deed::ReadClock),
                Some(error) => failing(
                    "Could not open Google sign-in in the browser: "@ + error,
                ),
            },
        ),
        (Stage::Waiting { session }, Happening::Clock { millis }) => Some(
            if millis < OAUTH_TIMEOUT_MILLIS {
                (Stage::Accepting { session }, Deed::Accept)
            } else {
                failing("Google sign-in timed out. Please try again."@)
            },
        ),
        (Stage::Accepting { session }, Happening::NoConnection) => Some(
            (Stage::Waiting { session }, Deed::Pause { millis: POLL_PAUSE_MILLIS }),
        ),
        (Stage::Accepting { session }, Happening::AcceptFailed { failure }) => Some(
            failing("The OAuth callback listener failed: "@ + failure),
        ),
        (Stage::Accepting { session }, Happening::ReadFailed { failure }) => Some(
            failing("Could not read the OAuth callback: "@ + failure),
        ),
        (Stage::Accepting { session }, Happening::Received { request }) => Some(
            following(session, verdict_on_request(session, lossy_text(request))),
        ),
        _ => None,
    }
}

/// An event is awaited at a stage.
pub open spec fn awaited(stage: Stage, event: Happening) -> bool {
    match stage {
        Stage::Binding { .. } => event is Bound,
        Stage::Configuring { .. } => event is Configured,
        Stage::Locating { .. } => event is Located || event is NotLocated,
        Stage::Opening { .. } => event is Opened,
        Stage::Waiting { .. } => event is Clock,
        Stage::Accepting { .. } => {
            ||| event is NoConnection
            ||| event is AcceptFailed
            ||| event is ReadFailed
            ||| event is Received
        },
        Stage::Finished => false,
    }
}

/// A session may have been drawn at an event: it is fresh for the port that the
/// event tells, if it tells one.
pub open spec fn may_draw(event: Happening, fresh: SessionView) -> bool {
    event matches Happening::Located { port } ==> is_fresh(fresh, port)
}

/// One step of a sign-in: an awaited event led from one stage to the next and
/// called for a deed.
pub open spec fn is_step(from: Stage, event: Happening, to: Stage, deed: Deed) -> bool {
    exists|fresh: SessionView| #[trigger]
        may_draw(event, fresh) && next(from, event, fresh) == Some((to, deed))
}

/// Ends a sign-in with a message that an error completes.
fn fail(reason: &str, error: &str) -> (outcome: (SignIn, Action))
    ensures
        (outcome.0@, outcome.1@) == failing(reason@ + error@),
{
    let script: String = oauth_error(join(reason, error).as_str());
    (SignIn::Finished, Action::Report { closing: None, script })
}

/// Opens the browser for a session, or fails where there is no address to open.
pub fn open_session(client_id: &str, session: Session) -> (outcome: (SignIn, Action))
    ensures
        (outcome.0@, outcome.1@) == opening(client_id@, session@),
{
    match session.authorization_url(client_id) {
        Ok(address) => (SignIn::Opening { session }, Action::Open { address: address.text }),
        Err(message) => {
            let script: String = oauth_error(message.as_str());
            (SignIn::Finished, Action::Report { closing: None, script })
        },
    }
}

/// Follows a verdict on a request.
pub fn follow(session: Session, verdict: Verdict) -> (outcome: (SignIn, Action))
    ensures
        (outcome.0@, outcome.1@) == following(session@, verdict@),
{
    match verdict {
        Verdict::Ignore => (
            SignIn::Waiting { session },
            Action::Answer { response: callback_page(false) },
        ),
        Verdict::Reject { message, answered } => {
            let script: String = oauth_error(message.as_str());
            if answered {
                (
                    SignIn::Finished,
                    Action::Report { closing: Some(callback_page(false)), script },
                )
            } else {
                (SignIn::Finished, Action::Report { closing: None, script })
            }
        },
        Verdict::Accept { code } => {
            let script: String = oauth_success(
                code.as_str(),
                session.code_verifier.as_str(),
                session.redirect_uri.as_str(),
            );
            (SignIn::Finished, Action::Report { closing: Some(callback_page(true)), script })
        },
    }
}

/// The place that a running sign-in takes. There is one.
#[derive(Debug, PartialEq, Eq)]
pub struct SignInSlot {
    /// A sign-in is running.
    pub running: bool,
}

impl SignInSlot {
    /// A sign-in that is requested now begins.
    pub open spec fn admits(self) -> bool {
        !self.running
    }

    /// Answers a request for a sign-in: it takes the place, or is refused where
    /// the place is taken.
    pub fn request(&mut self, client_id: String) -> (start: Start)
        ensures
            final(self).running,
            !old(self).admits() ==> (start matches Start::Refuse { script } && script@
                == fields_script(error_fields("A Google sign-in is already in progress."@))),
            old(self).admits() ==> (start matches Start::Begin { sign_in } && sign_in@
                == (Stage::Binding { client_id: client_id@ })),
            old(self).running ==> (start matches Start::Refuse { script } && reports_error(
                script@,
                "A Google sign-in is already in progress."@,
            )),
            !old(self).running ==> (start matches Start::Begin { sign_in } && sign_in matches
                SignIn::Binding { client_id: kept } && kept@ == client_id@),
    {
        proof {
            failure_is_handed_over("A Google sign-in is already in progress."@);
        }
        let taken: bool = self.running;
        self.running = true;
        if taken {
            Start::Refuse { script: oauth_error("A Google sign-in is already in progress.") }
        } else {
            Start::Begin { sign_in: SignIn::Binding { client_id } }
        }
    }

    /// Gives the place free, once a sign-in has reported.
    pub fn release(&mut self)
        ensures
            !final(self).running,
    {
        self.running = false;
    }
}

impl SignIn {
    /// Whether an event is one that this stage awaits.
    pub fn awaits(&self, event: &Event) -> (yes: bool)
        ensures
            yes == awaited(self@, event@),
    {
        match (self, event) {
            (SignIn::Binding { .. }, Event::Bound { .. }) => true,
            (SignIn::Configuring { .. }, Event::Configured { .. }) => true,
            (SignIn::Locating { .. }, Event::Located { .. }) => true,
            (SignIn::Locating { .. }, Event::NotLocated { .. }) => true,
            (SignIn::Opening { .. }, Event::Opened { .. }) => true,
            (SignIn::Waiting { .. }, Event::Clock { .. }) => true,
            (SignIn::Accepting { .. }, Event::NoConnection) => true,
            (SignIn::Accepting { .. }, Event::AcceptFailed { .. }) => true,
            (SignIn::Accepting { .. }, Event::ReadFailed { .. }) => true,
            (SignIn::Accepting { .. }, Event::Received { .. }) => true,
            _ => false,
        }
    }

    /// Takes an awaited event and names what has to be done next.
    pub fn step(self, event: Event) -> (outcome: (SignIn, Action))
        requires
            awaited(self@, event@),
        ensures
            is_step(self@, event@, outcome.0@, outcome.1@),
            self@ matches Stage::Accepting { session } ==> event@ matches Happening::Received {
                request,
            } ==> valid_utf8(request) ==> (outcome.0@, outcome.1@) == following(
                session,
                verdict_on_request(session, decode_utf8(request)),
            ),
    {
        let ghost from = self@;
        let ghost happening = event@;
        let ghost mut drawn = arbitrary::<SessionView>();
        let outcome: (SignIn, Action) = match (self, event) {
            (SignIn::Binding { client_id }, Event::Bound { error }) => match error {
                None => (SignIn::Configuring { client_id }, Action::Configure),
                Some(error) => fail(
                    "Could not start the OAuth callback listener: ",
                    error.as_str(),
                ),
            },
            (SignIn::Configuring { client_id }, Event::Configured { error }) => match error {
                None => (SignIn::Locating { client_id }, Action::Locate),
                Some(error) => fail(
                    "Could not configure the OAuth callback listener: ",
                    error.as_str(),
                ),
            },
            (SignIn::Locating { client_id }, Event::Located { port }) => {
                let session: Session = Session::begin(port);
                proof {
                    drawn = session@;
                }
                open_session(client_id.as_str(), session)
            },
            (SignIn::Locating { .. }, Event::NotLocated { failure }) => fail(
                "Could not read the OAuth callback address: ",
                failure.as_str(),
            ),
            (SignIn::Opening { session }, Event::Opened { error }) => match error {
                None => (SignIn::Waiting { session }, Action::ReadClock),
                Some(error) => fail(
                    "Could not open Google sign-in in the browser: ",
                    error.as_str(),
                ),
            },
            (SignIn::Waiting { session }, Event::Clock { millis }) => {
                if millis < OAUTH_TIMEOUT_MILLIS {
                    (SignIn::Accepting { session }, Action::Accept)
                } else {
                    let script: String = oauth_error(
                        "Google sign-in timed out. Please try again.",
                    );
                    (SignIn::Finished, Action::Report { closing: None, script })
                }
            },
            (SignIn::Accepting { session }, Event::NoConnection) => (
                SignIn::Waiting { session },
                Action::Pause { millis: POLL_PAUSE_MILLIS },
            ),
            (SignIn::Accepting { .. }, Event::AcceptFailed { failure }) => fail(
                "The OAuth callback listener failed: ",
                failure.as_str(),
            ),
            (SignIn::Accepting { .. }, Event::ReadFailed { failure }) => fail(
                "Could not read the OAuth callback: ",
                failure.as_str(),
            ),
            (SignIn::Accepting { session }, Event::Received { request }) => {
                let verdict: Verdict = session.judge_request(request.as_slice());
                follow(session, verdict)
            },
            // No other event is awaited.
            (stage, _) => (stage, Action::ReadClock),
        };
        assert(may_draw(happening, drawn));
        outcome
    }
}

/// What happens to the slot: a sign-in is requested, or a running one reports.
pub enum SlotEvent {
    Request,
    Report,
}

/// The slot after some events, and how many sign-ins are running then: a request
/// begins one where the slot admits it, and takes the slot in any case; a running
/// sign-in that reports ends and releases it.
pub open spec fn slot_after(events: Seq<SlotEvent>) -> (SignInSlot, nat)
    decreases events.len(),
{
    if events.len() == 0 {
        (SignInSlot { running: false }, 0)
    } else {
        let (slot, live) = slot_after(events.drop_last());
        match events.last() {
            SlotEvent::Request => (
                SignInSlot { running: true },
                if slot.admits() {
                    live + 1
                } else {
                    live
                },
            ),
            SlotEvent::Report => if live > 0 {
                (SignInSlot { running: false }, (live - 1) as nat)
            } else {
                (slot, live)
            },
        }
    }
}

/// However requests and reports follow each other, at most one sign-in runs, and
/// the slot is taken exactly while one does.
pub proof fn one_sign_in_at_a_time(events: Seq<SlotEvent>)
    ensures
        slot_after(events).1 <= 1,
        slot_after(events).0.running <==> slot_after(events).1 == 1,
    decreases events.len(),
{
    if events.len() > 0 {
        one_sign_in_at_a_time(events.drop_last());
    }
}

/// Every awaited event leads on, and no other does.
pub proof fn awaited_events_lead_on(stage: Stage, event: Happening, fresh: SessionView)
    ensures
        next(stage, event, fresh) is Some <==> awaited(stage, event),
{
}

/// A step reports a result exactly when it ends the sign-in.
pub proof fn reporting_ends_the_sign_in(from: Stage, event: Happening, to: Stage, deed: Deed)
    requires
        is_step(from, event, to, deed),
    ensures
        deed is Report <==> to is Finished,
        from !is Finished,
{
}

/// The sign-in times out exactly when the clock shows the limit or more.
pub proof fn timeout_is_exact(
    session: SessionView,
    millis: u64,
    to: Stage,
    deed: Deed,
)
    requires
        is_step(Stage::Waiting { session }, Happening::Clock { millis }, to, deed),
    ensures
        millis >= 300_000 ==> (to, deed) == failing(
            "Google sign-in timed out. Please try again."@,
        ),
        millis < 300_000 ==> to == (Stage::Accepting { session }) && deed is Accept,
{
}

/// The session of a stage that has one.
pub open spec fn session_at(stage: Stage) -> Option<SessionView> {
    match stage {
        Stage::Opening { session } => Some(session),
        Stage::Waiting { session } => Some(session),
        Stage::Accepting { session } => Some(session),
        _ => None,
    }
}

/// A session is drawn once the port is known, and for that port.
pub proof fn session_is_drawn_for_the_port(
    from: Stage,
    event: Happening,
    to: Stage,
    deed: Deed,
)
    requires
        is_step(from, event, to, deed),
        session_at(from) is None,
    ensures
        session_at(to) matches Some(session) ==> event matches Happening::Located { port }
            && is_fresh(session, port) && session.port == port,
{
}

/// A step that does not end the sign-in keeps its session.
pub proof fn steps_keep_the_session(from: Stage, event: Happening, to: Stage, deed: Deed)
    requires
        is_step(from, event, to, deed),
        session_at(from) is Some,
        to !is Finished,
    ensures
        session_at(to) == session_at(from),
{
}

/// The course of a sign-in for a client so far: the stages it went through, the
/// events that came between them and the deeds they called for.
pub open spec fn is_course(
    client_id: Seq<char>,
    stages: Seq<Stage>,
    events: Seq<Happening>,
    deeds: Seq<Deed>,
) -> bool {
    &&& stages.len() == events.len() + 1
    &&& deeds.len() == events.len()
    &&& stages[0] == (Stage::Binding { client_id })
    &&& forall|i: int|
        0 <= i < events.len() ==> is_step(stages[i], #[trigger] events[i], stages[i + 1], deeds[i])
}

/// A sign-in reports once: a report is the last deed of its course, and a
/// course that has ended has made one.
pub proof fn sign_in_reports_once(
    client_id: Seq<char>,
    stages: Seq<Stage>,
    events: Seq<Happening>,
    deeds: Seq<Deed>,
)
    requires
        is_course(client_id, stages, events, deeds),
    ensures
        forall|i: int|
            0 <= i < deeds.len() && #[trigger] deeds[i] is Report ==> i == deeds.len() - 1,
        stages.last() is Finished <==> deeds.len() > 0 && deeds.last() is Report,
{
    assert forall|i: int| 0 <= i < deeds.len() && #[trigger] deeds[i] is Report implies i
        == deeds.len() - 1 by {
        reporting_ends_the_sign_in(stages[i], events[i], stages[i + 1], deeds[i]);
        if i + 1 < events.len() {
            reporting_ends_the_sign_in(
                stages[i + 1],
                events[i + 1],
                stages[i + 2],
                deeds[i + 1],
            );
        }
    }
    if events.len() > 0 {
        let i = events.len() - 1;
        reporting_ends_the_sign_in(stages[i], events[i], stages[i + 1], deeds[i]);
    }
}

/// The text of a request names an address with another path than the one that
/// the browser is sent back to.
pub open spec fn has_another_path(session: SessionView, request: Seq<char>) -> bool {
    &&& target_of(request) matches Some(target)
    &&& url_reading(local_origin(session.port) + target) matches Ok(url)
    &&& url.path != "/oauth2callback"@
}

/// Every request that came before the last event of a course, and so every one
/// before a request that was accepted, had another path. It was answered that the
/// sign-in could not be completed, and the sign-in waited on with its session.
pub proof fn earlier_requests_had_another_path(
    client_id: Seq<char>,
    stages: Seq<Stage>,
    events: Seq<Happening>,
    deeds: Seq<Deed>,
    i: int,
    request: Seq<u8>,
)
    requires
        is_course(client_id, stages, events, deeds),
        0 <= i < events.len() - 1,
        events[i] == (Happening::Received { request }),
    ensures
        stages[i] matches Stage::Accepting { session } && has_another_path(
            session,
            lossy_text(request),
        ) && stages[i + 1] == (Stage::Waiting { session }),
        deeds[i] == (Deed::Answer { response: page_response(false) }),
{
    assert(is_step(stages[i], events[i], stages[i + 1], deeds[i]));
    assert(is_step(stages[i + 1], events[i + 1], stages[i + 2], deeds[i + 1]));
}

/// A request with another path changes nothing that follows: the course is one
/// that could have been had no connection come in its place, with the same stages
/// and, but for the answer to that request, the same deeds.
pub proof fn ignored_request_changes_nothing(
    client_id: Seq<char>,
    stages: Seq<Stage>,
    events: Seq<Happening>,
    deeds: Seq<Deed>,
    i: int,
    session: SessionView,
    request: Seq<u8>,
)
    requires
        is_course(client_id, stages, events, deeds),
        0 <= i < events.len(),
        stages[i] == (Stage::Accepting { session }),
        events[i] == (Happening::Received { request }),
        has_another_path(session, lossy_text(request)),
    ensures
        is_course(
            client_id,
            stages,
            events.update(i, Happening::NoConnection),
            deeds.update(i, Deed::Pause { millis: POLL_PAUSE_MILLIS }),
        ),
{
    let other_events = events.update(i, Happening::NoConnection);
    let other_deeds = deeds.update(i, Deed::Pause { millis: POLL_PAUSE_MILLIS });
    assert forall|k: int| 0 <= k < other_events.len() implies is_step(
        stages[k],
        #[trigger] other_events[k],
        stages[k + 1],
        other_deeds[k],
    ) by {
        assert(is_step(stages[k], events[k], stages[k + 1], deeds[k]));
        if k == i {
            assert(may_draw(Happening::NoConnection, session));
        }
    }
}

/// A script hands over an object that has a code or an error, and not both, and
/// nothing but its tail follows.
pub open spec fn code_or_error(script: Seq<char>) -> bool {
    &&& read_script(script) matches Some((detail, rest))
    &&& rest == script_tail()
    &&& has_member(detail, "code"@) <==> !has_member(detail, "error"@)
}

/// Whatever a sign-in reports, the page is given a code or an error, and never
/// both.
pub proof fn code_or_error_is_reported(
    from: Stage,
    event: Happening,
    to: Stage,
    deed: Deed,
    closing: Option<Seq<u8>>,
    script: Seq<char>,
)
    requires
        is_step(from, event, to, deed),
        deed == (Deed::Report { closing, script }),
    ensures
        code_or_error(script),
{
    assert forall|message: Seq<char>| script == #[trigger] fields_script(
        error_fields(message),
    ) implies code_or_error(script) by {
        script_reads_back(error_fields(message));
        failure_has_no_code(message);
    }
    if let Stage::Accepting { session } = from {
        if let Happening::Received { request } = event {
            if let VerdictView::Accept { code } = verdict_on_request(
                session,
                lossy_text(request),
            ) {
                script_reads_back(
                    success_fields(code, session.code_verifier, session.redirect_uri),
                );
                success_has_no_error(code, session.code_verifier, session.redirect_uri);
            }
        }
    }
}

/// What a stage of the course for a client has behind it: before there is a
/// session the client is kept, and a session was drawn afresh and the browser
/// was sent to the address that asks for it.
pub open spec fn stage_is_grounded(
    client_id: Seq<char>,
    stage: Stage,
    deeds: Seq<Deed>,
) -> bool {
    &&& stage matches Stage::Binding { client_id: kept } ==> kept == client_id
    &&& stage matches Stage::Configuring { client_id: kept } ==> kept == client_id
    &&& stage matches Stage::Locating { client_id: kept } ==> kept == client_id
    &&& session_at(stage) matches Some(session) ==> {
        &&& is_fresh(session, session.port)
        &&& authorization(client_id, session) matches Ok(address)
        &&& deeds.contains(Deed::Open { address: address.text })
    }
}

/// Whatever the course of a sign-in, a stage that has a session has a fresh one,
/// and before it the browser was opened at the address that asks for this client
/// and this session. So the verifier and the return address that a completed
/// sign-in reports are those that the address asked with.
pub proof fn sessions_are_grounded(
    client_id: Seq<char>,
    stages: Seq<Stage>,
    events: Seq<Happening>,
    deeds: Seq<Deed>,
    i: int,
)
    requires
        is_course(client_id, stages, events, deeds),
        0 <= i < stages.len(),
    ensures
        stage_is_grounded(client_id, stages[i], deeds.take(i)),
    decreases i,
{
    if i > 0 {
        sessions_are_grounded(client_id, stages, events, deeds, i - 1);
        assert(is_step(stages[i - 1], events[i - 1], stages[i], deeds[i - 1]));
        let before = deeds.take(i - 1);
        let after = deeds.take(i);
        assert(after[i - 1] == deeds[i - 1]);
        assert forall|deed: Deed| before.contains(deed) implies after.contains(deed) by {
            let k = choose|k: int| 0 <= k < before.len() && before[k] == deed;
            assert(after[k] == deed);
        }
    }
}

/// The browser is told of a completed sign-in only for a request that brings a
/// code under the session's own state, and then the page is given that code with
/// the session's verifier and return address.
pub proof fn success_is_reported_only_for_an_accepted_code(
    from: Stage,
    event: Happening,
    to: Stage,
    deed: Deed,
)
    requires
        is_step(from, event, to, deed),
        deed matches Deed::Report { closing: Some(response), .. } && response == page_response(
            true,
        ),
    ensures
        from matches Stage::Accepting { session } && event matches Happening::Received { request }
            && verdict_on_request(session, lossy_text(request)) matches VerdictView::Accept {
            code,
        } && deed == (Deed::Report {
            closing: Some(page_response(true)),
            script: fields_script(
                success_fields(code, session.code_verifier, session.redirect_uri),
            ),
        }),
{
    responses_differ();
}

/// The page is told of a completed sign-in only where a request brought that
/// code under the session's own state, and then with the session's own verifier
/// and return address.
pub proof fn reported_code_was_accepted(
    from: Stage,
    event: Happening,
    to: Stage,
    deed: Deed,
    code: Seq<char>,
    code_verifier: Seq<char>,
    redirect_uri: Seq<char>,
)
    requires
        is_step(from, event, to, deed),
        deed matches Deed::Report { script, .. } && script == fields_script(
            success_fields(code, code_verifier, redirect_uri),
        ),
    ensures
        from matches Stage::Accepting { session } && event matches Happening::Received { request }
            && verdict_on_request(session, lossy_text(request)) == (VerdictView::Accept { code })
            && code_verifier == session.code_verifier && redirect_uri == session.redirect_uri,
{
    let success = fields_script(success_fields(code, code_verifier, redirect_uri));
    assert forall|message: Seq<char>| #[trigger]
        fields_script(error_fields(message)) != success by {
        failure_is_told_from_success(message, code, code_verifier, redirect_uri);
    }
    if let Stage::Accepting { session } = from {
        if let Happening::Received { request } = event {
            if let VerdictView::Accept { code: brought } = verdict_on_request(
                session,
                lossy_text(request),
            ) {
                reported_success_is_determined(
                    brought,
                    session.code_verifier,
                    session.redirect_uri,
                    code,
                    code_verifier,
                    redirect_uri,
                );
            }
        }
    }
}

/// The slot admits a sign-in exactly while none is running.
pub proof fn slot_admits_one(slot: SignInSlot)
    ensures
        slot.admits() <==> !slot.running,
{
}

/// Two sessions are the same in every field.
pub open spec fn is_same_session(session: Session, other: Session) -> bool {
    &&& session.port == other.port
    &&& session.redirect_uri@ == other.redirect_uri@
    &&& session.state@ == other.state@
    &&& session.code_verifier@ == other.code_verifier@
}

/// The sign-in has ended, the page is told this message as an error, and no browser
/// is answered.
pub open spec fn ends_with_error(outcome: (SignIn, Action), message: Seq<char>) -> bool {
    &&& outcome.0 is Finished
    &&& outcome.1 matches Action::Report { closing, script }
    &&& closing is None
    &&& reports_error(script@, message)
}

/// The browser is being opened, for this session, at what is written for Google's
/// page and the nine fields that ask for this client and this session.
pub open spec fn opens_browser(
    outcome: (SignIn, Action),
    client_id: Seq<char>,
    session: SessionView,
) -> bool {
    &&& outcome.0 matches SignIn::Opening { session: kept }
    &&& kept@ == session
    &&& outcome.1 matches Action::Open { address }
    &&& address@ == url_text_with_fields(
        "https://accounts.google.com/o/oauth2/v2/auth"@,
        seq![
            ("client_id"@, client_id),
            ("redirect_uri"@, session.redirect_uri),
            ("response_type"@, "code"@),
            ("scope"@, "openid email profile"@),
            ("state"@, session.state),
            (
                "code_challenge"@,
                base64url_text(sha256_digest(encode_utf8(session.code_verifier))),
            ),
            ("code_challenge_method"@, "S256"@),
            ("access_type"@, "online"@),
            ("prompt"@, "select_account"@),
        ],
    )
}

/// The outcome of opening the browser for a session, or of failing where Google's
/// page is no address.
pub open spec fn opens_or_fails(
    outcome: (SignIn, Action),
    client_id: Seq<char>,
    session: SessionView,
) -> bool {
    match url_reading("https://accounts.google.com/o/oauth2/v2/auth"@) {
        Ok(_) => opens_browser(outcome, client_id, session),
        Err(reason) => ends_with_error(
            outcome,
            "Could not construct the Google authorization URL: "@ + reason,
        ),
    }
}

/// A report of a failure ends the sign-in with its message.
proof fn failing_ends_with_error(outcome: (SignIn, Action), message: Seq<char>)
    requires
        (outcome.0@, outcome.1@) == failing(message),
    ensures
        ends_with_error(outcome, message),
{
    failure_is_handed_over(message);
}

/// What opens the browser for a session opens it at the address for that session.
proof fn opening_opens_or_fails(
    outcome: (SignIn, Action),
    client_id: Seq<char>,
    session: SessionView,
)
    requires
        (outcome.0@, outcome.1@) == opening(client_id, session),
    ensures
        opens_or_fails(outcome, client_id, session),
{
    authorization_is_written_for_its_session(client_id, session);
    if let Err(message) = authorization(client_id, session) {
        failing_ends_with_error(outcome, message);
    }
}

/// [`open_session`] opens the browser at what is written for Google's page and the
/// nine fields that ask for this client and this session, and fails exactly where
/// that page is no address.
pub proof fn browser_is_opened_for_the_session(
    client_id: &str,
    session: Session,
    outcome: (SignIn, Action),
)
    requires
        call_ensures(open_session, (client_id, session), outcome),
    ensures
        opens_or_fails(outcome, client_id@, session@),
{
    opening_opens_or_fails(outcome, client_id@, session@);
}

/// [`follow`] answers an ignored request that the sign-in could not be completed
/// and waits on with the same session. It ends a rejected one with its message, and
/// answers the browser where the verdict says so. It ends an accepted one by telling
/// the browser that the sign-in is complete and giving the page the code with the
/// verifier and the return address of the session.
pub proof fn verdict_is_followed(session: Session, verdict: Verdict, outcome: (SignIn, Action))
    requires
        call_ensures(follow, (session, verdict), outcome),
    ensures
        verdict is Ignore ==> {
            &&& outcome.0 matches SignIn::Waiting { session: kept }
            &&& is_same_session(kept, session)
            &&& outcome.1 matches Action::Answer { response }
            &&& tells(response@, false)
        },
        verdict matches Verdict::Reject { message, answered } ==> {
            &&& outcome.0 is Finished
            &&& outcome.1 matches Action::Report { closing, script }
            &&& reports_error(script@, message@)
            &&& answered <==> closing is Some
            &&& closing matches Some(response) ==> tells(response@, false)
        },
        verdict matches Verdict::Accept { code } ==> {
            &&& outcome.0 is Finished
            &&& outcome.1 matches Action::Report { closing, script }
            &&& reports_code(
                script@,
                code@,
                session.code_verifier@,
                session.redirect_uri@,
            )
            &&& closing matches Some(response)
            &&& tells(response@, true)
        },
{
    response_tells_how_the_sign_in_went(true);
    response_tells_how_the_sign_in_went(false);
    if let Verdict::Reject { message, answered } = verdict {
        failure_is_handed_over(message@);
    }
    if let Verdict::Accept { code } = verdict {
        success_is_handed_over(code@, session.code_verifier@, session.redirect_uri@);
    }
}

/// [`SignIn::step`] configures a listener that was bound, reads the port of one that
/// was configured, and ends with the error of one that was not; the client is kept.
pub proof fn listener_is_prepared(sign_in: SignIn, event: Event, outcome: (SignIn, Action))
    requires
        call_ensures(SignIn::step, (sign_in, event), outcome),
    ensures
        sign_in matches SignIn::Binding { client_id } ==> event matches Event::Bound { error }
            ==> match error {
            None => {
                &&& outcome.0 matches SignIn::Configuring { client_id: kept }
                &&& kept@ == client_id@
                &&& outcome.1 is Configure
            },
            Some(error) => ends_with_error(
                outcome,
                "Could not start the OAuth callback listener: "@ + error@,
            ),
        },
        sign_in matches SignIn::Configuring { client_id } ==> event matches Event::Configured {
            error,
        } ==> match error {
            None => {
                &&& outcome.0 matches SignIn::Locating { client_id: kept }
                &&& kept@ == client_id@
                &&& outcome.1 is Locate
            },
            Some(error) => ends_with_error(
                outcome,
                "Could not configure the OAuth callback listener: "@ + error@,
            ),
        },
        sign_in is Locating ==> (event matches Event::NotLocated { failure } ==> ends_with_error(
            outcome,
            "Could not read the OAuth callback address: "@ + failure@,
        )),
{
    if let SignIn::Binding { client_id } = sign_in {
        if let Event::Bound { error: Some(error) } = event {
            failing_ends_with_error(
                outcome,
                "Could not start the OAuth callback listener: "@ + error@,
            );
        }
    }
    if let SignIn::Configuring { client_id } = sign_in {
        if let Event::Configured { error: Some(error) } = event {
            failing_ends_with_error(
                outcome,
                "Could not configure the OAuth callback listener: "@ + error@,
            );
        }
    }
    if let SignIn::Locating { client_id } = sign_in {
        if let Event::NotLocated { failure } = event {
            failing_ends_with_error(
                outcome,
                "Could not read the OAuth callback address: "@ + failure@,
            );
        }
    }
}

/// [`SignIn::step`] draws a session for the port of the listener, with a state of 48
/// and a verifier of 96 letters and digits, and opens the browser at the address
/// that asks Google for the client and that session.
pub proof fn browser_is_opened_once_the_port_is_known(
    client_id: String,
    port: u16,
    outcome: (SignIn, Action),
)
    requires
        call_ensures(
            SignIn::step,
            (SignIn::Locating { client_id }, Event::Located { port }),
            outcome,
        ),
    ensures
        exists|session: SessionView|
            {
                &&& #[trigger] opens_or_fails(outcome, client_id@, session)
                &&& session.port == port
                &&& is_return_address(session.redirect_uri, port)
                &&& session.state.len() == 48
                &&& forall|i: int| 0 <= i < 48 ==> {
                    ||| 'a' <= #[trigger] session.state[i] <= 'z'
                    ||| 'A' <= session.state[i] <= 'Z'
                    ||| '0' <= session.state[i] <= '9'
                }
                &&& session.code_verifier.len() == 96
                &&& forall|i: int| 0 <= i < 96 ==> {
                    ||| 'a' <= #[trigger] session.code_verifier[i] <= 'z'
                    ||| 'A' <= session.code_verifier[i] <= 'Z'
                    ||| '0' <= session.code_verifier[i] <= '9'
                }
            },
{
    let from = Stage::Locating { client_id: client_id@ };
    let event = Happening::Located { port };
    let fresh = choose|fresh: SessionView| #[trigger]
        may_draw(event, fresh) && next(from, event, fresh) == Some((outcome.0@, outcome.1@));
    fresh_session_has_fresh_tokens(fresh, port);
    opening_opens_or_fails(outcome, client_id@, fresh);
}

/// [`SignIn::step`] keeps its session while it waits: it reads the clock once the
/// browser is open, asks for a connection before 300 seconds have passed, pauses for
/// 100 milliseconds where none has come, and ends with the error of whatever failed,
/// or because the time is over.
pub proof fn sign_in_waits_for_the_browser(
    sign_in: SignIn,
    event: Event,
    outcome: (SignIn, Action),
)
    requires
        call_ensures(SignIn::step, (sign_in, event), outcome),
    ensures
        sign_in matches SignIn::Opening { session } ==> event matches Event::Opened { error }
            ==> match error {
            None => {
                &&& outcome.0 matches SignIn::Waiting { session: kept }
                &&& is_same_session(kept, session)
                &&& outcome.1 is ReadClock
            },
            Some(error) => ends_with_error(
                outcome,
                "Could not open Google sign-in in the browser: "@ + error@,
            ),
        },
        sign_in matches SignIn::Waiting { session } ==> event matches Event::Clock { millis }
            ==> if millis < 300 * 1000 {
            &&& outcome.0 matches SignIn::Accepting { session: kept }
            &&& is_same_session(kept, session)
            &&& outcome.1 is Accept
        } else {
            ends_with_error(outcome, "Google sign-in timed out. Please try again."@)
        },
        sign_in matches SignIn::Accepting { session } ==> event is NoConnection ==> {
            &&& outcome.0 matches SignIn::Waiting { session: kept }
            &&& is_same_session(kept, session)
            &&& outcome.1 matches Action::Pause { millis }
            &&& millis == 100
        },
        sign_in is Accepting ==> (event matches Event::AcceptFailed { failure } ==> ends_with_error(
            outcome,
            "The OAuth callback listener failed: "@ + failure@,
        )),
        sign_in is Accepting ==> (event matches Event::ReadFailed { failure } ==> ends_with_error(
            outcome,
            "Could not read the OAuth callback: "@ + failure@,
        )),
{
    if let SignIn::Opening { session } = sign_in {
        if let Event::Opened { error: Some(error) } = event {
            failing_ends_with_error(
                outcome,
                "Could not open Google sign-in in the browser: "@ + error@,
            );
        }
    }
    if let SignIn::Waiting { session } = sign_in {
        if let Event::Clock { millis } = event {
            if millis >= 300_000 {
                failing_ends_with_error(
                    outcome,
                    "Google sign-in timed out. Please try again."@,
                );
            }
        }
    }
    if let SignIn::Accepting { session } = sign_in {
        if let Event::AcceptFailed { failure } = event {
            failing_ends_with_error(outcome, "The OAuth callback listener failed: "@ + failure@);
        }
        if let Event::ReadFailed { failure } = event {
            failing_ends_with_error(outcome, "Could not read the OAuth callback: "@ + failure@);
        }
    }
}

/// [`SignIn::step`] follows the address that a request asks for. One with another path
/// is answered that the sign-in could not be completed, and the sign-in waits on with
/// its session. One that brings a code under the state of the session ends the
/// sign-in: the browser is told that it is complete, and the page is given that code
/// with the verifier and the return address of the session. Every other ends it with
/// its error.
pub proof fn return_is_followed(
    session: Session,
    request: Vec<u8>,
    outcome: (SignIn, Action),
    text: Seq<char>,
    reading: Result<UrlParts, Seq<char>>,
)
    requires
        call_ensures(
            SignIn::step,
            (SignIn::Accepting { session }, Event::Received { request }),
            outcome,
        ),
        text == lossy_text(request@) || (valid_utf8(request@) && text == decode_utf8(request@)),
    ensures
        asks_for(session.port, text, reading) ==> match reading {
            Ok(url) => {
                &&& url.path != "/oauth2callback"@ ==> {
                    &&& outcome.0 matches SignIn::Waiting { session: kept }
                    &&& is_same_session(kept, session)
                    &&& outcome.1 matches Action::Answer { response }
                    &&& tells(response@, false)
                }
                &&& forall|code: Seq<char>| #[trigger]
                    brings_code(session.state@, url, code) ==> {
                        &&& outcome.0 is Finished
                        &&& outcome.1 matches Action::Report { closing, script }
                        &&& reports_code(
                            script@,
                            code,
                            session.code_verifier@,
                            session.redirect_uri@,
                        )
                        &&& closing matches Some(response)
                        &&& tells(response@, true)
                    }
                &&& forall|message: Seq<char>, answered: bool| #[trigger]
                    brings_no_code(session.state@, url, message, answered) ==> {
                        &&& outcome.0 is Finished
                        &&& outcome.1 matches Action::Report { closing, script }
                        &&& reports_error(script@, message)
                        &&& answered <==> closing is Some
                        &&& closing matches Some(response) ==> tells(response@, false)
                    }
            },
            Err(reason) => ends_with_error(
                outcome,
                "The OAuth callback URL was invalid: "@ + reason,
            ),
        },
        asks_for_nothing(text) ==> ends_with_error(
            outcome,
            "The OAuth callback request was malformed."@,
        ),
{
    let verdict = verdict_on_request(session@, text);
    assert((outcome.0@, outcome.1@) == following(session@, verdict));
    verdict_on_a_request_is_right(session@, text, reading);
    response_tells_how_the_sign_in_went(true);
    response_tells_how_the_sign_in_went(false);
    match verdict {
        VerdictView::Ignore => {},
        VerdictView::Reject { message, answered } => {
            failure_is_handed_over(message);
        },
        VerdictView::Accept { code } => {
            success_is_handed_over(code, session@.code_verifier, session@.redirect_uri);
        },
    }
}

/// [`SignIn::awaits`] holds of an event exactly where it answers what the stage waits
/// for.
pub proof fn stage_awaits_its_answer(sign_in: SignIn, event: Event, yes: bool)
    requires
        call_ensures(SignIn::awaits, (&sign_in, &event), yes),
    ensures
        yes <==> {
            ||| sign_in is Binding && event is Bound
            ||| sign_in is Configuring && event is Configured
            ||| sign_in is Locating && (event is Located || event is NotLocated)
            ||| sign_in is Opening && event is Opened
            ||| sign_in is Waiting && event is Clock
            ||| sign_in is Accepting && (event is NoConnection || event is AcceptFailed || event
                is ReadFailed || event is Received)
        },
{
}

/// A sign-in takes up to five minutes, looks for the browser ten times a second and
/// reads 16 KiB of a request.
pub proof fn limits_of_a_sign_in()
    ensures
        OAUTH_TIMEOUT_MILLIS == 5 * 60 * 1000,
        POLL_PAUSE_MILLIS * 10 == 1000,
        REQUEST_LIMIT == 16 * 1024,
{
}

} // verus!
