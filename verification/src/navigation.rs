//! Which addresses stay in the window, which start a sign-in, which are handed
//! to the system and which are dropped.
use vstd::prelude::*;

use crate::address::{callback_value, first_value, option_view};
use crate::address::{first_value_is_the_first, stands_first, UrlParts, WebUrl};
use crate::text::{closes_with, closing_is_what_follows_the_front, ends_with};

verus! {

/// The address that the window opens with.
pub const APP_ORIGIN: &'static str = "https://ilegallearn.com";

/// An address of the application itself.
pub open spec fn internal(url: UrlParts) -> bool {
    url.scheme == "https"@ && url.host == Some("ilegallearn.com"@)
}

/// An address that the system has a handler for.
pub open spec fn for_system(url: UrlParts) -> bool {
    ||| url.scheme == "http"@
    ||| url.scheme == "https"@
    ||| url.scheme == "mailto"@
    ||| url.scheme == "tel"@
}

/// An address that the payment form opens for itself.
pub open spec fn payment_frame(url: UrlParts) -> bool {
    &&& url.scheme == "https"@
    &&& url.host == Some("api.razorpay.com"@) || url.host == Some("checkout.razorpay.com"@)
}

/// An address by which the page asks the shell to start a sign-in.
pub open spec fn sign_in_bridge(url: UrlParts) -> bool {
    &&& url.scheme == "ilegallearn-desktop"@
    &&& url.host == Some("oauth"@)
    &&& url.path == "/start"@
}

/// The client for which an address asks to start a sign-in: the first
/// `client_id` of a bridge address, where it names a Google client.
pub open spec fn sign_in_client(url: UrlParts) -> Option<Seq<char>> {
    if !sign_in_bridge(url) {
        None
    } else {
        match first_value(url.pairs, "client_id"@) {
            Some(id) => if closes_with(id, ".apps.googleusercontent.com"@) {
                Some(id)
            } else {
                None
            },
            None => None,
        }
    }
}

/// Whether an address belongs to the application.
pub fn is_internal_url(url: &WebUrl) -> (yes: bool)
    ensures
        yes == internal(url@),
{
    url.has_scheme("https") && url.has_host("ilegallearn.com")
}

/// Whether the system may be asked to open an address.
pub fn is_system_url(url: &WebUrl) -> (yes: bool)
    ensures
        yes == for_system(url@),
{
    url.has_scheme("http") || url.has_scheme("https") || url.has_scheme("mailto")
        || url.has_scheme("tel")
}

/// Whether an address belongs to the embedded payment form.
pub fn is_razorpay_embedded_url(url: &WebUrl) -> (yes: bool)
    ensures
        yes == payment_frame(url@),
{
    url.has_scheme("https") && (url.has_host("api.razorpay.com") || url.has_host(
        "checkout.razorpay.com",
    ))
}

/// The Google client for which an address asks to start a sign-in.
pub fn desktop_oauth_client_id(url: &WebUrl) -> (client_id: Option<String>)
    ensures
        option_view(client_id) == sign_in_client(url@),
{
    if !url.has_scheme("ilegallearn-desktop") || !url.has_host("oauth") || !url.has_path(
        "/start",
    ) {
        return None;
    }
    match callback_value(url, "client_id") {
        Some(id) => if ends_with(id.as_str(), ".apps.googleusercontent.com") {
            Some(id)
        } else {
            None
        },
        None => None,
    }
}

/// What becomes of an address that leaves the window.
#[derive(Debug, PartialEq, Eq)]
pub enum ExternalDecision {
    /// The system opens it.
    Open(String),
    /// Nothing opens it.
    Block(String),
}

/// What becomes of an address that the window is about to show.
#[derive(Debug, PartialEq, Eq)]
pub enum NavigationDecision {
    /// The window shows it.
    Stay,
    /// The window keeps its page and a sign-in starts for this client.
    SignIn(String),
    /// The window keeps its page and the address is treated as external.
    Leave(ExternalDecision),
}

/// What becomes of an address that a page wants a new window for. No decision
/// opens one.
#[derive(Debug, PartialEq, Eq)]
pub enum NewWindowDecision {
    /// The payment form opens it inside the page.
    Ignore(String),
    /// The address is treated as external.
    Leave(ExternalDecision),
}

/// [`ExternalDecision`] over character sequences.
pub enum ExternalFate {
    Open(Seq<char>),
    Block(Seq<char>),
}

/// [`NavigationDecision`] over character sequences.
pub enum NavigationFate {
    Stay,
    SignIn(Seq<char>),
    Leave(ExternalFate),
}

/// [`NewWindowDecision`] over character sequences.
pub enum NewWindowFate {
    Ignore(Seq<char>),
    Leave(ExternalFate),
}

impl View for ExternalDecision {
    type V = ExternalFate;

    open spec fn view(&self) -> ExternalFate {
        match self {
            ExternalDecision::Open(text) => ExternalFate::Open(text@),
            ExternalDecision::Block(text) => ExternalFate::Block(text@),
        }
    }
}

impl View for NavigationDecision {
    type V = NavigationFate;

    open spec fn view(&self) -> NavigationFate {
        match self {
            NavigationDecision::Stay => NavigationFate::Stay,
            NavigationDecision::SignIn(id) => NavigationFate::SignIn(id@),
            NavigationDecision::Leave(external) => NavigationFate::Leave(external@),
        }
    }
}

impl View for NewWindowDecision {
    type V = NewWindowFate;

    open spec fn view(&self) -> NewWindowFate {
        match self {
            NewWindowDecision::Ignore(text) => NewWindowFate::Ignore(text@),
            NewWindowDecision::Leave(external) => NewWindowFate::Leave(external@),
        }
    }
}

/// What becomes of an external address: the system opens it if it has a handler
/// for it.
pub open spec fn external_fate(url: UrlParts) -> ExternalFate {
    if for_system(url) {
        ExternalFate::Open(url.text)
    } else {
        ExternalFate::Block(url.text)
    }
}

/// What becomes of an address that the window is about to show.
pub open spec fn navigation_fate(url: UrlParts) -> NavigationFate {
    if internal(url) {
        NavigationFate::Stay
    } else {
        match sign_in_client(url) {
            Some(id) => NavigationFate::SignIn(id),
            None => NavigationFate::Leave(external_fate(url)),
        }
    }
}

/// What becomes of an address that a page wants a new window for.
pub open spec fn new_window_fate(url: UrlParts) -> NewWindowFate {
    if payment_frame(url) {
        NewWindowFate::Ignore(url.text)
    } else {
        NewWindowFate::Leave(external_fate(url))
    }
}

/// Decides what becomes of an external address.
pub fn open_with_system(url: WebUrl) -> (decision: ExternalDecision)
    ensures
        decision@ == external_fate(url@),
{
    if is_system_url(&url) {
        ExternalDecision::Open(url.text)
    } else {
        ExternalDecision::Block(url.text)
    }
}

/// Decides what becomes of an address that the window is about to show.
pub fn decide_navigation(url: WebUrl) -> (decision: NavigationDecision)
    ensures
        decision@ == navigation_fate(url@),
{
    if is_internal_url(&url) {
        return NavigationDecision::Stay;
    }
    match desktop_oauth_client_id(&url) {
        Some(id) => NavigationDecision::SignIn(id),
        None => NavigationDecision::Leave(open_with_system(url)),
    }
}

/// Decides what becomes of an address that a page wants a new window for.
pub fn decide_new_window(url: WebUrl) -> (decision: NewWindowDecision)
    ensures
        decision@ == new_window_fate(url@),
{
    if is_razorpay_embedded_url(&url) {
        NewWindowDecision::Ignore(url.text)
    } else {
        NewWindowDecision::Leave(open_with_system(url))
    }
}

/// Whether a page event calls for the PDF bridge: an application page has
/// finished loading.
pub fn needs_pdf_bridge(finished: bool, url: &WebUrl) -> (yes: bool)
    ensures
        yes == (finished && internal(url@)),
{
    finished && is_internal_url(url)
}

/// The schemes that decisions tell apart are different texts.
proof fn schemes_differ()
    ensures
        "ilegallearn-desktop"@ != "http"@,
        "ilegallearn-desktop"@ != "https"@,
        "ilegallearn-desktop"@ != "mailto"@,
        "ilegallearn-desktop"@ != "tel"@,
{
    reveal_strlit("ilegallearn-desktop");
    reveal_strlit("http");
    reveal_strlit("https");
    reveal_strlit("mailto");
    reveal_strlit("tel");
    assert("ilegallearn-desktop"@.len() == 19);
    assert("http"@.len() == 4);
    assert("https"@.len() == 5);
    assert("mailto"@.len() == 6);
    assert("tel"@.len() == 3);
}

/// The window shows an address exactly where its scheme is `https` and its host
/// is `ilegallearn.com`.
pub proof fn window_shows_only_the_application(url: UrlParts)
    ensures
        navigation_fate(url) is Stay <==> url.scheme == "https"@ && url.host == Some(
            "ilegallearn.com"@,
        ),
{
}

/// A sign-in starts exactly for an address `ilegallearn-desktop://oauth/start`
/// whose first `client_id` names a Google client, and it starts for that client.
pub proof fn sign_in_starts_only_for_google_clients(url: UrlParts, id: Seq<char>)
    ensures
        navigation_fate(url) == NavigationFate::SignIn(id) <==> {
            &&& url.scheme == "ilegallearn-desktop"@
            &&& url.host == Some("oauth"@)
            &&& url.path == "/start"@
            &&& stands_first(url.pairs, "client_id"@, id)
            &&& exists|front: Seq<char>| id == #[trigger] (front + ".apps.googleusercontent.com"@)
        },
{
    schemes_differ();
    first_value_is_the_first(url.pairs, "client_id"@);
    closing_is_what_follows_the_front(id, ".apps.googleusercontent.com"@);
}

/// Where the window does not show an address and no sign-in starts, the system is
/// asked to open its text under the schemes `http`, `https`, `mailto` and `tel`,
/// and under any other nothing opens it.
pub proof fn other_addresses_leave_the_window(url: UrlParts)
    requires
        navigation_fate(url) !is Stay,
        navigation_fate(url) !is SignIn,
    ensures
        navigation_fate(url) == if url.scheme == "http"@ || url.scheme == "https"@ || url.scheme
            == "mailto"@ || url.scheme == "tel"@ {
            NavigationFate::Leave(ExternalFate::Open(url.text))
        } else {
            NavigationFate::Leave(ExternalFate::Block(url.text))
        },
{
}

/// A bridge address is never handed to the system: where it does not start a
/// sign-in, it is blocked.
pub proof fn bridge_address_never_leaves_the_shell(url: UrlParts)
    requires
        url.scheme == "ilegallearn-desktop"@,
    ensures
        navigation_fate(url) is SignIn || navigation_fate(url) == NavigationFate::Leave(
            ExternalFate::Block(url.text),
        ),
        new_window_fate(url) == NewWindowFate::Leave(ExternalFate::Block(url.text)),
{
    schemes_differ();
}

/// What the system is asked to open is the address itself, and only under one
/// of the four schemes that it has handlers for.
pub proof fn system_opens_only_handled_schemes(url: UrlParts, text: Seq<char>)
    requires
        navigation_fate(url) == NavigationFate::Leave(ExternalFate::Open(text))
            || new_window_fate(url) == NewWindowFate::Leave(ExternalFate::Open(text)),
    ensures
        url.scheme == "http"@ || url.scheme == "https"@ || url.scheme == "mailto"@ || url.scheme
            == "tel"@,
        text == url.text,
{
}

/// The payment form never sends a new window to the system, while the same
/// address shown in the window itself is opened there.
pub proof fn payment_form_stays_embedded(url: UrlParts)
    requires
        url.scheme == "https"@,
        url.host == Some("api.razorpay.com"@) || url.host == Some("checkout.razorpay.com"@),
    ensures
        new_window_fate(url) == NewWindowFate::Ignore(url.text),
        navigation_fate(url) == NavigationFate::Leave(ExternalFate::Open(url.text)),
{
    schemes_differ();
    reveal_strlit("ilegallearn.com");
    reveal_strlit("api.razorpay.com");
    reveal_strlit("checkout.razorpay.com");
    assert("ilegallearn.com"@.len() == 15);
    assert("api.razorpay.com"@.len() == 16);
    assert("checkout.razorpay.com"@.len() == 21);
}

/// An address has this scheme and this host.
pub open spec fn lies_at(url: WebUrl, scheme: Seq<char>, host: Seq<char>) -> bool {
    url.scheme@ == scheme && (url.host matches Some(own) && own@ == host)
}

/// An address asks for a sign-in of this client: it is the bridge address, the
/// client stands first under `client_id` in its query, and Google gave the client
/// its name.
pub open spec fn asks_for_sign_in(url: WebUrl, id: Seq<char>) -> bool {
    &&& lies_at(url, "ilegallearn-desktop"@, "oauth"@)
    &&& url.path@ == "/start"@
    &&& exists|i: int|
        {
            &&& 0 <= i < url.pairs@.len()
            &&& (#[trigger] url.pairs@[i]).0@ == "client_id"@
            &&& url.pairs@[i].1@ == id
            &&& forall|j: int| 0 <= j < i ==> (#[trigger] url.pairs@[j]).0@ != "client_id"@
        }
    &&& exists|front: Seq<char>| id == #[trigger] (front + ".apps.googleusercontent.com"@)
}

/// An address asks for a sign-in exactly where its parts do.
proof fn request_for_sign_in_is_in_the_parts(url: WebUrl, id: Seq<char>)
    ensures
        asks_for_sign_in(url, id) <==> sign_in_client(url@) == Some(id),
{
    let pairs = url@.pairs;
    first_value_is_the_first(pairs, "client_id"@);
    closing_is_what_follows_the_front(id, ".apps.googleusercontent.com"@);
    assert(forall|i: int|
        0 <= i < pairs.len() ==> #[trigger] pairs[i] == (url.pairs@[i].0@, url.pairs@[i].1@));
    if asks_for_sign_in(url, id) {
        let i = choose|i: int|
            {
                &&& 0 <= i < url.pairs@.len()
                &&& (#[trigger] url.pairs@[i]).0@ == "client_id"@
                &&& url.pairs@[i].1@ == id
                &&& forall|j: int| 0 <= j < i ==> (#[trigger] url.pairs@[j]).0@ != "client_id"@
            };
        assert(pairs[i] == ("client_id"@, id));
        assert forall|j: int| 0 <= j < i implies (#[trigger] pairs[j]).0 != "client_id"@ by {
            assert(url.pairs@[j].0@ != "client_id"@);
        }
        assert(stands_first(pairs, "client_id"@, id));
    }
    if sign_in_client(url@) == Some(id) {
        assert(stands_first(pairs, "client_id"@, id));
        let i = choose|i: int|
            {
                &&& 0 <= i < pairs.len()
                &&& #[trigger] pairs[i] == ("client_id"@, id)
                &&& forall|j: int| 0 <= j < i ==> (#[trigger] pairs[j]).0 != "client_id"@
            };
        assert(url.pairs@[i].0@ == "client_id"@);
        assert forall|j: int| 0 <= j < i implies (#[trigger] url.pairs@[j]).0@ != "client_id"@ by {
            assert(pairs[j].0 != "client_id"@);
        }
    }
}

/// [`is_internal_url`] holds of the addresses under `https` at `ilegallearn.com`,
/// [`is_razorpay_embedded_url`] of those under `https` at the two hosts of the
/// payment form, and [`is_system_url`] of those under the four schemes that the
/// system handles. Of no other address does any of them hold.
pub proof fn kinds_of_addresses(url: WebUrl, own: bool, payment: bool, system: bool)
    requires
        call_ensures(is_internal_url, (&url,), own),
        call_ensures(is_razorpay_embedded_url, (&url,), payment),
        call_ensures(is_system_url, (&url,), system),
    ensures
        own <==> lies_at(url, "https"@, "ilegallearn.com"@),
        payment <==> lies_at(url, "https"@, "api.razorpay.com"@) || lies_at(
            url,
            "https"@,
            "checkout.razorpay.com"@,
        ),
        system <==> url.scheme@ == "http"@ || url.scheme@ == "https"@ || url.scheme@ == "mailto"@
            || url.scheme@ == "tel"@,
{
}

/// [`desktop_oauth_client_id`] gives the client for which an address asks for a
/// sign-in, and none exactly where it asks for none.
pub proof fn client_is_the_one_asked_for(url: WebUrl, client_id: Option<String>)
    requires
        call_ensures(desktop_oauth_client_id, (&url,), client_id),
    ensures
        forall|id: Seq<char>| #[trigger]
            asks_for_sign_in(url, id) <==> (client_id matches Some(own) && own@ == id),
{
    assert forall|id: Seq<char>| #[trigger]
        asks_for_sign_in(url, id) <==> (client_id matches Some(own) && own@ == id) by {
        request_for_sign_in_is_in_the_parts(url, id);
    }
}

/// [`open_with_system`] has the system open the text of the address under the
/// four schemes that it handles, and blocks it under any other.
pub proof fn system_opens_the_address_itself(url: WebUrl, decision: ExternalDecision)
    requires
        call_ensures(open_with_system, (url,), decision),
    ensures
        decision is Open <==> url.scheme@ == "http"@ || url.scheme@ == "https"@ || url.scheme@
            == "mailto"@ || url.scheme@ == "tel"@,
        decision matches ExternalDecision::Open(text) ==> text@ == url.text@,
        decision matches ExternalDecision::Block(text) ==> text@ == url.text@,
{
}

/// [`decide_navigation`] keeps the window on an address under `https` at
/// `ilegallearn.com` and on no other, starts a sign-in for the client that an
/// address asks for and for no other, and hands the text of every other address
/// to the system under the four schemes that it handles, and blocks it under any
/// other.
pub proof fn navigation_is_decided_by_the_address(url: WebUrl, decision: NavigationDecision)
    requires
        call_ensures(decide_navigation, (url,), decision),
    ensures
        decision is Stay <==> lies_at(url, "https"@, "ilegallearn.com"@),
        forall|id: Seq<char>| #[trigger]
            asks_for_sign_in(url, id) <==> (decision matches NavigationDecision::SignIn(own)
                && own@ == id),
        decision matches NavigationDecision::Leave(external) ==> {
            &&& external is Open <==> url.scheme@ == "http"@ || url.scheme@ == "https"@
                || url.scheme@ == "mailto"@ || url.scheme@ == "tel"@
            &&& external matches ExternalDecision::Open(text) ==> text@ == url.text@
            &&& external matches ExternalDecision::Block(text) ==> text@ == url.text@
        },
{
    schemes_differ();
    assert forall|id: Seq<char>| #[trigger]
        asks_for_sign_in(url, id) <==> (decision matches NavigationDecision::SignIn(own) && own@
            == id) by {
        request_for_sign_in_is_in_the_parts(url, id);
    }
}

/// [`decide_new_window`] leaves the addresses of the payment form to the page and
/// hands every other to the system or blocks it, as [`open_with_system`] does.
pub proof fn new_window_is_decided_by_the_address(url: WebUrl, decision: NewWindowDecision)
    requires
        call_ensures(decide_new_window, (url,), decision),
    ensures
        decision is Ignore <==> lies_at(url, "https"@, "api.razorpay.com"@) || lies_at(
            url,
            "https"@,
            "checkout.razorpay.com"@,
        ),
        decision matches NewWindowDecision::Ignore(text) ==> text@ == url.text@,
        decision matches NewWindowDecision::Leave(external) ==> {
            &&& external is Open <==> url.scheme@ == "http"@ || url.scheme@ == "https"@
                || url.scheme@ == "mailto"@ || url.scheme@ == "tel"@
            &&& external matches ExternalDecision::Open(text) ==> text@ == url.text@
            &&& external matches ExternalDecision::Block(text) ==> text@ == url.text@
        },
{
}

/// [`needs_pdf_bridge`] holds of a finished load of an address under `https` at
/// `ilegallearn.com`, and of nothing else.
pub proof fn bridge_is_for_finished_pages_of_the_application(
    finished: bool,
    url: WebUrl,
    yes: bool,
)
    requires
        call_ensures(needs_pdf_bridge, (finished, &url), yes),
    ensures
        yes <==> finished && lies_at(url, "https"@, "ilegallearn.com"@),
{
}

/// The window opens with the scheme and the host that it keeps to.
pub proof fn window_opens_with_the_application()
    ensures
        APP_ORIGIN@ == "https"@ + "://"@ + "ilegallearn.com"@,
{
    reveal_strlit("https");
    reveal_strlit("://");
    reveal_strlit("ilegallearn.com");
    reveal_strlit("https://ilegallearn.com");
    assert(APP_ORIGIN@ =~= "https"@ + "://"@ + "ilegallearn.com"@);
}

} // verus!
