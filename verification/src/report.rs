//! How the result of a sign-in reaches the page: a script that dispatches one
//! event, whose detail is a JSON object.
use vstd::prelude::*;

use crate::address::pairs_view;
use crate::json::{comes_before, fields_object, json_object, json_text, Json};
use crate::json::{is_value, occurs_in_numbers, read_value, value_reads_back, value_stays};
use crate::text::join;

verus! {

/// The script that hands a detail to the page, up to the detail.
pub open spec fn script_head() -> Seq<char> {
    "window.dispatchEvent(new CustomEvent('ilegallearn:google-oauth-result', { detail: "@
}

/// The script that hands a detail to the page, from the end of the detail on.
pub open spec fn script_tail() -> Seq<char> {
    " }));"@
}

/// The script that hands a detail to the page.
pub open spec fn result_script(detail: Seq<char>) -> Seq<char> {
    script_head() + detail + script_tail()
}

/// The fields of a result that reports a failure.
pub open spec fn error_fields(message: Seq<char>) -> Seq<(Seq<char>, Seq<char>)> {
    seq![("error"@, message)]
}

/// The fields of a result that reports a completed sign-in.
pub open spec fn success_fields(
    code: Seq<char>,
    code_verifier: Seq<char>,
    redirect_uri: Seq<char>,
) -> Seq<(Seq<char>, Seq<char>)> {
    seq![("code"@, code), ("codeVerifier"@, code_verifier), ("redirectUri"@, redirect_uri)]
}

/// The script that reports some fields.
pub open spec fn fields_script(fields: Seq<(Seq<char>, Seq<char>)>) -> Seq<char> {
    result_script(json_text(fields_object(fields)))
}

/// Writes the script that hands a detail to the page.
pub fn oauth_result_script(detail: &str) -> (script: String)
    ensures
        script@ == result_script(detail@),
{
    let mut script: String = join(
        "window.dispatchEvent(new CustomEvent('ilegallearn:google-oauth-result', { detail: ",
        detail,
    );
    script.append(" }));");
    script
}

/// Writes the script that reports a failure.
pub fn oauth_error(message: &str) -> (script: String)
    ensures
        script@ == fields_script(error_fields(message@)),
{
    let mut fields: Vec<(String, String)> = Vec::new();
    fields.push(("error".to_owned(), message.to_owned()));
    proof {
        assert(pairs_view(fields@) =~= error_fields(message@));
    }
    oauth_result_script(json_object(&fields).as_str())
}

/// Writes the script that reports a completed sign-in.
pub fn oauth_success(code: &str, code_verifier: &str, redirect_uri: &str) -> (script: String)
    ensures
        script@ == fields_script(success_fields(code@, code_verifier@, redirect_uri@)),
{
    let mut fields: Vec<(String, String)> = Vec::new();
    fields.push(("code".to_owned(), code.to_owned()));
    fields.push(("codeVerifier".to_owned(), code_verifier.to_owned()));
    fields.push(("redirectUri".to_owned(), redirect_uri.to_owned()));
    proof {
        assert(pairs_view(fields@) =~= success_fields(code@, code_verifier@, redirect_uri@));
        reveal_strlit("code");
        reveal_strlit("codeVerifier");
        reveal_strlit("redirectUri");
        assert("code"@.take(4) =~= "codeVerifier"@.take(4));
        assert(comes_before("code"@, "codeVerifier"@));
        assert("code"@.take(0) =~= "redirectUri"@.take(0));
        assert(comes_before("code"@, "redirectUri"@));
        assert("codeVerifier"@.take(0) =~= "redirectUri"@.take(0));
        assert(comes_before("codeVerifier"@, "redirectUri"@));
    }
    oauth_result_script(json_object(&fields).as_str())
}

/// Reads the detail of a script: the value behind the head of the script, and
/// what of the script follows it.
pub open spec fn read_script(script: Seq<char>) -> Option<(Json, Seq<char>)> {
    let length = script_head().len() as int;
    if script.len() < length || script.take(length) != script_head() {
        None
    } else {
        read_value(script.skip(length))
    }
}

/// Whatever JSON value a detail is, the script hands over that value, and nothing
/// in the detail alters the script around it: where the value ends the detail,
/// the tail of the script follows. Where something stands behind the value in the
/// detail, white space say, it stands there in the script too.
pub proof fn detail_reads_back(detail: Seq<char>, value: Json, behind: Seq<char>)
    requires
        read_value(detail) == Some((value, behind)),
    ensures
        read_script(result_script(detail)) == Some((value, behind + script_tail())),
        behind.len() == 0 ==> read_script(result_script(detail)) == Some((value, script_tail())),
{
    let script = result_script(detail);
    let length = script_head().len() as int;
    reveal_strlit(" }));");
    assert(script.take(length) =~= script_head());
    assert(script.skip(length) =~= detail + script_tail());
    assert(!occurs_in_numbers(script_tail()[0]));
    value_stays(detail, script_tail());
    assert(behind.len() == 0 ==> behind + script_tail() =~= script_tail());
}

/// Whatever JSON value is written as a detail, the script hands over just that
/// value, and no string in it, be it of quotes, line ends or braces, alters the
/// script around it.
pub proof fn value_reads_back_from_script(value: Json)
    requires
        is_value(value),
    ensures
        read_script(result_script(json_text(value))) == Some((value, script_tail())),
{
    value_reads_back(value, Seq::empty());
    assert(json_text(value) + Seq::<char>::empty() =~= json_text(value));
    detail_reads_back(json_text(value), value, Seq::empty());
}

/// A script reports just the fields that it was written for.
pub proof fn script_reads_back(fields: Seq<(Seq<char>, Seq<char>)>)
    ensures
        read_script(fields_script(fields)) == Some((fields_object(fields), script_tail())),
{
    let members = fields_object(fields)->Object_0;
    assert forall|i: int| 0 <= i < members.len() implies is_value((#[trigger] members[i]).1) by {
        assert(members[i].1 is Text);
    }
    value_reads_back_from_script(fields_object(fields));
}

/// A detail is an object that has a member of this name.
pub open spec fn has_member(detail: Json, name: Seq<char>) -> bool {
    detail matches Json::Object(members) && exists|i: int|
        0 <= i < members.len() && (#[trigger] members[i]).0 == name
}

/// A failure is reported with an error and no code.
pub proof fn failure_has_no_code(message: Seq<char>)
    ensures
        has_member(fields_object(error_fields(message)), "error"@),
        !has_member(fields_object(error_fields(message)), "code"@),
{
    reveal_strlit("error");
    reveal_strlit("code");
    let members = fields_object(error_fields(message))->Object_0;
    assert(members[0].0 == "error"@);
    assert("error"@.len() != "code"@.len());
}

/// A completed sign-in is reported with a code and no error.
pub proof fn success_has_no_error(
    code: Seq<char>,
    code_verifier: Seq<char>,
    redirect_uri: Seq<char>,
)
    ensures
        has_member(fields_object(success_fields(code, code_verifier, redirect_uri)), "code"@),
        !has_member(fields_object(success_fields(code, code_verifier, redirect_uri)), "error"@),
{
    reveal_strlit("error");
    reveal_strlit("code");
    reveal_strlit("codeVerifier");
    reveal_strlit("redirectUri");
    let members = fields_object(success_fields(code, code_verifier, redirect_uri))->Object_0;
    assert(members[0].0 == "code"@);
    assert("error"@.len() == 5);
    assert("code"@.len() == 4 && "codeVerifier"@.len() == 12 && "redirectUri"@.len() == 11);
}

/// Whatever characters a message holds, the script that reports it determines
/// it.
pub proof fn reported_message_is_determined(message: Seq<char>, other: Seq<char>)
    requires
        fields_script(error_fields(message)) == fields_script(error_fields(other)),
    ensures
        message == other,
{
    script_reads_back(error_fields(message));
    script_reads_back(error_fields(other));
    let one = fields_object(error_fields(message))->Object_0;
    assert(one[0].1 == Json::Text(message));
    assert(fields_object(error_fields(other))->Object_0[0].1 == Json::Text(other));
}

/// Whatever characters they hold, the script that reports a completed sign-in
/// determines its code, its verifier and its return address.
pub proof fn reported_success_is_determined(
    code: Seq<char>,
    code_verifier: Seq<char>,
    redirect_uri: Seq<char>,
    other_code: Seq<char>,
    other_verifier: Seq<char>,
    other_uri: Seq<char>,
)
    requires
        fields_script(success_fields(code, code_verifier, redirect_uri)) == fields_script(
            success_fields(other_code, other_verifier, other_uri),
        ),
    ensures
        code == other_code,
        code_verifier == other_verifier,
        redirect_uri == other_uri,
{
    let fields = success_fields(code, code_verifier, redirect_uri);
    let others = success_fields(other_code, other_verifier, other_uri);
    script_reads_back(fields);
    script_reads_back(others);
    let members = fields_object(fields)->Object_0;
    assert(members == fields_object(others)->Object_0);
    assert(members[0].1 == Json::Text(code) && members[0].1 == Json::Text(other_code));
    assert(members[1].1 == Json::Text(code_verifier) && members[1].1 == Json::Text(
        other_verifier,
    ));
    assert(members[2].1 == Json::Text(redirect_uri) && members[2].1 == Json::Text(other_uri));
}

/// No failure is reported as a completed sign-in.
pub proof fn failure_is_told_from_success(
    message: Seq<char>,
    code: Seq<char>,
    code_verifier: Seq<char>,
    redirect_uri: Seq<char>,
)
    ensures
        fields_script(error_fields(message)) != fields_script(
            success_fields(code, code_verifier, redirect_uri),
        ),
{
    script_reads_back(error_fields(message));
    script_reads_back(success_fields(code, code_verifier, redirect_uri));
    failure_has_no_code(message);
    success_has_no_error(code, code_verifier, redirect_uri);
}

/// A script dispatches one event to the page, whose detail is this JSON value and
/// nothing else.
pub open spec fn hands_over(script: Seq<char>, value: Json) -> bool {
    exists|detail: Seq<char>|
        {
            &&& #[trigger] read_value(detail) == Some((value, Seq::<char>::empty()))
            &&& script
                == "window.dispatchEvent(new CustomEvent('ilegallearn:google-oauth-result', { detail: "@
                + detail + " }));"@
        }
}

/// A script hands over an object whose one member is an error with this message.
pub open spec fn reports_error(script: Seq<char>, message: Seq<char>) -> bool {
    hands_over(script, Json::Object(seq![("error"@, Json::Text(message))]))
}

/// A script hands over an object whose three members are the code, the verifier
/// and the return address, each under its own name.
pub open spec fn reports_code(
    script: Seq<char>,
    code: Seq<char>,
    code_verifier: Seq<char>,
    redirect_uri: Seq<char>,
) -> bool {
    hands_over(
        script,
        Json::Object(
            seq![
                ("code"@, Json::Text(code)),
                ("codeVerifier"@, Json::Text(code_verifier)),
                ("redirectUri"@, Json::Text(redirect_uri)),
            ],
        ),
    )
}

/// The script for some fields hands over the object of those fields.
proof fn fields_are_handed_over(fields: Seq<(Seq<char>, Seq<char>)>)
    ensures
        hands_over(fields_script(fields), fields_object(fields)),
{
    let value = fields_object(fields);
    let members = value->Object_0;
    assert forall|i: int| 0 <= i < members.len() implies is_value((#[trigger] members[i]).1) by {
        assert(members[i].1 is Text);
    }
    value_reads_back(value, Seq::empty());
    assert(json_text(value) + Seq::<char>::empty() =~= json_text(value));
    assert(read_value(json_text(value)) == Some((value, Seq::<char>::empty())));
}

/// The script for a failure hands over its message under `error`, and no more.
pub proof fn failure_is_handed_over(message: Seq<char>)
    ensures
        reports_error(fields_script(error_fields(message)), message),
{
    let fields = error_fields(message);
    fields_are_handed_over(fields);
    assert(fields_object(fields)->Object_0 =~= seq![("error"@, Json::Text(message))]);
}

/// The script for a completed sign-in hands over the code under `code`, the
/// verifier under `codeVerifier` and the return address under `redirectUri`, and
/// no more.
pub proof fn success_is_handed_over(
    code: Seq<char>,
    code_verifier: Seq<char>,
    redirect_uri: Seq<char>,
)
    ensures
        reports_code(
            fields_script(success_fields(code, code_verifier, redirect_uri)),
            code,
            code_verifier,
            redirect_uri,
        ),
{
    let fields = success_fields(code, code_verifier, redirect_uri);
    fields_are_handed_over(fields);
    assert(fields_object(fields)->Object_0 =~= seq![
        ("code"@, Json::Text(code)),
        ("codeVerifier"@, Json::Text(code_verifier)),
        ("redirectUri"@, Json::Text(redirect_uri)),
    ]);
}

/// A script hands over one value only.
pub proof fn one_value_is_handed_over(script: Seq<char>, value: Json, other: Json)
    requires
        hands_over(script, value),
        hands_over(script, other),
    ensures
        value == other,
{
    let head =
        "window.dispatchEvent(new CustomEvent('ilegallearn:google-oauth-result', { detail: "@;
    let tail = " }));"@;
    let one = choose|detail: Seq<char>|
        {
            &&& #[trigger] read_value(detail) == Some((value, Seq::<char>::empty()))
            &&& script == head + detail + tail
        };
    let two = choose|detail: Seq<char>|
        {
            &&& #[trigger] read_value(detail) == Some((other, Seq::<char>::empty()))
            &&& script == head + detail + tail
        };
    assert(one =~= script.subrange(head.len() as int, script.len() - tail.len()));
    assert(two =~= script.subrange(head.len() as int, script.len() - tail.len()));
}

/// [`oauth_result_script`] puts the detail, as it is, into the script that
/// dispatches it to the page.
pub proof fn script_holds_the_detail(detail: &str, script: String)
    requires
        call_ensures(oauth_result_script, (detail,), script),
    ensures
        script@
            == "window.dispatchEvent(new CustomEvent('ilegallearn:google-oauth-result', { detail: "@
            + detail@ + " }));"@,
        forall|value: Json|
            read_value(detail@) == Some((value, Seq::<char>::empty())) ==> #[trigger] hands_over(
                script@,
                value,
            ),
{
}

/// [`oauth_error`] hands the message to the page under `error`, and no more.
pub proof fn error_script_hands_over_the_message(message: &str, script: String)
    requires
        call_ensures(oauth_error, (message,), script),
    ensures
        hands_over(script@, Json::Object(seq![("error"@, Json::Text(message@))])),
{
    failure_is_handed_over(message@);
}

/// [`oauth_success`] hands the code to the page under `code`, the verifier under
/// `codeVerifier` and the return address under `redirectUri`, and no more.
pub proof fn success_script_hands_over_its_three_values(
    code: &str,
    code_verifier: &str,
    redirect_uri: &str,
    script: String,
)
    requires
        call_ensures(oauth_success, (code, code_verifier, redirect_uri), script),
    ensures
        hands_over(
            script@,
            Json::Object(
                seq![
                    ("code"@, Json::Text(code@)),
                    ("codeVerifier"@, Json::Text(code_verifier@)),
                    ("redirectUri"@, Json::Text(redirect_uri@)),
                ],
            ),
        ),
{
    success_is_handed_over(code@, code_verifier@, redirect_uri@);
}

} // verus!
