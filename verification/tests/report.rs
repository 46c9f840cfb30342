use ilegallearn_desktop::report::{oauth_error, oauth_result_script, oauth_success};

const HEAD: &str =
    "window.dispatchEvent(new CustomEvent('ilegallearn:google-oauth-result', { detail: ";
const TAIL: &str = " }));";

#[test]
fn script_dispatches_the_detail() {
    assert_eq!(oauth_result_script("{}"), format!("{HEAD}{{}}{TAIL}"));
}

#[test]
fn failures_are_reported_as_json() {
    assert_eq!(oauth_error("no"), format!("{HEAD}{{\"error\":\"no\"}}{TAIL}"));
    assert_eq!(
        oauth_error("a\"b\\c\nd\u{1}</\u{e9}"),
        format!("{HEAD}{{\"error\":\"a\\\"b\\\\c\\nd\\u0001</\u{e9}\"}}{TAIL}")
    );
}

#[test]
fn completed_sign_in_is_reported_as_json() {
    let script = oauth_success("4/0x", "verifier", "http://127.0.0.1:80/oauth2callback");
    assert_eq!(
        script,
        format!(
            "{HEAD}{{\"code\":\"4/0x\",\"codeVerifier\":\"verifier\",\
             \"redirectUri\":\"http://127.0.0.1:80/oauth2callback\"}}{TAIL}"
        )
    );
}

#[test]
fn reported_fields_read_back() {
    let script = oauth_success("a\"', }", "\u{2028}\t", "c\\");
    let detail = script.strip_prefix(HEAD).unwrap().strip_suffix(TAIL).unwrap();
    let value: serde_json::Value = serde_json::from_str(detail).unwrap();
    assert_eq!(value["code"], "a\"', }");
    assert_eq!(value["codeVerifier"], "\u{2028}\t");
    assert_eq!(value["redirectUri"], "c\\");
    assert_eq!(value.as_object().unwrap().len(), 3);
}

#[test]
fn failures_read_back() {
    let controls: String = (0u8..0x20).map(char::from).collect();
    for message in ["\"} })); //", "\\\"", "\u{7f}\u{2029}", "\\u0022", "", &controls] {
        let script = oauth_error(message);
        let rest = script.strip_prefix(HEAD).unwrap();
        let mut values = serde_json::Deserializer::from_str(rest).into_iter::<serde_json::Value>();
        let value = values.next().unwrap().unwrap();
        assert_eq!(value["error"], message);
        assert_eq!(value.as_object().unwrap().len(), 1);
        assert_eq!(&rest[values.byte_offset()..], TAIL);
    }
}

#[test]
fn any_detail_reads_back() {
    let details = [
        "null",
        "true",
        "-12.5e3",
        "0",
        "[]",
        "{}",
        "[1,[false,\"]\"],{\"}\":{\"a\":[\" }));\"]}}]",
        " { \"a\" : [ 1 , 2 ] }",
        "\"\\ud83d\\ude00 \\/ }));\"",
    ];
    for detail in details {
        let script = oauth_result_script(detail);
        let rest = script.strip_prefix(HEAD).unwrap();
        let mut values = serde_json::Deserializer::from_str(rest).into_iter::<serde_json::Value>();
        let value = values.next().unwrap().unwrap();
        assert_eq!(value, serde_json::from_str::<serde_json::Value>(detail).unwrap());
        assert_eq!(&rest[values.byte_offset()..], TAIL);
    }
}

#[test]
fn code_or_error_and_never_both() {
    for script in [oauth_error("\",\"code\":\"x"), oauth_success("\",\"error\":\"x", "v", "u")] {
        let detail = script.strip_prefix(HEAD).unwrap().strip_suffix(TAIL).unwrap();
        let value: serde_json::Value = serde_json::from_str(detail).unwrap();
        assert_ne!(value.get("code").is_some(), value.get("error").is_some());
    }
}
