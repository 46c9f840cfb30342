//! The browser's request to the local port: what it asks for, and the page that
//! answers it.
use vstd::prelude::*;
use vstd::utf8::{decode_utf8, encode_utf8, encode_utf8_decode_utf8, valid_utf8};

use crate::text::{
    characters, decimal, decimal_text, decimal_writes_its_number, is_white_space, join,
    text_between, utf8_of_joined, white_space, writes_number,
};

verus! {

/// The text that stands for bytes, with U+FFFD in place of what is not UTF-8.
pub uninterp spec fn lossy_text(bytes: Seq<u8>) -> Seq<char>;

/// Reads bytes as text with `String::from_utf8_lossy`. Trusted: bytes that are
/// UTF-8 are read as the characters they encode, and the text depends on
/// nothing but the bytes.
#[verifier::external_body]
pub(crate) fn text_of_bytes(bytes: &[u8]) -> (text: String)
    ensures
        text@ == lossy_text(bytes@),
        valid_utf8(bytes@) ==> text@ == decode_utf8(bytes@),
{
    String::from_utf8_lossy(bytes).into_owned()
}

/// Where the run of blank (or, for `blank == false`, of other) characters that
/// begins at `from` ends.
pub open spec fn run_end(text: Seq<char>, from: int, blank: bool) -> int
    decreases text.len() - from,
{
    if 0 <= from < text.len() && is_white_space(text[from]) == blank {
        run_end(text, from + 1, blank)
    } else {
        from
    }
}

/// Where the first line of a text ends.
pub open spec fn line_end(text: Seq<char>, from: int) -> int
    decreases text.len() - from,
{
    if 0 <= from < text.len() && text[from] != '\n' {
        line_end(text, from + 1)
    } else {
        from
    }
}

/// The second of the words that white space sets apart in a text.
pub open spec fn second_word(text: Seq<char>) -> Option<Seq<char>> {
    let first = run_end(text, 0, true);
    let gap = run_end(text, first, false);
    let second = run_end(text, gap, true);
    if second < text.len() {
        Some(text.subrange(second, run_end(text, second, false)))
    } else {
        None
    }
}

/// The target that the first line of an HTTP request names.
pub open spec fn target_of(request: Seq<char>) -> Option<Seq<char>> {
    second_word(request.take(line_end(request, 0)))
}

/// Finds where a run of blank or other characters ends.
fn find_run_end(chars: &Vec<char>, from: usize, blank: bool) -> (end: usize)
    requires
        from <= chars@.len(),
    ensures
        end == run_end(chars@, from as int, blank),
        from <= end <= chars@.len(),
{
    let mut i: usize = from;
    while i < chars.len() && white_space(chars[i]) == blank
        invariant
            from <= i <= chars@.len(),
            run_end(chars@, i as int, blank) == run_end(chars@, from as int, blank),
        decreases chars@.len() - i,
    {
        i += 1;
    }
    i
}

/// The target that the first line of an HTTP request names: its second word.
pub fn request_target(request: &str) -> (target: Option<String>)
    ensures
        crate::address::option_view(target) == target_of(request@),
{
    let all: Vec<char> = characters(request);
    let mut end: usize = 0;
    while end < all.len() && all[end] != '\n'
        invariant
            end <= all@.len(),
            line_end(all@, end as int) == line_end(all@, 0),
        decreases all@.len() - end,
    {
        end += 1;
    }
    let line: Vec<char> = characters(text_between(&all, 0, end).as_str());
    assert(line@ =~= request@.take(line_end(request@, 0)));
    let first: usize = find_run_end(&line, 0, true);
    let gap: usize = find_run_end(&line, first, false);
    let second: usize = find_run_end(&line, gap, true);
    if second < line.len() {
        let close: usize = find_run_end(&line, second, false);
        Some(text_between(&line, second, close))
    } else {
        None
    }
}

/// A text that is not empty and holds no white space.
pub open spec fn is_word(text: Seq<char>) -> bool {
    &&& text.len() > 0
    &&& forall|i: int| 0 <= i < text.len() ==> !is_white_space(#[trigger] text[i])
}

/// A run reaches as far as its characters are of one kind.
proof fn run_reaches(text: Seq<char>, from: int, to: int, blank: bool)
    requires
        0 <= from <= to <= text.len(),
        forall|i: int| from <= i < to ==> is_white_space(#[trigger] text[i]) == blank,
        to < text.len() ==> is_white_space(text[to]) != blank,
    ensures
        run_end(text, from, blank) == to,
    decreases to - from,
{
    if from < to {
        run_reaches(text, from + 1, to, blank);
    }
}

/// A line reaches as far as no character breaks it.
proof fn line_reaches(text: Seq<char>, from: int, to: int)
    requires
        0 <= from <= to <= text.len(),
        forall|i: int| from <= i < to ==> #[trigger] text[i] != '\n',
        to < text.len() ==> text[to] == '\n',
    ensures
        line_end(text, from) == to,
    decreases to - from,
{
    if from < to {
        line_reaches(text, from + 1, to);
    }
}

/// A request line that names a method, a target and a protocol is read as that
/// target, whatever lines follow it.
pub proof fn request_line_names_its_target(
    method: Seq<char>,
    target: Seq<char>,
    protocol: Seq<char>,
    rest: Seq<char>,
)
    requires
        is_word(method),
        is_word(target),
        forall|i: int| 0 <= i < protocol.len() ==> #[trigger] protocol[i] != '\n',
    ensures
        target_of(method + seq![' '] + target + seq![' '] + protocol + seq!['\n'] + rest) == Some(
            target,
        ),
{
    let line = method + seq![' '] + target + seq![' '] + protocol;
    let request = line + seq!['\n'] + rest;
    let gap = method.len() as int;
    let begin = gap + 1;
    let end = begin + target.len();
    assert forall|i: int| 0 <= i < line.len() implies #[trigger] request[i] != '\n' by {
        assert(request[i] == line[i]);
        if i < gap {
            assert(line[i] == method[i]);
        } else if begin <= i < end {
            assert(line[i] == target[i - begin]);
        } else if end < i {
            assert(line[i] == protocol[i - end - 1]);
        }
    }
    line_reaches(request, 0, line.len() as int);
    assert(request.take(line.len() as int) =~= line);
    assert forall|i: int| 0 <= i < gap implies !is_white_space(#[trigger] line[i]) by {
        assert(line[i] == method[i]);
    }
    assert forall|i: int| begin <= i < end implies !is_white_space(#[trigger] line[i]) by {
        assert(line[i] == target[i - begin]);
    }
    assert(line[gap] == ' ' && line[end] == ' ');
    assert(line[0] == method[0]);
    run_reaches(line, 0, 0, true);
    run_reaches(line, 0, gap, false);
    run_reaches(line, gap, begin, true);
    run_reaches(line, begin, end, false);
    assert(line.subrange(begin, end) =~= target);
}

/// The heading of the page that answers the browser.
pub open spec fn page_heading(successful: bool) -> Seq<char> {
    if successful {
        "Sign-in complete"@
    } else {
        "Sign-in could not be completed"@
    }
}

/// The message of the page that answers the browser.
pub open spec fn page_message(successful: bool) -> Seq<char> {
    if successful {
        "You can close this tab and return to iLegalLearn."@
    } else {
        "Return to iLegalLearn and try again."@
    }
}

/// The page that answers the browser.
pub open spec fn page_body(successful: bool) -> Seq<char> {
    "<!doctype html><html><head><meta charset=\"utf-8\"><title>"@ + page_heading(successful)
        + "</title></head><body><h1>"@ + page_heading(successful) + "</h1><p>"@ + page_message(
        successful,
    ) + "</p></body></html>"@
}

/// The head of the response: everything up to and with the empty line. It
/// announces as many bytes as the page takes in UTF-8.
pub open spec fn page_head(successful: bool) -> Seq<char> {
    "HTTP/1.1 200 OK\r\nContent-Type: text/html; charset=utf-8\r\nContent-Length: "@ + decimal(
        encode_utf8(page_body(successful)).len(),
    ) + "\r\nConnection: close\r\n\r\n"@
}

/// The bytes of the response.
pub open spec fn page_response(successful: bool) -> Seq<u8> {
    encode_utf8(page_head(successful) + page_body(successful))
}

/// Writes the response that tells the browser how the sign-in went.
pub fn callback_page(successful: bool) -> (response: Vec<u8>)
    ensures
        response@ == page_response(successful),
{
    let heading: &str = if successful {
        "Sign-in complete"
    } else {
        "Sign-in could not be completed"
    };
    let message: &str = if successful {
        "You can close this tab and return to iLegalLearn."
    } else {
        "Return to iLegalLearn and try again."
    };
    let mut body: String = join(
        "<!doctype html><html><head><meta charset=\"utf-8\"><title>",
        heading,
    );
    body.append("</title></head><body><h1>");
    body.append(heading);
    body.append("</h1><p>");
    body.append(message);
    body.append("</p></body></html>");
    let length: u64 = body.as_str().as_bytes().len() as u64;
    let mut response: String = join(
        "HTTP/1.1 200 OK\r\nContent-Type: text/html; charset=utf-8\r\nContent-Length: ",
        decimal_text(length).as_str(),
    );
    response.append("\r\nConnection: close\r\n\r\n");
    response.append(body.as_str());
    response.as_str().as_bytes_vec()
}

/// The response is its head followed by the page, and the length that the head
/// announces is the number of bytes that follow it.
pub proof fn announced_length_is_the_length_of_the_page(successful: bool)
    ensures
        page_response(successful) == encode_utf8(page_head(successful)) + encode_utf8(
            page_body(successful),
        ),
        page_head(successful)
            == "HTTP/1.1 200 OK\r\nContent-Type: text/html; charset=utf-8\r\nContent-Length: "@
            + decimal(
            (page_response(successful).len() - encode_utf8(page_head(successful)).len()) as nat,
        ) + "\r\nConnection: close\r\n\r\n"@,
{
    utf8_of_joined(page_head(successful), page_body(successful));
}

/// The browser can tell a completed sign-in from one that was not: the two
/// responses differ.
pub proof fn responses_differ()
    ensures
        page_response(true) != page_response(false),
{
    let good = page_head(true) + page_body(true);
    let bad = page_head(false) + page_body(false);
    let tail = "</p></body></html>"@;
    let good_message = "You can close this tab and return to iLegalLearn."@;
    let bad_message = "Return to iLegalLearn and try again."@;
    reveal_strlit("You can close this tab and return to iLegalLearn.");
    reveal_strlit("Return to iLegalLearn and try again.");
    assert(good_message.len() == 49 && good_message[46] == 'r');
    assert(bad_message.len() == 36 && bad_message[33] == 'i');
    assert(good[good.len() - tail.len() - 3] == good_message[46]);
    assert(bad[bad.len() - tail.len() - 3] == bad_message[33]);
    if page_response(true) == page_response(false) {
        encode_utf8_decode_utf8(good);
        encode_utf8_decode_utf8(bad);
        assert(good == bad);
    }
}

/// The second word of the first line of a request lies from `c` to `d`: white
/// space up to `a`, a word up to `b`, white space up to `c`, a word up to `d`, where
/// white space or the end follows, and no line ends before.
pub open spec fn target_lies(request: Seq<char>, a: int, b: int, c: int, d: int) -> bool {
    &&& 0 <= a < b < c < d <= request.len()
    &&& forall|i: int| 0 <= i < d ==> #[trigger] request[i] != '\n'
    &&& forall|i: int| 0 <= i < a ==> is_white_space(#[trigger] request[i])
    &&& forall|i: int| a <= i < b ==> !is_white_space(#[trigger] request[i])
    &&& forall|i: int| b <= i < c ==> is_white_space(#[trigger] request[i])
    &&& forall|i: int| c <= i < d ==> !is_white_space(#[trigger] request[i])
    &&& d < request.len() ==> is_white_space(request[d])
}

/// The first line of a request names a target: it is the second word of that line.
pub open spec fn is_target(request: Seq<char>, target: Seq<char>) -> bool {
    exists|a: int, b: int, c: int, d: int| #[trigger]
        target_lies(request, a, b, c, d) && target == request.subrange(c, d)
}

/// A run ends where a character of the other kind stands, or the text ends.
proof fn run_ends(text: Seq<char>, from: int, blank: bool)
    requires
        0 <= from <= text.len(),
    ensures
        ({
            let to = run_end(text, from, blank);
            &&& from <= to <= text.len()
            &&& forall|i: int| from <= i < to ==> is_white_space(#[trigger] text[i]) == blank
            &&& to < text.len() ==> is_white_space(text[to]) != blank
        }),
    decreases text.len() - from,
{
    if from < text.len() && is_white_space(text[from]) == blank {
        run_ends(text, from + 1, blank);
    }
}

/// A line ends at the first line feed, or where the text ends.
proof fn line_ends(text: Seq<char>, from: int)
    requires
        0 <= from <= text.len(),
    ensures
        ({
            let to = line_end(text, from);
            &&& from <= to <= text.len()
            &&& forall|i: int| from <= i < to ==> #[trigger] text[i] != '\n'
            &&& to < text.len() ==> text[to] == '\n'
        }),
    decreases text.len() - from,
{
    if from < text.len() && text[from] != '\n' {
        line_ends(text, from + 1);
    }
}

/// The target of a request is the second word of its first line, and there is none
/// exactly where that line has no second word.
pub proof fn target_is_the_second_word(request: Seq<char>)
    ensures
        forall|target: Seq<char>|
            (target_of(request) == Some(target)) <==> #[trigger] is_target(request, target),
{
    let end = line_end(request, 0);
    line_ends(request, 0);
    let line = request.take(end);
    let first = run_end(line, 0, true);
    run_ends(line, 0, true);
    let gap = run_end(line, first, false);
    run_ends(line, first, false);
    let second = run_end(line, gap, true);
    run_ends(line, gap, true);
    assert(forall|i: int| 0 <= i < end ==> #[trigger] request[i] == line[i]);
    if second < line.len() {
        let close = run_end(line, second, false);
        run_ends(line, second, false);
        assert(line.subrange(second, close) =~= request.subrange(second, close));
        assert(first < gap < second < close);
        if close < request.len() {
            if close < end {
                assert(request[close] == line[close]);
            } else {
                assert(request[close] == '\n');
            }
        }
        assert forall|i: int| 0 <= i < first implies is_white_space(#[trigger] request[i]) by {
            assert(request[i] == line[i]);
        }
        assert forall|i: int| first <= i < gap implies !is_white_space(#[trigger] request[i]) by {
            assert(request[i] == line[i]);
        }
        assert forall|i: int| gap <= i < second implies is_white_space(#[trigger] request[i]) by {
            assert(request[i] == line[i]);
        }
        assert forall|i: int| second <= i < close implies !is_white_space(
            #[trigger] request[i],
        ) by {
            assert(request[i] == line[i]);
        }
        assert(target_lies(request, first, gap, second, close));
    }
    assert forall|a: int, b: int, c: int, d: int| #[trigger]
        target_lies(request, a, b, c, d) implies target_of(request) == Some(
        request.subrange(c, d),
    ) by {
        if end < d {
            assert(request[end] != '\n');
        }
        assert forall|i: int| 0 <= i < a implies is_white_space(#[trigger] line[i]) by {
            assert(request[i] == line[i]);
        }
        assert forall|i: int| a <= i < b implies !is_white_space(#[trigger] line[i]) by {
            assert(request[i] == line[i]);
        }
        assert forall|i: int| b <= i < c implies is_white_space(#[trigger] line[i]) by {
            assert(request[i] == line[i]);
        }
        assert forall|i: int| c <= i < d implies !is_white_space(#[trigger] line[i]) by {
            assert(request[i] == line[i]);
        }
        assert(line[a] == request[a] && line[b] == request[b] && line[c] == request[c]);
        if d < line.len() {
            assert(line[d] == request[d]);
        }
        run_reaches(line, 0, a, true);
        run_reaches(line, a, b, false);
        run_reaches(line, b, c, true);
        run_reaches(line, c, d, false);
        assert(line.subrange(c, d) =~= request.subrange(c, d));
    }
}

/// [`request_target`] gives the second word of the first line, and none exactly
/// where that line has no second word.
pub proof fn request_target_is_the_second_word(request: &str, target: Option<String>)
    requires
        call_ensures(request_target, (request,), target),
    ensures
        forall|word: Seq<char>| #[trigger]
            is_target(request@, word) <==> (target matches Some(own) && own@ == word),
{
    target_is_the_second_word(request@);
}

/// A page has this heading, as its title and on it, and this message.
pub open spec fn is_page(body: Seq<char>, heading: Seq<char>, message: Seq<char>) -> bool {
    body == "<!doctype html><html><head><meta charset=\"utf-8\"><title>"@ + heading
        + "</title></head><body><h1>"@ + heading + "</h1><p>"@ + message + "</p></body></html>"@
}

/// A response answers with a page: behind a head that announces HTML in UTF-8 and
/// the number of bytes of the page.
pub open spec fn answers_with(response: Seq<u8>, body: Seq<char>) -> bool {
    exists|length: Seq<char>|
        {
            &&& #[trigger] writes_number(length, encode_utf8(body).len())
            &&& response == encode_utf8(
                "HTTP/1.1 200 OK\r\nContent-Type: text/html; charset=utf-8\r\nContent-Length: "@
                    + length + "\r\nConnection: close\r\n\r\n"@ + body,
            )
        }
}

/// A response tells the browser that the sign-in is complete, or that it could not
/// be completed.
pub open spec fn tells(response: Seq<u8>, successful: bool) -> bool {
    &&& successful ==> exists|body: Seq<char>| #[trigger]
        is_page(body, "Sign-in complete"@, "You can close this tab and return to iLegalLearn."@)
            && answers_with(response, body)
    &&& !successful ==> exists|body: Seq<char>| #[trigger]
        is_page(body, "Sign-in could not be completed"@, "Return to iLegalLearn and try again."@)
            && answers_with(response, body)
}

/// The response for a sign-in tells how it went.
pub proof fn response_tells_how_the_sign_in_went(successful: bool)
    ensures
        tells(page_response(successful), successful),
{
    let body = page_body(successful);
    decimal_writes_its_number(encode_utf8(body).len());
    assert(answers_with(page_response(successful), body));
    assert(is_page(body, page_heading(successful), page_message(successful)));
}

/// [`callback_page`] tells the browser how the sign-in went.
pub proof fn page_says_how_the_sign_in_went(successful: bool, response: Vec<u8>)
    requires
        call_ensures(callback_page, (successful,), response),
    ensures
        tells(response@, successful),
{
    response_tells_how_the_sign_in_went(successful);
}

} // verus!
