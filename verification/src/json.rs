//! JSON text: how it is written for string fields, and how any value is read.
use vstd::prelude::*;

use crate::address::pairs_view;

verus! {

/// A hexadecimal digit.
pub open spec fn hex_digit(d: int) -> char {
    (if d < 10 {
        48 + d
    } else {
        87 + d
    }) as char
}

/// A character as it stands inside a JSON string.
pub open spec fn json_character(c: char) -> Seq<char> {
    if c == '"' {
        seq!['\\', '"']
    } else if c == '\\' {
        seq!['\\', '\\']
    } else if c == '\u{8}' {
        seq!['\\', 'b']
    } else if c == '\t' {
        seq!['\\', 't']
    } else if c == '\n' {
        seq!['\\', 'n']
    } else if c == '\u{c}' {
        seq!['\\', 'f']
    } else if c == '\r' {
        seq!['\\', 'r']
    } else if ' ' > c {
        seq!['\\', 'u', '0', '0', hex_digit(c as int / 16), hex_digit(c as int % 16)]
    } else {
        seq![c]
    }
}

/// A text as it stands inside a JSON string.
pub open spec fn json_characters(text: Seq<char>) -> Seq<char>
    decreases text.len(),
{
    if text.len() == 0 {
        Seq::empty()
    } else {
        json_character(text[0]) + json_characters(text.drop_first())
    }
}

/// A text as a JSON string.
pub open spec fn json_string(text: Seq<char>) -> Seq<char> {
    seq!['"'] + json_characters(text) + seq!['"']
}

/// A JSON value. A number is kept as it is written.
pub enum Json {
    Null,
    Truth(bool),
    Number(Seq<char>),
    Text(Seq<char>),
    List(Seq<Json>),
    Object(Seq<(Seq<char>, Json)>),
}

/// A JSON value as compact text.
pub open spec fn json_text(value: Json) -> Seq<char>
    decreases value,
{
    match value {
        Json::Null => "null"@,
        Json::Truth(yes) => if yes {
            "true"@
        } else {
            "false"@
        },
        Json::Number(number) => number,
        Json::Text(text) => json_string(text),
        Json::List(items) => seq!['['] + json_items(items) + seq![']'],
        Json::Object(members) => seq!['{'] + json_members(members) + seq!['}'],
    }
}

/// The items of a JSON array as compact text.
pub open spec fn json_items(items: Seq<Json>) -> Seq<char>
    decreases items,
{
    if items.len() == 0 {
        Seq::empty()
    } else if items.len() == 1 {
        json_text(items[0])
    } else {
        json_text(items[0]) + seq![','] + json_items(items.subrange(1, items.len() as int))
    }
}

/// A member of a JSON object as compact text.
pub open spec fn json_member(member: (Seq<char>, Json)) -> Seq<char>
    decreases member,
{
    json_string(member.0) + seq![':'] + json_text(member.1)
}

/// The members of a JSON object as compact text.
pub open spec fn json_members(members: Seq<(Seq<char>, Json)>) -> Seq<char>
    decreases members,
{
    if members.len() == 0 {
        Seq::empty()
    } else if members.len() == 1 {
        json_member(members[0])
    } else {
        json_member(members[0]) + seq![','] + json_members(
            members.subrange(1, members.len() as int),
        )
    }
}

/// String fields as a JSON object.
pub open spec fn fields_object(fields: Seq<(Seq<char>, Seq<char>)>) -> Json {
    Json::Object(fields.map_values(|field: (Seq<char>, Seq<char>)| (field.0, Json::Text(field.1))))
}

/// A name comes before another: where they first differ it ends or has the
/// smaller character.
pub open spec fn comes_before(name: Seq<char>, other: Seq<char>) -> bool {
    exists|n: int|
        {
            &&& 0 <= n <= name.len()
            &&& n < other.len()
            &&& #[trigger] name.take(n) == other.take(n)
            &&& n == name.len() || name[n] < other[n]
        }
}

/// The names of fields ascend.
pub open spec fn names_ascend(fields: Seq<(Seq<char>, Seq<char>)>) -> bool {
    forall|i: int, j: int|
        0 <= i < j < fields.len() ==> comes_before(#[trigger] fields[i].0, #[trigger] fields[j].0)
}

/// Writes string fields as one compact JSON object, with the `Display` of a
/// `serde_json::Value` that holds a `serde_json::Map` of them. Trusted: fields
/// whose names ascend are written in their order, without spaces, each name and
/// value as a JSON string with the shortest escape for quotes, backslashes and
/// control characters and none for any other character.
#[verifier::external_body]
pub(crate) fn json_object(fields: &Vec<(String, String)>) -> (text: String)
    requires
        names_ascend(pairs_view(fields@)),
    ensures
        text@ == json_text(fields_object(pairs_view(fields@))),
{
    let strings = fields.iter().map(|field| (field.0.clone(), field.1.clone().into()));
    serde_json::Value::Object(strings.collect()).to_string()
}

/// The value of a hexadecimal digit.
pub open spec fn hex_value(c: char) -> Option<int> {
    if '0' <= c <= '9' {
        Some(c as int - 48)
    } else if 'a' <= c <= 'f' {
        Some(c as int - 87)
    } else if 'A' <= c <= 'F' {
        Some(c as int - 55)
    } else {
        None
    }
}

/// The number that four hexadecimal digits at the head of a text stand for.
pub open spec fn read_hex(text: Seq<char>) -> Option<int> {
    if text.len() < 4 {
        None
    } else {
        match (hex_value(text[0]), hex_value(text[1]), hex_value(text[2]), hex_value(text[3])) {
            (Some(a), Some(b), Some(c), Some(d)) => Some(4096 * a + 256 * b + 16 * c + d),
            _ => None,
        }
    }
}

/// One UTF-16 unit that a `\\u` escape at the head of a text stands for.
pub open spec fn read_unit(text: Seq<char>) -> Option<int> {
    if text.len() >= 6 && text[0] == '\\' && text[1] == 'u' {
        read_hex(text.skip(2))
    } else {
        None
    }
}

/// Reads one character of a JSON string at the head of a text: the character,
/// and how many were read for it. A quote, a control character and half a
/// surrogate pair are none.
#[verifier::opaque]
pub open spec fn read_character(text: Seq<char>) -> Option<(char, int)> {
    if text.len() == 0 || text[0] == '"' || ' ' > text[0] {
        None
    } else if text[0] != '\\' {
        Some((text[0], 1))
    } else if text.len() == 1 {
        None
    } else if text[1] == '"' || text[1] == '\\' || text[1] == '/' {
        Some((text[1], 2))
    } else if text[1] == 'b' {
        Some(('\u{8}', 2))
    } else if text[1] == 'f' {
        Some(('\u{c}', 2))
    } else if text[1] == 'n' {
        Some(('\n', 2))
    } else if text[1] == 'r' {
        Some(('\r', 2))
    } else if text[1] == 't' {
        Some(('\t', 2))
    } else {
        match read_unit(text) {
            Some(unit) => if unit < 0xd800 || 0xdfff < unit {
                Some((unit as char, 6))
            } else {
                match read_unit(text.skip(6)) {
                    Some(low) => if unit < 0xdc00 && 0xdc00 <= low <= 0xdfff {
                        Some(((0x10000 + (unit - 0xd800) * 0x400 + (low - 0xdc00)) as char, 12))
                    } else {
                        None
                    },
                    None => None,
                }
            },
            None => None,
        }
    }
}

/// Reads the characters of a JSON string up to its closing quote: the text that
/// they stand for, and what follows the quote.
pub open spec fn read_characters(text: Seq<char>) -> Option<(Seq<char>, Seq<char>)>
    decreases text.len(),
{
    if text.len() > 0 && text[0] == '"' {
        Some((Seq::empty(), text.skip(1)))
    } else {
        match read_character(text) {
            Some((c, length)) => if 0 < length <= text.len() {
                match read_characters(text.skip(length)) {
                    Some((others, rest)) => Some((seq![c] + others, rest)),
                    None => None,
                }
            } else {
                None
            },
            None => None,
        }
    }
}

/// Reads a JSON string: the text that it stands for, and what follows it.
pub open spec fn read_string(text: Seq<char>) -> Option<(Seq<char>, Seq<char>)> {
    if text.len() > 0 && text[0] == '"' {
        read_characters(text.skip(1))
    } else {
        None
    }
}

/// A text without the white space that leads it.
pub open spec fn after_spaces(text: Seq<char>) -> Seq<char>
    decreases text.len(),
{
    if text.len() > 0 && (text[0] == ' ' || text[0] == '\t' || text[0] == '\n' || text[0] == '\r') {
        after_spaces(text.skip(1))
    } else {
        text
    }
}

/// A text that begins with a word.
pub open spec fn begins_with(text: Seq<char>, word: Seq<char>) -> bool {
    text.len() >= word.len() && text.take(word.len() as int) == word
}

/// One or more decimal digits.
pub open spec fn are_digits(text: Seq<char>) -> bool {
    text.len() > 0 && forall|i: int| 0 <= i < text.len() ==> '0' <= #[trigger] text[i] <= '9'
}

/// A fraction: a point and digits, or nothing.
pub open spec fn is_fraction(text: Seq<char>) -> bool {
    text.len() == 0 || (text[0] == '.' && are_digits(text.skip(1)))
}

/// An exponent: `e`, a sign or none and digits, or nothing.
pub open spec fn is_exponent(text: Seq<char>) -> bool {
    text.len() == 0 || ((text[0] == 'e' || text[0] == 'E') && (are_digits(text.skip(1)) || (
    text.len() > 1 && (text[1] == '+' || text[1] == '-') && are_digits(text.skip(2)))))
}

/// A JSON number without a sign: digits without a needless zero, a fraction and
/// an exponent.
pub open spec fn is_unsigned(text: Seq<char>) -> bool {
    exists|i: int, j: int|
        {
            &&& 0 < i <= j <= text.len()
            &&& are_digits(#[trigger] text.take(i))
            &&& text[0] == '0' ==> i == 1
            &&& is_fraction(#[trigger] text.subrange(i, j))
            &&& is_exponent(text.skip(j))
        }
}

/// A JSON number.
pub open spec fn is_number(text: Seq<char>) -> bool {
    is_unsigned(text) || (text.len() > 0 && text[0] == '-' && is_unsigned(text.skip(1)))
}

/// A JSON value whose numbers are numbers.
pub open spec fn is_value(value: Json) -> bool
    decreases value,
{
    match value {
        Json::Number(number) => is_number(number),
        Json::List(items) => forall|i: int| 0 <= i < items.len() ==> is_value(#[trigger] items[i]),
        Json::Object(members) => forall|i: int|
            0 <= i < members.len() ==> is_value((#[trigger] members[i]).1),
        _ => true,
    }
}

/// A character that occurs in numbers.
pub open spec fn occurs_in_numbers(c: char) -> bool {
    '0' <= c <= '9' || c == '+' || c == '-' || c == '.' || c == 'e' || c == 'E'
}

/// How many characters that occur in numbers lead a text.
pub open spec fn number_length(text: Seq<char>) -> int
    decreases text.len(),
{
    if text.len() > 0 && occurs_in_numbers(text[0]) {
        1 + number_length(text.skip(1))
    } else {
        0
    }
}

/// Reads a JSON value at the head of a text, behind white space: the value, and
/// what follows it.
pub open spec fn read_value(text: Seq<char>) -> Option<(Json, Seq<char>)>
    decreases text.len(), 0int,
{
    proof {
        spaces_are_passed(text);
    }
    let body = after_spaces(text);
    if body.len() == 0 {
        None
    } else if body[0] == '"' {
        match read_string(body) {
            Some((characters, rest)) => Some((Json::Text(characters), rest)),
            None => None,
        }
    } else if body[0] == '[' {
        let inner = after_spaces(body.skip(1));
        if inner.len() > 0 && inner[0] == ']' {
            Some((Json::List(Seq::empty()), inner.skip(1)))
        } else {
            match read_items(body.skip(1)) {
                Some((items, rest)) => Some((Json::List(items), rest)),
                None => None,
            }
        }
    } else if body[0] == '{' {
        let inner = after_spaces(body.skip(1));
        if inner.len() > 0 && inner[0] == '}' {
            Some((Json::Object(Seq::empty()), inner.skip(1)))
        } else {
            match read_members(body.skip(1)) {
                Some((members, rest)) => Some((Json::Object(members), rest)),
                None => None,
            }
        }
    } else if begins_with(body, "null"@) {
        Some((Json::Null, body.skip("null"@.len() as int)))
    } else if begins_with(body, "true"@) {
        Some((Json::Truth(true), body.skip("true"@.len() as int)))
    } else if begins_with(body, "false"@) {
        Some((Json::Truth(false), body.skip("false"@.len() as int)))
    } else if is_number(body.take(number_length(body))) {
        Some((Json::Number(body.take(number_length(body))), body.skip(number_length(body))))
    } else {
        None
    }
}

/// Reads the items of a JSON array, of which there is at least one, up to its
/// closing bracket: the items, and what follows the bracket.
pub open spec fn read_items(text: Seq<char>) -> Option<(Seq<Json>, Seq<char>)>
    decreases text.len(), 1int,
{
    match read_value(text) {
        Some((item, behind)) => {
            let next = after_spaces(behind);
            if next.len() == 0 || next.len() > text.len() {
                None
            } else if next[0] == ']' {
                Some((seq![item], next.skip(1)))
            } else if next[0] == ',' {
                match read_items(next.skip(1)) {
                    Some((others, rest)) => Some((seq![item] + others, rest)),
                    None => None,
                }
            } else {
                None
            }
        },
        None => None,
    }
}

/// Reads a member of a JSON object, behind white space: its name and value, and
/// what follows it.
pub open spec fn read_member(text: Seq<char>) -> Option<((Seq<char>, Json), Seq<char>)>
    decreases text.len(), 1int,
{
    match read_string(after_spaces(text)) {
        Some((name, behind)) => {
            let next = after_spaces(behind);
            if 0 < next.len() <= text.len() && next[0] == ':' {
                match read_value(next.skip(1)) {
                    Some((value, rest)) => Some(((name, value), rest)),
                    None => None,
                }
            } else {
                None
            }
        },
        None => None,
    }
}

/// Reads the members of a JSON object, of which there is at least one, up to its
/// closing brace: the members, and what follows the brace.
pub open spec fn read_members(text: Seq<char>) -> Option<(Seq<(Seq<char>, Json)>, Seq<char>)>
    decreases text.len(), 2int,
{
    match read_member(text) {
        Some((member, behind)) => {
            let next = after_spaces(behind);
            if next.len() == 0 || next.len() > text.len() {
                None
            } else if next[0] == '}' {
                Some((seq![member], next.skip(1)))
            } else if next[0] == ',' {
                match read_members(next.skip(1)) {
                    Some((others, rest)) => Some((seq![member] + others, rest)),
                    None => None,
                }
            } else {
                None
            }
        },
        None => None,
    }
}

/// Passing over white space lengthens no text.
pub proof fn spaces_are_passed(text: Seq<char>)
    ensures
        after_spaces(text).len() <= text.len(),
    decreases text.len(),
{
    if text.len() > 0 {
        spaces_are_passed(text.skip(1));
    }
}

/// White space is passed over whatever follows the text that it leads.
proof fn spaces_stay(text: Seq<char>, more: Seq<char>)
    ensures
        after_spaces(text).len() > 0 ==> after_spaces(text + more) == after_spaces(text) + more,
    decreases text.len(),
{
    if text.len() > 0 {
        assert((text + more).skip(1) =~= text.skip(1) + more);
        spaces_stay(text.skip(1), more);
    }
}

/// A character of a JSON string is read whatever follows it.
proof fn character_stays(text: Seq<char>, more: Seq<char>)
    requires
        read_character(text) is Some,
    ensures
        read_character(text + more) == read_character(text),
        read_character(text) matches Some((_, length)) && 0 < length <= text.len(),
{
    reveal(read_character);
    let both = text + more;
    assert(both[0] == text[0]);
    if text[0] == '\\' {
        assert(both[1] == text[1]);
        assert(text.len() >= 6 ==> read_hex(both.skip(2)) == read_hex(text.skip(2)));
        assert(text.len() >= 6 ==> both.skip(6) =~= text.skip(6) + more);
        assert(text.len() >= 12 ==> read_hex(both.skip(6).skip(2)) == read_hex(
            text.skip(6).skip(2),
        ));
    }
}

/// The characters of a JSON string are read whatever follows its quote.
proof fn characters_stay(text: Seq<char>, more: Seq<char>)
    ensures
        read_characters(text) matches Some((characters, rest)) ==> read_characters(text + more)
            == Some((characters, rest + more)),
    decreases text.len(),
{
    let both = text + more;
    if text.len() > 0 && text[0] == '"' {
        assert(both[0] == '"');
        assert(both.skip(1) =~= text.skip(1) + more);
    } else if let Some((c, length)) = read_character(text) {
        character_stays(text, more);
        assert(both[0] == text[0]);
        assert(both.skip(length) =~= text.skip(length) + more);
        characters_stay(text.skip(length), more);
    }
}

/// A JSON string is read whatever follows it.
proof fn string_stays(text: Seq<char>, more: Seq<char>)
    ensures
        read_string(text) matches Some((characters, rest)) ==> read_string(text + more) == Some(
            (characters, rest + more),
        ),
{
    if text.len() > 0 {
        assert((text + more)[0] == text[0]);
        assert((text + more).skip(1) =~= text.skip(1) + more);
        characters_stay(text.skip(1), more);
    }
}

/// No more characters lead a text than it has.
proof fn number_reaches(text: Seq<char>)
    ensures
        0 <= number_length(text) <= text.len(),
    decreases text.len(),
{
    if text.len() > 0 {
        number_reaches(text.skip(1));
    }
}

/// As many characters that occur in numbers lead a text if none of them follows.
proof fn number_stays(text: Seq<char>, more: Seq<char>)
    requires
        number_length(text) < text.len() || more.len() == 0 || !occurs_in_numbers(more[0]),
    ensures
        number_length(text + more) == number_length(text),
    decreases text.len(),
{
    let both = text + more;
    if text.len() == 0 {
        assert(both =~= more);
    } else {
        assert(both[0] == text[0]);
        assert(both.skip(1) =~= text.skip(1) + more);
        if occurs_in_numbers(text[0]) {
            number_stays(text.skip(1), more);
        }
    }
}

/// A word leads a text whatever follows it.
proof fn word_stays(text: Seq<char>, word: Seq<char>, more: Seq<char>)
    ensures
        begins_with(text, word) ==> begins_with(text + more, word) && (text + more).skip(
            word.len() as int,
        ) == text.skip(word.len() as int) + more,
{
    if begins_with(text, word) {
        assert((text + more).take(word.len() as int) =~= word);
        assert((text + more).skip(word.len() as int) =~= text.skip(word.len() as int) + more);
    }
}

/// A number begins with a minus or a digit, as no word does.
proof fn number_is_no_word(text: Seq<char>)
    requires
        is_number(text),
    ensures
        text.len() > 0,
        text[0] == '-' || '0' <= text[0] <= '9',
{
    if is_unsigned(text) {
        let (i, j) = choose|i: int, j: int|
            {
                &&& 0 < i <= j <= text.len()
                &&& are_digits(#[trigger] text.take(i))
                &&& text[0] == '0' ==> i == 1
                &&& is_fraction(#[trigger] text.subrange(i, j))
                &&& is_exponent(text.skip(j))
            };
        assert(text.take(i)[0] == text[0]);
    }
}

/// A JSON value is read whatever follows it, except that a number does not end
/// where a character that occurs in numbers follows.
pub proof fn value_stays(text: Seq<char>, more: Seq<char>)
    requires
        read_value(text) matches Some((_, rest)) && (rest.len() > 0 || more.len() == 0
            || !occurs_in_numbers(more[0])),
    ensures
        read_value(text) matches Some((value, rest)) && read_value(text + more) == Some(
            (value, rest + more),
        ),
    decreases text.len(), 0int,
{
    let body = after_spaces(text);
    let both = body + more;
    spaces_are_passed(text);
    spaces_stay(text, more);
    assert(after_spaces(text + more) == both);
    assert(both[0] == body[0]);
    if body[0] == '"' {
        string_stays(body, more);
    } else if body[0] == '[' || body[0] == '{' {
        let inner = after_spaces(body.skip(1));
        spaces_are_passed(body.skip(1));
        spaces_stay(body.skip(1), more);
        assert(both.skip(1) =~= body.skip(1) + more);
        assert(inner.len() > 0 ==> (inner + more)[0] == inner[0]);
        assert(inner.len() > 0 ==> (inner + more).skip(1) =~= inner.skip(1) + more);
        if body[0] == '[' {
            if inner.len() == 0 || inner[0] != ']' {
                items_stay(body.skip(1), more);
            }
        } else {
            if inner.len() == 0 || inner[0] != '}' {
                members_stay(body.skip(1), more);
            }
        }
    } else {
        reveal_strlit("null");
        reveal_strlit("true");
        reveal_strlit("false");
        assert(forall|t: Seq<char>| #[trigger] begins_with(t, "null"@) ==> t.take(4)[0] == t[0]);
        assert(forall|t: Seq<char>| #[trigger] begins_with(t, "true"@) ==> t.take(4)[0] == t[0]);
        assert(forall|t: Seq<char>| #[trigger] begins_with(t, "false"@) ==> t.take(5)[0] == t[0]);
        word_stays(body, "null"@, more);
        word_stays(body, "true"@, more);
        word_stays(body, "false"@, more);
        if !begins_with(body, "null"@) && !begins_with(body, "true"@) && !begins_with(
            body,
            "false"@,
        ) {
            let length = number_length(body);
            number_reaches(body);
            number_stays(body, more);
            number_is_no_word(body.take(length));
            assert(both.take(length) =~= body.take(length));
            assert(both.skip(length) =~= body.skip(length) + more);
        }
    }
}

/// The items of a JSON array are read whatever follows its bracket.
proof fn items_stay(text: Seq<char>, more: Seq<char>)
    requires
        read_items(text) is Some,
    ensures
        read_items(text) matches Some((items, rest)) && read_items(text + more) == Some(
            (items, rest + more),
        ),
        after_spaces(text).len() > 0,
    decreases text.len(), 1int,
{
    let (item, behind) = read_value(text)->0;
    let next = after_spaces(behind);
    spaces_are_passed(behind);
    value_stays(text, more);
    spaces_stay(behind, more);
    assert((next + more)[0] == next[0]);
    assert((next + more).skip(1) =~= next.skip(1) + more);
    if next[0] == ',' {
        items_stay(next.skip(1), more);
    }
}

/// A member of a JSON object is read whatever follows it, except that a number
/// does not end where a character that occurs in numbers follows.
proof fn member_stays(text: Seq<char>, more: Seq<char>)
    requires
        read_member(text) matches Some((_, rest)) && rest.len() > 0,
    ensures
        read_member(text) matches Some((member, rest)) && read_member(text + more) == Some(
            (member, rest + more),
        ),
    decreases text.len(), 1int,
{
    let body = after_spaces(text);
    spaces_are_passed(text);
    spaces_stay(text, more);
    string_stays(body, more);
    let (name, behind) = read_string(body)->0;
    let next = after_spaces(behind);
    spaces_stay(behind, more);
    assert((next + more)[0] == next[0]);
    assert((next + more).skip(1) =~= next.skip(1) + more);
    value_stays(next.skip(1), more);
}

/// The members of a JSON object are read whatever follows its brace.
proof fn members_stay(text: Seq<char>, more: Seq<char>)
    requires
        read_members(text) is Some,
    ensures
        read_members(text) matches Some((members, rest)) && read_members(text + more) == Some(
            (members, rest + more),
        ),
        after_spaces(text).len() > 0,
    decreases text.len(), 2int,
{
    let (member, behind) = read_member(text)->0;
    let next = after_spaces(behind);
    spaces_are_passed(behind);
    member_stays(text, more);
    spaces_stay(behind, more);
    assert((next + more)[0] == next[0]);
    assert((next + more).skip(1) =~= next.skip(1) + more);
    if next[0] == ',' {
        members_stay(next.skip(1), more);
    }
}

/// A character reads back from how it stands inside a JSON string.
proof fn character_reads_back(c: char, rest: Seq<char>)
    ensures
        read_character(json_character(c) + rest) == Some((c, json_character(c).len() as int)),
        json_character(c).len() > 0,
        (json_character(c) + rest)[0] != '"',
{
    reveal(read_character);
    let text = json_character(c) + rest;
    assert(forall|i: int|
        0 <= i < json_character(c).len() ==> #[trigger] text[i] == json_character(c)[i]);
    assert(text[0] == json_character(c)[0]);
    if text[0] == '\\' {
        assert(text[1] == json_character(c)[1]);
        if text[1] == 'u' {
            let digits = text.skip(2);
            assert(digits[0] == '0' && digits[1] == '0');
            assert(digits[2] == hex_digit(c as int / 16));
            assert(digits[3] == hex_digit(c as int % 16));
            assert(hex_value(digits[0]) == Some(0int));
            assert(hex_value(digits[2]) == Some(c as int / 16));
            assert(hex_value(digits[3]) == Some(c as int % 16));
            assert(read_hex(digits) == Some(c as int));
        }
    }
}

/// A text reads back from how it stands inside a JSON string.
proof fn characters_read_back(text: Seq<char>, rest: Seq<char>)
    ensures
        read_characters(json_characters(text) + (seq!['"'] + rest)) == Some((text, rest)),
    decreases text.len(),
{
    let written = json_characters(text) + (seq!['"'] + rest);
    if text.len() == 0 {
        assert(written[0] == '"');
        assert(written.skip(1) =~= rest);
        assert(text =~= Seq::empty());
    } else {
        let others = text.drop_first();
        let behind = json_characters(others) + (seq!['"'] + rest);
        assert(written =~= json_character(text[0]) + behind);
        character_reads_back(text[0], behind);
        characters_read_back(others, rest);
        assert(written.skip(json_character(text[0]).len() as int) =~= behind);
        assert(seq![text[0]] + others =~= text);
    }
}

/// A text reads back from its JSON string.
proof fn string_reads_back(text: Seq<char>, rest: Seq<char>)
    ensures
        read_string(json_string(text) + rest) == Some((text, rest)),
{
    let written = json_string(text) + rest;
    assert(written[0] == '"');
    assert(written.skip(1) =~= json_characters(text) + (seq!['"'] + rest));
    characters_read_back(text, rest);
}

/// The characters of a number occur in numbers.
proof fn number_is_made_of_its_characters(text: Seq<char>)
    requires
        is_number(text),
    ensures
        forall|i: int| 0 <= i < text.len() ==> occurs_in_numbers(#[trigger] text[i]),
{
    let unsigned = if is_unsigned(text) {
        text
    } else {
        text.skip(1)
    };
    unsigned_is_made_of_its_characters(unsigned);
    if !is_unsigned(text) {
        assert forall|i: int| 0 < i < text.len() implies occurs_in_numbers(#[trigger] text[i]) by {
            assert(text[i] == unsigned[i - 1]);
        }
    }
}

/// The characters of a number without a sign occur in numbers.
proof fn unsigned_is_made_of_its_characters(text: Seq<char>)
    requires
        is_unsigned(text),
    ensures
        forall|i: int| 0 <= i < text.len() ==> occurs_in_numbers(#[trigger] text[i]),
{
    let (i, j) = choose|i: int, j: int|
        {
            &&& 0 < i <= j <= text.len()
            &&& are_digits(#[trigger] text.take(i))
            &&& text[0] == '0' ==> i == 1
            &&& is_fraction(#[trigger] text.subrange(i, j))
            &&& is_exponent(text.skip(j))
        };
    let fraction = text.subrange(i, j);
    let exponent = text.skip(j);
    assert forall|k: int| 0 <= k < text.len() implies occurs_in_numbers(#[trigger] text[k]) by {
        if k < i {
            assert(text.take(i)[k] == text[k]);
        } else if k < j {
            assert(fraction[k - i] == text[k]);
            if k > i {
                assert(fraction.skip(1)[k - i - 1] == text[k]);
            }
        } else {
            assert(exponent[k - j] == text[k]);
            if k > j && are_digits(exponent.skip(1)) {
                assert(exponent.skip(1)[k - j - 1] == text[k]);
            } else if k > j + 1 {
                assert(exponent.skip(2)[k - j - 2] == text[k]);
            }
        }
    }
}

/// Where all of a text occurs in numbers, all of it leads it.
proof fn number_leads(text: Seq<char>)
    requires
        forall|i: int| 0 <= i < text.len() ==> occurs_in_numbers(#[trigger] text[i]),
    ensures
        number_length(text) == text.len(),
    decreases text.len(),
{
    if text.len() > 0 {
        assert forall|i: int| 0 <= i < text.skip(1).len() implies occurs_in_numbers(
            #[trigger] text.skip(1)[i],
        ) by {
            assert(text.skip(1)[i] == text[i + 1]);
        }
        number_leads(text.skip(1));
    }
}

/// A number reads back.
proof fn number_reads_back(number: Seq<char>, rest: Seq<char>)
    requires
        is_number(number),
        rest.len() == 0 || !occurs_in_numbers(rest[0]),
    ensures
        read_value(number + rest) == Some((Json::Number(number), rest)),
        number.len() > 0,
        number[0] == '-' || '0' <= number[0] <= '9',
{
    let written = number + rest;
    number_is_no_word(number);
    number_is_made_of_its_characters(number);
    number_leads(number);
    number_stays(number, rest);
    assert(written[0] == number[0]);
    assert(after_spaces(written) == written);
    reveal_strlit("null");
    reveal_strlit("true");
    reveal_strlit("false");
    assert(begins_with(written, "null"@) ==> written.take(4)[0] == written[0]);
    assert(begins_with(written, "true"@) ==> written.take(4)[0] == written[0]);
    assert(begins_with(written, "false"@) ==> written.take(5)[0] == written[0]);
    assert(written.take(number.len() as int) =~= number);
    assert(written.skip(number.len() as int) =~= rest);
}

/// A word reads back.
proof fn word_reads_back(value: Json, rest: Seq<char>)
    requires
        value is Null || value is Truth,
    ensures
        read_value(json_text(value) + rest) == Some((value, rest)),
        json_text(value).len() > 0,
        json_text(value)[0] == 'n' || json_text(value)[0] == 't' || json_text(value)[0] == 'f',
{
    reveal_strlit("null");
    reveal_strlit("true");
    reveal_strlit("false");
    let word = json_text(value);
    let written = word + rest;
    assert(written[0] == word[0]);
    assert(after_spaces(written) == written);
    assert(written.take(word.len() as int) =~= word);
    assert(written.skip(word.len() as int) =~= rest);
    assert(begins_with(written, "null"@) ==> written.take(4)[0] == written[0]);
    assert(begins_with(written, "true"@) ==> written.take(4)[0] == written[0]);
}

/// A character that may follow a JSON value inside another one.
pub open spec fn ends_a_value(c: char) -> bool {
    c == ',' || c == ']' || c == '}'
}

/// Every JSON value reads back from its text, whatever strings it holds and
/// whatever follows, except that a number does not end where a character that
/// occurs in numbers follows.
pub proof fn value_reads_back(value: Json, rest: Seq<char>)
    requires
        is_value(value),
        rest.len() == 0 || !occurs_in_numbers(rest[0]),
    ensures
        read_value(json_text(value) + rest) == Some((value, rest)),
        json_text(value).len() > 0,
        after_spaces(json_text(value) + rest) == json_text(value) + rest,
        !ends_a_value(json_text(value)[0]),
    decreases value,
{
    let written = json_text(value) + rest;
    match value {
        Json::Null => word_reads_back(value, rest),
        Json::Truth(_) => word_reads_back(value, rest),
        Json::Number(number) => {
            assert(json_text(value) == number);
            number_reads_back(number, rest);
            assert(written[0] == number[0]);
        },
        Json::Text(text) => {
            assert(written[0] == '"');
            string_reads_back(text, rest);
        },
        Json::List(items) => {
            assert(written[0] == '[');
            let inner = written.skip(1);
            let behind = seq![']'] + rest;
            assert(inner =~= json_items(items) + behind);
            if items.len() == 0 {
                assert(inner[0] == ']');
                assert(after_spaces(inner) == inner);
                assert(inner.skip(1) =~= rest);
                assert(items =~= Seq::empty());
            } else {
                items_read_back(items, rest);
            }
        },
        Json::Object(members) => {
            assert(written[0] == '{');
            let inner = written.skip(1);
            let behind = seq!['}'] + rest;
            assert(inner =~= json_members(members) + behind);
            if members.len() == 0 {
                assert(inner[0] == '}');
                assert(after_spaces(inner) == inner);
                assert(inner.skip(1) =~= rest);
                assert(members =~= Seq::empty());
            } else {
                members_read_back(members, rest);
            }
        },
    }
}

/// Items read back from the text of their array.
proof fn items_read_back(items: Seq<Json>, rest: Seq<char>)
    requires
        items.len() > 0,
        forall|i: int| 0 <= i < items.len() ==> is_value(#[trigger] items[i]),
    ensures
        read_items(json_items(items) + (seq![']'] + rest)) == Some((items, rest)),
        ({
            let written = json_items(items) + (seq![']'] + rest);
            after_spaces(written) == written && !ends_a_value(written[0])
        }),
    decreases items,
{
    let written = json_items(items) + (seq![']'] + rest);
    if items.len() == 1 {
        let next = seq![']'] + rest;
        value_reads_back(items[0], next);
        assert(after_spaces(next) == next);
        assert(next.skip(1) =~= rest);
        assert(items =~= seq![items[0]]);
    } else {
        let others = items.subrange(1, items.len() as int);
        let behind = json_items(others) + (seq![']'] + rest);
        let next = seq![','] + behind;
        assert(written =~= json_text(items[0]) + next);
        value_reads_back(items[0], next);
        assert forall|i: int| 0 <= i < others.len() implies is_value(#[trigger] others[i]) by {
            assert(others[i] == items[i + 1]);
        }
        items_read_back(others, rest);
        assert(after_spaces(next) == next);
        assert(next.skip(1) =~= behind);
        assert(items =~= seq![items[0]] + others);
    }
}

/// A member of an object reads back.
proof fn member_reads_back(member: (Seq<char>, Json), rest: Seq<char>)
    requires
        is_value(member.1),
        rest.len() > 0,
        !occurs_in_numbers(rest[0]),
    ensures
        read_member(json_member(member) + rest) == Some((member, rest)),
        json_member(member).len() > 0,
        (json_member(member) + rest)[0] == '"',
    decreases member,
{
    let written = json_member(member) + rest;
    let behind = seq![':'] + (json_text(member.1) + rest);
    assert(written =~= json_string(member.0) + behind);
    assert(json_string(member.0)[0] == '"');
    assert(after_spaces(written) == written);
    string_reads_back(member.0, behind);
    assert(after_spaces(behind) == behind);
    assert(behind.skip(1) =~= json_text(member.1) + rest);
    value_reads_back(member.1, rest);
}

/// Members read back from the text of their object.
proof fn members_read_back(members: Seq<(Seq<char>, Json)>, rest: Seq<char>)
    requires
        members.len() > 0,
        forall|i: int| 0 <= i < members.len() ==> is_value((#[trigger] members[i]).1),
    ensures
        read_members(json_members(members) + (seq!['}'] + rest)) == Some((members, rest)),
        (json_members(members) + (seq!['}'] + rest))[0] == '"',
    decreases members,
{
    let written = json_members(members) + (seq!['}'] + rest);
    if members.len() == 1 {
        let next = seq!['}'] + rest;
        member_reads_back(members[0], next);
        assert(after_spaces(next) == next);
        assert(next.skip(1) =~= rest);
        assert(members =~= seq![members[0]]);
    } else {
        let others = members.subrange(1, members.len() as int);
        let behind = json_members(others) + (seq!['}'] + rest);
        let next = seq![','] + behind;
        assert(written =~= json_member(members[0]) + next);
        member_reads_back(members[0], next);
        assert forall|i: int| 0 <= i < others.len() implies is_value((#[trigger] others[i]).1) by {
            assert(others[i] == members[i + 1]);
        }
        members_read_back(others, rest);
        assert(after_spaces(next) == next);
        assert(next.skip(1) =~= behind);
        assert(members =~= seq![members[0]] + others);
    }
}

} // verus!
