//! Characters, decimal numbers and the small string tests that the other
//! modules share.
use vstd::prelude::*;
use vstd::utf8::{encode_scalar, encode_utf8};

verus! {

/// `String::push` appends one character to the end of the string.
pub assume_specification[ String::push ](text: &mut String, c: char)
    ensures
        final(text)@ == old(text)@.push(c),
;

/// Joins two texts.
pub fn join(first: &str, second: &str) -> (text: String)
    ensures
        text@ == first@ + second@,
{
    let mut text: String = first.to_owned();
    text.append(second);
    text
}

/// The characters of a text, one by one.
pub fn characters(text: &str) -> (chars: Vec<char>)
    ensures
        chars@ == text@,
{
    let mut chars: Vec<char> = Vec::new();
    for c in it: text.chars()
        invariant
            chars@ == it.seq().take(it.index()),
    {
        chars.push(c);
    }
    chars
}

/// The text made of `chars[from..to]`.
pub fn text_between(chars: &Vec<char>, from: usize, to: usize) -> (text: String)
    requires
        from <= to <= chars@.len(),
    ensures
        text@ == chars@.subrange(from as int, to as int),
{
    let mut text: String = String::new();
    let mut i: usize = from;
    while i < to
        invariant
            from <= i <= to <= chars@.len(),
            text@ == chars@.subrange(from as int, i as int),
        decreases to - i,
    {
        text.push(chars[i]);
        i += 1;
        assert(text@ =~= chars@.subrange(from as int, i as int));
    }
    text
}

/// `text` closes with `suffix`.
pub open spec fn closes_with(text: Seq<char>, suffix: Seq<char>) -> bool {
    &&& suffix.len() <= text.len()
    &&& text.skip(text.len() - suffix.len()) == suffix
}

/// Whether `text` closes with `suffix`.
pub fn ends_with(text: &str, suffix: &str) -> (yes: bool)
    ensures
        yes == closes_with(text@, suffix@),
{
    let whole: Vec<char> = characters(text);
    let tail: Vec<char> = characters(suffix);
    if tail.len() > whole.len() {
        return false;
    }
    let offset: usize = whole.len() - tail.len();
    let mut i: usize = 0;
    while i < tail.len()
        invariant
            whole@ == text@,
            tail@ == suffix@,
            offset + tail.len() == whole.len(),
            i <= tail.len(),
            forall|j: int| 0 <= j < i ==> whole@[offset + j] == tail@[j],
        decreases tail.len() - i,
    {
        if whole[offset + i] != tail[i] {
            assert(text@.skip(offset as int)[i as int] != suffix@[i as int]);
            return false;
        }
        i += 1;
    }
    assert(text@.skip(offset as int) =~= suffix@);
    true
}

/// The decimal digit of a number below ten.
pub open spec fn digit(d: nat) -> char {
    (48 + d) as char
}

/// A number written in decimal, without leading zeros.
pub open spec fn decimal(n: nat) -> Seq<char>
    decreases n,
{
    if n < 10 {
        seq![digit(n)]
    } else {
        decimal(n / 10).push(digit(n % 10))
    }
}

/// The number that a run of decimal digits stands for.
pub open spec fn decimal_value(digits: Seq<char>) -> int
    decreases digits.len(),
{
    if digits.len() == 0 {
        0
    } else {
        10 * decimal_value(digits.drop_last()) + (digits.last() as int - 48)
    }
}

/// Writes a number in decimal.
pub fn decimal_text(n: u64) -> (text: String)
    ensures
        text@ == decimal(n as nat),
    decreases n,
{
    if n < 10 {
        let mut text: String = String::new();
        text.push((48 + n as u8) as char);
        assert(text@ =~= decimal(n as nat));
        text
    } else {
        let mut text: String = decimal_text(n / 10);
        text.push((48 + (n % 10) as u8) as char);
        text
    }
}

/// Reading a number back from its decimal writing gives the number.
pub proof fn decimal_reads_back(n: nat)
    ensures
        decimal_value(decimal(n)) == n,
        decimal(n).len() > 0,
    decreases n,
{
    reveal_with_fuel(decimal_value, 2);
    if n >= 10 {
        decimal_reads_back(n / 10);
        assert(decimal(n).drop_last() =~= decimal(n / 10));
    } else {
        assert(decimal(n).drop_last() =~= Seq::empty());
    }
}

/// Two numbers with the same decimal writing are the same number.
pub proof fn decimal_is_injective(m: nat, n: nat)
    requires
        decimal(m) == decimal(n),
    ensures
        m == n,
{
    decimal_reads_back(m);
    decimal_reads_back(n);
}

/// A decimal writing holds nothing but the digits from 0 to 9.
pub proof fn decimal_is_digits(n: nat)
    ensures
        forall|i: int| 0 <= i < decimal(n).len() ==> '0' <= #[trigger] decimal(n)[i] <= '9',
    decreases n,
{
    if n >= 10 {
        decimal_is_digits(n / 10);
        assert forall|i: int| 0 <= i < decimal(n).len() implies '0' <= #[trigger] decimal(
            n,
        )[i] <= '9' by {
            if i < decimal(n / 10).len() {
                assert(decimal(n)[i] == decimal(n / 10)[i]);
            }
        }
    }
}

/// The UTF-8 bytes of two joined texts are the bytes of the first followed by
/// the bytes of the second.
pub proof fn utf8_of_joined(first: Seq<char>, second: Seq<char>)
    ensures
        encode_utf8(first + second) == encode_utf8(first) + encode_utf8(second),
    decreases first.len(),
{
    if first.len() == 0 {
        assert(first + second =~= second);
        assert(encode_utf8(first) =~= Seq::empty());
    } else {
        utf8_of_joined(first.drop_first(), second);
        assert((first + second).drop_first() =~= first.drop_first() + second);
        assert((first + second)[0] == first[0]);
        assert(encode_utf8(first + second) =~= encode_scalar(first[0] as u32) + encode_utf8(
            (first + second).drop_first(),
        ));
    }
}

/// The characters that the Unicode property `White_Space` holds of.
pub open spec fn is_white_space(c: char) -> bool {
    ||| '\u{9}' <= c <= '\u{d}'
    ||| c == '\u{20}'
    ||| c == '\u{85}'
    ||| c == '\u{a0}'
    ||| c == '\u{1680}'
    ||| '\u{2000}' <= c <= '\u{200a}'
    ||| c == '\u{2028}'
    ||| c == '\u{2029}'
    ||| c == '\u{202f}'
    ||| c == '\u{205f}'
    ||| c == '\u{3000}'
}

/// Whether a character is Unicode white space.
pub fn white_space(c: char) -> (yes: bool)
    ensures
        yes == is_white_space(c),
{
    ('\u{9}' <= c && c <= '\u{d}') || c == '\u{20}' || c == '\u{85}' || c == '\u{a0}' || c
        == '\u{1680}' || ('\u{2000}' <= c && c <= '\u{200a}') || c == '\u{2028}' || c
        == '\u{2029}' || c == '\u{202f}' || c == '\u{205f}' || c == '\u{3000}'
}

/// A text writes a number: decimal digits without a needless zero that stand for
/// it.
pub open spec fn writes_number(text: Seq<char>, n: nat) -> bool {
    &&& text.len() > 0
    &&& forall|i: int| 0 <= i < text.len() ==> '0' <= #[trigger] text[i] <= '9'
    &&& text.len() > 1 ==> text[0] != '0'
    &&& decimal_value(text) == n
}

/// A decimal writing begins with a zero only where the number is zero.
proof fn decimal_leads_with_no_zero(n: nat)
    ensures
        decimal(n).len() > 0,
        n > 0 ==> decimal(n)[0] != '0',
        n < 10 ==> decimal(n).len() == 1,
    decreases n,
{
    if n >= 10 {
        decimal_leads_with_no_zero(n / 10);
    }
}

/// A decimal writing writes its number.
pub proof fn decimal_writes_its_number(n: nat)
    ensures
        writes_number(decimal(n), n),
{
    decimal_reads_back(n);
    decimal_is_digits(n);
    decimal_leads_with_no_zero(n);
}

/// Digits without a needless zero stand for no negative number, and for zero only
/// where they are a single zero.
proof fn digits_have_their_weight(text: Seq<char>)
    requires
        forall|i: int| 0 <= i < text.len() ==> '0' <= #[trigger] text[i] <= '9',
    ensures
        decimal_value(text) >= 0,
        text.len() > 0 && text[0] != '0' ==> decimal_value(text) > 0,
    decreases text.len(),
{
    if text.len() > 0 {
        let front = text.drop_last();
        assert forall|i: int| 0 <= i < front.len() implies '0' <= #[trigger] front[i] <= '9' by {
            assert(front[i] == text[i]);
        }
        digits_have_their_weight(front);
        assert('0' <= text[text.len() - 1] <= '9');
    }
}

/// A number is written in one way only.
pub proof fn number_is_written_in_one_way(text: Seq<char>, other: Seq<char>, n: nat)
    requires
        writes_number(text, n),
        writes_number(other, n),
    ensures
        text == other,
    decreases text.len(),
{
    reveal_with_fuel(decimal_value, 2);
    let front = text.drop_last();
    let other_front = other.drop_last();
    assert forall|i: int| 0 <= i < front.len() implies '0' <= #[trigger] front[i] <= '9' by {
        assert(front[i] == text[i]);
    }
    assert forall|i: int| 0 <= i < other_front.len() implies '0' <= #[trigger] other_front[i]
        <= '9' by {
        assert(other_front[i] == other[i]);
    }
    digits_have_their_weight(front);
    digits_have_their_weight(other_front);
    assert('0' <= text[text.len() - 1] <= '9' && '0' <= other[other.len() - 1] <= '9');
    assert(text.last() == other.last());
    assert(decimal_value(front) == decimal_value(other_front));
    if front.len() > 0 && other_front.len() > 0 {
        number_is_written_in_one_way(front, other_front, decimal_value(front) as nat);
    }
    assert(text =~= front.push(text.last()));
    assert(other =~= other_front.push(other.last()));
}

/// [`decimal_text`] gives digits that stand for the number, without a needless
/// zero.
pub proof fn decimal_text_writes_the_number(n: u64, text: String)
    requires
        call_ensures(decimal_text, (n,), text),
    ensures
        writes_number(text@, n as nat),
{
    decimal_writes_its_number(n as nat);
}

/// A text closes with a suffix exactly where it is some text followed by the
/// suffix.
pub proof fn closing_is_what_follows_the_front(text: Seq<char>, suffix: Seq<char>)
    ensures
        closes_with(text, suffix) <==> exists|front: Seq<char>| text == #[trigger] (front + suffix),
{
    if closes_with(text, suffix) {
        assert(text =~= text.take(text.len() - suffix.len()) + suffix);
    }
    assert forall|front: Seq<char>| text == #[trigger] (front + suffix) implies closes_with(
        text,
        suffix,
    ) by {
        assert(text.skip(text.len() - suffix.len()) =~= suffix);
    }
}

/// [`ends_with`] says of a text whether it is some text followed by the suffix.
pub proof fn ends_with_what_follows_the_front(text: &str, suffix: &str, yes: bool)
    requires
        call_ensures(ends_with, (text, suffix), yes),
    ensures
        yes <==> exists|front: Seq<char>| text@ == #[trigger] (front + suffix@),
{
    closing_is_what_follows_the_front(text@, suffix@);
}

/// [`white_space`] holds of the twenty-five code points that Unicode counts as
/// white space, and of no other.
pub proof fn white_space_is_what_unicode_says(c: char, yes: bool)
    requires
        call_ensures(white_space, (c,), yes),
    ensures
        yes <==> {
            let code = c as int;
            ||| 9 <= code <= 13
            ||| code == 32
            ||| code == 133
            ||| code == 160
            ||| code == 5760
            ||| 8192 <= code <= 8202
            ||| code == 8232
            ||| code == 8233
            ||| code == 8239
            ||| code == 8287
            ||| code == 12288
        },
        yes == is_white_space(c),
{
}

} // verus!
