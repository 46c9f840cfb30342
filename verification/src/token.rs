//! Random tokens, and the challenge that stands for a code verifier.
use vstd::prelude::*;
use vstd::utf8::encode_utf8;

verus! {

/// The ASCII letters and digits.
pub open spec fn alphanumeric(c: char) -> bool {
    'a' <= c <= 'z' || 'A' <= c <= 'Z' || '0' <= c <= '9'
}

/// A token: `length` ASCII letters and digits.
pub open spec fn is_token(text: Seq<char>, length: nat) -> bool {
    &&& text.len() == length
    &&& forall|i: int| 0 <= i < text.len() ==> alphanumeric(#[trigger] text[i])
}

/// The characters of the URL-safe base64 alphabet.
pub open spec fn url_safe(c: char) -> bool {
    alphanumeric(c) || c == '-' || c == '_'
}

/// The SHA-256 digest of some bytes.
pub uninterp spec fn sha256_digest(bytes: Seq<u8>) -> Seq<u8>;

/// The character that stands for six bits in URL-safe base64.
pub open spec fn base64url_digit(bits: int) -> char {
    if bits < 26 {
        (bits + 65) as char
    } else if bits < 52 {
        (bits + 71) as char
    } else if bits < 62 {
        (bits - 4) as char
    } else if bits == 62 {
        '-'
    } else {
        '_'
    }
}

/// The `i`th six bits of some bytes, with zeros behind the last byte.
pub open spec fn six_bits(bytes: Seq<u8>, i: int) -> int {
    let at = i / 4 * 3;
    let byte = |j: int| if j < bytes.len() { bytes[j] as int } else { 0 };
    if i % 4 == 0 {
        byte(at) / 4
    } else if i % 4 == 1 {
        byte(at) % 4 * 16 + byte(at + 1) / 16
    } else if i % 4 == 2 {
        byte(at + 1) % 16 * 4 + byte(at + 2) / 64
    } else {
        byte(at + 2) % 64
    }
}

/// Bytes in URL-safe base64 without padding: a character for every six bits,
/// the last of them filled up with zeros.
pub open spec fn base64url_text(bytes: Seq<u8>) -> Seq<char> {
    Seq::new((4 * bytes.len() + 2) / 3, |i: int| base64url_digit(six_bits(bytes, i)))
}

/// Draws one character with `rand::Rng::sample` from the thread's generator and
/// the distribution `rand::distr::Alphanumeric`. Trusted: whatever is drawn is
/// an ASCII letter or digit. Which one it is, and that all are equally likely,
/// is left unsaid.
#[verifier::external_body]
fn random_alphanumeric() -> (byte: u8)
    ensures
        alphanumeric(byte as char),
{
    rand::Rng::sample(&mut rand::rng(), rand::distr::Alphanumeric)
}

/// Hashes bytes with `sha2::Sha256` through `Digest::digest`. Trusted: the
/// digest has 32 bytes and depends on nothing but the bytes.
#[verifier::external_body]
fn sha256(bytes: &[u8]) -> (digest: Vec<u8>)
    ensures
        digest@ == sha256_digest(bytes@),
        digest@.len() == 32,
{
    <sha2::Sha256 as sha2::Digest>::digest(bytes).to_vec()
}

/// Encodes bytes with `base64::Engine::encode` of the engine `URL_SAFE_NO_PAD`.
/// Trusted: the text has a character of the URL-safe alphabet for every six bits,
/// the last of them filled up with zeros, and no padding.
#[verifier::external_body]
fn base64url(bytes: &[u8]) -> (text: String)
    requires
        bytes@.len() <= 0xffff,
    ensures
        text@ == base64url_text(bytes@),
{
    base64::Engine::encode(&base64::engine::general_purpose::URL_SAFE_NO_PAD, bytes)
}

/// The token that drawn bytes make: each byte as the character it encodes.
pub fn token_of(drawn: &Vec<u8>) -> (token: String)
    ensures
        token@ == drawn@.map_values(|byte: u8| byte as char),
{
    let mut token: String = String::new();
    let mut i: usize = 0;
    while i < drawn.len()
        invariant
            i <= drawn@.len(),
            token@ == drawn@.take(i as int).map_values(|byte: u8| byte as char),
        decreases drawn@.len() - i,
    {
        token.push(drawn[i] as char);
        i += 1;
        assert(token@ =~= drawn@.take(i as int).map_values(|byte: u8| byte as char));
    }
    assert(drawn@.take(i as int) =~= drawn@);
    token
}

/// Draws a token of `length` ASCII letters and digits.
pub fn random_token(length: usize) -> (token: String)
    ensures
        is_token(token@, length as nat),
{
    let mut drawn: Vec<u8> = Vec::new();
    while drawn.len() < length
        invariant
            drawn@.len() <= length,
            forall|i: int| 0 <= i < drawn@.len() ==> alphanumeric(#[trigger] drawn@[i] as char),
        decreases length - drawn@.len(),
    {
        drawn.push(random_alphanumeric());
    }
    token_of(&drawn)
}

/// The S256 challenge of a code verifier: its SHA-256 digest in URL-safe base64.
pub open spec fn challenge_of(code_verifier: Seq<char>) -> Seq<char> {
    base64url_text(sha256_digest(encode_utf8(code_verifier)))
}

/// Computes the S256 challenge of a code verifier.
pub fn code_challenge(code_verifier: &str) -> (challenge: String)
    ensures
        challenge@ == challenge_of(code_verifier@),
        challenge@.len() == 43,
        forall|i: int| 0 <= i < challenge@.len() ==> url_safe(#[trigger] challenge@[i]),
{
    let digest: Vec<u8> = sha256(code_verifier.as_bytes());
    proof {
        base64url_is_url_safe(digest@);
    }
    base64url(digest.as_slice())
}

/// URL-safe base64 needs no escape in a query.
pub proof fn base64url_is_url_safe(bytes: Seq<u8>)
    ensures
        forall|i: int| 0 <= i < base64url_text(bytes).len() ==> url_safe(
            #[trigger] base64url_text(bytes)[i],
        ),
{
    assert forall|i: int| 0 <= i < base64url_text(bytes).len() implies url_safe(
        #[trigger] base64url_text(bytes)[i],
    ) by {
        assert(0 <= six_bits(bytes, i) < 64);
    }
}

/// The six bits that a character of URL-safe base64 stands for, and -1 for any
/// other character.
pub open spec fn base64url_bits(c: char) -> int {
    if 'A' <= c <= 'Z' {
        c as int - 'A' as int
    } else if 'a' <= c <= 'z' {
        26 + (c as int - 'a' as int)
    } else if '0' <= c <= '9' {
        52 + (c as int - '0' as int)
    } else if c == '-' {
        62
    } else if c == '_' {
        63
    } else {
        -1
    }
}

/// The byte that text in URL-safe base64 holds at a place: its bits lie in two
/// characters.
pub open spec fn base64url_byte(text: Seq<char>, j: int) -> int {
    let at = j / 3 * 4 + j % 3;
    let (high, low) = (base64url_bits(text[at]), base64url_bits(text[at + 1]));
    if j % 3 == 0 {
        high * 4 + low / 16
    } else if j % 3 == 1 {
        high % 16 * 16 + low / 4
    } else {
        high % 4 * 64 + low
    }
}

/// A text encodes bytes in URL-safe base64 without padding: it has as many
/// characters of the alphabet as the bits need, it holds each byte in its place,
/// and the bits that are left of the last character are zero.
pub open spec fn is_base64url_of(text: Seq<char>, bytes: Seq<u8>) -> bool {
    &&& 6 * text.len() >= 8 * bytes.len() > 6 * (text.len() - 1)
    &&& forall|i: int| 0 <= i < text.len() ==> base64url_bits(#[trigger] text[i]) >= 0
    &&& forall|j: int| 0 <= j < bytes.len() ==> base64url_byte(text, j) == #[trigger] bytes[j]
    &&& bytes.len() % 3 == 1 ==> base64url_bits(text.last()) % 16 == 0
    &&& bytes.len() % 3 == 2 ==> base64url_bits(text.last()) % 4 == 0
}

/// A character of URL-safe base64 stands for the six bits that it is written for.
proof fn digit_holds_its_bits(bits: int)
    requires
        0 <= bits < 64,
    ensures
        base64url_bits(base64url_digit(bits)) == bits,
{
}

/// Every character that is written for bytes holds their six bits in its place.
proof fn character_holds_six_bits(bytes: Seq<u8>, i: int)
    requires
        0 <= i < base64url_text(bytes).len(),
    ensures
        0 <= six_bits(bytes, i) < 64,
        base64url_bits(base64url_text(bytes)[i]) == six_bits(bytes, i),
{
    digit_holds_its_bits(six_bits(bytes, i));
}

/// Every byte is held in its place.
proof fn byte_is_held(bytes: Seq<u8>, j: int)
    requires
        0 <= j < bytes.len(),
    ensures
        base64url_byte(base64url_text(bytes), j) == bytes[j],
{
    let q = j / 3;
    let at = 4 * q + j % 3;
    character_holds_six_bits(bytes, at);
    character_holds_six_bits(bytes, at + 1);
    assert(at / 4 == q && at % 4 == j % 3);
    assert((at + 1) / 4 == q && (at + 1) % 4 == j % 3 + 1);
    assert(j == 3 * q + j % 3);
}

/// The bits that are left of the last character are zero.
proof fn last_is_filled_up(bytes: Seq<u8>)
    requires
        bytes.len() % 3 != 0,
    ensures
        base64url_text(bytes).len() > 0,
        bytes.len() % 3 == 1 ==> base64url_bits(base64url_text(bytes).last()) % 16 == 0,
        bytes.len() % 3 == 2 ==> base64url_bits(base64url_text(bytes).last()) % 4 == 0,
{
    let q = bytes.len() as int / 3;
    let r = bytes.len() as int % 3;
    let last = 4 * q + r;
    assert(bytes.len() == 3 * q + r);
    assert(base64url_text(bytes).len() == last + 1);
    character_holds_six_bits(bytes, last);
    assert(last / 4 == q && last % 4 == r);
    if r == 1 {
        let byte = bytes[3 * q] as int;
        assert(six_bits(bytes, last) == byte % 4 * 16);
    } else {
        let byte = bytes[3 * q + 1] as int;
        assert(six_bits(bytes, last) == byte % 16 * 4);
    }
}

/// What is written for bytes in URL-safe base64 holds just those bytes.
pub proof fn base64url_holds_its_bytes(bytes: Seq<u8>)
    ensures
        is_base64url_of(base64url_text(bytes), bytes),
{
    let text = base64url_text(bytes);
    assert forall|i: int| 0 <= i < text.len() implies base64url_bits(#[trigger] text[i]) >= 0 by {
        character_holds_six_bits(bytes, i);
    }
    assert forall|j: int| 0 <= j < bytes.len() implies base64url_byte(text, j)
        == #[trigger] bytes[j] by {
        byte_is_held(bytes, j);
    }
    if bytes.len() % 3 != 0 {
        last_is_filled_up(bytes);
    }
}

/// [`token_of`] gives one character for each drawn byte, the one with that code.
pub proof fn token_has_a_character_for_each_byte(drawn: Vec<u8>, token: String)
    requires
        call_ensures(token_of, (&drawn,), token),
    ensures
        token@.len() == drawn@.len(),
        forall|i: int| 0 <= i < drawn@.len() ==> #[trigger] token@[i] as int == drawn@[i] as int,
{
}

/// [`random_token`] gives as many characters as it is asked for, all of them
/// ASCII letters and digits.
pub proof fn random_token_is_letters_and_digits(length: usize, token: String)
    requires
        call_ensures(random_token, (length,), token),
    ensures
        token@.len() == length,
        forall|i: int| 0 <= i < token@.len() ==> {
            ||| 'a' <= #[trigger] token@[i] <= 'z'
            ||| 'A' <= token@[i] <= 'Z'
            ||| '0' <= token@[i] <= '9'
        },
{
    assert forall|i: int| 0 <= i < token@.len() implies {
        ||| 'a' <= #[trigger] token@[i] <= 'z'
        ||| 'A' <= token@[i] <= 'Z'
        ||| '0' <= token@[i] <= '9'
    } by {
        assert(alphanumeric(token@[i]));
    }
}

/// [`code_challenge`] gives the SHA-256 digest of the UTF-8 bytes of the verifier
/// in URL-safe base64 without padding.
pub proof fn challenge_holds_the_digest_of_the_verifier(code_verifier: &str, challenge: String)
    requires
        call_ensures(code_challenge, (code_verifier,), challenge),
    ensures
        challenge@ == base64url_text(sha256_digest(encode_utf8(code_verifier@))),
        is_base64url_of(challenge@, sha256_digest(encode_utf8(code_verifier@))),
        challenge@.len() == 43,
{
    base64url_holds_its_bytes(sha256_digest(encode_utf8(code_verifier@)));
}

} // verus!
