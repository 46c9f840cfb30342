//! PDF downloads that the page hands over: whether the data is a PDF of
//! acceptable size, and under which name it is saved.
use vstd::prelude::*;
use vstd::utf8::{encode_utf8, is_ascii_chars, is_ascii_chars_encode_utf8};

use crate::address::option_view;
use crate::text::{characters, closes_with, join, text_between};

verus! {

/// How many bytes of encoded data a download may have.
pub const MAX_ENCODED_PDF_SIZE: usize = 73_400_320;

/// How many characters of a requested name are kept.
pub const MAX_NAME_LENGTH: usize = 180;

/// Why a download is not saved.
#[derive(Debug, PartialEq, Eq)]
pub enum SaveError {
    /// The encoded data is over the limit.
    TooLarge,
    /// The data is not base64; the decoder gave this reason.
    InvalidData { reason: String },
    /// The data is no PDF.
    NotPdf,
    /// There is no folder to save to.
    NoFolder { reason: String },
    /// The file could not be written.
    NotWritten { reason: String },
}

/// [`SaveError`] over character sequences.
pub enum SaveFault {
    TooLarge,
    InvalidData { reason: Seq<char> },
    NotPdf,
    NoFolder { reason: Seq<char> },
    NotWritten { reason: Seq<char> },
}

impl View for SaveError {
    type V = SaveFault;

    open spec fn view(&self) -> SaveFault {
        match self {
            SaveError::TooLarge => SaveFault::TooLarge,
            SaveError::InvalidData { reason } => SaveFault::InvalidData { reason: reason@ },
            SaveError::NotPdf => SaveFault::NotPdf,
            SaveError::NoFolder { reason } => SaveFault::NoFolder { reason: reason@ },
            SaveError::NotWritten { reason } => SaveFault::NotWritten { reason: reason@ },
        }
    }
}

/// What the page is told of a fault.
pub open spec fn fault_message(fault: SaveFault) -> Seq<char> {
    match fault {
        SaveFault::TooLarge => "The PDF is too large to save."@,
        SaveFault::InvalidData { reason } => "The PDF data was invalid: "@ + reason,
        SaveFault::NotPdf => "The downloaded file was not a valid PDF."@,
        SaveFault::NoFolder { reason } => "Could not locate the Downloads folder: "@ + reason,
        SaveFault::NotWritten { reason } => "Could not save the PDF: "@ + reason,
    }
}

impl SaveError {
    /// What the page is told.
    pub fn message(&self) -> (message: String)
        ensures
            message@ == fault_message(self@),
    {
        match self {
            SaveError::TooLarge => "The PDF is too large to save.".to_owned(),
            SaveError::InvalidData { reason } => join(
                "The PDF data was invalid: ",
                reason.as_str(),
            ),
            SaveError::NotPdf => "The downloaded file was not a valid PDF.".to_owned(),
            SaveError::NoFolder { reason } => join(
                "Could not locate the Downloads folder: ",
                reason.as_str(),
            ),
            SaveError::NotWritten { reason } => join(
                "Could not save the PDF: ",
                reason.as_str(),
            ),
        }
    }
}

/// The bytes that padded standard base64 text stands for, or why it stands for
/// none.
pub uninterp spec fn base64_reading(text: Seq<char>) -> Result<Seq<u8>, Seq<char>>;

/// What an attempt to decode came to.
pub open spec fn decoding_view(decoding: Result<Vec<u8>, String>) -> Result<Seq<u8>, Seq<char>> {
    match decoding {
        Ok(bytes) => Ok(bytes@),
        Err(reason) => Err(reason@),
    }
}

/// Decodes text with `base64::Engine::decode` of the engine `STANDARD`.
/// Trusted: the bytes, or the text of the error, depend on nothing but the
/// text. Which text is accepted is left to that crate.
#[verifier::external_body]
fn decode_base64(text: &str) -> (decoding: Result<Vec<u8>, String>)
    ensures
        decoding_view(decoding) == base64_reading(text@),
{
    base64::Engine::decode(&base64::engine::general_purpose::STANDARD, text).map_err(
        |error| error.to_string(),
    )
}

/// A character that separates the components of a path: the slash, and with it
/// the backslash on systems that take it for one.
pub open spec fn separates(c: char, backslash: bool) -> bool {
    c == '/' || (backslash && c == '\\')
}

/// A path without the separators and the `.` components at its end.
pub open spec fn trimmed(path: Seq<char>, backslash: bool) -> Seq<char>
    decreases path.len(),
{
    if path.len() >= 1 && separates(path.last(), backslash) {
        trimmed(path.drop_last(), backslash)
    } else if path.len() >= 2 && path.last() == '.' && separates(
        path[path.len() - 2],
        backslash,
    ) {
        trimmed(path.take(path.len() - 2), backslash)
    } else {
        path
    }
}

/// What follows the last separator of a path.
pub open spec fn after_last_separator(path: Seq<char>, backslash: bool) -> Seq<char>
    decreases path.len(),
{
    if path.len() == 0 || separates(path.last(), backslash) {
        Seq::empty()
    } else {
        after_last_separator(path.drop_last(), backslash).push(path.last())
    }
}

/// A text that can stand as a file name in a path: not empty and neither `.`
/// nor `..`.
pub open spec fn names_a_file(name: Seq<char>) -> bool {
    name.len() > 0 && name != seq!['.'] && name != seq!['.', '.']
}

/// The last component of a path, where that names a file.
pub open spec fn last_named(path: Seq<char>, backslash: bool) -> Option<Seq<char>> {
    let last = after_last_separator(trimmed(path, backslash), backslash);
    if names_a_file(last) {
        Some(last)
    } else {
        None
    }
}

/// A path that begins as one on a named drive does: with a letter and a colon.
pub open spec fn may_name_a_drive(path: Seq<char>) -> bool {
    &&& path.len() >= 2
    &&& 'a' <= path[0] <= 'z' || 'A' <= path[0] <= 'Z'
    &&& path[1] == ':'
}

/// A path that begins as one on another machine or device does: with two
/// separators.
pub open spec fn may_name_a_machine(path: Seq<char>) -> bool {
    path.len() >= 2 && separates(path[0], true) && separates(path[1], true)
}

/// A path that begins as a verbatim one does, whose components some system
/// leaves as they are written.
pub open spec fn may_be_verbatim(path: Seq<char>) -> bool {
    path.len() >= 4 && path.take(4) == seq!['\\', '\\', '?', '\\']
}

/// A path without backslashes.
pub open spec fn has_no_backslash(path: Seq<char>) -> bool {
    forall|i: int| 0 <= i < path.len() ==> #[trigger] path[i] != '\\'
}

/// What may be taken for the file name of a path: its last component, by whether
/// backslashes separate, the last component behind a drive, or none where all of
/// the path may name a machine. Of a path that may be verbatim it may be any part.
pub open spec fn may_be_file_name(path: Seq<char>, name: Option<Seq<char>>) -> bool {
    ||| name == last_named(path, false)
    ||| name == last_named(path, true)
    ||| may_name_a_drive(path) && name == last_named(path.skip(2), true)
    ||| may_name_a_machine(path) && name is None
    ||| may_be_verbatim(path) && (name matches Some(name) && exists|i: int, j: int|
        0 <= i < j <= path.len() && name == #[trigger] path.subrange(i, j))
}

/// Takes the file name of a path with `std::path::Path::file_name`. Trusted: it
/// is the last component, with separators and `.` components at the end passed
/// over, and there is none where that component is `..`, `.` or missing. Slashes
/// separate on every system; whether backslashes do, and whether a letter and a
/// colon or two separators at the beginning are a prefix, which is no part of a
/// file name, is left to the system. Of a path that begins with `\\?\`, which
/// suspends these rules where it is a prefix, only this is said, that a file name
/// is a non-empty part of it.
#[verifier::external_body]
fn last_component(path: &str) -> (name: Option<String>)
    ensures
        may_be_file_name(path@, option_view(name)),
{
    std::path::Path::new(path).file_name().and_then(|name| name.to_str()).map(str::to_string)
}

/// The characters that some system forbids in file names.
pub open spec fn forbidden(c: char) -> bool {
    ||| c == '<'
    ||| c == '>'
    ||| c == ':'
    ||| c == '"'
    ||| c == '/'
    ||| c == '\\'
    ||| c == '|'
    ||| c == '?'
    ||| c == '*'
}

/// A character as it may stand in a file name.
pub open spec fn cleaned(c: char) -> char {
    if forbidden(c) {
        '_'
    } else {
        c
    }
}

/// An ASCII capital as the small letter, and any other character as it is.
pub open spec fn ascii_lower(c: char) -> char {
    if 'A' <= c <= 'Z' {
        (c as u8 + 32) as char
    } else {
        c
    }
}

/// A name with the extension `.pdf`, in capitals or small letters.
pub open spec fn has_pdf_extension(name: Seq<char>) -> bool {
    closes_with(name.map_values(|c: char| ascii_lower(c)), ".pdf"@)
}

/// The name under which a file whose name was requested is saved: the first
/// characters of the request, cleaned, with the extension `.pdf`.
pub open spec fn safe_name(requested: Option<Seq<char>>) -> Seq<char> {
    let wanted = match requested {
        Some(name) => name,
        None => "iLegalLearn.pdf"@,
    };
    let kept = if wanted.len() <= 180 {
        wanted
    } else {
        wanted.take(180)
    };
    let clean = kept.map_values(|c: char| cleaned(c));
    if has_pdf_extension(clean) {
        clean
    } else {
        clean + ".pdf"@
    }
}

/// A safe name: it names a file in a path, no character of it is
/// forbidden, and it has the extension `.pdf`.
pub open spec fn is_safe(name: Seq<char>) -> bool {
    &&& names_a_file(name)
    &&& forall|i: int| 0 <= i < name.len() ==> !forbidden(#[trigger] name[i])
    &&& has_pdf_extension(name)
}

/// Whether a character is forbidden in file names.
fn is_forbidden(c: char) -> (yes: bool)
    ensures
        yes == forbidden(c),
{
    c == '<' || c == '>' || c == ':' || c == '"' || c == '/' || c == '\\' || c == '|' || c == '?'
        || c == '*'
}

/// Whether a name has the extension `.pdf`, in capitals or small letters.
fn ends_in_pdf(name: &Vec<char>) -> (yes: bool)
    ensures
        yes == has_pdf_extension(name@),
{
    let ghost lower = name@.map_values(|c: char| ascii_lower(c));
    proof {
        reveal_strlit(".pdf");
        assert(".pdf"@ =~= seq!['.', 'p', 'd', 'f']);
    }
    if name.len() < 4 {
        return false;
    }
    let from: usize = name.len() - 4;
    let tail: bool = name[from] == '.' && (name[from + 1] == 'p' || name[from + 1] == 'P') && (
    name[from + 2] == 'd' || name[from + 2] == 'D') && (name[from + 3] == 'f' || name[from + 3]
        == 'F');
    proof {
        let end = lower.skip(lower.len() - 4);
        assert(end.len() == 4);
        assert forall|i: int| 0 <= i < 4 implies #[trigger] end[i] == ascii_lower(
            name@[from + i],
        ) by {}
        if tail {
            assert(end =~= ".pdf"@);
        } else if end == ".pdf"@ {
            assert(end[0] == '.' && end[1] == 'p' && end[2] == 'd' && end[3] == 'f');
            assert(ascii_lower(name@[from as int]) == '.');
            assert(ascii_lower(name@[from + 1]) == 'p');
            assert(ascii_lower(name@[from + 2]) == 'd');
            assert(ascii_lower(name@[from + 3]) == 'f');
        }
    }
    tail
}

/// The name under which a file is saved, from the name that was requested.
pub fn safe_pdf_name(requested: Option<String>) -> (name: String)
    ensures
        name@ == safe_name(option_view(requested)),
        is_safe(name@),
{
    proof {
        given_name_is_safe(option_view(requested));
    }
    let wanted: Vec<char> = match requested {
        Some(name) => characters(name.as_str()),
        None => characters("iLegalLearn.pdf"),
    };
    let length: usize = if wanted.len() <= MAX_NAME_LENGTH {
        wanted.len()
    } else {
        MAX_NAME_LENGTH
    };
    let ghost kept = if wanted@.len() <= 180 {
        wanted@
    } else {
        wanted@.take(180)
    };
    let mut clean: Vec<char> = Vec::new();
    let mut i: usize = 0;
    while i < length
        invariant
            i <= length <= wanted@.len(),
            clean@.len() == i,
            forall|j: int| 0 <= j < i ==> #[trigger] clean@[j] == cleaned(wanted@[j]),
        decreases length - i,
    {
        clean.push(
            if is_forbidden(wanted[i]) {
                '_'
            } else {
                wanted[i]
            },
        );
        i += 1;
    }
    assert(clean@ =~= kept.map_values(|c: char| cleaned(c)));
    let text: String = text_between(&clean, 0, clean.len());
    assert(text@ =~= clean@);
    if ends_in_pdf(&clean) {
        text
    } else {
        join(text.as_str(), ".pdf")
    }
}

/// Bytes that begin as a PDF does.
pub open spec fn begins_as_pdf(bytes: Seq<u8>) -> bool {
    &&& bytes.len() >= 5
    &&& bytes.take(5) == encode_utf8("%PDF-"@)
}

/// Whether bytes begin as a PDF does.
pub fn is_pdf(bytes: &Vec<u8>) -> (yes: bool)
    ensures
        yes == begins_as_pdf(bytes@),
{
    let marker: &[u8] = "%PDF-".as_bytes();
    proof {
        reveal_strlit("%PDF-");
        assert(is_ascii_chars("%PDF-"@));
        is_ascii_chars_encode_utf8("%PDF-"@);
    }
    if bytes.len() < marker.len() {
        return false;
    }
    let mut i: usize = 0;
    while i < marker.len()
        invariant
            marker@ == encode_utf8("%PDF-"@),
            marker@.len() == 5 <= bytes@.len(),
            i <= 5,
            forall|j: int| 0 <= j < i ==> bytes@[j] == marker@[j],
        decreases 5 - i,
    {
        if bytes[i] != marker[i] {
            assert(bytes@.take(5)[i as int] != marker@[i as int]);
            return false;
        }
        i += 1;
    }
    assert(bytes@.take(5) =~= marker@);
    true
}

/// A download that may be saved.
#[derive(Debug, PartialEq, Eq)]
pub struct PdfDownload {
    /// The name to save it under.
    pub name: String,
    /// The bytes of the file.
    pub contents: Vec<u8>,
}

/// The contents of a download, where decoding came to `decoding`, or why it is
/// not saved.
pub open spec fn contents_of(decoding: Result<Seq<u8>, Seq<char>>) -> Result<
    Seq<u8>,
    SaveFault,
> {
    match decoding {
        Ok(bytes) => if begins_as_pdf(bytes) {
            Ok(bytes)
        } else {
            Err(SaveFault::NotPdf)
        },
        Err(reason) => Err(SaveFault::InvalidData { reason }),
    }
}

/// The contents of a download that arrives as base64 text, or why it is not
/// saved.
pub open spec fn contents_of_text(text: Seq<char>) -> Result<Seq<u8>, SaveFault> {
    if encode_utf8(text).len() > 73_400_320 {
        Err(SaveFault::TooLarge)
    } else {
        contents_of(base64_reading(text))
    }
}

/// What an attempt to accept contents came to.
pub open spec fn acceptance_view(acceptance: Result<Vec<u8>, SaveError>) -> Result<
    Seq<u8>,
    SaveFault,
> {
    match acceptance {
        Ok(bytes) => Ok(bytes@),
        Err(error) => Err(error@),
    }
}

/// Accepts decoded data as the contents of a PDF, or says why not.
pub fn accept_decoded(decoding: Result<Vec<u8>, String>) -> (acceptance: Result<
    Vec<u8>,
    SaveError,
>)
    ensures
        acceptance_view(acceptance) == contents_of(decoding_view(decoding)),
{
    match decoding {
        Ok(bytes) => if is_pdf(&bytes) {
            Ok(bytes)
        } else {
            Err(SaveError::NotPdf)
        },
        Err(reason) => Err(SaveError::InvalidData { reason }),
    }
}

/// Checks a download and names it. It is refused exactly where its contents
/// are; otherwise it keeps them, under the safe name for the last component of
/// the requested name.
pub fn prepare_pdf_download(file_name: &str, base64_data: &str) -> (prepared: Result<
    PdfDownload,
    SaveError,
>)
    ensures
        match prepared {
            Ok(download) => {
                &&& contents_of_text(base64_data@) == Ok::<Seq<u8>, SaveFault>(
                    download.contents@,
                )
                &&& is_safe(download.name@)
                &&& exists|requested: Option<Seq<char>>| #[trigger]
                    may_be_file_name(file_name@, requested) && download.name@ == safe_name(
                        requested,
                    )
            },
            Err(error) => contents_of_text(base64_data@) == Err::<Seq<u8>, SaveFault>(error@),
        },
{
    if base64_data.as_bytes().len() > MAX_ENCODED_PDF_SIZE {
        return Err(SaveError::TooLarge);
    }
    let name: String = safe_pdf_name(last_component(file_name));
    match accept_decoded(decode_base64(base64_data)) {
        Ok(contents) => Ok(PdfDownload { name, contents }),
        Err(error) => Err(error),
    }
}

/// Contents are accepted only if they begin as a PDF does and came in no more
/// than the permitted number of encoded bytes.
pub proof fn accepted_contents_are_pdf(text: Seq<char>, contents: Seq<u8>)
    requires
        contents_of_text(text) == Ok::<Seq<u8>, SaveFault>(contents),
    ensures
        begins_as_pdf(contents),
        encode_utf8(text).len() <= 70 * 1024 * 1024,
        base64_reading(text) == Ok::<Seq<u8>, Seq<char>>(contents),
{
}

/// A text that has `.pdf` at its end has the extension.
pub(crate) proof fn appended_extension(front: Seq<char>)
    ensures
        has_pdf_extension(front + ".pdf"@),
{
    reveal_strlit(".pdf");
    let lower = (front + ".pdf"@).map_values(|c: char| ascii_lower(c));
    assert(lower.skip(lower.len() - 4) =~= ".pdf"@);
}

/// A name with the extension is not too short to name a file.
pub(crate) proof fn extension_names_a_file(name: Seq<char>)
    requires
        has_pdf_extension(name),
    ensures
        name.len() >= 4,
        names_a_file(name),
{
    reveal_strlit(".pdf");
    assert(name.map_values(|c: char| ascii_lower(c)).len() == name.len());
}

/// Whatever name is requested, the one that is given is safe and short.
pub proof fn given_name_is_safe(requested: Option<Seq<char>>)
    ensures
        is_safe(safe_name(requested)),
        safe_name(requested).len() <= 184,
{
    reveal_strlit(".pdf");
    let wanted = match requested {
        Some(name) => name,
        None => "iLegalLearn.pdf"@,
    };
    let kept = if wanted.len() <= 180 {
        wanted
    } else {
        wanted.take(180)
    };
    let clean = kept.map_values(|c: char| cleaned(c));
    let given = safe_name(requested);
    assert(given == if has_pdf_extension(clean) {
        clean
    } else {
        clean + ".pdf"@
    });
    appended_extension(clean);
    assert forall|i: int| 0 <= i < given.len() implies !forbidden(#[trigger] given[i]) by {
        if i < clean.len() {
            assert(given[i] == cleaned(kept[i]));
        } else {
            assert(given[i] == ".pdf"@[i - clean.len()]);
        }
    }
    extension_names_a_file(given);
}

/// A safe name of acceptable length is given as it was requested.
pub proof fn safe_request_is_kept(name: Seq<char>)
    requires
        is_safe(name),
        name.len() <= 180,
    ensures
        safe_name(Some(name)) == name,
{
    assert(name.map_values(|c: char| cleaned(c)) =~= name);
}

/// Where a path has no backslash, it does not matter whether backslashes
/// separate.
proof fn backslashes_that_are_not_there(path: Seq<char>)
    requires
        has_no_backslash(path),
    ensures
        trimmed(path, true) == trimmed(path, false),
        after_last_separator(path, true) == after_last_separator(path, false),
        has_no_backslash(trimmed(path, false)),
    decreases path.len(),
{
    if path.len() > 0 {
        backslashes_that_are_not_there(path.drop_last());
    }
    if path.len() > 1 {
        backslashes_that_are_not_there(path.take(path.len() - 2));
    }
}

/// On every system a path has the same file name, its last component, if it has
/// no backslash and begins neither with a letter and a colon nor with two slashes.
pub proof fn file_name_is_the_same_everywhere(path: Seq<char>, name: Option<Seq<char>>)
    requires
        has_no_backslash(path),
        !may_name_a_drive(path),
        !may_name_a_machine(path),
        may_be_file_name(path, name),
    ensures
        name == last_named(path, false),
{
    backslashes_that_are_not_there(path);
    backslashes_that_are_not_there(trimmed(path, false));
    if may_be_verbatim(path) {
        assert(path.take(4)[0] == path[0]);
    }
}

/// A path without slashes has nothing to trim and is its own last component.
proof fn bare_name_is_its_last_component(name: Seq<char>)
    requires
        forall|i: int| 0 <= i < name.len() ==> #[trigger] name[i] != '/',
    ensures
        trimmed(name, false) == name,
        after_last_separator(name, false) == name,
    decreases name.len(),
{
    if name.len() > 0 {
        let front = name.drop_last();
        assert forall|i: int| 0 <= i < front.len() implies #[trigger] front[i] != '/' by {
            assert(front[i] == name[i]);
        }
        bare_name_is_its_last_component(front);
        assert(front.push(name.last()) =~= name);
    }
}

/// A download that is requested under a safe name of acceptable length is saved
/// under just that name, on every system.
pub proof fn safe_request_is_honoured(name: Seq<char>, requested: Option<Seq<char>>)
    requires
        is_safe(name),
        name.len() <= 180,
        may_be_file_name(name, requested),
    ensures
        safe_name(requested) == name,
{
    assert forall|i: int| 0 <= i < name.len() implies #[trigger] name[i] != '/' && name[i] != '\\'
        && name[i] != ':' by {
        assert(!forbidden(name[i]));
    }
    file_name_is_the_same_everywhere(name, requested);
    bare_name_is_its_last_component(name);
    safe_request_is_kept(name);
}

/// A bare name of acceptable length that has no backslash and does not begin with
/// a letter and a colon is saved on every system under itself, cleaned, with the
/// extension `.pdf` if it lacks it.
pub proof fn bare_request_is_cleaned(name: Seq<char>, requested: Option<Seq<char>>)
    requires
        names_a_file(name),
        name.len() <= 180,
        forall|i: int| 0 <= i < name.len() ==> #[trigger] name[i] != '/' && name[i] != '\\',
        !may_name_a_drive(name),
        may_be_file_name(name, requested),
    ensures
        ({
            let clean = name.map_values(|c: char| cleaned(c));
            safe_name(requested) == if has_pdf_extension(clean) {
                clean
            } else {
                clean + ".pdf"@
            }
        }),
{
    file_name_is_the_same_everywhere(name, requested);
    bare_name_is_its_last_component(name);
}

/// The five bytes that every PDF begins with: `%PDF-` in ASCII.
pub open spec fn has_pdf_marker(bytes: Seq<u8>) -> bool {
    &&& bytes.len() >= 5
    &&& bytes[0] == 0x25
    &&& bytes[1] == 0x50
    &&& bytes[2] == 0x44
    &&& bytes[3] == 0x46
    &&& bytes[4] == 0x2d
}

/// Bytes begin as a PDF does exactly where the five bytes of the marker lead them.
pub proof fn pdf_begins_with_its_marker(bytes: Seq<u8>)
    ensures
        begins_as_pdf(bytes) <==> has_pdf_marker(bytes),
{
    reveal_strlit("%PDF-");
    assert(is_ascii_chars("%PDF-"@));
    is_ascii_chars_encode_utf8("%PDF-"@);
    let marker = encode_utf8("%PDF-"@);
    assert(marker.len() == 5);
    assert(marker[0] == 0x25 && marker[1] == 0x50 && marker[2] == 0x44 && marker[3] == 0x46
        && marker[4] == 0x2d);
    let head = bytes.take(5);
    if begins_as_pdf(bytes) {
        assert(head[0] == bytes[0] && head[1] == bytes[1] && head[2] == bytes[2] && head[3]
            == bytes[3] && head[4] == bytes[4]);
    }
    if has_pdf_marker(bytes) {
        assert(head =~= marker);
    }
}

/// [`is_pdf`] holds of the bytes that `%PDF-` leads, and of no other.
pub proof fn is_pdf_looks_for_the_marker(bytes: Vec<u8>, yes: bool)
    requires
        call_ensures(is_pdf, (&bytes,), yes),
    ensures
        yes <==> has_pdf_marker(bytes@),
{
    pdf_begins_with_its_marker(bytes@);
}

/// [`accept_decoded`] accepts every PDF, whatever its size, as it is; it refuses
/// decoded data as no PDF exactly where the marker does not lead it, and what was
/// not decoded for the reason that the decoder gave.
pub proof fn every_decoded_pdf_is_accepted(
    decoding: Result<Vec<u8>, String>,
    acceptance: Result<Vec<u8>, SaveError>,
)
    requires
        call_ensures(accept_decoded, (decoding,), acceptance),
    ensures
        decoding matches Ok(bytes) ==> if has_pdf_marker(bytes@) {
            acceptance matches Ok(contents) && contents@ == bytes@
        } else {
            acceptance matches Err(SaveError::NotPdf)
        },
        decoding matches Err(reason) ==> (acceptance matches Err(SaveError::InvalidData {
            reason: told,
        }) && told@ == reason@),
{
    if let Ok(bytes) = decoding {
        pdf_begins_with_its_marker(bytes@);
    }
}

/// A download is accepted exactly where its text has at most 70 MiB and stands for
/// bytes that the PDF marker leads, and then it keeps those bytes. It is too large
/// exactly where its text has more, it is no PDF exactly where its text of
/// permitted size stands for other bytes, and it is invalid exactly where its text
/// of permitted size stands for none.
pub proof fn downloads_are_accepted_exactly(text: Seq<char>)
    ensures
        forall|bytes: Seq<u8>|
            contents_of_text(text) == Ok::<Seq<u8>, SaveFault>(bytes) <==> {
                &&& encode_utf8(text).len() <= 70 * 1024 * 1024
                &&& base64_reading(text) == Ok::<Seq<u8>, Seq<char>>(bytes)
                &&& #[trigger] has_pdf_marker(bytes)
            },
        contents_of_text(text) == Err::<Seq<u8>, SaveFault>(SaveFault::TooLarge)
            <==> encode_utf8(text).len() > 70 * 1024 * 1024,
        contents_of_text(text) == Err::<Seq<u8>, SaveFault>(SaveFault::NotPdf) <==> {
            &&& encode_utf8(text).len() <= 70 * 1024 * 1024
            &&& base64_reading(text) matches Ok(bytes)
            &&& !has_pdf_marker(bytes)
        },
        encode_utf8(text).len() <= 70 * 1024 * 1024 && base64_reading(text) is Err
            <==> contents_of_text(text) matches Err(SaveFault::InvalidData { .. }),
        contents_of_text(text) matches Err(SaveFault::InvalidData { reason }) ==> base64_reading(
            text,
        ) == Err::<Seq<u8>, Seq<char>>(reason),
{
    if let Ok(bytes) = base64_reading(text) {
        pdf_begins_with_its_marker(bytes);
    }
}

/// A name is the one that is given for a wanted name: its first 180 characters,
/// with `_` for each of `<>:"/\|?*`, and `.pdf` behind them exactly where they do
/// not already close with it in capitals or small letters.
pub open spec fn is_name_for(wanted: Seq<char>, name: Seq<char>) -> bool {
    let kept = if wanted.len() <= 180 {
        wanted.len() as int
    } else {
        180
    };
    &&& name.len() == kept || name.len() == kept + 4
    &&& forall|i: int|
        0 <= i < kept ==> {
            let c = wanted[i];
            #[trigger] name[i] == if c == '<' || c == '>' || c == ':' || c == '"' || c == '/' || c
                == '\\' || c == '|' || c == '?' || c == '*' {
                '_'
            } else {
                c
            }
        }
    &&& name.len() == kept <==> {
        &&& kept >= 4
        &&& name[kept - 4] == '.'
        &&& name[kept - 3] == 'p' || name[kept - 3] == 'P'
        &&& name[kept - 2] == 'd' || name[kept - 2] == 'D'
        &&& name[kept - 1] == 'f' || name[kept - 1] == 'F'
    }
    &&& name.len() == kept + 4 ==> {
        &&& name[kept] == '.'
        &&& name[kept + 1] == 'p'
        &&& name[kept + 2] == 'd'
        &&& name[kept + 3] == 'f'
    }
}

/// A name has the extension exactly where its last four characters are `.pdf` in
/// capitals or small letters.
proof fn extension_is_in_the_last_four(name: Seq<char>)
    ensures
        has_pdf_extension(name) <==> {
            let from = name.len() - 4;
            &&& from >= 0
            &&& name[from] == '.'
            &&& name[from + 1] == 'p' || name[from + 1] == 'P'
            &&& name[from + 2] == 'd' || name[from + 2] == 'D'
            &&& name[from + 3] == 'f' || name[from + 3] == 'F'
        },
{
    reveal_strlit(".pdf");
    let lower = name.map_values(|c: char| ascii_lower(c));
    if name.len() >= 4 {
        let from = name.len() - 4;
        let end = lower.skip(from);
        assert(end[0] == ascii_lower(name[from]));
        assert(end[1] == ascii_lower(name[from + 1]));
        assert(end[2] == ascii_lower(name[from + 2]));
        assert(end[3] == ascii_lower(name[from + 3]));
        assert(".pdf"@ =~= seq!['.', 'p', 'd', 'f']);
        if end[0] == '.' && end[1] == 'p' && end[2] == 'd' && end[3] == 'f' {
            assert(end =~= ".pdf"@);
        }
        if has_pdf_extension(name) {
            assert(end == ".pdf"@);
            assert(end[0] == '.' && end[1] == 'p' && end[2] == 'd' && end[3] == 'f');
        }
    }
}

/// The name that is given for a request is the one for the wanted name, which is
/// `iLegalLearn.pdf` where none was requested.
pub proof fn given_name_is_for_the_wanted_one(requested: Option<Seq<char>>)
    ensures
        requested matches Some(wanted) ==> is_name_for(wanted, safe_name(requested)),
        requested is None ==> is_name_for("iLegalLearn.pdf"@, safe_name(requested)),
{
    let wanted = match requested {
        Some(name) => name,
        None => "iLegalLearn.pdf"@,
    };
    let kept = if wanted.len() <= 180 {
        wanted
    } else {
        wanted.take(180)
    };
    let clean = kept.map_values(|c: char| cleaned(c));
    let name = safe_name(requested);
    extension_is_in_the_last_four(clean);
    reveal_strlit(".pdf");
    assert(clean.len() == kept.len());
    assert forall|i: int| 0 <= i < kept.len() implies #[trigger] name[i] == cleaned(wanted[i]) by {
        assert(name[i] == clean[i]);
        assert(kept[i] == wanted[i]);
    }
    assert(forall|i: int| 0 <= i < clean.len() ==> #[trigger] clean[i] == name[i]);
    if !has_pdf_extension(clean) {
        let n = clean.len() as int;
        assert(name[n] == ".pdf"@[0] && name[n + 1] == ".pdf"@[1] && name[n + 2] == ".pdf"@[2]
            && name[n + 3] == ".pdf"@[3]);
    }
}

/// One name only is given for a wanted name.
pub proof fn one_name_is_given(wanted: Seq<char>, name: Seq<char>, other: Seq<char>)
    requires
        is_name_for(wanted, name),
        is_name_for(wanted, other),
    ensures
        name == other,
{
    let kept = if wanted.len() <= 180 {
        wanted.len() as int
    } else {
        180
    };
    assert(forall|i: int| 0 <= i < kept ==> #[trigger] name[i] == other[i]);
    if kept >= 4 {
        assert(name[kept - 4] == other[kept - 4] && name[kept - 3] == other[kept - 3]
            && name[kept - 2] == other[kept - 2] && name[kept - 1] == other[kept - 1]);
    }
    assert(name.len() == other.len());
    if name.len() == kept + 4 {
        assert forall|i: int| 0 <= i < name.len() implies name[i] == other[i] by {
            if i >= kept {
                assert(i == kept || i == kept + 1 || i == kept + 2 || i == kept + 3);
            }
        }
    }
    assert(name =~= other);
}

/// [`safe_pdf_name`] gives the first 180 characters of the requested name, or of
/// `iLegalLearn.pdf`, cleaned, with the extension `.pdf`.
pub proof fn safe_pdf_name_is_for_the_wanted_one(requested: Option<String>, name: String)
    requires
        call_ensures(safe_pdf_name, (requested,), name),
    ensures
        requested matches Some(wanted) ==> is_name_for(wanted@, name@),
        requested is None ==> is_name_for("iLegalLearn.pdf"@, name@),
{
    given_name_is_for_the_wanted_one(option_view(requested));
}

/// [`prepare_pdf_download`] accepts a download exactly where its text has at most
/// 70 MiB and stands for bytes that the PDF marker leads, keeps just those bytes
/// and names them for what may be the file name of the request, or for
/// `iLegalLearn.pdf` where that has none. Every refusal has its own reason.
pub proof fn download_is_prepared_exactly(
    file_name: &str,
    base64_data: &str,
    prepared: Result<PdfDownload, SaveError>,
)
    requires
        call_ensures(prepare_pdf_download, (file_name, base64_data), prepared),
    ensures
        prepared matches Err(SaveError::TooLarge) <==> encode_utf8(base64_data@).len() > 70 * 1024
            * 1024,
        encode_utf8(base64_data@).len() <= 70 * 1024 * 1024 ==> match base64_reading(base64_data@) {
            Ok(bytes) => if has_pdf_marker(bytes) {
                prepared matches Ok(download) && download.contents@ == bytes
            } else {
                prepared matches Err(SaveError::NotPdf)
            },
            Err(reason) => prepared matches Err(SaveError::InvalidData { reason: told }) && told@
                == reason,
        },
        prepared matches Ok(download) ==> exists|requested: Option<Seq<char>>|
            {
                &&& #[trigger] may_be_file_name(file_name@, requested)
                &&& requested matches Some(wanted) ==> is_name_for(wanted, download.name@)
                &&& requested is None ==> is_name_for("iLegalLearn.pdf"@, download.name@)
            },
{
    downloads_are_accepted_exactly(base64_data@);
    if let Ok(bytes) = base64_reading(base64_data@) {
        pdf_begins_with_its_marker(bytes);
    }
    if let Ok(download) = prepared {
        let requested = choose|requested: Option<Seq<char>>| #[trigger]
            may_be_file_name(file_name@, requested) && download.name@ == safe_name(requested);
        given_name_is_for_the_wanted_one(requested);
    }
}

/// [`SaveError::message`] tells the page why a download was not saved, with the
/// reason that was given, where there is one.
pub proof fn refusal_is_told_with_its_reason(error: SaveError, message: String)
    requires
        call_ensures(SaveError::message, (&error,), message),
    ensures
        error is TooLarge ==> message@ == "The PDF is too large to save."@,
        error matches SaveError::InvalidData { reason } ==> message@
            == "The PDF data was invalid: "@ + reason@,
        error is NotPdf ==> message@ == "The downloaded file was not a valid PDF."@,
        error matches SaveError::NoFolder { reason } ==> message@
            == "Could not locate the Downloads folder: "@ + reason@,
        error matches SaveError::NotWritten { reason } ==> message@
            == "Could not save the PDF: "@ + reason@,
{
}

/// The last component of a path is what follows its last slash, whatever folders
/// stand before it and whatever slashes and `.` components behind it.
pub proof fn folders_are_no_part_of_the_name(folders: Seq<char>, name: Seq<char>)
    requires
        names_a_file(name),
        forall|i: int| 0 <= i < name.len() ==> #[trigger] name[i] != '/',
    ensures
        last_named(folders + seq!['/'] + name, false) == Some(name),
        last_named(folders + seq!['/'] + name + seq!['/'], false) == Some(name),
        last_named(folders + seq!['/'] + name + seq!['/', '.'], false) == Some(name),
{
    let path = folders + seq!['/'] + name;
    after_slash(folders, name);
    assert(path.last() == name.last());
    if path.last() == '.' && path[path.len() - 2] == '/' {
        if name.len() > 1 {
            assert(path[path.len() - 2] == name[name.len() - 2]);
        } else {
            assert(name =~= seq!['.']);
        }
    }
    assert(trimmed(path, false) == path);
    let closed = path + seq!['/'];
    assert(closed.drop_last() =~= path);
    let dotted = path + seq!['/', '.'];
    assert(dotted.take(dotted.len() - 2) =~= path);
}

/// What follows the last slash is what stands behind it.
proof fn after_slash(folders: Seq<char>, name: Seq<char>)
    requires
        forall|i: int| 0 <= i < name.len() ==> #[trigger] name[i] != '/',
    ensures
        after_last_separator(folders + seq!['/'] + name, false) == name,
    decreases name.len(),
{
    let path = folders + seq!['/'] + name;
    if name.len() > 0 {
        let front = name.drop_last();
        assert forall|i: int| 0 <= i < front.len() implies #[trigger] front[i] != '/' by {
            assert(front[i] == name[i]);
        }
        after_slash(folders, front);
        assert(path.drop_last() =~= folders + seq!['/'] + front);
        assert(path.last() == name[name.len() - 1]);
        assert(front.push(name.last()) =~= name);
    } else {
        assert(path.last() == '/');
        assert(name =~= Seq::empty());
    }
}

/// A path whose last component leads up names no file, and neither does one without
/// a component.
pub proof fn way_up_names_no_file(folders: Seq<char>)
    ensures
        last_named(folders + seq!['/', '.', '.'], false) is None,
        last_named(seq!['.', '.'], false) is None,
        last_named(seq!['.'], false) is None,
        last_named(seq!['/'], false) is None,
        last_named(Seq::empty(), false) is None,
{
    let up = seq!['.', '.'];
    let path = folders + seq!['/'] + up;
    assert(path =~= folders + seq!['/', '.', '.']);
    after_slash(folders, up);
    assert(path.last() == '.' && path[path.len() - 2] == '.');
    assert(trimmed(path, false) == path);
    bare_name_is_its_last_component(up);
    bare_name_is_its_last_component(seq!['.']);
    bare_name_is_its_last_component(Seq::empty());
    assert(seq!['/'].drop_last() =~= Seq::<char>::empty());
    assert(trimmed(seq!['/'], false) == Seq::<char>::empty());
}

} // verus!
