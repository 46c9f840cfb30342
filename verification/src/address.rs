//! Web addresses, read into plain parts.
//!
//! The `url` crate takes addresses apart and puts them together. Everything
//! else works on [`WebUrl`], which holds the parts as plain strings.
use vstd::prelude::*;

verus! {

/// An absolute address and the parts of it that decisions rest on.
#[derive(Debug, PartialEq, Eq)]
pub struct WebUrl {
    /// The address as it is written.
    pub text: String,
    /// What stands before the first colon.
    pub scheme: String,
    /// The host, where the address has one.
    pub host: Option<String>,
    /// The path, percent-encoded.
    pub path: String,
    /// The query, read as form fields: decoded names and values in order.
    pub pairs: Vec<(String, String)>,
}

/// The parts of an address as mathematical values.
pub struct UrlParts {
    pub text: Seq<char>,
    pub scheme: Seq<char>,
    pub host: Option<Seq<char>>,
    pub path: Seq<char>,
    pub pairs: Seq<(Seq<char>, Seq<char>)>,
}

/// What a list of string pairs holds.
pub open spec fn pairs_view(pairs: Seq<(String, String)>) -> Seq<(Seq<char>, Seq<char>)> {
    pairs.map_values(|pair: (String, String)| (pair.0@, pair.1@))
}

/// What an optional string holds.
pub open spec fn option_view(text: Option<String>) -> Option<Seq<char>> {
    match text {
        Some(text) => Some(text@),
        None => None,
    }
}

impl View for WebUrl {
    type V = UrlParts;

    open spec fn view(&self) -> UrlParts {
        UrlParts {
            text: self.text@,
            scheme: self.scheme@,
            host: option_view(self.host),
            path: self.path@,
            pairs: pairs_view(self.pairs@),
        }
    }
}

/// What an attempt to read an address came to: its parts, or the reason why the
/// text is no absolute address.
pub open spec fn reading_view(reading: Result<WebUrl, String>) -> Result<UrlParts, Seq<char>> {
    match reading {
        Ok(url) => Ok(url@),
        Err(reason) => Err(reason@),
    }
}

/// The parts that the `url` crate reads out of a text, or its reason for
/// refusing the text.
pub uninterp spec fn url_reading(text: Seq<char>) -> Result<UrlParts, Seq<char>>;

/// The address that the `url` crate writes for a base address and the form
/// fields added to its query.
pub uninterp spec fn url_text_with_fields(
    base: Seq<char>,
    fields: Seq<(Seq<char>, Seq<char>)>,
) -> Seq<char>;

/// Reads an address with `url::Url::parse` and copies out its text, scheme,
/// host, path and form-decoded query pairs, or the text of the parse error.
/// Trusted: these depend on nothing but the text that is read. How they follow
/// from it is left to that crate.
#[verifier::external_body]
fn read_url(text: &str) -> (reading: Result<WebUrl, String>)
    ensures
        reading_view(reading) == url_reading(text@),
{
    match url::Url::parse(text) {
        Ok(url) => Ok(WebUrl {
            text: url.to_string(),
            scheme: url.scheme().to_string(),
            host: url.host_str().map(str::to_string),
            path: url.path().to_string(),
            pairs: url.query_pairs().into_owned().collect(),
        }),
        Err(error) => Err(error.to_string()),
    }
}

/// Reads a base address without query or fragment and appends form fields to it
/// with `url::Url::parse_with_params`. Trusted: it succeeds exactly where
/// reading the base does, with the same error text; scheme, host and path are
/// those of the base; and the query pairs read back as the fields, in order and
/// whatever characters they hold. The written address depends on the base and
/// the fields alone.
#[verifier::external_body]
pub(crate) fn read_url_with_fields(base: &str, fields: &Vec<(String, String)>) -> (reading: Result<
    WebUrl,
    String,
>)
    requires
        base@.len() <= 0xffff,
        forall|i: int| 0 <= i < base@.len() ==> base@[i] != '?' && base@[i] != '#',
    ensures
        match reading {
            Ok(url) => url_reading(base@) matches Ok(parts) && url@ == (UrlParts {
                text: url_text_with_fields(base@, pairs_view(fields@)),
                scheme: parts.scheme,
                host: parts.host,
                path: parts.path,
                pairs: pairs_view(fields@),
            }),
            Err(reason) => url_reading(base@) == Err::<UrlParts, Seq<char>>(reason@),
        },
{
    match url::Url::parse_with_params(base, fields) {
        Ok(url) => Ok(WebUrl {
            text: url.to_string(),
            scheme: url.scheme().to_string(),
            host: url.host_str().map(str::to_string),
            path: url.path().to_string(),
            pairs: url.query_pairs().into_owned().collect(),
        }),
        Err(error) => Err(error.to_string()),
    }
}

/// The value of the first pair under a name.
pub open spec fn first_value(pairs: Seq<(Seq<char>, Seq<char>)>, name: Seq<char>) -> Option<
    Seq<char>,
>
    decreases pairs.len(),
{
    if pairs.len() == 0 {
        None
    } else if pairs[0].0 == name {
        Some(pairs[0].1)
    } else {
        first_value(pairs.drop_first(), name)
    }
}

impl WebUrl {
    /// Reads an absolute address.
    pub fn parse(text: &str) -> (reading: Result<WebUrl, String>)
        ensures
            reading_view(reading) == url_reading(text@),
    {
        read_url(text)
    }

    /// Whether the address has the given scheme.
    pub fn has_scheme(&self, scheme: &str) -> (yes: bool)
        ensures
            yes == (self@.scheme == scheme@),
    {
        self.scheme == scheme.to_owned()
    }

    /// Whether the address has the given host.
    pub fn has_host(&self, host: &str) -> (yes: bool)
        ensures
            yes == (self@.host == Some(host@)),
    {
        match &self.host {
            Some(own) => *own == host.to_owned(),
            None => false,
        }
    }

    /// Whether the address has the given path.
    pub fn has_path(&self, path: &str) -> (yes: bool)
        ensures
            yes == (self@.path == path@),
    {
        self.path == path.to_owned()
    }
}

/// The value that the query of an address gives first for a key.
pub fn callback_value(callback_url: &WebUrl, key: &str) -> (value: Option<String>)
    ensures
        option_view(value) == first_value(callback_url@.pairs, key@),
{
    let wanted: String = key.to_owned();
    let pairs: &Vec<(String, String)> = &callback_url.pairs;
    let ghost all = callback_url@.pairs;
    let mut i: usize = 0;
    assert(all.skip(0) =~= all);
    while i < pairs.len()
        invariant
            i <= pairs@.len(),
            wanted@ == key@,
            all == callback_url@.pairs,
            all == pairs_view(pairs@),
            first_value(all, key@) == first_value(all.skip(i as int), key@),
        decreases pairs@.len() - i,
    {
        assert(all.skip(i as int)[0] == (pairs@[i as int].0@, pairs@[i as int].1@));
        if pairs[i].0 == wanted {
            return Some(pairs[i].1.clone());
        }
        assert(all.skip(i as int).drop_first() =~= all.skip(i + 1));
        i += 1;
    }
    None
}

/// A value stands first under a name: some pair has both, and no pair before it
/// has that name.
pub open spec fn stands_first(
    pairs: Seq<(Seq<char>, Seq<char>)>,
    name: Seq<char>,
    value: Seq<char>,
) -> bool {
    exists|i: int|
        {
            &&& 0 <= i < pairs.len()
            &&& #[trigger] pairs[i] == (name, value)
            &&& forall|j: int| 0 <= j < i ==> (#[trigger] pairs[j]).0 != name
        }
}

/// No pair has a name.
pub open spec fn stands_nowhere(pairs: Seq<(Seq<char>, Seq<char>)>, name: Seq<char>) -> bool {
    forall|i: int| 0 <= i < pairs.len() ==> (#[trigger] pairs[i]).0 != name
}

/// The first value under a name is that of the first pair that has the name, and
/// there is none exactly where no pair has it.
pub proof fn first_value_is_the_first(pairs: Seq<(Seq<char>, Seq<char>)>, name: Seq<char>)
    ensures
        forall|value: Seq<char>|
            (first_value(pairs, name) == Some(value)) <==> #[trigger] stands_first(
                pairs,
                name,
                value,
            ),
        first_value(pairs, name) is None <==> stands_nowhere(pairs, name),
    decreases pairs.len(),
{
    if pairs.len() > 0 && pairs[0].0 != name {
        let rest = pairs.drop_first();
        first_value_is_the_first(rest, name);
        assert(forall|i: int| 0 <= i < rest.len() ==> #[trigger] rest[i] == pairs[i + 1]);
        assert(forall|i: int| 0 < i < pairs.len() ==> #[trigger] pairs[i] == rest[i - 1]);
        assert forall|value: Seq<char>| stands_first(rest, name, value) implies stands_first(
            pairs,
            name,
            value,
        ) by {
            let i = choose|i: int|
                {
                    &&& 0 <= i < rest.len()
                    &&& #[trigger] rest[i] == (name, value)
                    &&& forall|j: int| 0 <= j < i ==> (#[trigger] rest[j]).0 != name
                };
            assert(pairs[i + 1] == (name, value));
        }
        assert forall|value: Seq<char>| stands_first(pairs, name, value) implies stands_first(
            rest,
            name,
            value,
        ) by {
            let i = choose|i: int|
                {
                    &&& 0 <= i < pairs.len()
                    &&& #[trigger] pairs[i] == (name, value)
                    &&& forall|j: int| 0 <= j < i ==> (#[trigger] pairs[j]).0 != name
                };
            assert(rest[i - 1] == (name, value));
            assert forall|j: int| 0 <= j < i - 1 implies (#[trigger] rest[j]).0 != name by {
                assert(pairs[j + 1].0 != name);
            }
        }
        assert(stands_nowhere(rest, name) ==> stands_nowhere(pairs, name));
        if stands_nowhere(pairs, name) {
            assert forall|i: int| 0 <= i < rest.len() implies (#[trigger] rest[i]).0 != name by {
                assert(pairs[i + 1].0 != name);
            }
        }
    } else if pairs.len() > 0 {
        assert(stands_first(pairs, name, pairs[0].1));
        assert forall|value: Seq<char>| stands_first(pairs, name, value) implies value
            == pairs[0].1 by {
            let i = choose|i: int|
                {
                    &&& 0 <= i < pairs.len()
                    &&& #[trigger] pairs[i] == (name, value)
                    &&& forall|j: int| 0 <= j < i ==> (#[trigger] pairs[j]).0 != name
                };
            if i > 0 {
                assert(pairs[0].0 != name);
            }
        }
    }
}

/// An address stands for just what its fields hold: text, scheme, host and path,
/// and the pairs of its query in their order.
pub proof fn address_is_its_fields(url: WebUrl)
    ensures
        url@.text == url.text@,
        url@.scheme == url.scheme@,
        url@.host is Some <==> url.host is Some,
        url.host matches Some(host) ==> url@.host == Some(host@),
        url@.path == url.path@,
        url@.pairs.len() == url.pairs@.len(),
        forall|i: int|
            0 <= i < url.pairs@.len() ==> #[trigger] url@.pairs[i] == (
                url.pairs@[i].0@,
                url.pairs@[i].1@,
            ),
{
}

/// [`WebUrl::parse`] succeeds exactly where the text is an address, and gives the
/// parts of that address, each in its field; otherwise it gives the reason.
pub proof fn parse_gives_the_parts(text: &str, reading: Result<WebUrl, String>)
    requires
        call_ensures(WebUrl::parse, (text,), reading),
    ensures
        reading is Ok <==> url_reading(text@) is Ok,
        reading matches Ok(url) ==> url_reading(text@) matches Ok(parts) && url.text@ == parts.text
            && url.scheme@ == parts.scheme && url.path@ == parts.path && url@.host == parts.host
            && url@.pairs == parts.pairs,
        reading matches Err(reason) ==> url_reading(text@) == Err::<UrlParts, Seq<char>>(reason@),
{
}

/// [`WebUrl::has_scheme`], [`WebUrl::has_host`] and [`WebUrl::has_path`] compare
/// whole texts; an address without a host has none that is asked for.
pub proof fn parts_are_compared_whole(
    url: WebUrl,
    wanted: &str,
    scheme: bool,
    host: bool,
    path: bool,
)
    requires
        call_ensures(WebUrl::has_scheme, (&url, wanted), scheme),
        call_ensures(WebUrl::has_host, (&url, wanted), host),
        call_ensures(WebUrl::has_path, (&url, wanted), path),
    ensures
        scheme <==> url.scheme@ == wanted@,
        host <==> (url.host matches Some(own) && own@ == wanted@),
        path <==> url.path@ == wanted@,
{
}

/// [`callback_value`] gives the value of the first pair of the query that has the
/// key, and none exactly where no pair has it.
pub proof fn callback_value_is_the_first(url: WebUrl, key: &str, value: Option<String>)
    requires
        call_ensures(callback_value, (&url, key), value),
    ensures
        value matches Some(value) ==> exists|i: int|
            {
                &&& 0 <= i < url.pairs@.len()
                &&& (#[trigger] url.pairs@[i]).0@ == key@
                &&& url.pairs@[i].1@ == value@
                &&& forall|j: int| 0 <= j < i ==> (#[trigger] url.pairs@[j]).0@ != key@
            },
        value is None <==> forall|i: int|
            0 <= i < url.pairs@.len() ==> (#[trigger] url.pairs@[i]).0@ != key@,
{
    let pairs = url@.pairs;
    first_value_is_the_first(pairs, key@);
    assert(forall|i: int|
        0 <= i < pairs.len() ==> #[trigger] pairs[i] == (url.pairs@[i].0@, url.pairs@[i].1@));
    if let Some(value) = value {
        assert(stands_first(pairs, key@, value@));
        let i = choose|i: int|
            {
                &&& 0 <= i < pairs.len()
                &&& #[trigger] pairs[i] == (key@, value@)
                &&& forall|j: int| 0 <= j < i ==> (#[trigger] pairs[j]).0 != key@
            };
        assert(url.pairs@[i].0@ == key@);
        assert forall|j: int| 0 <= j < i implies (#[trigger] url.pairs@[j]).0@ != key@ by {
            assert(pairs[j].0 != key@);
        }
    } else {
        assert forall|i: int| 0 <= i < url.pairs@.len() implies (#[trigger] url.pairs@[i]).0@
            != key@ by {
            assert(pairs[i].0 != key@);
        }
    }
    if forall|i: int| 0 <= i < url.pairs@.len() ==> (#[trigger] url.pairs@[i]).0@ != key@ {
        assert(stands_nowhere(pairs, key@));
    }
}

} // verus!
