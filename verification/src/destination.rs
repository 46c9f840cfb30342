//! Which file a download is written to: the first of a row of names that is
//! still free.
use vstd::prelude::*;

use crate::pdf::{appended_extension, ascii_lower, extension_names_a_file, forbidden, is_safe};
use crate::text::{characters, decimal, decimal_is_digits, decimal_is_injective};
use crate::text::{decimal_text, join, text_between};
use crate::text::{decimal_writes_its_number, number_is_written_in_one_way, writes_number};

verus! {

/// The place of the last dot of a name, and -1 where it has none.
pub open spec fn last_dot(name: Seq<char>) -> int
    decreases name.len(),
{
    if name.len() == 0 {
        -1
    } else if name.last() == '.' {
        name.len() - 1
    } else {
        last_dot(name.drop_last())
    }
}

/// A file name without its extension: what stands before the last dot, and the
/// whole name where that dot leads it, where there is none, and for `..`.
pub open spec fn stem_of(name: Seq<char>) -> Seq<char> {
    if last_dot(name) <= 0 || name == seq!['.', '.'] {
        name
    } else {
        name.take(last_dot(name))
    }
}

/// The name of a numbered copy.
pub open spec fn copy_name(stem: Seq<char>, number: nat) -> Seq<char> {
    stem + " ("@ + decimal(number) + ").pdf"@
}

/// The names that are tried for a file, one after the other: its own, then
/// those of its numbered copies.
pub open spec fn candidate(name: Seq<char>, tried: nat) -> Seq<char> {
    if tried == 0 {
        name
    } else {
        copy_name(stem_of(name), tried)
    }
}

/// Where the search for a free name stands.
#[derive(Debug, PartialEq, Eq)]
pub struct Destination {
    /// The name to try now.
    pub name: String,
    /// What the copies are called after.
    pub stem: String,
    /// The number of the next copy.
    pub copy_number: u32,
}

/// Finds a file name without its extension.
pub fn file_stem(name: &str) -> (stem: String)
    ensures
        stem@ == stem_of(name@),
{
    let chars: Vec<char> = characters(name);
    let mut end: usize = chars.len();
    proof {
        assert(chars@.take(end as int) =~= chars@);
    }
    while end > 0 && chars[end - 1] != '.'
        invariant
            end <= chars@.len(),
            last_dot(chars@.take(end as int)) == last_dot(chars@),
        decreases end,
    {
        assert(chars@.take(end as int).drop_last() =~= chars@.take(end - 1));
        assert(chars@.take(end as int).last() == chars@[end - 1]);
        end -= 1;
    }
    assert(last_dot(chars@) == end - 1) by {
        if end > 0 {
            assert(chars@.take(end as int).last() == '.');
        }
    }
    if end <= 1 || (chars.len() == 2 && chars[0] == '.' && chars[1] == '.') {
        proof {
            if end > 1 {
                assert(name@ =~= seq!['.', '.']);
            }
        }
        name.to_owned()
    } else {
        proof {
            assert(name@ != seq!['.', '.']);
            assert(chars@.subrange(0, end - 1) =~= name@.take(last_dot(name@)));
        }
        text_between(&chars, 0, end - 1)
    }
}

impl Destination {
    /// The search for a file with this name has tried `tried` names before the
    /// present one.
    pub open spec fn is_at(&self, name: Seq<char>, tried: nat) -> bool {
        &&& self.name@ == candidate(name, tried)
        &&& self.stem@ == stem_of(name)
        &&& self.copy_number == tried + 1
    }

    /// Begins the search with the name itself.
    pub fn new(name: String) -> (destination: Destination)
        ensures
            destination.is_at(name@, 0),
    {
        let stem: String = file_stem(name.as_str());
        Destination { name, stem, copy_number: 1 }
    }

    /// Goes on to the next name, as the present one is taken.
    pub fn advance(&mut self)
        requires
            old(self).copy_number < u32::MAX,
        ensures
            final(self).name@ == copy_name(old(self).stem@, old(self).copy_number as nat),
            final(self).stem@ == old(self).stem@,
            final(self).copy_number == old(self).copy_number + 1,
            forall|name: Seq<char>, tried: nat|
                #[trigger] old(self).is_at(name, tried) ==> final(self).is_at(name, tried + 1),
    {
        let mut name: String = join(self.stem.as_str(), " (");
        name.append(decimal_text(self.copy_number as u64).as_str());
        name.append(").pdf");
        self.name = name;
        self.copy_number = self.copy_number + 1;
    }
}

/// A look at the folder, given a name, may have told whether it is taken.
pub open spec fn told<F: Fn(&str) -> bool>(look: F, name: Seq<char>, taken: bool) -> bool {
    exists|text: &str| text@ == name && #[trigger] call_ensures(look, (text,), taken)
}

/// A look at the folder tells of every name whether it is among the taken ones.
pub open spec fn tells_of<F: Fn(&str) -> bool>(look: F, taken: Set<Seq<char>>) -> bool {
    forall|text: &str, answer: bool| #[trigger]
        call_ensures(look, (text,), answer) ==> answer == taken.contains(text@)
}

/// The first of the names that are tried for a file which is not taken is the
/// one after `tried` others.
pub open spec fn is_first_free(name: Seq<char>, taken: Set<Seq<char>>, tried: nat) -> bool {
    &&& !taken.contains(candidate(name, tried))
    &&& forall|earlier: nat|
        earlier < tried ==> taken.contains(#[trigger] candidate(name, earlier))
}

/// Looks for the first name that is free for a file: its own, or that of its
/// first numbered copy that is. `None` says that the numbers of copies ran out.
pub fn find_free_name<F: Fn(&str) -> bool>(name: String, look: F) -> (found: Option<String>)
    requires
        forall|text: &str| #[trigger] call_requires(look, (text,)),
    ensures
        match found {
            Some(free) => exists|tried: nat|
                {
                    &&& tried < u32::MAX
                    &&& free@ == #[trigger] candidate(name@, tried)
                    &&& told(look, free@, false)
                    &&& forall|earlier: nat|
                        earlier < tried ==> told(look, #[trigger] candidate(name@, earlier), true)
                },
            None => forall|tried: nat|
                tried < u32::MAX ==> told(look, #[trigger] candidate(name@, tried), true),
        },
        forall|taken: Set<Seq<char>>| #[trigger]
            tells_of(look, taken) ==> match found {
                Some(free) => exists|tried: nat|
                    free@ == candidate(name@, tried) && #[trigger] is_first_free(
                        name@,
                        taken,
                        tried,
                    ),
                None => forall|tried: nat|
                    tried < u32::MAX ==> taken.contains(#[trigger] candidate(name@, tried)),
            },
        forall|taken: Set<Seq<char>>| #[trigger]
            tells_of(look, taken) ==> match found {
                Some(free) => is_first_free_name(name@, taken, free@),
                None => taken.contains(name@) && forall|number: nat, copy: Seq<char>|
                    0 < number < u32::MAX && #[trigger] is_copy_name(name@, number, copy)
                        ==> taken.contains(copy),
            },
{
    let ghost own = name@;
    let ghost mut tried: nat = 0;
    let mut destination: Destination = Destination::new(name);
    while look(destination.name.as_str())
        invariant
            forall|text: &str| #[trigger] call_requires(look, (text,)),
            own == name@,
            destination.is_at(own, tried),
            forall|earlier: nat|
                earlier < tried ==> told(look, #[trigger] candidate(own, earlier), true),
        decreases u32::MAX - destination.copy_number,
    {
        assert(told(look, candidate(own, tried), true));
        if destination.copy_number == u32::MAX {
            proof {
                assert forall|taken: Set<Seq<char>>, number: nat|
                    #![trigger tells_of(look, taken), candidate(own, number)]
                    tells_of(look, taken) && number < u32::MAX implies taken.contains(
                    candidate(own, number),
                ) by {
                    assert(told(look, candidate(own, number), true));
                }
                copies_are_candidates(own);
                assert(forall|taken: Set<Seq<char>>| #[trigger]
                    tells_of(look, taken) ==> taken.contains(candidate(own, 0)));
            }
            return None;
        }
        destination.advance();
        proof {
            tried = tried + 1;
        }
    }
    assert(told(look, candidate(own, tried), false));
    proof {
        assert forall|taken: Set<Seq<char>>| #[trigger] tells_of(look, taken) implies is_first_free(
            own,
            taken,
            tried,
        ) by {
            assert forall|earlier: nat| earlier < tried implies taken.contains(
                #[trigger] candidate(own, earlier),
            ) by {
                assert(told(look, candidate(own, earlier), true));
            }
        }
        assert forall|taken: Set<Seq<char>>| #[trigger] tells_of(
            look,
            taken,
        ) implies is_first_free_name(own, taken, destination.name@) by {
            first_free_name_is_the_first(own, taken, tried);
        }
    }
    Some(destination.name)
}

/// The last dot stands where it stands, and no dot follows it.
proof fn last_dot_is_a_dot(name: Seq<char>)
    ensures
        -1 <= last_dot(name) < name.len(),
        last_dot(name) >= 0 ==> name[last_dot(name)] == '.',
        forall|i: int| last_dot(name) < i < name.len() ==> #[trigger] name[i] != '.',
    decreases name.len(),
{
    if name.len() > 0 && name.last() != '.' {
        last_dot_is_a_dot(name.drop_last());
        let rest = name.drop_last();
        assert forall|i: int| last_dot(name) < i < name.len() implies #[trigger] name[i] != '.' by {
            if i < rest.len() {
                assert(rest[i] == name[i]);
            }
        }
    }
}

/// No name is tried twice, so a search through a folder with finitely many
/// files comes to a free name.
pub proof fn candidates_are_distinct(name: Seq<char>, one: nat, other: nat)
    requires
        one != other,
    ensures
        candidate(name, one) != candidate(name, other),
{
    reveal_strlit(" (");
    reveal_strlit(").pdf");
    let stem = stem_of(name);
    last_dot_is_a_dot(name);
    if one == 0 || other == 0 {
        let number = if one == 0 {
            other
        } else {
            one
        };
        let copy = copy_name(stem, number);
        assert(copy.len() >= stem.len() + 7);
        assert(copy[stem.len() as int] == ' ');
        if stem != name {
            assert(name[stem.len() as int] == '.');
        }
    } else if candidate(name, one) == candidate(name, other) {
        let from = stem.len() as int + 2;
        let len = candidate(name, one).len();
        assert(candidate(name, one).subrange(from, len - 5) =~= decimal(one));
        assert(candidate(name, other).subrange(from, len - 5) =~= decimal(other));
        decimal_is_injective(one, other);
    }
}

/// A safe name is its stem and an extension of four characters, unless it is an
/// extension alone, which is its own stem.
pub proof fn safe_name_has_its_stem(name: Seq<char>)
    requires
        is_safe(name),
    ensures
        name.len() > 4 ==> stem_of(name) == name.take(name.len() - 4),
        name.len() == 4 ==> stem_of(name) == name,
{
    reveal_strlit(".pdf");
    extension_names_a_file(name);
    last_dot_is_a_dot(name);
    let lower = name.map_values(|c: char| ascii_lower(c));
    let from = name.len() - 4;
    let end = lower.skip(from);
    assert(end == ".pdf"@);
    assert(end[0] == ascii_lower(name[from]) && end[0] == '.');
    assert(end[1] == ascii_lower(name[from + 1]) && end[1] == 'p');
    assert(end[2] == ascii_lower(name[from + 2]) && end[2] == 'd');
    assert(end[3] == ascii_lower(name[from + 3]) && end[3] == 'f');
    assert(last_dot(name) == from);
}

/// Every name that is tried for a safe name is safe.
pub proof fn candidates_are_safe(name: Seq<char>, tried: nat)
    requires
        is_safe(name),
    ensures
        is_safe(candidate(name, tried)),
{
    if tried > 0 {
        reveal_strlit(" (");
        reveal_strlit(").pdf");
        reveal_strlit(".pdf");
        let stem = stem_of(name);
        let copy = candidate(name, tried);
        let number = decimal(tried);
        last_dot_is_a_dot(name);
        decimal_is_digits(tried);
        assert(copy =~= stem + " ("@ + number + seq![')'] + ".pdf"@);
        appended_extension(stem + " ("@ + number + seq![')']);
        extension_names_a_file(copy);
        assert forall|i: int| 0 <= i < copy.len() implies !forbidden(#[trigger] copy[i]) by {
            let after = i - stem.len() - 2;
            if i < stem.len() {
                assert(copy[i] == name[i]);
            } else if after < 0 {
                assert(copy[i] == " ("@[i - stem.len()]);
            } else if after < number.len() {
                assert(copy[i] == number[after]);
            } else {
                assert(copy[i] == ").pdf"@[after - number.len()]);
            }
        }
    }
}

/// A folder before and after a download was saved in it: under the first name
/// that is free for it, with nothing else changed. A folder is its file names and
/// what the files hold.
pub open spec fn is_save(
    before: Map<Seq<char>, Seq<u8>>,
    name: Seq<char>,
    contents: Seq<u8>,
    saved_as: Seq<char>,
    after: Map<Seq<char>, Seq<u8>>,
) -> bool {
    &&& exists|tried: nat|
        saved_as == candidate(name, tried) && #[trigger] is_first_free(name, before.dom(), tried)
    &&& after == before.insert(saved_as, contents)
}

/// Saving a download replaces no file.
pub proof fn saving_replaces_nothing(
    before: Map<Seq<char>, Seq<u8>>,
    name: Seq<char>,
    contents: Seq<u8>,
    saved_as: Seq<char>,
    after: Map<Seq<char>, Seq<u8>>,
)
    requires
        is_save(before, name, contents, saved_as, after),
    ensures
        !before.contains_key(saved_as),
        after.contains_key(saved_as) && after[saved_as] == contents,
        forall|other: Seq<char>| #[trigger]
            before.contains_key(other) ==> after.contains_key(other) && after[other]
                == before[other],
{
}

/// A repeated download gets another name than the earlier one, and both files
/// hold what was saved in them.
pub proof fn repeated_download_keeps_the_earlier(
    before: Map<Seq<char>, Seq<u8>>,
    name: Seq<char>,
    first: Seq<u8>,
    first_name: Seq<char>,
    between: Map<Seq<char>, Seq<u8>>,
    second: Seq<u8>,
    second_name: Seq<char>,
    after: Map<Seq<char>, Seq<u8>>,
)
    requires
        is_save(before, name, first, first_name, between),
        is_save(between, name, second, second_name, after),
    ensures
        first_name != second_name,
        after.contains_key(first_name) && after[first_name] == first,
        after.contains_key(second_name) && after[second_name] == second,
{
    saving_replaces_nothing(before, name, first, first_name, between);
    saving_replaces_nothing(between, name, second, second_name, after);
}

/// What is saved for a safe name is saved under a safe name.
pub proof fn saved_name_is_safe(
    before: Map<Seq<char>, Seq<u8>>,
    name: Seq<char>,
    contents: Seq<u8>,
    saved_as: Seq<char>,
    after: Map<Seq<char>, Seq<u8>>,
)
    requires
        is_safe(name),
        is_save(before, name, contents, saved_as, after),
    ensures
        is_safe(saved_as),
{
    let tried = choose|tried: nat|
        saved_as == candidate(name, tried) && #[trigger] is_first_free(name, before.dom(), tried);
    candidates_are_safe(name, tried);
}

/// A text is the stem of a file name: what stands before its last dot, where that
/// dot does not lead the name; otherwise, and for `..`, the whole name.
pub open spec fn is_stem(name: Seq<char>, stem: Seq<char>) -> bool {
    let whole = name == seq!['.', '.'] || forall|i: int|
        0 < i < name.len() ==> #[trigger] name[i] != '.';
    if whole {
        stem == name
    } else {
        &&& 0 < stem.len() < name.len()
        &&& stem == name.take(stem.len() as int)
        &&& name[stem.len() as int] == '.'
        &&& forall|i: int| stem.len() < i < name.len() ==> #[trigger] name[i] != '.'
    }
}

/// The stem of a file name is what stands before its last dot, or the whole name.
pub proof fn stem_ends_at_the_last_dot(name: Seq<char>)
    ensures
        is_stem(name, stem_of(name)),
{
    last_dot_is_a_dot(name);
    if last_dot(name) > 0 {
        assert(name[last_dot(name)] == '.');
    } else {
        assert forall|i: int| 0 < i < name.len() implies #[trigger] name[i] != '.' by {}
    }
}

/// A name is that of a numbered copy of a file: the stem of its name, the number in
/// round brackets behind a space, and `.pdf`.
pub open spec fn is_copy_name(name: Seq<char>, number: nat, copy: Seq<char>) -> bool {
    exists|stem: Seq<char>, digits: Seq<char>|
        {
            &&& #[trigger] is_stem(name, stem)
            &&& #[trigger] writes_number(digits, number)
            &&& copy == stem + " ("@ + digits + ").pdf"@
        }
}

/// A file has one stem.
proof fn one_stem(name: Seq<char>, stem: Seq<char>, other: Seq<char>)
    requires
        is_stem(name, stem),
        is_stem(name, other),
    ensures
        stem == other,
{
    if stem.len() < other.len() {
        assert(name[other.len() as int] != '.' || other == name);
    }
    if other.len() < stem.len() {
        assert(name[stem.len() as int] != '.' || stem == name);
    }
}

/// A numbered copy has one name.
pub proof fn copy_has_one_name(name: Seq<char>, number: nat, copy: Seq<char>, other: Seq<char>)
    requires
        is_copy_name(name, number, copy),
        is_copy_name(name, number, other),
    ensures
        copy == other,
{
    let (stem, digits) = choose|stem: Seq<char>, digits: Seq<char>|
        {
            &&& #[trigger] is_stem(name, stem)
            &&& #[trigger] writes_number(digits, number)
            &&& copy == stem + " ("@ + digits + ").pdf"@
        };
    let (other_stem, other_digits) = choose|stem: Seq<char>, digits: Seq<char>|
        {
            &&& #[trigger] is_stem(name, stem)
            &&& #[trigger] writes_number(digits, number)
            &&& other == stem + " ("@ + digits + ").pdf"@
        };
    one_stem(name, stem, other_stem);
    number_is_written_in_one_way(digits, other_digits, number);
}

/// The names that are tried for a file are its own, and then those of its copies
/// with the numbers from one.
pub proof fn own_name_comes_before_the_copies(name: Seq<char>, tried: nat)
    ensures
        candidate(name, 0) == name,
        tried > 0 ==> is_copy_name(name, tried, candidate(name, tried)),
{
    stem_ends_at_the_last_dot(name);
    decimal_writes_its_number(tried);
}

/// Every copy of a file is among the names that are tried for it.
pub proof fn copies_are_candidates(name: Seq<char>)
    ensures
        candidate(name, 0) == name,
        forall|number: nat, copy: Seq<char>|
            number > 0 && #[trigger] is_copy_name(name, number, copy) ==> copy == candidate(
                name,
                number,
            ),
{
    assert forall|number: nat, copy: Seq<char>|
        number > 0 && #[trigger] is_copy_name(name, number, copy) implies copy == candidate(
        name,
        number,
    ) by {
        own_name_comes_before_the_copies(name, number);
        copy_has_one_name(name, number, copy, candidate(name, number));
    }
}

/// [`file_stem`] gives what stands before the last dot of a name, or the whole
/// name.
pub proof fn file_stem_ends_at_the_last_dot(name: &str, stem: String)
    requires
        call_ensures(file_stem, (name,), stem),
    ensures
        is_stem(name@, stem@),
{
    stem_ends_at_the_last_dot(name@);
}

/// [`Destination::new`] tries the name itself first, and its first copy next.
pub proof fn search_begins_with_the_name(name: String, destination: Destination)
    requires
        call_ensures(Destination::new, (name,), destination),
    ensures
        destination.name@ == name@,
        is_stem(name@, destination.stem@),
        destination.copy_number == 1,
{
    stem_ends_at_the_last_dot(name@);
}

/// The name of a copy is the stem, the number in round brackets behind a space,
/// and `.pdf`.
pub proof fn copy_is_named_by_its_number(stem: Seq<char>, number: nat)
    ensures
        exists|digits: Seq<char>| #[trigger]
            writes_number(digits, number) && copy_name(stem, number) == stem + " ("@ + digits
                + ").pdf"@,
{
    decimal_writes_its_number(number);
}

/// A name is the first that is free for a file: its own where that is not taken;
/// otherwise that of a numbered copy which is not taken, while its own and those of
/// all copies with smaller numbers are.
pub open spec fn is_first_free_name(
    name: Seq<char>,
    taken: Set<Seq<char>>,
    free: Seq<char>,
) -> bool {
    &&& !taken.contains(free)
    &&& !taken.contains(name) ==> free == name
    &&& taken.contains(name) ==> exists|number: nat|
        {
            &&& number > 0
            &&& #[trigger] is_copy_name(name, number, free)
            &&& forall|smaller: nat, copy: Seq<char>|
                0 < smaller < number && #[trigger] is_copy_name(name, smaller, copy)
                    ==> taken.contains(copy)
        }
}

/// The first of the names that are tried which is not taken is the name itself
/// where that is free, and otherwise that of the first numbered copy which is.
pub proof fn first_free_name_is_the_first(name: Seq<char>, taken: Set<Seq<char>>, tried: nat)
    requires
        is_first_free(name, taken, tried),
    ensures
        is_first_free_name(name, taken, candidate(name, tried)),
{
    own_name_comes_before_the_copies(name, tried);
    if tried > 0 {
        assert(taken.contains(candidate(name, 0)));
        assert forall|smaller: nat, copy: Seq<char>|
            0 < smaller < tried && #[trigger] is_copy_name(
                name,
                smaller,
                copy,
            ) implies taken.contains(copy) by {
            own_name_comes_before_the_copies(name, smaller);
            copy_has_one_name(name, smaller, copy, candidate(name, smaller));
            assert(taken.contains(candidate(name, smaller)));
        }
    }
}

/// The first free name is free, and every name that is tried before it is taken.
pub proof fn earlier_names_are_taken(name: Seq<char>, taken: Set<Seq<char>>, tried: nat)
    ensures
        is_first_free(name, taken, tried) <==> {
            &&& !taken.contains(candidate(name, tried))
            &&& forall|earlier: nat|
                earlier < tried ==> taken.contains(#[trigger] candidate(name, earlier))
        },
{
}

/// A look that answers for every name whether it is among the taken ones tells of
/// them.
pub proof fn answers_tell_of_the_taken<F: Fn(&str) -> bool>(look: F, taken: Set<Seq<char>>)
    requires
        forall|text: &str, answer: bool| #[trigger]
            call_ensures(look, (text,), answer) ==> answer == taken.contains(text@),
    ensures
        tells_of(look, taken),
{
}

} // verus!
