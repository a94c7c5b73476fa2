//! Branch names that are made from issues.
use vstd::prelude::*;
use vstd::string::*;

use crate::text;
use crate::text::joined3;

verus! {

/// The longest slug that a branch name gets.
pub const MAX_SLUG: usize = 50;

pub open spec fn is_word_char(c: char) -> bool {
    'a' <= c <= 'z' || 'A' <= c <= 'Z' || '0' <= c <= '9'
}

/// A title in lower case, with a hyphen for each run of characters between two words.
pub open spec fn hyphenated(title: Seq<char>) -> Seq<char>
    decreases title.len(),
{
    if title.len() == 0 {
        Seq::empty()
    } else {
        let before = hyphenated(title.drop_last());
        if is_word_char(title.last()) {
            before.push(text::lower_char(title.last()))
        } else if before.len() > 0 && before.last() != '-' {
            before.push('-')
        } else {
            before
        }
    }
}

/// The part of a branch name that is made from the title of an issue.
pub open spec fn slug(title: Seq<char>) -> Seq<char> {
    text::trim_end_char(text::head(hyphenated(title), MAX_SLUG as int), '-')
}

pub open spec fn branch_name(identifier: Seq<char>, title: Seq<char>) -> Seq<char> {
    text::ascii_lower(identifier) + "/"@ + slug(title)
}

fn hyphenate(title: &str) -> (r: String)
    ensures
        r@ == hyphenated(title@),
{
    let mut out = String::new();
    let mut ends_in_word = false;
    assert(title@.take(0).len() == 0);
    for c in it: title.chars()
        invariant
            it.seq() == title@,
            out@ == hyphenated(title@.take(it.index() as int)),
            ends_in_word == (out@.len() > 0 && out@.last() != '-'),
    {
        let ghost now = title@.take(it.index() as int + 1);
        assert(now.drop_last() =~= title@.take(it.index() as int));
        if ('a' <= c && c <= 'z') || ('A' <= c && c <= 'Z') || ('0' <= c && c <= '9') {
            out.push(text::to_lower_char(c));
            ends_in_word = true;
        } else if ends_in_word {
            out.push('-');
            ends_in_word = false;
        }
    }
    assert(title@.take(title@.len() as int) =~= title@);
    out
}

/// Generates a branch name from the identifier and the title of an issue.
pub fn generate_branch_name(identifier: &str, title: &str) -> (r: String)
    ensures
        r@ == branch_name(identifier@, title@),
{
    let words = hyphenate(title);
    let cut = text::first_chars(words.as_str(), MAX_SLUG);
    let slug = text::trimmed_end_char(cut.as_str(), '-');
    let start = text::to_ascii_lower(identifier);
    joined3(start.as_str(), "/", slug.as_str())
}

pub open spec fn is_slug_char(c: char) -> bool {
    'a' <= c <= 'z' || '0' <= c <= '9' || c == '-'
}

proof fn hyphenated_is_plain(title: Seq<char>)
    ensures
        forall|i: int|
            0 <= i < hyphenated(title).len() ==> is_slug_char(#[trigger] hyphenated(title)[i]),
        hyphenated(title).len() > 0 ==> hyphenated(title)[0] != '-',
        forall|i: int, j: int|
            0 <= i < hyphenated(title).len() && j == i + 1 && j < hyphenated(title).len() ==> !(
            #[trigger] hyphenated(title)[i] == '-' && #[trigger] hyphenated(title)[j] == '-'),
    decreases title.len(),
{
    if title.len() > 0 {
        hyphenated_is_plain(title.drop_last());
    }
}

proof fn trimmed_end_is_prefix(s: Seq<char>, c: char)
    ensures
        text::trim_end_char(s, c).len() <= s.len(),
        text::trim_end_char(s, c) == s.take(text::trim_end_char(s, c).len() as int),
        text::trim_end_char(s, c).len() > 0 ==> text::trim_end_char(s, c).last() != c,
    decreases s.len(),
{
    if s.len() > 0 && s.last() == c {
        trimmed_end_is_prefix(s.drop_last(), c);
    }
    assert(text::trim_end_char(s, c) =~= s.take(text::trim_end_char(s, c).len() as int));
}

/// A slug is short, is made of lower-case letters, digits and hyphens alone, neither begins nor
/// ends with a hyphen, and holds no two hyphens in a row.
pub proof fn slug_is_plain(title: Seq<char>)
    ensures
        slug(title).len() <= MAX_SLUG,
        forall|i: int| 0 <= i < slug(title).len() ==> is_slug_char(#[trigger] slug(title)[i]),
        slug(title).len() > 0 ==> slug(title)[0] != '-' && slug(title).last() != '-',
        forall|i: int, j: int|
            0 <= i < slug(title).len() && j == i + 1 && j < slug(title).len() ==> !(
            #[trigger] slug(title)[i] == '-' && #[trigger] slug(title)[j] == '-'),
{
    let words = hyphenated(title);
    let cut = text::head(words, MAX_SLUG as int);
    hyphenated_is_plain(title);
    trimmed_end_is_prefix(cut, '-');
    assert(forall|i: int| 0 <= i < slug(title).len() ==> #[trigger] slug(title)[i] == words[i]);
}

/// The letters and digits of a text.
pub open spec fn word_chars(s: Seq<char>) -> Seq<char> {
    s.filter(|c: char| is_word_char(c))
}

/// A slug is made of the letters and digits of the title, all of them and in order, in lower
/// case, until it is long enough.
pub proof fn slug_keeps_the_words(title: Seq<char>)
    ensures
        word_chars(hyphenated(title)) == text::ascii_lower(word_chars(title)),
    decreases title.len(),
{
    reveal(Seq::filter);
    if title.len() > 0 {
        slug_keeps_the_words(title.drop_last());
        let before = hyphenated(title.drop_last());
        let now = hyphenated(title);
        let c = title.last();
        if is_word_char(c) {
            assert(is_word_char(text::lower_char(c)));
            assert(now.drop_last() =~= before);
            assert(word_chars(now) =~= word_chars(before).push(text::lower_char(c)));
            assert(word_chars(title) =~= word_chars(title.drop_last()).push(c));
            assert(text::ascii_lower(word_chars(title)) =~= text::ascii_lower(
                word_chars(title.drop_last()),
            ).push(text::lower_char(c)));
        } else {
            if now != before {
                assert(now.drop_last() =~= before);
            }
            assert(word_chars(now) =~= word_chars(before));
            assert(word_chars(title) =~= word_chars(title.drop_last()));
        }
    } else {
        assert(text::ascii_lower(word_chars(title)) =~= word_chars(hyphenated(title)));
    }
}

/// Two words are kept apart by one hyphen, whatever character stands between them.
pub proof fn words_are_hyphenated(a: Seq<char>, sep: char, b: Seq<char>)
    requires
        a.len() > 0,
        is_word_char(a.last()),
        !is_word_char(sep),
        b.len() > 0,
        is_word_char(b[0]),
    ensures
        hyphenated(a.push(sep) + b) == hyphenated(a).push('-') + hyphenated(b),
    decreases b.len(),
{
    let whole = a.push(sep) + b;
    assert(whole.drop_last() =~= a.push(sep) + b.drop_last());
    assert(whole.last() == b.last());
    if b.len() > 1 {
        words_are_hyphenated(a, sep, b.drop_last());
        hyphenated_is_plain(b.drop_last());
        begins_with_a_word(b.drop_last());
        let left = hyphenated(a).push('-');
        let rest = hyphenated(b.drop_last());
        assert((left + rest).last() == rest.last());
        assert(hyphenated(whole) =~= left + hyphenated(b));
    } else {
        assert(a.push(sep) + b.drop_last() =~= a.push(sep));
        assert(a.push(sep).drop_last() =~= a);
        assert(b.drop_last() =~= Seq::<char>::empty());
        reveal_with_fuel(hyphenated, 3);
        assert(hyphenated(a).last() != '-') by {
            assert(text::lower_char(a.last()) != '-');
        }
        assert(hyphenated(whole) =~= hyphenated(a).push('-') + hyphenated(b));
    }
}

proof fn begins_with_a_word(b: Seq<char>)
    requires
        b.len() > 0,
        is_word_char(b[0]),
    ensures
        hyphenated(b).len() > 0,
    decreases b.len(),
{
    if b.len() > 1 {
        begins_with_a_word(b.drop_last());
    }
}

/// A branch is named by the identifier in lower case and the slug of the title. The slug is
/// the start of the hyphenated title, and all of it where that is short and ends in a word.
pub proof fn branch_is_named_by_identifier_and_title(identifier: Seq<char>, title: Seq<char>)
    ensures
        ({
            let name = branch_name(identifier, title);
            &&& text::starts_with(name, text::ascii_lower(identifier))
            &&& name.len() > identifier.len() && name[identifier.len() as int] == '/'
            &&& name.skip(identifier.len() as int + 1) == slug(title)
            &&& slug(title) == hyphenated(title).take(slug(title).len() as int)
            &&& hyphenated(title).len() <= 50 && hyphenated(title).len() > 0 && hyphenated(
                title,
            ).last() != '-' ==> slug(title) == hyphenated(title)
        }),
{
    let name = branch_name(identifier, title);
    let lower = text::ascii_lower(identifier);
    reveal_strlit("/");
    assert(name.subrange(0, lower.len() as int) =~= lower);
    assert(name.skip(identifier.len() as int + 1) =~= slug(title));
    let cut = text::head(hyphenated(title), MAX_SLUG as int);
    trimmed_end_is_prefix(cut, '-');
    assert(slug(title) =~= hyphenated(title).take(slug(title).len() as int));
    if hyphenated(title).len() <= 50 {
        assert(cut =~= hyphenated(title));
    }
}


} // verus!
