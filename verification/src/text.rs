//! Text helpers over characters: comparison, searching, trimming, splitting,
//! joining and decimal numbers, each stated over the sequence of characters.
use vstd::prelude::*;
use vstd::string::*;

verus! {

// ---------------------------------------------------------------------------
// Standard-library functions that are specified here
// ---------------------------------------------------------------------------

/// `String::push`: appends one character.
pub assume_specification[ String::push ](s: &mut String, c: char)
    ensures
        final(s)@ == old(s)@.push(c),
;

/// Two string slices compared with `==` of `str`: they are equal exactly when
/// they hold the same characters.
#[verifier::external_body]
pub(crate) fn same_text(a: &str, b: &str) -> (r: bool)
    ensures
        r == (a@ == b@),
{
    a == b
}

/// The texts of a list as `{:?}` shows them: quoted, escaped, separated by commas
/// and in brackets.
pub uninterp spec fn debug_notation(texts: Seq<Seq<char>>) -> Seq<char>;

/// `std::fmt::Debug` of a `Vec<String>`: the named notation of the texts.
#[verifier::external_body]
pub(crate) fn debug_text(texts: &Vec<String>) -> (r: String)
    ensures
        r@ == debug_notation(texts.deep_view()),
{
    format!("{:?}", texts)
}

/// The Unicode lowercase mapping of a text, as `str::to_lowercase` computes it.
pub uninterp spec fn unicode_lowercase(s: Seq<char>) -> Seq<char>;

/// `str::to_lowercase`. What it returns is a function of the text alone; on
/// ASCII text it maps each of `A` to `Z` to the small letter and keeps every
/// other character. The mapping of other characters is left unsaid.
#[verifier::external_body]
pub(crate) fn lowercase(s: &str) -> (r: String)
    ensures
        r@ == unicode_lowercase(s@),
        is_ascii_text(s@) ==> r@ == ascii_lower(s@),
{
    s.to_lowercase()
}

// ---------------------------------------------------------------------------
// Characters
// ---------------------------------------------------------------------------

pub open spec fn is_ascii_text(s: Seq<char>) -> bool {
    forall|i: int| 0 <= i < s.len() ==> (#[trigger] s[i] as u32) < 128
}

pub open spec fn lower_char(c: char) -> char {
    if 'A' <= c && c <= 'Z' {
        (c as u32 + 32) as char
    } else {
        c
    }
}

pub open spec fn upper_char(c: char) -> char {
    if 'a' <= c && c <= 'z' {
        (c as u32 - 32) as char
    } else {
        c
    }
}

pub fn to_lower_char(c: char) -> (r: char)
    ensures
        r == lower_char(c),
{
    if 'A' <= c && c <= 'Z' {
        ((c as u8) + 32) as char
    } else {
        c
    }
}

pub fn to_upper_char(c: char) -> (r: char)
    ensures
        r == upper_char(c),
{
    if 'a' <= c && c <= 'z' {
        ((c as u8) - 32) as char
    } else {
        c
    }
}

/// The characters with the Unicode property `White_Space`.
pub open spec fn is_white(c: char) -> bool {
    let n = c as u32;
    ||| 0x9 <= n <= 0xd
    ||| n == 0x20
    ||| n == 0x85
    ||| n == 0xa0
    ||| n == 0x1680
    ||| 0x2000 <= n <= 0x200a
    ||| n == 0x2028
    ||| n == 0x2029
    ||| n == 0x202f
    ||| n == 0x205f
    ||| n == 0x3000
}

pub fn white(c: char) -> (r: bool)
    ensures
        r == is_white(c),
{
    let n: u32 = c as u32;
    (0x9 <= n && n <= 0xd) || n == 0x20 || n == 0x85 || n == 0xa0 || n == 0x1680
        || (0x2000 <= n && n <= 0x200a) || n == 0x2028 || n == 0x2029 || n == 0x202f
        || n == 0x205f || n == 0x3000
}

pub open spec fn is_digit(c: char) -> bool {
    '0' <= c && c <= '9'
}

pub open spec fn digit_value(c: char) -> nat {
    (c as u32 - '0' as u32) as nat
}

pub open spec fn digit_char(d: nat) -> char {
    ('0' as u32 + d) as char
}

// ---------------------------------------------------------------------------
// Between strings and vectors of characters
// ---------------------------------------------------------------------------

pub fn chars_of(s: &str) -> (r: Vec<char>)
    ensures
        r@ == s@,
{
    let mut out: Vec<char> = Vec::new();
    for c in it: s.chars()
        invariant
            it.seq() == s@,
            out@ == s@.take(it.index() as int),
    {
        out.push(c);
        assert(s@.take(it.index() as int + 1) =~= s@.take(it.index() as int).push(c));
    }
    assert(s@.take(s@.len() as int) =~= s@);
    out
}

pub fn string_of(chars: &Vec<char>, from: usize, to: usize) -> (r: String)
    requires
        from <= to <= chars@.len(),
    ensures
        r@ == chars@.subrange(from as int, to as int),
{
    let mut out = String::new();
    let mut i: usize = from;
    assert(chars@.subrange(from as int, from as int) =~= Seq::<char>::empty());
    while i < to
        invariant
            from <= i <= to <= chars@.len(),
            out@ == chars@.subrange(from as int, i as int),
        decreases to - i,
    {
        out.push(chars[i]);
        assert(chars@.subrange(from as int, i + 1) =~= chars@.subrange(from as int, i as int).push(
            chars@[i as int],
        ));
        i += 1;
    }
    out
}

/// A text followed by another one.
pub fn joined2(a: &str, b: &str) -> (r: String)
    ensures
        r@ == a@ + b@,
{
    let mut out = a.to_string();
    out.append(b);
    out
}

pub fn joined3(a: &str, b: &str, c: &str) -> (r: String)
    ensures
        r@ == a@ + b@ + c@,
{
    let mut out = a.to_string();
    out.append(b);
    out.append(c);
    out
}

pub fn joined4(a: &str, b: &str, c: &str, d: &str) -> (r: String)
    ensures
        r@ == a@ + b@ + c@ + d@,
{
    joined2(joined3(a, b, c).as_str(), d)
}

pub fn joined5(a: &str, b: &str, c: &str, d: &str, e: &str) -> (r: String)
    ensures
        r@ == a@ + b@ + c@ + d@ + e@,
{
    joined2(joined4(a, b, c, d).as_str(), e)
}

// ---------------------------------------------------------------------------
// ASCII case
// ---------------------------------------------------------------------------

pub open spec fn ascii_lower(s: Seq<char>) -> Seq<char> {
    Seq::new(s.len(), |i: int| lower_char(s[i]))
}

pub open spec fn ascii_upper(s: Seq<char>) -> Seq<char> {
    Seq::new(s.len(), |i: int| upper_char(s[i]))
}

/// Whether two texts are the same up to the case of the letters `a` to `z`.
pub open spec fn same_ignoring_case(a: Seq<char>, b: Seq<char>) -> bool {
    ascii_lower(a) == ascii_lower(b)
}

pub fn to_ascii_lower(s: &str) -> (r: String)
    ensures
        r@ == ascii_lower(s@),
{
    let mut out = String::new();
    for c in it: s.chars()
        invariant
            it.seq() == s@,
            out@ == ascii_lower(s@.take(it.index() as int)),
    {
        out.push(to_lower_char(c));
        assert(ascii_lower(s@.take(it.index() as int + 1)) =~= ascii_lower(
            s@.take(it.index() as int),
        ).push(lower_char(c)));
    }
    assert(s@.take(s@.len() as int) =~= s@);
    out
}

pub fn to_ascii_upper(s: &str) -> (r: String)
    ensures
        r@ == ascii_upper(s@),
{
    let mut out = String::new();
    for c in it: s.chars()
        invariant
            it.seq() == s@,
            out@ == ascii_upper(s@.take(it.index() as int)),
    {
        out.push(to_upper_char(c));
        assert(ascii_upper(s@.take(it.index() as int + 1)) =~= ascii_upper(
            s@.take(it.index() as int),
        ).push(upper_char(c)));
    }
    assert(s@.take(s@.len() as int) =~= s@);
    out
}

pub fn eq_ignore_case(a: &str, b: &str) -> (r: bool)
    ensures
        r == same_ignoring_case(a@, b@),
{
    let la = to_ascii_lower(a);
    let lb = to_ascii_lower(b);
    same_text(la.as_str(), lb.as_str())
}

// ---------------------------------------------------------------------------
// Searching
// ---------------------------------------------------------------------------

pub open spec fn occurs_at(text: Seq<char>, part: Seq<char>, i: int) -> bool {
    0 <= i && i + part.len() <= text.len() && text.subrange(i, i + part.len()) == part
}

pub open spec fn contains_text(text: Seq<char>, part: Seq<char>) -> bool {
    exists|i: int| occurs_at(text, part, i)
}

pub open spec fn starts_with(text: Seq<char>, part: Seq<char>) -> bool {
    occurs_at(text, part, 0)
}

/// Where a part first occurs in a text.
pub open spec fn first_occurrence(text: Seq<char>, part: Seq<char>, r: Option<int>) -> bool {
    match r {
        Some(i) => occurs_at(text, part, i) && forall|k: int| 0 <= k < i ==> !occurs_at(text, part, k),
        None => !contains_text(text, part),
    }
}

fn chars_occur_at(text: &Vec<char>, part: &Vec<char>, at: usize) -> (r: bool)
    requires
        at <= text@.len(),
    ensures
        r == occurs_at(text@, part@, at as int),
{
    if part.len() > text.len() - at {
        return false;
    }
    let mut i: usize = 0;
    while i < part.len()
        invariant
            at <= text@.len(),
            part@.len() <= text@.len() - at,
            text@.len() <= usize::MAX,
            i <= part@.len(),
            forall|k: int| 0 <= k < i ==> text@[at + k] == part@[k],
        decreases part@.len() - i,
    {
        if text[at + i] != part[i] {
            assert(text@.subrange(at as int, at + part@.len())[i as int] != part@[i as int]);
            return false;
        }
        i += 1;
    }
    assert(text@.subrange(at as int, at + part@.len()) =~= part@);
    true
}

fn find_chars(text: &Vec<char>, part: &Vec<char>) -> (r: Option<usize>)
    ensures
        first_occurrence(
            text@,
            part@,
            match r {
                Some(i) => Some(i as int),
                None => None,
            },
        ),
{
    if part.len() == 0 {
        assert(text@.subrange(0, 0) =~= part@);
        return Some(0);
    }
    if part.len() > text.len() {
        return None;
    }
    let mut i: usize = 0;
    while i <= text.len() - part.len()
        invariant
            0 < part@.len() <= text@.len() <= usize::MAX,
            i <= text@.len() - part@.len() + 1,
            forall|k: int| 0 <= k < i ==> !occurs_at(text@, part@, k),
        decreases text@.len() + 1 - i,
    {
        if chars_occur_at(text, part, i) {
            return Some(i);
        }
        i += 1;
    }
    None
}

pub fn find_text(text: &str, part: &str) -> (r: Option<usize>)
    ensures
        first_occurrence(
            text@,
            part@,
            match r {
                Some(i) => Some(i as int),
                None => None,
            },
        ),
{
    find_chars(&chars_of(text), &chars_of(part))
}

pub fn text_contains(text: &str, part: &str) -> (r: bool)
    ensures
        r == contains_text(text@, part@),
{
    match find_text(text, part) {
        Some(_) => true,
        None => false,
    }
}

pub fn text_starts_with(text: &str, part: &str) -> (r: bool)
    ensures
        r == starts_with(text@, part@),
{
    chars_occur_at(&chars_of(text), &chars_of(part), 0)
}

/// What a text holds from the first occurrence of a part on.
pub open spec fn from_part(text: Seq<char>, part: Seq<char>) -> Option<Seq<char>>
    decreases text.len(),
{
    if starts_with(text, part) {
        Some(text)
    } else if text.len() == 0 {
        None
    } else {
        from_part(text.drop_first(), part)
    }
}

proof fn from_part_is_first(text: Seq<char>, part: Seq<char>, r: Option<int>)
    requires
        first_occurrence(text, part, r),
    ensures
        from_part(text, part) == (match r {
            Some(i) => Some(text.skip(i)),
            None => None::<Seq<char>>,
        }),
    decreases text.len(),
{
    let rest = text.drop_first();
    if starts_with(text, part) {
        assert(occurs_at(text, part, 0));
        assert(text.skip(0) =~= text);
    } else if text.len() > 0 {
        assert forall|k: int| 0 <= k implies (#[trigger] occurs_at(rest, part, k) <==> occurs_at(
            text,
            part,
            k + 1,
        )) by {
            if k + part.len() <= rest.len() {
                assert(rest.subrange(k, k + part.len()) =~= text.subrange(
                    k + 1,
                    k + 1 + part.len(),
                ));
            }
        }
        match r {
            Some(i) => {
                assert(occurs_at(rest, part, i - 1));
                from_part_is_first(rest, part, Some(i - 1));
                assert(rest.skip(i - 1) =~= text.skip(i));
            },
            None => {
                if contains_text(rest, part) {
                    let k = choose|k: int| occurs_at(rest, part, k);
                    assert(occurs_at(text, part, k + 1));
                }
                from_part_is_first(rest, part, None);
            },
        }
    } else {
        assert(match r {
            Some(i) => i == 0,
            None => true,
        });
    }
}

pub fn text_from(text: &str, part: &str) -> (r: Option<String>)
    ensures
        r.deep_view() == from_part(text@, part@),
{
    let chars = chars_of(text);
    match find_text(text, part) {
        Some(i) => {
            proof {
                from_part_is_first(text@, part@, Some(i as int));
            }
            let rest = string_of(&chars, i, chars.len());
            assert(rest@ =~= text@.skip(i as int));
            Some(rest)
        },
        None => {
            proof {
                from_part_is_first(text@, part@, None);
            }
            None
        },
    }
}

pub proof fn part_of_part(text: Seq<char>, part: Seq<char>, inner: Seq<char>)
    requires
        contains_text(text, part),
        contains_text(part, inner),
    ensures
        contains_text(text, inner),
{
    let i = choose|i: int| occurs_at(text, part, i);
    let k = choose|k: int| occurs_at(part, inner, k);
    assert(text.subrange(i + k, i + k + inner.len()) =~= part.subrange(k, k + inner.len()));
    assert(occurs_at(text, inner, i + k));
}

pub proof fn subrange_occurs(text: Seq<char>, from: int, to: int)
    requires
        0 <= from <= to <= text.len(),
    ensures
        contains_text(text, text.subrange(from, to)),
{
    assert(occurs_at(text, text.subrange(from, to), from));
}

pub proof fn from_part_occurs(text: Seq<char>, part: Seq<char>)
    ensures
        match from_part(text, part) {
            Some(rest) => contains_text(text, rest),
            None => true,
        },
    decreases text.len(),
{
    if starts_with(text, part) {
        assert(text.subrange(0, text.len() as int) =~= text);
        subrange_occurs(text, 0, text.len() as int);
    } else if text.len() > 0 {
        from_part_occurs(text.drop_first(), part);
        if from_part(text, part) is Some {
            subrange_occurs(text, 1, text.len() as int);
            part_of_part(text, text.drop_first(), from_part(text, part)->0);
        }
    }
}

// ---------------------------------------------------------------------------
// Trimming
// ---------------------------------------------------------------------------

pub open spec fn trim_start(s: Seq<char>) -> Seq<char>
    decreases s.len(),
{
    if s.len() > 0 && is_white(s[0]) {
        trim_start(s.drop_first())
    } else {
        s
    }
}

pub open spec fn trim_end(s: Seq<char>) -> Seq<char>
    decreases s.len(),
{
    if s.len() > 0 && is_white(s.last()) {
        trim_end(s.drop_last())
    } else {
        s
    }
}

/// A text without the white space at its start and at its end.
pub open spec fn trim(s: Seq<char>) -> Seq<char> {
    trim_end(trim_start(s))
}

pub fn trimmed(s: &str) -> (r: String)
    ensures
        r@ == trim(s@),
{
    let chars = chars_of(s);
    let mut from: usize = 0;
    assert(chars@.skip(0) =~= chars@);
    while from < chars.len() && white(chars[from])
        invariant
            from <= chars@.len(),
            chars@ == s@,
            trim_start(s@) == trim_start(chars@.skip(from as int)),
        decreases chars@.len() - from,
    {
        assert(chars@.skip(from as int).drop_first() =~= chars@.skip(from + 1));
        from += 1;
    }
    let ghost rest = chars@.skip(from as int);
    assert(trim_start(s@) == rest);
    let mut to: usize = chars.len();
    assert(chars@.subrange(from as int, to as int) =~= rest);
    while to > from && white(chars[to - 1])
        invariant
            from <= to <= chars@.len(),
            trim_end(rest) == trim_end(chars@.subrange(from as int, to as int)),
        decreases to,
    {
        assert(chars@.subrange(from as int, to as int).drop_last() =~= chars@.subrange(
            from as int,
            to - 1,
        ));
        to -= 1;
    }
    string_of(&chars, from, to)
}

/// A trimmed text is a part of the text.
pub proof fn trimmed_occurs(s: Seq<char>)
    ensures
        contains_text(s, trim(s)),
{
    let start = trim_start(s);
    trim_start_is_suffix(s);
    trim_end_is_prefix(start);
    subrange_occurs(s, s.len() - start.len(), s.len() as int);
    assert(s.subrange(s.len() - start.len(), s.len() as int) =~= start);
    subrange_occurs(start, 0, trim(s).len() as int);
    assert(start.subrange(0, trim(s).len() as int) =~= trim(s));
    part_of_part(s, start, trim(s));
}

proof fn trim_start_is_suffix(s: Seq<char>)
    ensures
        trim_start(s).len() <= s.len(),
        trim_start(s) == s.skip(s.len() - trim_start(s).len()),
    decreases s.len(),
{
    if s.len() > 0 && is_white(s[0]) {
        trim_start_is_suffix(s.drop_first());
    }
    assert(trim_start(s) =~= s.skip(s.len() - trim_start(s).len()));
}

proof fn trim_end_is_prefix(s: Seq<char>)
    ensures
        trim_end(s).len() <= s.len(),
        trim_end(s) == s.take(trim_end(s).len() as int),
    decreases s.len(),
{
    if s.len() > 0 && is_white(s.last()) {
        trim_end_is_prefix(s.drop_last());
    }
    assert(trim_end(s) =~= s.take(trim_end(s).len() as int));
}

proof fn trim_start_keeps_the_end(s: Seq<char>, c: char)
    ensures
        trim_start(s).len() > 0 ==> trim_start(s.push(c)) == trim_start(s).push(c),
        trim_start(s).len() == 0 && is_white(c) ==> trim_start(s.push(c)).len() == 0,
    decreases s.len(),
{
    if s.len() > 0 && is_white(s[0]) {
        trim_start_keeps_the_end(s.drop_first(), c);
        assert(s.push(c).drop_first() =~= s.drop_first().push(c));
    } else if s.len() == 0 {
        assert(s.push(c).drop_first() =~= s);
    }
}

/// White space around a text is trimmed with it.
pub proof fn trim_ignores_white_around(s: Seq<char>, c: char)
    requires
        is_white(c),
    ensures
        trim(s.push(c)) == trim(s),
        trim(seq![c] + s) == trim(s),
{
    trim_start_keeps_the_end(s, c);
    if trim_start(s).len() > 0 {
        assert(trim_start(s).push(c).drop_last() =~= trim_start(s));
    } else {
        assert(trim_start(s.push(c)) =~= trim_start(s));
    }
    assert((seq![c] + s).drop_first() =~= s);
}

/// Trimming leaves no white space at either end.
pub proof fn trim_leaves_no_outer_white(s: Seq<char>)
    ensures
        trim(s).len() > 0 ==> !is_white(trim(s)[0]) && !is_white(trim(s).last()),
{
    trim_start_head(s);
    trim_end_tail(trim_start(s));
}

/// Trimming a trimmed text changes nothing.
pub proof fn trim_is_idempotent(s: Seq<char>)
    ensures
        trim(trim(s)) == trim(s),
{
    trim_leaves_no_outer_white(s);
}

proof fn trim_start_head(s: Seq<char>)
    ensures
        trim_start(s).len() > 0 ==> !is_white(trim_start(s)[0]),
    decreases s.len(),
{
    if s.len() > 0 && is_white(s[0]) {
        trim_start_head(s.drop_first());
    }
}

proof fn trim_end_tail(s: Seq<char>)
    ensures
        trim_end(s).len() > 0 ==> trim_end(s)[0] == s[0] && !is_white(trim_end(s).last()),
        trim_end(s).len() <= s.len(),
    decreases s.len(),
{
    if s.len() > 0 && is_white(s.last()) {
        trim_end_tail(s.drop_last());
    }
}

/// The text without a given character at its end, however often it stands there.
pub open spec fn trim_end_char(s: Seq<char>, c: char) -> Seq<char>
    decreases s.len(),
{
    if s.len() > 0 && s.last() == c {
        trim_end_char(s.drop_last(), c)
    } else {
        s
    }
}

pub fn trimmed_end_char(s: &str, c: char) -> (r: String)
    ensures
        r@ == trim_end_char(s@, c),
{
    let chars = chars_of(s);
    let mut to: usize = chars.len();
    assert(chars@.take(to as int) =~= s@);
    while to > 0 && chars[to - 1] == c
        invariant
            to <= chars@.len(),
            trim_end_char(s@, c) == trim_end_char(chars@.take(to as int), c),
        decreases to,
    {
        assert(chars@.take(to as int).drop_last() =~= chars@.take(to - 1));
        to -= 1;
    }
    assert(chars@.take(to as int) =~= chars@.subrange(0, to as int));
    string_of(&chars, 0, to)
}

// ---------------------------------------------------------------------------
// Splitting and joining
// ---------------------------------------------------------------------------

/// The pieces of a text between the occurrences of a separator.
pub open spec fn split_on(s: Seq<char>, sep: char) -> Seq<Seq<char>>
    decreases s.len(),
{
    if s.len() == 0 {
        seq![Seq::<char>::empty()]
    } else {
        let before = split_on(s.drop_last(), sep);
        if s.last() == sep {
            before.push(Seq::<char>::empty())
        } else {
            before.drop_last().push(before.last().push(s.last()))
        }
    }
}

pub fn split_text(s: &str, sep: char) -> (r: Vec<String>)
    ensures
        r.deep_view() == split_on(s@, sep),
        r@.len() > 0,
{
    let mut out: Vec<String> = Vec::new();
    let mut piece = String::new();
    assert(out.deep_view().push(piece@) =~= seq![Seq::<char>::empty()]);
    assert(s@.take(0).len() == 0);
    for c in it: s.chars()
        invariant
            it.seq() == s@,
            out.deep_view().push(piece@) == split_on(s@.take(it.index() as int), sep),
    {
        let ghost before = out.deep_view().push(piece@);
        let ghost now = s@.take(it.index() as int + 1);
        assert(now.drop_last() =~= s@.take(it.index() as int));
        assert(before.drop_last() =~= out.deep_view());
        if c == sep {
            out.push(piece);
            piece = String::new();
            assert(out.deep_view() =~= before);
        } else {
            piece.push(c);
        }
        assert(out.deep_view().push(piece@) =~= split_on(now, sep));
    }
    assert(s@.take(s@.len() as int) =~= s@);
    let ghost before = out.deep_view();
    let ghost last = piece@;
    out.push(piece);
    assert(out.deep_view() =~= before.push(last));
    out
}

/// The pieces of a comma-separated list, trimmed, without the empty ones.
pub open spec fn list_items(s: Seq<char>) -> Seq<Seq<char>> {
    trimmed_non_empty(split_on(s, ','))
}

pub open spec fn trimmed_non_empty(parts: Seq<Seq<char>>) -> Seq<Seq<char>>
    decreases parts.len(),
{
    if parts.len() == 0 {
        Seq::empty()
    } else {
        let before = trimmed_non_empty(parts.drop_last());
        if trim(parts.last()).len() == 0 {
            before
        } else {
            before.push(trim(parts.last()))
        }
    }
}

pub fn trim_all(parts: &Vec<String>) -> (r: Vec<String>)
    ensures
        r.deep_view() == trimmed_non_empty(parts.deep_view()),
{
    let mut out: Vec<String> = Vec::new();
    let mut i: usize = 0;
    assert(out.deep_view() =~= trimmed_non_empty(parts.deep_view().take(0)));
    while i < parts.len()
        invariant
            i <= parts@.len(),
            out.deep_view() == trimmed_non_empty(parts.deep_view().take(i as int)),
        decreases parts@.len() - i,
    {
        let ghost before = out.deep_view();
        let t = trimmed(parts[i].as_str());
        let ghost tv = t@;
        assert(parts.deep_view().take(i + 1).drop_last() =~= parts.deep_view().take(i as int));
        assert(parts.deep_view().take(i + 1).last() == parts@[i as int]@);
        if !t.as_str().is_empty() {
            out.push(t);
            assert(out.deep_view() =~= before.push(tv));
        }
        i += 1;
    }
    assert(parts.deep_view().take(parts@.len() as int) =~= parts.deep_view());
    out
}

pub fn split_list(s: &str) -> (r: Vec<String>)
    ensures
        r.deep_view() == list_items(s@),
{
    let parts = split_text(s, ',');
    trim_all(&parts)
}

/// No item of a comma-separated list is empty or has white space around it.
pub proof fn list_items_are_trimmed(s: Seq<char>, i: int)
    requires
        0 <= i < list_items(s).len(),
    ensures
        list_items(s)[i].len() > 0,
        trim(list_items(s)[i]) == list_items(s)[i],
{
    trimmed_non_empty_items(split_on(s, ','), i);
}

proof fn trimmed_non_empty_items(parts: Seq<Seq<char>>, i: int)
    requires
        0 <= i < trimmed_non_empty(parts).len(),
    ensures
        trimmed_non_empty(parts)[i].len() > 0,
        trim(trimmed_non_empty(parts)[i]) == trimmed_non_empty(parts)[i],
    decreases parts.len(),
{
    trim_is_idempotent(parts.last());
    if i < trimmed_non_empty(parts.drop_last()).len() {
        trimmed_non_empty_items(parts.drop_last(), i);
    }
}

/// The part of a text before the first occurrence of a character.
pub open spec fn before_char(s: Seq<char>, c: char) -> Seq<char>
    decreases s.len(),
{
    if s.len() == 0 || s[0] == c {
        Seq::empty()
    } else {
        seq![s[0]] + before_char(s.drop_first(), c)
    }
}

pub fn text_before(s: &str, c: char) -> (r: String)
    ensures
        r@ == before_char(s@, c),
{
    let chars = chars_of(s);
    let mut i: usize = 0;
    assert(chars@.skip(0) =~= s@);
    assert(chars@.take(0) + before_char(s@, c) =~= before_char(s@, c));
    while i < chars.len() && chars[i] != c
        invariant
            i <= chars@.len(),
            before_char(s@, c) == chars@.take(i as int) + before_char(chars@.skip(i as int), c),
        decreases chars@.len() - i,
    {
        let ghost rest = chars@.skip(i as int);
        assert(rest.drop_first() =~= chars@.skip(i + 1));
        assert(chars@.take(i as int) + (seq![rest[0]] + before_char(rest.drop_first(), c))
            =~= chars@.take(i + 1) + before_char(chars@.skip(i + 1), c));
        i += 1;
    }
    assert(before_char(s@, c) =~= chars@.subrange(0, i as int));
    string_of(&chars, 0, i)
}

/// The part of a text behind the first occurrence of a character.
pub open spec fn after_char(s: Seq<char>, c: char) -> Option<Seq<char>>
    decreases s.len(),
{
    if s.len() == 0 {
        None
    } else if s[0] == c {
        Some(s.drop_first())
    } else {
        after_char(s.drop_first(), c)
    }
}

pub fn text_after(s: &str, c: char) -> (r: Option<String>)
    ensures
        r.deep_view() == after_char(s@, c),
{
    let chars = chars_of(s);
    let mut i: usize = 0;
    assert(chars@.skip(0) =~= s@);
    while i < chars.len()
        invariant
            i <= chars@.len(),
            after_char(s@, c) == after_char(chars@.skip(i as int), c),
        decreases chars@.len() - i,
    {
        assert(chars@.skip(i as int).drop_first() =~= chars@.skip(i + 1));
        if chars[i] == c {
            let rest = string_of(&chars, i + 1, chars.len());
            assert(rest@ =~= chars@.skip(i + 1));
            return Some(rest);
        }
        i += 1;
    }
    None
}

/// A line without the carriage return that it ends in.
pub open spec fn without_return(line: Seq<char>) -> Seq<char> {
    if line.len() > 0 && line.last() == '\r' {
        line.drop_last()
    } else {
        line
    }
}

/// The lines of a text: what stands before each line feed, without a carriage return at its
/// end, and what follows the last line feed unless it is empty.
pub open spec fn lines_of(s: Seq<char>) -> Seq<Seq<char>> {
    let parts = split_on(s, '\n');
    let ended = Seq::new((parts.len() - 1) as nat, |i: int| without_return(parts[i]));
    if parts.last().len() == 0 {
        ended
    } else {
        ended.push(parts.last())
    }
}

pub fn split_lines(s: &str) -> (r: Vec<String>)
    ensures
        r.deep_view() == lines_of(s@),
{
    let parts = split_text(s, '\n');
    let ghost all = parts.deep_view();
    let mut out: Vec<String> = Vec::new();
    let mut i: usize = 0;
    while i < parts.len() - 1
        invariant
            i < parts@.len(),
            all == parts.deep_view(),
            out.deep_view() == Seq::new(i as nat, |k: int| without_return(all[k])),
        decreases parts@.len() - i,
    {
        let ghost before = out.deep_view();
        let chars = chars_of(parts[i].as_str());
        let line = if chars.len() > 0 && chars[chars.len() - 1] == '\r' {
            let kept = string_of(&chars, 0, chars.len() - 1);
            assert(kept@ =~= chars@.drop_last());
            kept
        } else {
            parts[i].clone()
        };
        assert(line@ == without_return(all[i as int]));
        out.push(line);
        assert(out.deep_view() =~= before.push(line@));
        i += 1;
        assert(out.deep_view() =~= Seq::new(i as nat, |k: int| without_return(all[k])));
    }
    let ghost ended = out.deep_view();
    assert(all.last() == parts@[i as int]@);
    let tail = parts[i].clone();
    if !tail.as_str().is_empty() {
        out.push(tail);
        assert(out.deep_view() =~= ended.push(all.last()));
    }
    assert(out.deep_view() =~= lines_of(s@));
    out
}

proof fn pieces_occur(s: Seq<char>, sep: char)
    ensures
        split_on(s, sep).len() > 0,
        split_on(s, sep).last().len() <= s.len(),
        split_on(s, sep).last() == s.skip(s.len() - split_on(s, sep).last().len()),
        forall|k: int|
            0 <= k < split_on(s, sep).len() ==> contains_text(s, #[trigger] split_on(s, sep)[k]),
    decreases s.len(),
{
    let parts = split_on(s, sep);
    if s.len() > 0 {
        let rest = s.drop_last();
        let before = split_on(rest, sep);
        pieces_occur(rest, sep);
        subrange_occurs(s, 0, s.len() - 1);
        assert(s.subrange(0, s.len() - 1) =~= rest);
        assert forall|k: int| 0 <= k < parts.len() - 1 implies contains_text(
            s,
            #[trigger] parts[k],
        ) by {
            assert(parts[k] == before[k]);
            part_of_part(s, rest, before[k]);
        }
    }
    assert(parts.last() =~= s.skip(s.len() - parts.last().len()));
    subrange_occurs(s, s.len() - parts.last().len(), s.len() as int);
    assert(s.subrange(s.len() - parts.last().len(), s.len() as int) =~= parts.last());
}

/// Each line of a text occurs in it.
pub proof fn lines_occur(s: Seq<char>, k: int)
    requires
        0 <= k < lines_of(s).len(),
    ensures
        contains_text(s, lines_of(s)[k]),
{
    let parts = split_on(s, '\n');
    pieces_occur(s, '\n');
    let line = lines_of(s)[k];
    assert(contains_text(s, parts[k]));
    assert(line =~= parts[k].subrange(0, line.len() as int));
    subrange_occurs(parts[k], 0, line.len() as int);
    part_of_part(s, parts[k], line);
}

/// A text without the separator is one piece.
pub proof fn split_without_separator(a: Seq<char>, sep: char)
    requires
        !a.contains(sep),
    ensures
        split_on(a, sep) == seq![a],
    decreases a.len(),
{
    if a.len() > 0 {
        let rest = a.drop_last();
        assert(!rest.contains(sep)) by {
            if rest.contains(sep) {
                let i = choose|i: int| 0 <= i < rest.len() && rest[i] == sep;
                assert(a[i] == sep);
            }
        }
        split_without_separator(rest, sep);
        assert(a.last() != sep);
        assert(rest.push(a.last()) =~= a);
        assert(split_on(a, sep) =~= seq![a]);
    } else {
        assert(a =~= Seq::empty());
    }
}

/// A piece without the separator, in front of one, comes in front of the pieces behind it.
pub proof fn split_behind_separator(a: Seq<char>, sep: char, b: Seq<char>)
    requires
        !a.contains(sep),
    ensures
        split_on(a.push(sep) + b, sep) == seq![a] + split_on(b, sep),
        split_on(b, sep).len() > 0,
    decreases b.len(),
{
    let whole = a.push(sep) + b;
    if b.len() == 0 {
        assert(whole =~= a.push(sep));
        assert(whole.drop_last() =~= a);
        split_without_separator(a, sep);
        assert(split_on(whole, sep) =~= seq![a] + split_on(b, sep));
    } else {
        let rest = b.drop_last();
        assert(whole.drop_last() =~= a.push(sep) + rest);
        split_behind_separator(a, sep, rest);
        assert(split_on(whole, sep) =~= seq![a] + split_on(b, sep));
    }
}

/// The lines of a text that begins with a whole line.
pub proof fn lines_behind_the_first(a: Seq<char>, b: Seq<char>)
    requires
        !a.contains('\n'),
    ensures
        lines_of(a.push('\n') + b) == seq![without_return(a)] + lines_of(b),
{
    split_behind_separator(a, '\n', b);
    let parts = split_on(b, '\n');
    let whole = split_on(a.push('\n') + b, '\n');
    assert(whole.last() == parts.last());
    assert(lines_of(a.push('\n') + b) =~= seq![without_return(a)] + lines_of(b));
}

/// The pieces of a text between the occurrences of a separator, each trimmed.
pub open spec fn trimmed_parts(s: Seq<char>, sep: char) -> Seq<Seq<char>> {
    Seq::new(split_on(s, sep).len(), |i: int| trim(split_on(s, sep)[i]))
}

pub fn split_trimmed(s: &str, sep: char) -> (r: Vec<String>)
    ensures
        r.deep_view() == trimmed_parts(s@, sep),
{
    let parts = split_text(s, sep);
    let ghost all = parts.deep_view();
    let mut out: Vec<String> = Vec::new();
    for i in 0..parts.len()
        invariant
            all == parts.deep_view(),
            out.deep_view() == Seq::new(i as nat, |k: int| trim(all[k])),
    {
        let ghost before = out.deep_view();
        let part = trimmed(parts[i].as_str());
        out.push(part);
        assert(out.deep_view() =~= before.push(part@));
        assert(out.deep_view() =~= Seq::new((i + 1) as nat, |k: int| trim(all[k])));
    }
    assert(out.deep_view() =~= trimmed_parts(s@, sep));
    out
}

/// Texts put one after the other with a separator between them.
pub open spec fn join_with(parts: Seq<Seq<char>>, sep: Seq<char>) -> Seq<char>
    decreases parts.len(),
{
    if parts.len() == 0 {
        Seq::empty()
    } else if parts.len() == 1 {
        parts[0]
    } else {
        join_with(parts.drop_last(), sep) + sep + parts.last()
    }
}

pub fn join_texts(parts: &Vec<String>, sep: &str) -> (r: String)
    ensures
        r@ == join_with(parts.deep_view(), sep@),
{
    let mut out = String::new();
    let mut i: usize = 0;
    let ghost all = parts.deep_view();
    assert(out@ =~= join_with(all.take(0), sep@));
    while i < parts.len()
        invariant
            i <= parts@.len(),
            all == parts.deep_view(),
            out@ == join_with(all.take(i as int), sep@),
        decreases parts@.len() - i,
    {
        assert(all.take(i + 1).drop_last() =~= all.take(i as int));
        assert(all.take(i + 1).last() == parts@[i as int]@);
        if i > 0 {
            out.append(sep);
        }
        out.append(parts[i].as_str());
        assert(out@ =~= join_with(all.take(i + 1), sep@));
        i += 1;
    }
    assert(all.take(all.len() as int) =~= all);
    out
}

// ---------------------------------------------------------------------------
// Decimal numbers
// ---------------------------------------------------------------------------

/// A number written in decimal digits, without leading zeros.
pub open spec fn decimal(n: nat) -> Seq<char>
    decreases n,
{
    if n < 10 {
        seq![digit_char(n)]
    } else {
        decimal(n / 10).push(digit_char(n % 10))
    }
}

pub fn decimal_text(n: u64) -> (r: String)
    ensures
        r@ == decimal(n as nat),
    decreases n,
{
    if n < 10 {
        let mut out = String::new();
        out.push((48u8 + n as u8) as char);
        assert(out@ =~= decimal(n as nat));
        out
    } else {
        let mut out = decimal_text(n / 10);
        out.push((48u8 + (n % 10) as u8) as char);
        out
    }
}

/// A whole number in decimal digits, with a minus sign where it is negative.
pub open spec fn signed_decimal(n: int) -> Seq<char> {
    if n < 0 {
        "-"@ + decimal((-n) as nat)
    } else {
        decimal(n as nat)
    }
}

pub fn signed_text(n: i64) -> (r: String)
    ensures
        r@ == signed_decimal(n as int),
{
    if n < 0 {
        let size: u64 = if n == i64::MIN {
            9223372036854775808
        } else {
            (-n) as u64
        };
        joined2("-", decimal_text(size).as_str())
    } else {
        decimal_text(n as u64)
    }
}

/// The value of a non-empty run of decimal digits.
pub open spec fn digits_value(s: Seq<char>) -> Option<nat>
    decreases s.len(),
{
    if s.len() == 0 || !is_digit(s.last()) {
        None
    } else if s.len() == 1 {
        Some(digit_value(s.last()))
    } else {
        match digits_value(s.drop_last()) {
            Some(v) => Some(v * 10 + digit_value(s.last())),
            None => None,
        }
    }
}

/// What a text stands for as an unsigned number: digits, with a plus sign
/// before them if there is one.
pub open spec fn unsigned_value(s: Seq<char>) -> Option<nat> {
    if s.len() > 0 && s[0] == '+' {
        digits_value(s.drop_first())
    } else {
        digits_value(s)
    }
}

/// What a text stands for as a signed number.
pub open spec fn signed_value(s: Seq<char>) -> Option<int> {
    if s.len() > 0 && s[0] == '-' {
        match digits_value(s.drop_first()) {
            Some(v) => Some(-(v as int)),
            None => None,
        }
    } else {
        match unsigned_value(s) {
            Some(v) => Some(v as int),
            None => None,
        }
    }
}

/// The number that a text stands for, where it lies in a given range.
pub open spec fn within(v: Option<int>, low: int, high: int) -> Option<int> {
    match v {
        Some(n) => if low <= n <= high {
            Some(n)
        } else {
            None
        },
        None => None,
    }
}

pub open spec fn nat_value(v: Option<nat>) -> Option<int> {
    match v {
        Some(n) => Some(n as int),
        None => None,
    }
}

proof fn digits_value_of_bad_prefix(s: Seq<char>, i: int)
    requires
        0 < i <= s.len(),
        digits_value(s.take(i)) is None,
    ensures
        digits_value(s) is None,
    decreases s.len() - i,
{
    if i < s.len() {
        assert(s.take(i + 1).drop_last() =~= s.take(i));
        digits_value_of_bad_prefix(s, i + 1);
    } else {
        assert(s.take(i) =~= s);
    }
}

proof fn digits_value_of_large_prefix(s: Seq<char>, i: int, bound: nat)
    requires
        0 < i <= s.len(),
        digits_value(s.take(i)) matches Some(v) && v > bound,
    ensures
        digits_value(s) matches Some(v) ==> v > bound,
    decreases s.len() - i,
{
    if i < s.len() {
        assert(s.take(i + 1).drop_last() =~= s.take(i));
        if digits_value(s.take(i + 1)) is None {
            digits_value_of_bad_prefix(s, i + 1);
        } else {
            digits_value_of_large_prefix(s, i + 1, bound);
        }
    } else {
        assert(s.take(i) =~= s);
    }
}

/// Reads decimal digits from a position to the end of the text.
fn read_digits(chars: &Vec<char>, from: usize) -> (r: Option<u64>)
    requires
        from <= chars@.len(),
    ensures
        match r {
            Some(v) => digits_value(chars@.skip(from as int)) == Some(v as nat),
            None => match digits_value(chars@.skip(from as int)) {
                Some(v) => v > u64::MAX,
                None => true,
            },
        },
{
    let ghost s = chars@.skip(from as int);
    if from == chars.len() {
        return None;
    }
    let mut value: u64 = 0;
    let mut i: usize = from;
    while i < chars.len()
        invariant
            from <= i <= chars@.len(),
            s == chars@.skip(from as int),
            i > from ==> digits_value(s.take(i - from)) == Some(value as nat),
            i == from ==> value == 0,
        decreases chars@.len() - i,
    {
        let c = chars[i];
        let ghost next = s.take(i - from + 1);
        assert(next.drop_last() =~= s.take(i - from));
        assert(next.last() == c);
        if !('0' <= c && c <= '9') {
            proof {
                digits_value_of_bad_prefix(s, i - from + 1);
            }
            return None;
        }
        let d: u64 = ((c as u8) - 48) as u64;
        assert(digits_value(next) == Some((value * 10 + d) as nat));
        if value > (u64::MAX - d) / 10 {
            assert(value * 10 + d > u64::MAX);
            proof {
                digits_value_of_large_prefix(s, i - from + 1, u64::MAX as nat);
            }
            return None;
        }
        value = value * 10 + d;
        i += 1;
    }
    assert(s.take(chars@.len() - from) =~= s);
    Some(value)
}

/// The unsigned number that a text stands for, if it fits in 64 bits.
pub fn parse_u64(s: &str) -> (r: Option<u64>)
    ensures
        match r {
            Some(v) => within(nat_value(unsigned_value(s@)), 0, u64::MAX as int) == Some(v as int),
            None => within(nat_value(unsigned_value(s@)), 0, u64::MAX as int) is None,
        },
{
    let chars = chars_of(s);
    let from: usize = if chars.len() > 0 && chars[0] == '+' {
        1
    } else {
        0
    };
    assert(chars@.skip(0) =~= s@);
    assert(s@.len() > 0 ==> chars@.skip(1) =~= s@.drop_first());
    read_digits(&chars, from)
}

/// The unsigned number that a text stands for, if it fits in a `usize`.
pub fn parse_usize(s: &str) -> (r: Option<usize>)
    ensures
        match r {
            Some(v) => within(nat_value(unsigned_value(s@)), 0, usize::MAX as int) == Some(
                v as int,
            ),
            None => within(nat_value(unsigned_value(s@)), 0, usize::MAX as int) is None,
        },
{
    match parse_u64(s) {
        Some(v) => if v <= usize::MAX as u64 {
            Some(v as usize)
        } else {
            None
        },
        None => None,
    }
}

/// The signed number that a text stands for, if it fits in 64 bits.
pub fn parse_i64(s: &str) -> (r: Option<i64>)
    ensures
        match r {
            Some(v) => within(signed_value(s@), i64::MIN as int, i64::MAX as int) == Some(v as int),
            None => within(signed_value(s@), i64::MIN as int, i64::MAX as int) is None,
        },
{
    let chars = chars_of(s);
    assert(chars@.skip(0) =~= s@);
    assert(s@.len() > 0 ==> chars@.skip(1) =~= s@.drop_first());
    if chars.len() > 0 && chars[0] == '-' {
        match read_digits(&chars, 1) {
            Some(v) => if v <= i64::MAX as u64 {
                Some(-(v as i64))
            } else if v == 0x8000_0000_0000_0000 {
                Some(i64::MIN)
            } else {
                None
            },
            None => None,
        }
    } else {
        match parse_u64(s) {
            Some(v) => if v <= i64::MAX as u64 {
                Some(v as i64)
            } else {
                None
            },
            None => None,
        }
    }
}

// ---------------------------------------------------------------------------
// Identifiers, dates and terminal output
// ---------------------------------------------------------------------------

pub open spec fn is_hex_digit(c: char) -> bool {
    is_digit(c) || ('a' <= c && c <= 'f') || ('A' <= c && c <= 'F')
}

/// A UUID: 36 characters, dashes after 8, 12, 16 and 20 hexadecimal digits.
pub open spec fn uuid_shaped(s: Seq<char>) -> bool {
    &&& s.len() == 36
    &&& forall|i: int|
        0 <= i < 36 ==> if i == 8 || i == 13 || i == 18 || i == 23 {
            #[trigger] s[i] == '-'
        } else {
            is_hex_digit(s[i])
        }
}

pub fn is_uuid(s: &str) -> (r: bool)
    ensures
        r == uuid_shaped(s@),
{
    let chars = chars_of(s);
    if chars.len() != 36 {
        return false;
    }
    let mut i: usize = 0;
    while i < 36
        invariant
            i <= 36,
            chars@.len() == 36,
            chars@ == s@,
            forall|k: int|
                0 <= k < i ==> if k == 8 || k == 13 || k == 18 || k == 23 {
                    #[trigger] s@[k] == '-'
                } else {
                    is_hex_digit(s@[k])
                },
        decreases 36 - i,
    {
        let c = chars[i];
        let ok = if i == 8 || i == 13 || i == 18 || i == 23 {
            c == '-'
        } else {
            ('0' <= c && c <= '9') || ('a' <= c && c <= 'f') || ('A' <= c && c <= 'F')
        };
        if !ok {
            assert(s@[i as int] == c);
            return false;
        }
        i += 1;
    }
    true
}

/// A text cut to a width: whole where it fits, else its start and three dots.
pub open spec fn shortened(s: Seq<char>, width: Option<usize>) -> Seq<char> {
    match width {
        None => s,
        Some(w) => if s.len() <= w {
            s
        } else if w < 3 {
            s.take(w as int)
        } else {
            s.take(w - 3) + seq!['.', '.', '.']
        },
    }
}

pub fn truncate(s: &str, width: Option<usize>) -> (r: String)
    ensures
        r@ == shortened(s@, width),
{
    match width {
        None => s.to_string(),
        Some(w) => {
            let chars = chars_of(s);
            if chars.len() <= w {
                s.to_string()
            } else if w < 3 {
                assert(chars@.take(w as int) =~= chars@.subrange(0, w as int));
                string_of(&chars, 0, w)
            } else {
                let mut out = string_of(&chars, 0, w - 3);
                out.push('.');
                out.push('.');
                out.push('.');
                assert(out@ =~= s@.take(w - 3) + seq!['.', '.', '.']);
                out
            }
        },
    }
}

/// A shortened text is no wider than the width asked for.
pub proof fn shortened_fits(s: Seq<char>, width: usize)
    ensures
        shortened(s, Some(width)).len() <= width,
{
}

/// The first characters of a text, or all of it where it is shorter.
pub open spec fn head(s: Seq<char>, count: int) -> Seq<char> {
    if s.len() <= count {
        s
    } else {
        s.take(count)
    }
}

pub fn first_chars(s: &str, count: usize) -> (r: String)
    ensures
        r@ == head(s@, count as int),
{
    let chars = chars_of(s);
    if chars.len() <= count {
        s.to_string()
    } else {
        assert(chars@.take(count as int) =~= chars@.subrange(0, count as int));
        string_of(&chars, 0, count)
    }
}

/// Where the reader of a text with terminal escape sequences stands.
#[derive(Clone, Copy, PartialEq, Eq, Structural, Debug)]
pub enum Scan {
    /// In ordinary text.
    Plain,
    /// Right after an escape character.
    Escape,
    /// Inside a control sequence, which a character from `@` to `~` ends.
    Control,
    /// Inside an operating-system command, which a bell or a string terminator ends.
    Command,
    /// After an escape character inside an operating-system command.
    CommandEscape,
}

pub open spec fn is_control(c: char) -> bool {
    (c as u32) < 0x20 || 0x7f <= (c as u32) <= 0x9f
}

/// The next state of the reader, and whether the character is kept.
pub open spec fn scan_char(scan: Scan, c: char) -> (Scan, bool) {
    match scan {
        Scan::Plain => if c as u32 == 0x1b {
            (Scan::Escape, false)
        } else {
            (Scan::Plain, !is_control(c) || c as u32 == 9 || c as u32 == 10)
        },
        Scan::Escape => if c == '[' {
            (Scan::Control, false)
        } else if c == ']' {
            (Scan::Command, false)
        } else if c as u32 == 0x1b {
            (Scan::Escape, false)
        } else {
            (Scan::Plain, false)
        },
        Scan::Control => if '@' <= c && c <= '~' {
            (Scan::Plain, false)
        } else {
            (Scan::Control, false)
        },
        Scan::Command => if c as u32 == 7 {
            (Scan::Plain, false)
        } else if c as u32 == 0x1b {
            (Scan::CommandEscape, false)
        } else {
            (Scan::Command, false)
        },
        Scan::CommandEscape => if c == '\\' || c as u32 == 7 {
            (Scan::Plain, false)
        } else {
            (Scan::Command, false)
        },
    }
}

/// The reader's state after a text, and the characters it has kept.
pub open spec fn scan_text(s: Seq<char>) -> (Scan, Seq<char>)
    decreases s.len(),
{
    if s.len() == 0 {
        (Scan::Plain, Seq::empty())
    } else {
        let before = scan_text(s.drop_last());
        let step = scan_char(before.0, s.last());
        (
            step.0,
            if step.1 {
                before.1.push(s.last())
            } else {
                before.1
            },
        )
    }
}

fn scan_step(scan: Scan, c: char) -> (r: (Scan, bool))
    ensures
        r == scan_char(scan, c),
{
    let n: u32 = c as u32;
    match scan {
        Scan::Plain => if n == 0x1b {
            (Scan::Escape, false)
        } else {
            (Scan::Plain, !(n < 0x20 || (0x7f <= n && n <= 0x9f)) || n == 9 || n == 10)
        },
        Scan::Escape => if c == '[' {
            (Scan::Control, false)
        } else if c == ']' {
            (Scan::Command, false)
        } else if n == 0x1b {
            (Scan::Escape, false)
        } else {
            (Scan::Plain, false)
        },
        Scan::Control => if '@' <= c && c <= '~' {
            (Scan::Plain, false)
        } else {
            (Scan::Control, false)
        },
        Scan::Command => if n == 7 {
            (Scan::Plain, false)
        } else if n == 0x1b {
            (Scan::CommandEscape, false)
        } else {
            (Scan::Command, false)
        },
        Scan::CommandEscape => if c == '\\' || n == 7 {
            (Scan::Plain, false)
        } else {
            (Scan::Command, false)
        },
    }
}

/// Removes terminal escape sequences and control characters, keeping tabs and
/// line feeds.
pub fn sanitize_terminal_text(s: &str) -> (r: String)
    ensures
        r@ == scan_text(s@).1,
{
    let mut out = String::new();
    let mut scan = Scan::Plain;
    assert(scan_text(s@.take(0)) == (Scan::Plain, Seq::<char>::empty()));
    for c in it: s.chars()
        invariant
            it.seq() == s@,
            scan_text(s@.take(it.index() as int)) == (scan, out@),
    {
        let ghost now = s@.take(it.index() as int + 1);
        assert(now.drop_last() =~= s@.take(it.index() as int));
        let step = scan_step(scan, c);
        if step.1 {
            out.push(c);
        }
        scan = step.0;
        assert(scan_text(now) == (scan, out@));
    }
    assert(s@.take(s@.len() as int) =~= s@);
    out
}

/// Sanitized text holds no control character but tabs and line feeds.
pub proof fn sanitized_has_no_controls(s: Seq<char>, i: int)
    requires
        0 <= i < scan_text(s).1.len(),
    ensures
        ({
            let c = scan_text(s).1[i];
            !is_control(c) || c as u32 == 9 || c as u32 == 10
        }),
    decreases s.len(),
{
    if s.len() > 0 && i < scan_text(s.drop_last()).1.len() {
        sanitized_has_no_controls(s.drop_last(), i);
    }
}

/// Sanitizing sanitized text changes nothing.
pub proof fn sanitize_is_idempotent(s: Seq<char>)
    ensures
        scan_text(scan_text(s).1) == (Scan::Plain, scan_text(s).1),
{
    assert forall|i: int| 0 <= i < scan_text(s).1.len() implies ({
        let c = #[trigger] scan_text(s).1[i];
        !is_control(c) || c as u32 == 9 || c as u32 == 10
    }) by {
        sanitized_has_no_controls(s, i);
    }
    clean_text_is_kept(scan_text(s).1);
}

/// A text whose only control characters are tabs and line feeds is shown as it is.
pub proof fn clean_text_is_kept(s: Seq<char>)
    requires
        forall|i: int|
            0 <= i < s.len() ==> {
                let c = #[trigger] s[i];
                !is_control(c) || c as u32 == 9 || c as u32 == 10
            },
    ensures
        scan_text(s) == (Scan::Plain, s),
    decreases s.len(),
{
    if s.len() > 0 {
        let front = s.drop_last();
        assert forall|i: int| 0 <= i < front.len() implies ({
            let c = #[trigger] front[i];
            !is_control(c) || c as u32 == 9 || c as u32 == 10
        }) by {
            assert(front[i] == s[i]);
        }
        clean_text_is_kept(front);
        assert(s.last() == s[s.len() - 1]);
        assert(front.push(s.last()) =~= s);
    }
}

/// A copy of an optional text.
pub fn clone_text(text: &Option<String>) -> (r: Option<String>)
    ensures
        r.deep_view() == text.deep_view(),
{
    match text {
        Some(s) => Some(s.clone()),
        None => None,
    }
}

/// Copies of a list of texts.
pub fn clone_texts(texts: &Vec<String>) -> (r: Vec<String>)
    ensures
        r.deep_view() == texts.deep_view(),
{
    let mut out: Vec<String> = Vec::new();
    let mut i: usize = 0;
    while i < texts.len()
        invariant
            i <= texts@.len(),
            out@.len() == i,
            forall|k: int| 0 <= k < i ==> (#[trigger] out@[k])@ == texts@[k]@,
        decreases texts@.len() - i,
    {
        out.push(texts[i].clone());
        i += 1;
    }
    assert(out.deep_view() =~= texts.deep_view());
    out
}

/// Whether a text stands in a list.
pub fn texts_contain(texts: &Vec<String>, s: &str) -> (r: bool)
    ensures
        r == texts.deep_view().contains(s@),
{
    let mut i: usize = 0;
    while i < texts.len()
        invariant
            i <= texts@.len(),
            forall|k: int| 0 <= k < i ==> (#[trigger] texts.deep_view()[k]) != s@,
        decreases texts@.len() - i,
    {
        assert(texts.deep_view()[i as int] == texts@[i as int]@);
        if same_text(texts[i].as_str(), s) {
            return true;
        }
        i += 1;
    }
    false
}

/// A list without entries.
pub fn no_texts() -> (r: Vec<String>)
    ensures
        r.deep_view() == Seq::<Seq<char>>::empty(),
{
    let none: Vec<String> = Vec::new();
    assert(none.deep_view() =~= Seq::<Seq<char>>::empty());
    none
}

/// A count in decimal digits.
pub fn count_text(count: usize) -> (r: String)
    ensures
        r@ == decimal(count as nat),
{
    decimal_text(count as u64)
}

/// A text with each line break turned into a space.
pub open spec fn on_one_line(s: Seq<char>) -> Seq<char> {
    Seq::new(
        s.len(),
        |i: int|
            if s[i] == '\n' {
                ' '
            } else {
                s[i]
            },
    )
}

pub fn line_breaks_to_spaces(s: &str) -> (r: String)
    ensures
        r@ == on_one_line(s@),
{
    let chars = chars_of(s);
    let mut out = String::new();
    let mut i: usize = 0;
    while i < chars.len()
        invariant
            i <= chars@.len(),
            chars@ == s@,
            out@.len() == i,
            forall|k: int| 0 <= k < i ==> out@[k] == on_one_line(s@)[k],
        decreases chars@.len() - i,
    {
        if chars[i] == '\n' {
            out.push(' ');
        } else {
            out.push(chars[i]);
        }
        i += 1;
    }
    assert(out@ =~= on_one_line(s@));
    out
}

/// A text comes before another in a dictionary, by the codes of the characters,
/// or is the same.
pub open spec fn comes_first(a: Seq<char>, b: Seq<char>) -> bool
    decreases a.len(),
{
    if a.len() == 0 {
        true
    } else if b.len() == 0 {
        false
    } else if a[0] == b[0] {
        comes_first(a.drop_first(), b.drop_first())
    } else {
        a[0] < b[0]
    }
}

/// The order of texts is a total order.
pub proof fn text_order_is_total(a: Seq<char>, b: Seq<char>, c: Seq<char>)
    ensures
        comes_first(a, b) || comes_first(b, a),
        comes_first(a, b) && comes_first(b, a) ==> a == b,
        comes_first(a, b) && comes_first(b, c) ==> comes_first(a, c),
    decreases a.len() + b.len() + c.len(),
{
    if a.len() == 0 && b.len() == 0 {
        assert(a =~= b);
    } else if a.len() > 0 && b.len() > 0 {
        if a[0] == b[0] {
            if c.len() > 0 {
                text_order_is_total(a.drop_first(), b.drop_first(), c.drop_first());
            } else {
                text_order_is_total(a.drop_first(), b.drop_first(), c);
            }
            if a.drop_first() == b.drop_first() {
                assert(a =~= seq![a[0]] + a.drop_first());
                assert(b =~= seq![b[0]] + b.drop_first());
            }
        }
    }
}

pub fn text_comes_first(a: &str, b: &str) -> (r: bool)
    ensures
        r == comes_first(a@, b@),
{
    let x = chars_of(a);
    let y = chars_of(b);
    let mut i: usize = 0;
    assert(x@.skip(0) =~= x@);
    assert(y@.skip(0) =~= y@);
    while i < x.len() && i < y.len()
        invariant
            i <= x@.len(),
            i <= y@.len(),
            x@ == a@,
            y@ == b@,
            comes_first(a@, b@) == comes_first(x@.skip(i as int), y@.skip(i as int)),
        decreases x@.len() - i,
    {
        assert(x@.skip(i as int)[0] == x@[i as int]);
        assert(y@.skip(i as int)[0] == y@[i as int]);
        assert(x@.skip(i as int).drop_first() =~= x@.skip(i + 1));
        assert(y@.skip(i as int).drop_first() =~= y@.skip(i + 1));
        if x[i] != y[i] {
            return x[i] < y[i];
        }
        i += 1;
    }
    i >= x.len()
}

// ---------------------------------------------------------------------------
// Laws
// ---------------------------------------------------------------------------

/// Comparing texts in any case is an equivalence, keeps lengths, and tells two texts apart
/// only by characters that are no letters or are different letters.
pub proof fn case_is_all_that_is_ignored(a: Seq<char>, b: Seq<char>, c: Seq<char>)
    ensures
        same_ignoring_case(a, a),
        same_ignoring_case(a, b) ==> same_ignoring_case(b, a),
        same_ignoring_case(a, b) && same_ignoring_case(b, c) ==> same_ignoring_case(a, c),
        same_ignoring_case(a, b) ==> a.len() == b.len(),
        same_ignoring_case(a, b) ==> forall|i: int|
            0 <= i < a.len() ==> #[trigger] a[i] == b[i] || (('a' <= a[i] <= 'z' || 'A' <= a[i]
                <= 'Z') && ('a' <= b[i] <= 'z' || 'A' <= b[i] <= 'Z')),
        same_ignoring_case(ascii_lower(a), a),
        same_ignoring_case(ascii_upper(a), a),
{
    if same_ignoring_case(a, b) {
        assert(ascii_lower(a).len() == ascii_lower(b).len());
        assert forall|i: int| 0 <= i < a.len() implies #[trigger] a[i] == b[i] || (('a' <= a[i]
            <= 'z' || 'A' <= a[i] <= 'Z') && ('a' <= b[i] <= 'z' || 'A' <= b[i] <= 'Z')) by {
            assert(ascii_lower(a)[i] == ascii_lower(b)[i]);
        }
    }
    assert(ascii_lower(ascii_lower(a)) =~= ascii_lower(a));
    assert(ascii_lower(ascii_upper(a)) =~= ascii_lower(a));
}

proof fn digits_of_decimal(n: nat)
    ensures
        digits_value(decimal(n)) == Some(n),
        decimal(n).len() > 0,
        is_digit(decimal(n)[0]),
    decreases n,
{
    if n >= 10 {
        digits_of_decimal(n / 10);
        assert(decimal(n).drop_last() =~= decimal(n / 10));
        assert(decimal(n)[0] == decimal(n / 10)[0]);
        assert((n / 10) * 10 + n % 10 == n);
    }
}

/// A number that was written is read back, so that two numbers are never written alike.
pub proof fn written_number_is_read_back(n: int, m: nat)
    ensures
        signed_value(signed_decimal(n)) == Some(n),
        unsigned_value(decimal(m)) == Some(m),
{
    digits_of_decimal(m);
    reveal_strlit("-");
    if n < 0 {
        digits_of_decimal((-n) as nat);
        assert(signed_decimal(n)[0] == '-');
        assert(signed_decimal(n).drop_first() =~= decimal((-n) as nat));
    } else {
        digits_of_decimal(n as nat);
    }
}

/// Trimming takes white space away at the ends and nothing else.
pub proof fn trim_takes_only_white(s: Seq<char>) -> (ends: (int, int))
    ensures
        0 <= ends.0 <= ends.1 <= s.len(),
        trim(s) == s.subrange(ends.0, ends.1),
        forall|i: int| 0 <= i < ends.0 ==> is_white(#[trigger] s[i]),
        forall|i: int| ends.1 <= i < s.len() ==> is_white(#[trigger] s[i]),
{
    let start = trim_start(s);
    let from = s.len() - start.len();
    let to = from + trim(s).len();
    trim_start_is_suffix(s);
    trim_end_is_prefix(start);
    white_before_start(s);
    white_behind_end(start);
    assert(trim(s) =~= s.subrange(from, to));
    assert forall|i: int| to <= i < s.len() implies is_white(#[trigger] s[i]) by {
        assert(start[i - from] == s[i]);
    }
    (from, to)
}

proof fn white_before_start(s: Seq<char>)
    ensures
        trim_start(s).len() <= s.len(),
        forall|i: int| 0 <= i < s.len() - trim_start(s).len() ==> is_white(#[trigger] s[i]),
    decreases s.len(),
{
    if s.len() > 0 && is_white(s[0]) {
        let rest = s.drop_first();
        white_before_start(rest);
        assert forall|i: int| 0 <= i < s.len() - trim_start(s).len() implies is_white(
            #[trigger] s[i],
        ) by {
            if i > 0 {
                assert(rest[i - 1] == s[i]);
            }
        }
    }
}

proof fn white_behind_end(s: Seq<char>)
    ensures
        trim_end(s).len() <= s.len(),
        forall|i: int| trim_end(s).len() <= i < s.len() ==> is_white(#[trigger] s[i]),
    decreases s.len(),
{
    if s.len() > 0 && is_white(s.last()) {
        let rest = s.drop_last();
        white_behind_end(rest);
        assert forall|i: int| trim_end(s).len() <= i < s.len() implies is_white(
            #[trigger] s[i],
        ) by {
            if i < rest.len() {
                assert(rest[i] == s[i]);
            }
        }
    }
}

/// A text without white space at its ends stays as it is when it is trimmed.
pub proof fn tidy_text_is_kept(s: Seq<char>)
    requires
        s.len() == 0 || (!is_white(s[0]) && !is_white(s.last())),
    ensures
        trim(s) == s,
{
}

/// The pieces of a text, put together again with the separator, make up the text, and none
/// of them holds the separator.
pub proof fn pieces_make_up_the_text(s: Seq<char>, sep: char)
    ensures
        split_on(s, sep).len() > 0,
        join_with(split_on(s, sep), seq![sep]) == s,
        forall|k: int, i: int|
            0 <= k < split_on(s, sep).len() && 0 <= i < split_on(s, sep)[k].len() ==> (
            #[trigger] split_on(s, sep)[k][i]) != sep,
    decreases s.len(),
{
    let parts = split_on(s, sep);
    if s.len() == 0 {
        assert(s =~= Seq::<char>::empty());
    } else {
        let rest = s.drop_last();
        let before = split_on(rest, sep);
        pieces_make_up_the_text(rest, sep);
        assert(rest.push(s.last()) =~= s);
        if s.last() == sep {
            assert(parts.drop_last() =~= before);
            assert(join_with(parts, seq![sep]) =~= s);
            assert forall|k: int, i: int|
                0 <= k < parts.len() && 0 <= i < parts[k].len() implies (
            #[trigger] parts[k][i]) != sep by {
                if k < before.len() {
                    assert(parts[k] == before[k]);
                    assert(before[k][i] != sep);
                }
            }
        } else {
            assert(parts.drop_last() =~= before.drop_last());
            assert(parts.last() == before.last().push(s.last()));
            if parts.len() == 1 {
                assert(join_with(before, seq![sep]) == before[0]);
                assert(parts[0] =~= s);
            } else {
                assert(join_with(parts, seq![sep]) =~= join_with(before, seq![sep]).push(
                    s.last(),
                ));
            }
            assert forall|k: int, i: int|
                0 <= k < parts.len() && 0 <= i < parts[k].len() implies (
            #[trigger] parts[k][i]) != sep by {
                if k < before.len() - 1 {
                    assert(parts[k] == before[k]);
                    assert(before[k][i] != sep);
                } else if i < before.last().len() {
                    assert(before[k][i] != sep);
                    assert(parts[k][i] == before[k][i]);
                }
            }
        }
    }
}

/// A list of one item is that item, trimmed, and an item in front of a comma comes in front
/// of the items behind it.
pub proof fn list_holds_what_stands_between_commas(a: Seq<char>, b: Seq<char>)
    requires
        !a.contains(','),
    ensures
        list_items(a) == (if trim(a).len() == 0 {
            Seq::<Seq<char>>::empty()
        } else {
            seq![trim(a)]
        }),
        list_items(a.push(',') + b) == list_items(a) + list_items(b),
{
    split_without_separator(a, ',');
    split_behind_separator(a, ',', b);
    reveal_with_fuel(trimmed_non_empty, 2);
    let one = seq![a];
    assert(one.drop_last() =~= Seq::<Seq<char>>::empty());
    assert(list_items(a) =~= (if trim(a).len() == 0 {
        Seq::<Seq<char>>::empty()
    } else {
        seq![trim(a)]
    }));
    trimmed_non_empty_of_both(one, split_on(b, ','));
}

proof fn trimmed_non_empty_of_both(a: Seq<Seq<char>>, b: Seq<Seq<char>>)
    ensures
        trimmed_non_empty(a + b) == trimmed_non_empty(a) + trimmed_non_empty(b),
    decreases b.len(),
{
    if b.len() == 0 {
        assert(a + b =~= a);
        assert(trimmed_non_empty(a) + trimmed_non_empty(b) =~= trimmed_non_empty(a));
    } else {
        trimmed_non_empty_of_both(a, b.drop_last());
        assert((a + b).drop_last() =~= a + b.drop_last());
        assert(trimmed_non_empty(a + b) =~= trimmed_non_empty(a) + trimmed_non_empty(b));
    }
}

/// What stands before the first occurrence of a character, the character and what stands
/// behind it make up the text.
pub proof fn first_occurrence_divides_the_text(s: Seq<char>, c: char)
    ensures
        !before_char(s, c).contains(c),
        match after_char(s, c) {
            Some(rest) => s == before_char(s, c).push(c) + rest,
            None => s == before_char(s, c),
        },
    decreases s.len(),
{
    let before = before_char(s, c);
    if s.len() == 0 {
        assert(s =~= before);
    } else if s[0] == c {
        assert(s =~= before.push(c) + s.drop_first());
    } else {
        let rest = s.drop_first();
        first_occurrence_divides_the_text(rest, c);
        assert(seq![s[0]] + rest =~= s);
        if before.contains(c) {
            let i = choose|i: int| 0 <= i < before.len() && before[i] == c;
            assert(before_char(rest, c)[i - 1] == c);
        }
        match after_char(s, c) {
            Some(behind) => {
                assert(s =~= before.push(c) + behind);
            },
            None => {
                assert(s =~= before);
            },
        }
    }
}

/// Texts that were joined are all there, in order, with the separator between any two.
pub proof fn joined_texts_follow_each_other(parts: Seq<Seq<char>>, sep: Seq<char>, more: Seq<char>)
    ensures
        join_with(Seq::empty(), sep).len() == 0,
        join_with(seq![more], sep) == more,
        parts.len() > 0 ==> join_with(parts.push(more), sep) == join_with(parts, sep) + sep + more,
{
    assert(parts.push(more).drop_last() =~= parts);
}

/// The text from a part on begins with the part, is the end of the text, and is there
/// exactly where the part occurs.
pub proof fn text_from_a_part_begins_with_it(text: Seq<char>, part: Seq<char>)
    ensures
        match from_part(text, part) {
            Some(rest) => starts_with(rest, part) && rest.len() <= text.len() && rest == text.skip(
                text.len() - rest.len(),
            ) && first_occurrence(text, part, Some(text.len() - rest.len())),
            None => !contains_text(text, part),
        },
    decreases text.len(),
{
    if contains_text(text, part) {
        let i = choose|i: int| occurs_at(text, part, i);
        let first = first_place(text, part, i);
        from_part_is_first(text, part, Some(first));
        assert(text.skip(first).subrange(0, part.len() as int) =~= text.subrange(
            first,
            first + part.len(),
        ));
        assert(text.skip(text.len() - text.skip(first).len()) =~= text.skip(first));
    } else {
        from_part_is_first(text, part, None);
    }
}

/// The first place at which a part occurs, given one.
proof fn first_place(text: Seq<char>, part: Seq<char>, at: int) -> (first: int)
    requires
        occurs_at(text, part, at),
    ensures
        0 <= first <= at,
        occurs_at(text, part, first),
        forall|k: int| 0 <= k < first ==> !occurs_at(text, part, k),
    decreases at,
{
    if exists|k: int| 0 <= k < at && occurs_at(text, part, k) {
        let k = choose|k: int| 0 <= k < at && occurs_at(text, part, k);
        first_place(text, part, k)
    } else {
        at
    }
}

/// A text that fits is shown whole; one that does not is shown from its start and ends in
/// three dots where they fit.
pub proof fn shortened_text_shows_the_start(s: Seq<char>, width: usize)
    ensures
        shortened(s, None) == s,
        s.len() <= width ==> shortened(s, Some(width)) == s,
        s.len() > width && width >= 3 ==> shortened(s, Some(width)).len() == width && shortened(
            s,
            Some(width),
        ).take(width - 3) == s.take(width - 3) && shortened(s, Some(width)).skip(width - 3) == seq![
            '.',
            '.',
            '.',
        ],
        head(s, width as int).len() <= width,
        s.len() <= width ==> head(s, width as int) == s,
        s.len() > width ==> head(s, width as int).len() == width,
        forall|i: int|
            0 <= i < head(s, width as int).len() ==> #[trigger] head(s, width as int)[i] == s[i],
{
    let shown = shortened(s, Some(width));
    if s.len() > width && width >= 3 {
        assert(shown.take(width - 3) =~= s.take(width - 3));
        assert(shown.skip(width - 3) =~= seq!['.', '.', '.']);
    }
}

/// A text with a character that is no white space is not blank.
pub proof fn ink_is_not_blank(s: Seq<char>, i: int)
    requires
        0 <= i < s.len(),
        !is_white(s[i]),
    ensures
        trim(s).len() > 0,
{
    let ends = trim_takes_only_white(s);
    if ends.0 == ends.1 {
        if i < ends.0 {
            assert(is_white(s[i]));
        } else {
            assert(is_white(s[i]));
        }
    }
}

/// A text is cut at the first occurrence of a character that it is put together with.
pub proof fn text_is_cut_at_the_character(a: Seq<char>, c: char, b: Seq<char>)
    requires
        !a.contains(c),
    ensures
        before_char(a.push(c) + b, c) == a,
        after_char(a.push(c) + b, c) == Some(b),
        before_char(a, c) == a,
        after_char(a, c) is None,
    decreases a.len(),
{
    let whole = a.push(c) + b;
    if a.len() == 0 {
        assert(whole[0] == c);
        assert(whole.drop_first() =~= b);
        assert(before_char(whole, c) =~= a);
        assert(before_char(a, c) =~= a);
    } else {
        let rest = a.drop_first();
        assert(!rest.contains(c)) by {
            if rest.contains(c) {
                let i = choose|i: int| 0 <= i < rest.len() && rest[i] == c;
                assert(a[i + 1] == c);
            }
        }
        assert(a[0] != c);
        text_is_cut_at_the_character(rest, c, b);
        assert(whole.drop_first() =~= rest.push(c) + b);
        assert(seq![a[0]] + rest =~= a);
    }
}

/// A written number is not empty and is made of digits at both ends.
pub proof fn decimal_begins_with_a_digit(n: nat)
    ensures
        decimal(n).len() > 0,
        is_digit(decimal(n)[0]),
        is_digit(decimal(n).last()),
{
    digits_of_decimal(n);
}

/// A UUID has hyphens in four places and hexadecimal digits in all others, of which any may
/// stand there.
pub proof fn uuid_is_told_by_its_form(s: Seq<char>, i: int, c: char)
    requires
        uuid_shaped(s),
        0 <= i < 36,
    ensures
        s.len() == 36,
        s[8] == '-' && s[13] == '-' && s[18] == '-' && s[23] == '-',
        s[i] != '-' && ('0' <= c <= '9' || 'a' <= c <= 'f' || 'A' <= c <= 'F') ==> uuid_shaped(
            s.update(i, c),
        ),
        s[i] == '-' && c != '-' ==> !uuid_shaped(s.update(i, c)),
        !('0' <= c <= '9' || 'a' <= c <= 'f' || 'A' <= c <= 'F' || c == '-') ==> !uuid_shaped(
            s.update(i, c),
        ),
        !uuid_shaped(s.push(c)),
{
    let changed = s.update(i, c);
    assert(changed[i] == c);
    assert(s[i] == s[i]);
    if s[i] != '-' && ('0' <= c <= '9' || 'a' <= c <= 'f' || 'A' <= c <= 'F') {
        assert forall|k: int| 0 <= k < 36 implies if k == 8 || k == 13 || k == 18 || k == 23 {
            #[trigger] changed[k] == '-'
        } else {
            is_hex_digit(changed[k])
        } by {
            assert(s[k] == s[k]);
        }
    }
}

/// The only control characters of a text are tabs and line feeds.
pub open spec fn is_clean(s: Seq<char>) -> bool {
    forall|i: int|
        0 <= i < s.len() ==> {
            let c = #[trigger] s[i];
            !is_control(c) || c as u32 == 9 || c as u32 == 10
        }
}

proof fn clean_text_follows(s: Seq<char>, b: Seq<char>)
    requires
        scan_text(s).0 == Scan::Plain,
        is_clean(b),
    ensures
        scan_text(s + b) == (Scan::Plain, scan_text(s).1 + b),
    decreases b.len(),
{
    if b.len() == 0 {
        assert(s + b =~= s);
        assert(scan_text(s).1 + b =~= scan_text(s).1);
    } else {
        let front = b.drop_last();
        assert(is_clean(front)) by {
            assert(forall|i: int| 0 <= i < front.len() ==> #[trigger] front[i] == b[i]);
        }
        clean_text_follows(s, front);
        assert((s + b).drop_last() =~= s + front);
        assert(b.last() == b[b.len() - 1]);
        assert((scan_text(s).1 + front).push(b.last()) =~= scan_text(s).1 + b);
    }
}

proof fn control_sequence_goes_on(s: Seq<char>, inner: Seq<char>)
    requires
        scan_text(s).0 == Scan::Control,
        forall|i: int| 0 <= i < inner.len() ==> !('@' <= #[trigger] inner[i] <= '~'),
    ensures
        scan_text(s + inner) == (Scan::Control, scan_text(s).1),
    decreases inner.len(),
{
    if inner.len() == 0 {
        assert(s + inner =~= s);
    } else {
        let front = inner.drop_last();
        assert(forall|i: int| 0 <= i < front.len() ==> #[trigger] front[i] == inner[i]);
        control_sequence_goes_on(s, front);
        assert((s + inner).drop_last() =~= s + front);
        assert(inner.last() == inner[inner.len() - 1]);
    }
}

proof fn command_goes_on(s: Seq<char>, inner: Seq<char>)
    requires
        scan_text(s).0 == Scan::Command,
        forall|i: int|
            0 <= i < inner.len() ==> (#[trigger] inner[i]) as u32 != 7 && inner[i] as u32 != 0x1b,
    ensures
        scan_text(s + inner) == (Scan::Command, scan_text(s).1),
    decreases inner.len(),
{
    if inner.len() == 0 {
        assert(s + inner =~= s);
    } else {
        let front = inner.drop_last();
        assert(forall|i: int| 0 <= i < front.len() ==> #[trigger] front[i] == inner[i]);
        command_goes_on(s, front);
        assert((s + inner).drop_last() =~= s + front);
        assert(inner.last() == inner[inner.len() - 1]);
    }
}

/// A control sequence is taken out of a text, up to the character that ends it and no
/// further.
pub proof fn control_sequences_are_dropped(
    a: Seq<char>,
    inner: Seq<char>,
    end: char,
    b: Seq<char>,
)
    requires
        is_clean(a),
        is_clean(b),
        forall|i: int| 0 <= i < inner.len() ==> !('@' <= #[trigger] inner[i] <= '~'),
        '@' <= end <= '~',
    ensures
        scan_text((a.push('\x1b').push('[') + inner).push(end) + b).1 == a + b,
{
    clean_text_is_kept(a);
    let escape = a.push('\x1b');
    let start = escape.push('[');
    assert(escape.drop_last() =~= a);
    assert(start.drop_last() =~= escape);
    assert(scan_text(escape) == (Scan::Escape, a));
    assert(scan_text(start) == (Scan::Control, a));
    control_sequence_goes_on(start, inner);
    let whole = (start + inner).push(end);
    assert(whole.drop_last() =~= start + inner);
    assert(scan_text(whole) == (Scan::Plain, a));
    clean_text_follows(whole, b);
}

/// A command to the terminal is taken out of a text, up to the bell that ends it and no
/// further.
pub proof fn terminal_commands_are_dropped(a: Seq<char>, inner: Seq<char>, b: Seq<char>)
    requires
        is_clean(a),
        is_clean(b),
        forall|i: int|
            0 <= i < inner.len() ==> (#[trigger] inner[i]) as u32 != 7 && inner[i] as u32 != 0x1b,
    ensures
        scan_text((a.push('\x1b').push(']') + inner).push('\x07') + b).1 == a + b,
{
    clean_text_is_kept(a);
    let escape = a.push('\x1b');
    let start = escape.push(']');
    assert(escape.drop_last() =~= a);
    assert(start.drop_last() =~= escape);
    assert(scan_text(escape) == (Scan::Escape, a));
    assert(scan_text(start) == (Scan::Command, a));
    command_goes_on(start, inner);
    let whole = (start + inner).push('\x07');
    assert(whole.drop_last() =~= start + inner);
    assert(scan_text(whole) == (Scan::Plain, a));
    clean_text_follows(whole, b);
}

/// A command to the terminal also ends with an escape character and a backslash.
pub proof fn terminators_end_terminal_commands(a: Seq<char>, inner: Seq<char>, b: Seq<char>)
    requires
        is_clean(a),
        is_clean(b),
        forall|i: int|
            0 <= i < inner.len() ==> (#[trigger] inner[i]) as u32 != 7 && inner[i] as u32 != 0x1b,
    ensures
        scan_text((a.push('\x1b').push(']') + inner).push('\x1b').push('\\') + b).1 == a + b,
{
    clean_text_is_kept(a);
    let escape = a.push('\x1b');
    let start = escape.push(']');
    assert(escape.drop_last() =~= a);
    assert(start.drop_last() =~= escape);
    assert(scan_text(escape) == (Scan::Escape, a));
    assert(scan_text(start) == (Scan::Command, a));
    command_goes_on(start, inner);
    let ending = (start + inner).push('\x1b');
    let whole = ending.push('\\');
    assert(ending.drop_last() =~= start + inner);
    assert(whole.drop_last() =~= ending);
    assert(scan_text(ending) == (Scan::CommandEscape, a));
    assert(scan_text(whole) == (Scan::Plain, a));
    clean_text_follows(whole, b);
}

/// An escape character takes the character behind it out of a text, where that starts no
/// sequence, and an escape character behind an escape character starts anew.
pub proof fn escapes_are_dropped(a: Seq<char>, c: char, b: Seq<char>)
    requires
        is_clean(a),
        is_clean(b),
        c != '[' && c != ']' && c != '\x1b',
    ensures
        scan_text(a.push('\x1b').push(c) + b).1 == a + b,
        scan_text(a.push('\x1b').push('\x1b').push(c) + b).1 == a + b,
{
    clean_text_is_kept(a);
    let escape = a.push('\x1b');
    let again = escape.push('\x1b');
    assert(escape.drop_last() =~= a);
    assert(again.drop_last() =~= escape);
    assert(scan_text(escape) == (Scan::Escape, a));
    assert(scan_text(again) == (Scan::Escape, a));
    assert(escape.push(c).drop_last() =~= escape);
    assert(again.push(c).drop_last() =~= again);
    assert(scan_text(escape.push(c)) == (Scan::Plain, a));
    assert(scan_text(again.push(c)) == (Scan::Plain, a));
    clean_text_follows(escape.push(c), b);
    clean_text_follows(again.push(c), b);
}

/// On one line a text has spaces for its line feeds and nothing else changed.
pub proof fn line_feeds_become_spaces(s: Seq<char>, i: int)
    requires
        0 <= i < s.len(),
    ensures
        on_one_line(s).len() == s.len(),
        s[i] == '\n' ==> on_one_line(s)[i] == ' ',
        s[i] != '\n' ==> on_one_line(s)[i] == s[i],
{
}

} // verus!
