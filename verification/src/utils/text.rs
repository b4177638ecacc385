use vstd::prelude::*;

verus! {

/// The decimal digits `0` to `9`.
pub open spec fn digit(c: char) -> bool {
    '0' <= c && c <= '9'
}

/// The letters `a` to `z` and `A` to `Z`.
pub open spec fn letter(c: char) -> bool {
    ('a' <= c && c <= 'z') || ('A' <= c && c <= 'Z')
}

/// The letters and digits of ASCII.
pub open spec fn alphanumeric(c: char) -> bool {
    letter(c) || digit(c)
}

/// The blank characters of ASCII: space, tab, line feed, vertical tab, form
/// feed and carriage return.
pub open spec fn blank(c: char) -> bool {
    c == ' ' || ('\t' <= c && c <= '\r')
}

/// The characters with the Unicode property `White_Space`: the blank
/// characters of ASCII, next line, the no-break spaces, the Ogham space mark,
/// the spaces of fixed width, the line and paragraph separators, the medium
/// mathematical space and the ideographic space.
pub open spec fn whitespace(c: char) -> bool {
    ||| blank(c)
    ||| c == '\u{85}'
    ||| c == '\u{a0}'
    ||| c == '\u{1680}'
    ||| ('\u{2000}' <= c && c <= '\u{200a}')
    ||| c == '\u{2028}'
    ||| c == '\u{2029}'
    ||| c == '\u{202f}'
    ||| c == '\u{205f}'
    ||| c == '\u{3000}'
}

/// `c` with a letter `A` to `Z` replaced by its lower-case form.
pub open spec fn lower(c: char) -> char {
    if 'A' <= c && c <= 'Z' {
        ((c as int) + 32) as char
    } else {
        c
    }
}

/// `text` with each letter `A` to `Z` replaced by its lower-case form.
pub open spec fn lowercase(text: Seq<char>) -> Seq<char> {
    Seq::new(text.len(), |i: int| lower(text[i]))
}

/// Whether every character of `text` is an ASCII character.
pub open spec fn ascii(text: Seq<char>) -> bool {
    forall|i: int| 0 <= i < text.len() ==> #[trigger] text[i] <= '\x7f'
}

/// The lower-case form of `text` by the rules of Unicode, as
/// `str::to_lowercase` gives it.
pub uninterp spec fn unicode_lowercase(text: Seq<char>) -> Seq<char>;

/// The lower-case form of `text`: for a text of ASCII characters, the text
/// with each letter `A` to `Z` replaced by its lower-case form; for any other
/// text, its lower-case form by the rules of Unicode.
pub open spec fn lowered(text: Seq<char>) -> Seq<char> {
    if ascii(text) {
        lowercase(text)
    } else {
        unicode_lowercase(text)
    }
}

/// `text` without the dots it begins with.
pub open spec fn without_leading_dots(text: Seq<char>) -> Seq<char>
    decreases text.len(),
{
    if text.len() > 0 && text[0] == '.' {
        without_leading_dots(text.drop_first())
    } else {
        text
    }
}

/// `text` without the whitespace that it begins with.
pub open spec fn without_leading_whitespace(text: Seq<char>) -> Seq<char>
    decreases text.len(),
{
    if text.len() > 0 && whitespace(text[0]) {
        without_leading_whitespace(text.drop_first())
    } else {
        text
    }
}

/// `text` without the whitespace that it ends with.
pub open spec fn without_trailing_whitespace(text: Seq<char>) -> Seq<char>
    decreases text.len(),
{
    if text.len() > 0 && whitespace(text.last()) {
        without_trailing_whitespace(text.drop_last())
    } else {
        text
    }
}

/// `text` without the whitespace that it begins and ends with.
pub open spec fn trimmed(text: Seq<char>) -> Seq<char> {
    without_trailing_whitespace(without_leading_whitespace(text))
}

/// Whether two texts differ at most in the case of the letters `a` to `z`.
pub open spec fn same_ignoring_case(a: Seq<char>, b: Seq<char>) -> bool {
    lowercase(a) == lowercase(b)
}

/// Whether `c` is a decimal digit.
#[verifier::when_used_as_spec(digit)]
pub fn is_digit(c: char) -> (r: bool)
    ensures
        r == digit(c),
{
    '0' <= c && c <= '9'
}

/// Whether `c` is a letter or a digit of ASCII.
#[verifier::when_used_as_spec(alphanumeric)]
pub fn is_alphanumeric(c: char) -> (r: bool)
    ensures
        r == alphanumeric(c),
{
    ('a' <= c && c <= 'z') || ('A' <= c && c <= 'Z') || ('0' <= c && c <= '9')
}

/// Whether `c` is a blank character of ASCII.
#[verifier::when_used_as_spec(blank)]
pub fn is_blank(c: char) -> (r: bool)
    ensures
        r == blank(c),
{
    c == ' ' || ('\t' <= c && c <= '\r')
}

/// Calls `char::is_whitespace` on `c`, which tells whether the character has
/// the Unicode property `White_Space`. The contract lists the characters
/// that have it.
#[verifier::external_body]
pub(crate) fn is_whitespace(c: char) -> (r: bool)
    ensures
        r == whitespace(c),
{
    c.is_whitespace()
}

/// Calls `str::to_lowercase`, which returns the lower-case form of the text
/// by the rules of Unicode. Of a text of ASCII characters the contract says
/// what that form is: the letters `A` to `Z` are replaced by `a` to `z` and
/// every other character is kept.
#[verifier::external_body]
fn unicode_to_lowercase(text: &str) -> (lowered: String)
    ensures
        lowered@ == unicode_lowercase(text@),
        ascii(text@) ==> lowered@ == lowercase(text@),
{
    text.to_lowercase()
}

/// Returns the lower-case form of `text`.
pub fn to_lowercase(text: &str) -> (result: String)
    ensures
        result@ == lowered(text@),
{
    unicode_to_lowercase(text)
}

/// Whether `text` holds a dot.
pub fn contains_dot(text: &str) -> (found: bool)
    ensures
        found == text@.contains('.'),
{
    let n = text.unicode_len();
    let mut i: usize = 0;
    while i < n
        invariant
            i <= n,
            n == text@.len(),
            forall|j: int| 0 <= j < i ==> text@[j] != '.',
        decreases n - i,
    {
        if text.get_char(i) == '.' {
            return true;
        }
        i += 1;
    }
    false
}

/// Whether the two texts hold the same characters.
pub fn same_text(a: &str, b: &str) -> (same: bool)
    ensures
        same == (a@ == b@),
{
    let n = a.unicode_len();
    if b.unicode_len() != n {
        return false;
    }
    let mut i: usize = 0;
    while i < n
        invariant
            i <= n,
            n == a@.len(),
            n == b@.len(),
            forall|j: int| 0 <= j < i ==> a@[j] == b@[j],
        decreases n - i,
    {
        if a.get_char(i) != b.get_char(i) {
            return false;
        }
        i += 1;
    }
    assert(a@ =~= b@);
    true
}

/// Copies `text` without the dots it begins with.
pub fn strip_leading_dots(text: &str) -> (stripped: String)
    ensures
        stripped@ == without_leading_dots(text@),
{
    let n = text.unicode_len();
    let mut i: usize = 0;
    assert(text@.skip(0) =~= text@);
    while i < n && text.get_char(i) == '.'
        invariant
            i <= n,
            n == text@.len(),
            without_leading_dots(text@) == without_leading_dots(text@.skip(i as int)),
        decreases n - i,
    {
        assert(text@.skip(i as int).drop_first() =~= text@.skip(i as int + 1));
        i += 1;
    }
    assert(text@.skip(i as int) =~= text@.subrange(i as int, n as int));
    text.substring_char(i, n).to_string()
}

/// The lower-case form of `c` if it is one of the letters `A` to `Z`, and
/// else `c`.
#[verifier::when_used_as_spec(lower)]
pub fn to_lower(c: char) -> (r: char)
    ensures
        r == lower(c),
{
    if 'A' <= c && c <= 'Z' {
        ((c as u8) + 32) as char
    } else {
        c
    }
}

/// Whether `a` and `b` differ at most in the case of the letters `a` to `z`.
pub fn equals_ignoring_case(a: &str, b: &str) -> (same: bool)
    ensures
        same == same_ignoring_case(a@, b@),
{
    let n = a.unicode_len();
    if b.unicode_len() != n {
        assert(lowercase(a@).len() != lowercase(b@).len());
        return false;
    }
    let mut i: usize = 0;
    while i < n
        invariant
            i <= n,
            n == a@.len(),
            n == b@.len(),
            forall|j: int| 0 <= j < i ==> lower(a@[j]) == lower(b@[j]),
        decreases n - i,
    {
        if to_lower(a.get_char(i)) != to_lower(b.get_char(i)) {
            assert(lowercase(a@)[i as int] != lowercase(b@)[i as int]);
            return false;
        }
        i += 1;
    }
    assert(lowercase(a@) =~= lowercase(b@));
    true
}

/// Returns `text` without the whitespace that it begins and ends with.
pub fn trim(text: &str) -> (result: &str)
    ensures
        result@ == trimmed(text@),
{
    let n = text.unicode_len();
    let mut start: usize = 0;
    assert(text@.skip(0) =~= text@);
    while start < n && is_whitespace(text.get_char(start))
        invariant
            start <= n,
            n == text@.len(),
            without_leading_whitespace(text@) == without_leading_whitespace(
                text@.skip(start as int),
            ),
        decreases n - start,
    {
        assert(text@.skip(start as int).drop_first() =~= text@.skip(start as int + 1));
        start += 1;
    }
    assert(text@.skip(start as int) =~= text@.subrange(start as int, n as int));
    let mut end: usize = n;
    while end > start && is_whitespace(text.get_char(end - 1))
        invariant
            start <= end <= n,
            n == text@.len(),
            trimmed(text@) == without_trailing_whitespace(
                text@.subrange(start as int, end as int),
            ),
        decreases end,
    {
        assert(text@.subrange(start as int, end as int).drop_last() =~= text@.subrange(
            start as int,
            end - 1,
        ));
        end -= 1;
    }
    text.substring_char(start, end)
}

} // verus!
