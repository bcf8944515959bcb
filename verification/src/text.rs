//! Character classes and the string primitives that the rest of the crate builds on.

use vstd::prelude::*;

verus! {

broadcast use vstd::string::group_string_axioms;

/// What `char::is_alphanumeric` answers for a character. The library asks it only
/// about characters beyond ASCII.
pub uninterp spec fn unicode_alphanumeric(c: char) -> bool;

/// `char::is_alphanumeric` of the standard library (Unicode `Alphabetic` or a numeric
/// general category). Nothing is proved of it: its answer is only given a name.
pub assume_specification[ char::is_alphanumeric ](c: char) -> (r: bool)
    ensures
        r == unicode_alphanumeric(c),
;

/// `char::to_ascii_lowercase` of the standard library: `'A'..='Z'` go to `'a'..='z'`,
/// every other character is returned as it is.
pub assume_specification[ char::to_ascii_lowercase ](c: &char) -> (r: char)
    ensures
        r == ascii_lower(*c),
;

/// What `char::to_lowercase` yields for a character: its lower-case mapping, which may
/// be more than one character. The library asks for it only beyond ASCII.
pub uninterp spec fn unicode_lowercase(c: char) -> Seq<char>;

/// Calls `char::to_lowercase` of the standard library and collects what it yields.
/// Nothing is proved of the mapping: it is only given a name.
#[verifier::external_body]
fn lowercase_of(c: char) -> (low: String)
    ensures
        low@ == unicode_lowercase(c),
{
    c.to_lowercase().collect()
}

/// `String::push` of the standard library: the character is appended at the end.
pub assume_specification[ String::push ](s: &mut String, c: char)
    ensures
        final(s)@ == old(s)@.push(c),
;

pub open spec fn is_ascii_char(c: char) -> bool {
    (c as u32) < 128
}

pub open spec fn is_digit(c: char) -> bool {
    '0' <= c <= '9'
}

pub open spec fn is_ascii_letter(c: char) -> bool {
    ('a' <= c <= 'z') || ('A' <= c <= 'Z')
}

/// A letter or a digit. Within ASCII these are `0-9`, `a-z` and `A-Z`; beyond it the
/// standard library's Unicode tables decide.
pub open spec fn alphanumeric(c: char) -> bool {
    if is_ascii_char(c) {
        is_digit(c) || is_ascii_letter(c)
    } else {
        unicode_alphanumeric(c)
    }
}

/// The lower-case form of an ASCII capital; any other character unchanged.
pub open spec fn ascii_lower(c: char) -> char {
    if 'A' <= c <= 'Z' {
        ((c as int) + 32) as char
    } else {
        c
    }
}

/// The lower-case form of a character. Within ASCII it is one character, the capital
/// lowered; beyond it the standard library's Unicode mapping decides, and may give
/// several characters.
pub open spec fn lowered(c: char) -> Seq<char> {
    if is_ascii_char(c) {
        seq![ascii_lower(c)]
    } else {
        unicode_lowercase(c)
    }
}

/// A piece of a name: not empty, and without an underscore.
pub open spec fn is_word(t: Seq<char>) -> bool {
    t.len() > 0 && !t.contains('_')
}

/// The text of a string that may be absent.
pub open spec fn optional_text(s: Option<String>) -> Option<Seq<char>> {
    match s {
        Some(text) => Some(text@),
        None => None,
    }
}

/// Whether `c` is a letter or a digit.
pub fn is_letter_or_digit(c: char) -> (r: bool)
    ensures
        r == alphanumeric(c),
{
    if (c as u32) < 128 {
        ('0' <= c && c <= '9') || ('a' <= c && c <= 'z') || ('A' <= c && c <= 'Z')
    } else {
        c.is_alphanumeric()
    }
}

/// Appends the lower-case form of `c`.
pub fn push_lowered(out: &mut String, c: char)
    ensures
        final(out)@ == old(out)@ + lowered(c),
{
    if (c as u32) < 128 {
        out.push(c.to_ascii_lowercase());
        assert(old(out)@.push(ascii_lower(c)) == old(out)@ + seq![ascii_lower(c)]);
    } else {
        let low = lowercase_of(c);
        out.append(low.as_str());
    }
}

/// Whether `c` is one of the ten decimal digits.
pub fn is_decimal_digit(c: char) -> (r: bool)
    ensures
        r == is_digit(c),
{
    '0' <= c && c <= '9'
}

/// The characters of `s`, in order.
pub fn chars_of(s: &str) -> (v: Vec<char>)
    ensures
        v@ == s@,
{
    let mut v: Vec<char> = Vec::new();
    for c in it: s.chars()
        invariant
            it.seq() == s@,
            v@ == s@.take(it.index() as int),
    {
        v.push(c);
        assert(s@.take(it.index() + 1) == s@.take(it.index() as int).push(c));
    }
    assert(s@.take(s@.len() as int) == s@);
    v
}

/// Within ASCII, lowering gives one ASCII character that is no capital, and changes
/// nothing when done again. A letter or digit stays one, so what it gives is a word.
pub proof fn lemma_ascii_lower(c: char)
    requires
        is_ascii_char(c),
    ensures
        lowered(c) == seq![ascii_lower(c)],
        is_ascii_char(ascii_lower(c)),
        !('A' <= ascii_lower(c) <= 'Z'),
        lowered(ascii_lower(c)) == lowered(c),
        alphanumeric(c) ==> alphanumeric(ascii_lower(c)) && is_word(lowered(c)),
{
    if alphanumeric(c) {
        assert(lowered(c)[0] != '_');
    }
}

} // verus!
