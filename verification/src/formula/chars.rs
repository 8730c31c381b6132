//! Character classification used by the lexer. The Unicode predicates are
//! std's: the whitespace set and the ASCII part of the letter and
//! alphanumeric classes are stated here; beyond ASCII those two classes
//! (thousands of code points) are named rather than restated.
use vstd::prelude::*;

verus! {

/// A character with the Unicode `White_Space` property, which
/// `char::is_whitespace` tests: the ASCII tab, line feed, vertical tab,
/// form feed, carriage return and space, next line, no-break space, ogham
/// space mark, the spaces U+2000 to U+200A, the line and paragraph
/// separators, narrow no-break space, medium mathematical space and
/// ideographic space.
pub open spec fn is_whitespace_char(c: char) -> bool {
    ||| '\u{9}' <= c <= '\u{d}'
    ||| c == ' '
    ||| c == '\u{85}'
    ||| c == '\u{a0}'
    ||| c == '\u{1680}'
    ||| '\u{2000}' <= c <= '\u{200a}'
    ||| c == '\u{2028}'
    ||| c == '\u{2029}'
    ||| c == '\u{202f}'
    ||| c == '\u{205f}'
    ||| c == '\u{3000}'
}

/// Result of `char::is_alphabetic` (Unicode `Alphabetic`) on a character
/// beyond ASCII.
pub uninterp spec fn is_alphabetic_beyond_ascii(c: char) -> bool;

/// Result of `char::is_alphanumeric` (Unicode `Alphabetic` or `Numeric`)
/// on a character beyond ASCII.
pub uninterp spec fn is_alphanumeric_beyond_ascii(c: char) -> bool;

/// An ASCII letter.
pub open spec fn is_ascii_letter(c: char) -> bool {
    ('a' <= c && c <= 'z') || ('A' <= c && c <= 'Z')
}

/// A character with the Unicode `Alphabetic` property, which
/// `char::is_alphabetic` tests: within ASCII exactly the letters.
pub open spec fn is_alphabetic_char(c: char) -> bool {
    if c <= '\u{7f}' {
        is_ascii_letter(c)
    } else {
        is_alphabetic_beyond_ascii(c)
    }
}

/// A character with the Unicode `Alphabetic` or `Numeric` property, which
/// `char::is_alphanumeric` tests: within ASCII exactly the letters and
/// decimal digits.
pub open spec fn is_alphanumeric_char(c: char) -> bool {
    if c <= '\u{7f}' {
        is_ascii_letter(c) || is_digit_char(c)
    } else {
        is_alphanumeric_beyond_ascii(c)
    }
}

/// An ASCII decimal digit.
pub open spec fn is_digit_char(c: char) -> bool {
    '0' <= c && c <= '9'
}

/// Calls `char::is_whitespace`, which std documents as the Unicode
/// `White_Space` property, listed by `is_whitespace_char`.
#[verifier::external_body]
pub(crate) fn char_is_whitespace(c: char) -> (r: bool)
    ensures
        r == is_whitespace_char(c),
{
    c.is_whitespace()
}

/// Calls `char::is_alphabetic`: true on the ASCII letters, false on the
/// rest of ASCII; beyond ASCII the result is named, not restated.
#[verifier::external_body]
pub(crate) fn char_is_alphabetic(c: char) -> (r: bool)
    ensures
        r == is_alphabetic_char(c),
        c > '\u{7f}' ==> r == is_alphabetic_beyond_ascii(c),
{
    c.is_alphabetic()
}

/// Calls `char::is_alphanumeric`: true on the ASCII letters and digits,
/// false on the rest of ASCII; beyond ASCII the result is named, not
/// restated.
#[verifier::external_body]
pub(crate) fn char_is_alphanumeric(c: char) -> (r: bool)
    ensures
        r == is_alphanumeric_char(c),
        c > '\u{7f}' ==> r == is_alphanumeric_beyond_ascii(c),
{
    c.is_alphanumeric()
}

/// Decides whether `c` is an ASCII decimal digit.
pub fn char_is_digit(c: char) -> (r: bool)
    ensures
        r == is_digit_char(c),
{
    '0' <= c && c <= '9'
}

} // verus!
