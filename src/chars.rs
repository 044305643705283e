//! Character classes and conversions that the lexer takes from std.
use vstd::prelude::*;

verus! {

/// Whether `c` has the Unicode `White_Space` property.
pub uninterp spec fn whitespace_char(c: char) -> bool;

/// Whether `c` has the Unicode `Alphabetic` property.
pub uninterp spec fn alphabetic_char(c: char) -> bool;

/// Whether `c` is in one of the Unicode numeric general categories.
pub uninterp spec fn numeric_char(c: char) -> bool;

/// Whitespace: among the ASCII characters exactly the space, tab, line feed,
/// vertical tab, form feed and carriage return; beyond ASCII, `White_Space`.
pub open spec fn is_space(c: char) -> bool {
    if c <= '\x7f' {
        c == ' ' || c == '\t' || c == '\n' || c == '\x0B' || c == '\x0C' || c == '\r'
    } else {
        whitespace_char(c)
    }
}

/// A letter: among the ASCII characters exactly `a`-`z` and `A`-`Z`; beyond
/// ASCII, `Alphabetic`.
pub open spec fn is_letter(c: char) -> bool {
    if c <= '\x7f' {
        ('a' <= c <= 'z') || ('A' <= c <= 'Z')
    } else {
        alphabetic_char(c)
    }
}

/// A digit: among the ASCII characters exactly `0`-`9`; beyond ASCII, the
/// numeric categories.
pub open spec fn is_digit(c: char) -> bool {
    if c <= '\x7f' {
        '0' <= c <= '9'
    } else {
        numeric_char(c)
    }
}

/// Relies on `char::is_whitespace`: Unicode `White_Space`, which among the
/// ASCII characters holds exactly the space, tab, line feed, vertical tab,
/// form feed and carriage return.
#[verifier::external_body]
pub fn is_whitespace(c: char) -> (r: bool)
    ensures
        r == is_space(c),
        c > '\x7f' ==> r == whitespace_char(c),
{
    c.is_whitespace()
}

/// Relies on `char::is_alphabetic`: Unicode `Alphabetic`, which among the
/// ASCII characters holds exactly the letters.
#[verifier::external_body]
pub fn is_alphabetic(c: char) -> (r: bool)
    ensures
        r == is_letter(c),
        c > '\x7f' ==> r == alphabetic_char(c),
{
    c.is_alphabetic()
}

/// Relies on `char::is_numeric`: the Unicode numeric categories, which among
/// the ASCII characters hold exactly the digits.
#[verifier::external_body]
pub fn is_numeric(c: char) -> (r: bool)
    ensures
        r == is_digit(c),
        c > '\x7f' ==> r == numeric_char(c),
{
    c.is_numeric()
}

/// Relies on `char::is_alphanumeric`, documented as true exactly when
/// `is_alphabetic` or `is_numeric` is.
#[verifier::external_body]
pub fn is_alphanumeric(c: char) -> (r: bool)
    ensures
        r == (is_letter(c) || is_digit(c)),
{
    c.is_alphanumeric()
}

/// Relies on `String`'s `FromIterator<char>`: the string holds the characters
/// in order.
#[verifier::external_body]
pub fn string_from_chars(v: &Vec<char>) -> (r: String)
    ensures
        r@ == v@,
{
    v.iter().collect()
}

/// Whether the characters of `s` are exactly `w`.
pub fn str_equals(s: &str, w: &[char]) -> (r: bool)
    ensures
        r == (s@ == w@),
{
    let n = s.unicode_len();
    if n != w.len() {
        return false;
    }
    let mut i: usize = 0;
    while i < n
        invariant
            n == s@.len(),
            s@.len() == w@.len(),
            i <= n,
            s@.subrange(0, i as int) == w@.subrange(0, i as int),
        decreases n - i,
    {
        if s.get_char(i) != w[i] {
            assert(s@[i as int] != w@[i as int]);
            return false;
        }
        assert(s@.subrange(0, i + 1) == s@.subrange(0, i as int).push(s@[i as int]));
        assert(w@.subrange(0, i + 1) == w@.subrange(0, i as int).push(w@[i as int]));
        i = i + 1;
    }
    assert(s@.subrange(0, i as int) == s@);
    assert(w@.subrange(0, i as int) == w@);
    true
}

} // verus!
