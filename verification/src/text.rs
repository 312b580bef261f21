//! Character-level helpers shared by the lexer: character classes (white
//! space, and the Unicode alphabetic and alphanumeric classes that std
//! computes from tables) and conversions between `&str`, character vectors
//! and `String`.
use vstd::prelude::*;

verus! {

/// Whether `c` has the Unicode `White_Space` property, which is what
/// `char::is_whitespace` decides: the ASCII controls from tab to carriage
/// return, space, next line, no-break space, ogham space mark, the spaces
/// from en quad to hair space, the line and paragraph separators, narrow
/// no-break space, medium mathematical space and ideographic space.
pub open spec fn is_white_space(c: char) -> bool {
    ||| '\u{9}' <= c && c <= '\u{d}'
    ||| c == ' '
    ||| c == '\u{85}'
    ||| c == '\u{a0}'
    ||| c == '\u{1680}'
    ||| '\u{2000}' <= c && c <= '\u{200a}'
    ||| c == '\u{2028}'
    ||| c == '\u{2029}'
    ||| c == '\u{202f}'
    ||| c == '\u{205f}'
    ||| c == '\u{3000}'
}

/// Whether `c` is white space (see `is_white_space`).
pub fn char_is_white_space(c: char) -> (r: bool)
    ensures
        r == is_white_space(c),
{
    ('\u{9}' <= c && c <= '\u{d}') || c == ' ' || c == '\u{85}' || c == '\u{a0}' || c == '\u{1680}'
        || ('\u{2000}' <= c && c <= '\u{200a}') || c == '\u{2028}' || c == '\u{2029}' || c
        == '\u{202f}' || c == '\u{205f}' || c == '\u{3000}'
}

/// ASCII letters.
pub open spec fn is_ascii_letter(c: char) -> bool {
    ('a' <= c && c <= 'z') || ('A' <= c && c <= 'Z')
}

/// Whether `c` has the Unicode `Alphabetic` property, as `char::is_alphabetic`
/// decides it from Unicode tables.
pub uninterp spec fn alphabetic_class(c: char) -> bool;

/// Whether `c` is alphabetic or numeric, as `char::is_alphanumeric` decides it
/// from Unicode tables.
pub uninterp spec fn alphanumeric_class(c: char) -> bool;

/// Alphabetic characters: among ASCII characters, the letters.
pub open spec fn is_alphabetic(c: char) -> bool {
    if c <= '\x7f' {
        is_ascii_letter(c)
    } else {
        alphabetic_class(c)
    }
}

/// Alphanumeric characters: among ASCII characters, the letters and digits.
pub open spec fn is_alphanumeric(c: char) -> bool {
    if c <= '\x7f' {
        is_ascii_letter(c) || ('0' <= c && c <= '9')
    } else {
        alphanumeric_class(c)
    }
}

/// Calls `char::is_alphabetic`. The contract claims that the answer is a
/// function of `c` alone (the Unicode `Alphabetic` table), named
/// `alphabetic_class`, and that among ASCII characters exactly the letters
/// are alphabetic. It does not state the table for other characters.
#[verifier::external_body]
pub(crate) fn char_is_alphabetic(c: char) -> (r: bool)
    ensures
        r == alphabetic_class(c),
        c <= '\x7f' ==> r == is_ascii_letter(c),
{
    c.is_alphabetic()
}

/// Calls `char::is_alphanumeric`. The contract claims that the answer is a
/// function of `c` alone, named `alphanumeric_class`; that, as its
/// documentation says (alphabetic or numeric), it holds of every alphabetic
/// character; and that among ASCII characters exactly the letters and digits
/// are alphanumeric. It does not state the tables for other characters.
#[verifier::external_body]
pub(crate) fn char_is_alphanumeric(c: char) -> (r: bool)
    ensures
        r == alphanumeric_class(c),
        alphabetic_class(c) ==> r,
        c <= '\x7f' ==> r == (is_ascii_letter(c) || ('0' <= c && c <= '9')),
{
    c.is_alphanumeric()
}

/// Builds a `String` from a slice of characters with `FromIterator<&char> for String`.
/// The contract claims that the string holds exactly those characters, in order.
#[verifier::external_body]
pub(crate) fn string_from_chars(cs: &[char]) -> (s: String)
    ensures
        s@ == cs@,
{
    cs.iter().collect()
}

/// The characters of `s`, in order.
pub fn chars_of(s: &str) -> (v: Vec<char>)
    ensures
        v@ == s@,
{
    broadcast use vstd::string::axiom_spec_iter;

    let mut v: Vec<char> = Vec::new();
    for c in it: s.chars()
        invariant
            v@ == it.seq().take(it.index() as int),
    {
        v.push(c);
    }
    assert(v@ =~= s@);
    v
}

/// Whether the text of `w` is exactly `kw`.
pub fn text_is(w: &String, kw: &str) -> (r: bool)
    ensures
        r == (w@ == kw@),
{
    let k = kw.to_owned();
    w.eq(&k)
}

} // verus!
