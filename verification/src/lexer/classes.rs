//! Character classes and numeric patterns that the lexer takes from Unicode
//! tables and from the regular-expression engine.
//!
//! Nothing in this file is proved: each contract repeats what the named
//! function documents.
use vstd::prelude::*;
use vstd::string::*;
use vstd::utf8::*;

verus! {

/// Whether a character has the Unicode `White_Space` property.
pub uninterp spec fn white_space(c: char) -> bool;

/// Whether a character has the Unicode `XID_Start` property.
pub uninterp spec fn xid_start(c: char) -> bool;

/// Whether a character has the Unicode `XID_Continue` property.
pub uninterp spec fn xid_continue(c: char) -> bool;

/// The byte range of the leftmost match of `pattern` in `text`, or `None`
/// where there is no match or `pattern` is not a regular expression.
pub uninterp spec fn first_match(pattern: Seq<char>, text: Seq<char>) -> Option<(usize, usize)>;

/// The ASCII characters with the `White_Space` property: the space, and
/// the controls from the tab to the carriage return.
pub open spec fn ascii_blank(c: char) -> bool {
    c == ' ' || 0x09 <= c as u32 <= 0x0d
}

/// An ASCII letter.
pub open spec fn ascii_letter(c: char) -> bool {
    'a' as u32 <= c as u32 <= 'z' as u32 || 'A' as u32 <= c as u32 <= 'Z' as u32
}

/// An ASCII digit.
pub open spec fn ascii_digit(c: char) -> bool {
    '0' as u32 <= c as u32 <= '9' as u32
}

/// `char::is_whitespace` tells whether its argument has the `White_Space`
/// property; among the ASCII characters those are the space and the
/// controls from the tab to the carriage return.
pub assume_specification[ char::is_whitespace ](c: char) -> (b: bool)
    ensures
        b == white_space(c),
        (c as u32) < 0x80 ==> b == ascii_blank(c),
;

/// `unicode_xid::UnicodeXID::is_xid_start` looks its argument up in the
/// table of `XID_Start`; an ASCII character it takes exactly where it is a
/// letter.
#[verifier::external_body]
pub(crate) fn is_xid_start(c: char) -> (b: bool)
    ensures
        b == xid_start(c),
        (c as u32) < 0x80 ==> b == ascii_letter(c),
{
    unicode_xid::UnicodeXID::is_xid_start(c)
}

/// `unicode_xid::UnicodeXID::is_xid_continue` looks its argument up in the
/// table of `XID_Continue`; an ASCII character it takes exactly where it is
/// a letter, a digit or the underscore.
#[verifier::external_body]
pub(crate) fn is_xid_continue(c: char) -> (b: bool)
    ensures
        b == xid_continue(c),
        (c as u32) < 0x80 ==> b == (ascii_letter(c) || ascii_digit(c) || c == '_'),
{
    unicode_xid::UnicodeXID::is_xid_continue(c)
}

/// Compiles `pattern` with `regex::Regex::new` and searches `text` with
/// `Regex::captures`; group 0 is the whole match. The offsets of a match
/// are in order, inside `text`, and on character boundaries.
#[verifier::external_body]
pub(crate) fn find_first(pattern: &str, text: &str) -> (r: Option<(usize, usize)>)
    ensures
        r == first_match(pattern@, text@),
        r matches Some(m) ==> m.0 <= m.1 <= text.spec_bytes().len() && is_char_boundary(
            text.spec_bytes(),
            m.0 as int,
        ) && is_char_boundary(text.spec_bytes(), m.1 as int),
{
    let re = regex::Regex::new(pattern).ok()?;
    let m = re.captures(text)?.get(0)?;
    Some((m.start(), m.end()))
}

} // verus!
