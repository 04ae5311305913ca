//! Contracts for the few string operations of std that vstd does not
//! specify: the two appenders the renderers build text with, and the
//! lexicographic comparison the duplicate-name check orders names by.

use vstd::prelude::*;

verus! {

/// Relies on String::push_str: appends the given string slice onto the end
/// of this string.
pub assume_specification[ std::string::String::push_str ](s: &mut std::string::String, other: &str)
    ensures
        final(s)@ == old(s)@ + other@,
;

/// Relies on String::push: appends the given character onto the end of
/// this string.
pub assume_specification[ std::string::String::push ](s: &mut std::string::String, ch: char)
    ensures
        final(s)@ == old(s)@.push(ch),
;

/// Lexicographic order on text: by the first differing character's code
/// point, a prefix before its extensions. This is the order std gives
/// strings, which compare lexicographically by byte — for UTF-8 the same
/// as by character code point.
pub open spec fn lex_le(a: Seq<char>, b: Seq<char>) -> bool
    decreases a.len(),
{
    if a.len() == 0 {
        true
    } else if b.len() == 0 {
        false
    } else if a[0] == b[0] {
        lex_le(a.subrange(1, a.len() as int), b.subrange(1, b.len() as int))
    } else {
        (a[0] as u32) < (b[0] as u32)
    }
}

/// Relies on str's ordering: strings compare lexicographically by byte
/// value, which for UTF-8 text equals lexicographic comparison of the
/// characters' code points.
#[verifier::external_body]
pub(crate) fn str_le(a: &String, b: &String) -> (r: bool)
    ensures
        r == lex_le(a@, b@),
{
    *a <= *b
}

} // verus!
