//! Characters of a string, and the character classes the lexer needs.

use vstd::prelude::*;
use vstd::std_specs::iter::IteratorSpec;

verus! {

/// The characters of `text`, in order.
pub fn chars_of(text: &str) -> (chars: Vec<char>)
    ensures
        chars@ == text@,
{
    broadcast use vstd::string::group_string_axioms;

    let mut chars: Vec<char> = Vec::new();
    for c in rest: text.chars()
        invariant
            rest.seq() == text@,
            chars@ == rest.seq().take(rest.index()),
    {
        chars.push(c);
    }
    chars
}

/// Whether `c` is white space: a code point with the Unicode property
/// `White_Space`.
pub open spec fn is_whitespace(c: char) -> bool {
    let code = c as u32;
    ||| 0x09 <= code <= 0x0D
    ||| code == 0x20
    ||| code == 0x85
    ||| code == 0xA0
    ||| code == 0x1680
    ||| 0x2000 <= code <= 0x200A
    ||| code == 0x2028
    ||| code == 0x2029
    ||| code == 0x202F
    ||| code == 0x205F
    ||| code == 0x3000
}

/// Tests a character for white space.
pub fn char_is_whitespace(c: char) -> (white: bool)
    ensures
        white == is_whitespace(c),
{
    let code: u32 = c as u32;
    (0x09 <= code && code <= 0x0D) || code == 0x20 || code == 0x85 || code == 0xA0 || code
        == 0x1680 || (0x2000 <= code && code <= 0x200A) || code == 0x2028 || code == 0x2029
        || code == 0x202F || code == 0x205F || code == 0x3000
}

/// Whether `code` is a Unicode scalar value: a code point that is no
/// surrogate.
pub open spec fn is_scalar_value(code: u32) -> bool {
    code <= 0xD7FF || 0xE000 <= code <= 0x10FFFF
}

/// `char::from_u32` of the standard library, which is taken on trust: it
/// gives the character with the code point `code` where `code` is a Unicode
/// scalar value, and `None` for every other number.
#[verifier::external_body]
pub(crate) fn char_from_u32(code: u32) -> (c: Option<char>)
    ensures
        c == (if is_scalar_value(code) {
            Some(code as char)
        } else {
            None::<char>
        }),
{
    char::from_u32(code)
}

} // verus!
