//! Classes of characters, digits, and the few string operations that the
//! tokenizer needs.

use vstd::prelude::*;
use vstd::utf8::is_scalar;

verus! {

/// Whether Unicode counts the character as alphabetic.
pub uninterp spec fn alphabetic(c: char) -> bool;

/// Whether Unicode counts the character as alphabetic or numeric.
pub uninterp spec fn alphanumeric(c: char) -> bool;

/// Whether Unicode counts the character as white space.
pub uninterp spec fn whitespace(c: char) -> bool;

/// `char::is_alphabetic` depends on the character alone; its result is named.
pub assume_specification[ std::primitive::char::is_alphabetic ](c: std::primitive::char) -> (b: bool)
    ensures
        b == alphabetic(c),
;

/// `char::is_alphanumeric` depends on the character alone; its result is named.
pub assume_specification[ std::primitive::char::is_alphanumeric ](c: std::primitive::char) -> (b: bool)
    ensures
        b == alphanumeric(c),
;

/// `char::is_whitespace` depends on the character alone; its result is named.
pub assume_specification[ std::primitive::char::is_whitespace ](c: std::primitive::char) -> (b: bool)
    ensures
        b == whitespace(c),
;

/// `char::from_u32`: the character with this code, where the code is a Unicode
/// scalar value, and nothing otherwise.
pub assume_specification[ std::primitive::char::from_u32 ](code: u32) -> (r: Option<
    std::primitive::char,
>)
    ensures
        r == if is_scalar(code) {
            Some(code as std::primitive::char)
        } else {
            None::<std::primitive::char>
        },
;

/// `String::push`: the character is appended.
pub assume_specification[ std::string::String::push ](text: &mut std::string::String, c: char)
    ensures
        final(text)@ == old(text)@.push(c),
;

/// A character that can start a word.
pub open spec fn word_start(c: char) -> bool {
    alphabetic(c) || c == '_'
}

/// A character that can continue a word.
pub open spec fn word_part(c: char) -> bool {
    alphanumeric(c) || c == '_'
}

/// The value of a character as a digit, whatever the radix: `0` to `9`, then
/// the letters of either case from ten on.
pub open spec fn digit_value(c: char) -> Option<nat> {
    if '0' <= c <= '9' {
        Some((c as u32 - '0' as u32) as nat)
    } else if 'a' <= c <= 'z' {
        Some((c as u32 - 'a' as u32 + 10) as nat)
    } else if 'A' <= c <= 'Z' {
        Some((c as u32 - 'A' as u32 + 10) as nat)
    } else {
        None
    }
}

/// The value of a character as a digit of a radix, if it is one.
pub open spec fn digit_of(c: char, radix: nat) -> Option<nat> {
    match digit_value(c) {
        Some(d) => if d < radix {
            Some(d)
        } else {
            None
        },
        None => None,
    }
}

/// The value of a character as a digit of a radix, if it is one.
pub fn to_digit(c: char, radix: u32) -> (r: Option<u32>)
    ensures
        match r {
            Some(d) => digit_of(c, radix as nat) == Some(d as nat),
            None => digit_of(c, radix as nat) is None,
        },
{
    let code: u32 = c as u32;
    let value: u32 = if '0' <= c && c <= '9' {
        code - ('0' as u32)
    } else if 'a' <= c && c <= 'z' {
        code - ('a' as u32) + 10
    } else if 'A' <= c && c <= 'Z' {
        code - ('A' as u32) + 10
    } else {
        return None;
    };
    if value < radix {
        Some(value)
    } else {
        None
    }
}

/// The radix that a letter of a number's prefix selects.
pub open spec fn radix_of(c: char) -> Option<nat> {
    if c == 'b' || c == 'B' {
        Some(2)
    } else if c == 'o' || c == 'O' {
        Some(8)
    } else if c == 'x' || c == 'X' {
        Some(16)
    } else {
        None
    }
}

/// The radix that a letter of a number's prefix selects.
pub fn radix_letter(c: char) -> (r: Option<u32>)
    ensures
        match r {
            Some(radix) => radix_of(c) == Some(radix as nat),
            None => radix_of(c) is None,
        },
{
    if c == 'b' || c == 'B' {
        Some(2)
    } else if c == 'o' || c == 'O' {
        Some(8)
    } else if c == 'x' || c == 'X' {
        Some(16)
    } else {
        None
    }
}

} // verus!
