//! Character codes and the text that the interpreter emits.

use vstd::prelude::*;

verus! {

/// Whether a number is the code of a character: a code point that is no
/// surrogate.
pub open spec fn spec_is_char_code(value: i32) -> bool {
    0 <= value <= 0xD7FF || 0xE000 <= value <= 0x10FFFF
}

/// Whether a number is the code of a character.
#[verifier::when_used_as_spec(spec_is_char_code)]
pub fn is_char_code(value: i32) -> (ok: bool)
    ensures
        ok == spec_is_char_code(value),
{
    (0 <= value && value <= 0xD7FF) || (0xE000 <= value && value <= 0x10FFFF)
}

/// `char::from_u32`: the character with the given code, or `None` where
/// the number is a surrogate or lies above the last code point.
#[verifier::external_body]
fn char_from_u32(code: u32) -> (r: Option<char>)
    ensures
        r == if code <= 0xD7FF || 0xE000 <= code <= 0x10FFFF {
            Some(code as char)
        } else {
            None
        },
{
    char::from_u32(code)
}

/// The character with the given code.
pub fn i32_to_char(value: i32) -> (c: char)
    requires
        spec_is_char_code(value),
    ensures
        c as int == value,
        c == value as char,
{
    char_from_u32(value as u32).unwrap()
}

/// `String::push`: appends one character.
#[verifier::external_body]
pub(crate) fn push_char(text: &mut String, c: char)
    ensures
        final(text)@ == old(text)@.push(c),
{
    text.push(c);
}

/// The decimal digits of a natural number, without leading zeros.
pub open spec fn digits_text(n: nat) -> Seq<char>
    decreases n,
{
    if n < 10 {
        seq![(n + 48) as char]
    } else {
        digits_text(n / 10).push((n % 10 + 48) as char)
    }
}

/// The decimal text of an integer: a minus sign where it is negative,
/// then the digits of its magnitude.
pub open spec fn decimal_text(value: int) -> Seq<char> {
    if value < 0 {
        seq!['-'] + digits_text((-value) as nat)
    } else {
        digits_text(value as nat)
    }
}

fn push_digits(text: &mut String, n: u32)
    ensures
        final(text)@ == old(text)@ + digits_text(n as nat),
    decreases n,
{
    if n >= 10 {
        push_digits(text, n / 10);
    }
    let digit: u8 = (n % 10) as u8;
    push_char(text, (digit + 48u8) as char);
    assert(text@ =~= old(text)@ + digits_text(n as nat));
}

/// The decimal text of `value`.
pub fn decimal_string(value: i32) -> (text: String)
    ensures
        text@ == decimal_text(value as int),
{
    let mut text = String::new();
    if value < 0 {
        push_char(&mut text, '-');
        let magnitude: u32 = (-(value as i64)) as u32;
        push_digits(&mut text, magnitude);
    } else {
        push_digits(&mut text, value as u32);
    }
    assert(text@ =~= decimal_text(value as int));
    text
}

} // verus!
