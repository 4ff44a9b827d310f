//! Character-level vocabulary shared by the identifier types.

use vstd::prelude::*;

verus! {

/// `String::push` appends the given character to the end of the string.
pub assume_specification[ String::push ](s: &mut String, ch: char)
    ensures
        final(s)@ == old(s)@.push(ch),
;

/// Lower-case hexadecimal digits.
pub open spec fn is_lower_hex(c: char) -> bool {
    ('0' <= c && c <= '9') || ('a' <= c && c <= 'f')
}

/// The sequence of characters that a sequence of Latin-1 code units stands for.
pub open spec fn chars_of(bytes: Seq<u8>) -> Seq<char> {
    bytes.map_values(|b: u8| b as char)
}

/// The character of a digit value below 16, with upper-case letters from ten on.
pub open spec fn digit_char(digit: nat) -> char {
    if digit < 10 {
        (0x30 + digit) as char
    } else {
        (0x37 + digit) as char
    }
}

/// Computes [`digit_char`].
pub(crate) fn digit(value: u8) -> (c: char)
    requires
        value < 16,
    ensures
        c == digit_char(value as nat),
{
    if value < 10 {
        (0x30 + value) as char
    } else {
        (0x37 + value) as char
    }
}

/// The decimal notation of a number, without leading zeros.
pub open spec fn decimal(n: nat) -> Seq<char>
    decreases n,
{
    if n < 10 {
        seq![digit_char(n)]
    } else {
        decimal(n / 10).push(digit_char(n % 10))
    }
}

/// Writes a number in decimal notation.
pub(crate) fn decimal_text(n: usize) -> (text: String)
    ensures
        text@ == decimal(n as nat),
    decreases n,
{
    let mut text = if n < 10 {
        String::new()
    } else {
        decimal_text(n / 10)
    };
    text.push(digit((n % 10) as u8));
    assert(text@ =~= decimal(n as nat));
    text
}

} // verus!
