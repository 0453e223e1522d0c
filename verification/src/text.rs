//! Text building: characters appended to strings, and numbers in decimal.

use vstd::prelude::*;

verus! {

/// `String::push`: the character is appended to the text.
#[verifier::external_body]
pub(crate) fn push_char(text: &mut String, character: char)
    ensures
        final(text)@ == old(text)@.push(character),
{
    text.push(character);
}

/// The character of a decimal digit.
pub open spec fn digit_char(digit: nat) -> char {
    ((48 + digit) as u8) as char
}

/// The decimal numeral of a number, without leading zeros.
pub open spec fn decimal(number: nat) -> Seq<char>
    decreases number,
{
    if number < 10 {
        seq![digit_char(number)]
    } else {
        decimal(number / 10).push(digit_char(number % 10))
    }
}

/// Appends the decimal numeral of the number to the text.
pub fn push_decimal(text: &mut String, number: u64)
    ensures
        final(text)@ == old(text)@ + decimal(number as nat),
    decreases number,
{
    if number < 10 {
        push_char(text, ((48 + number) as u8) as char);
        assert(text@ =~= old(text)@ + decimal(number as nat));
    } else {
        push_decimal(text, number / 10);
        push_char(text, ((48 + number % 10) as u8) as char);
        assert(text@ =~= old(text)@ + decimal(number as nat));
    }
}

/// Appends the ASCII bytes from `start` up to `end` to the text.
pub fn push_ascii(text: &mut String, source: &[u8], start: usize, end: usize)
    requires
        start <= end <= source@.len(),
        forall|i: int| start <= i < end ==> source@[i] < 128,
    ensures
        final(text)@ == old(text)@ + ascii_text(source@.subrange(start as int, end as int)),
{
    let mut i: usize = start;
    assert(text@ =~= old(text)@ + ascii_text(source@.subrange(start as int, i as int)));
    while i < end
        invariant
            start <= i <= end <= source@.len(),
            text@ == old(text)@ + ascii_text(source@.subrange(start as int, i as int)),
        decreases end - i,
    {
        push_char(text, source[i] as char);
        i += 1;
        assert(text@ =~= old(text)@ + ascii_text(source@.subrange(start as int, i as int)));
    }
}

/// ASCII bytes as characters.
pub open spec fn ascii_text(bytes: Seq<u8>) -> Seq<char> {
    Seq::new(bytes.len(), |i: int| bytes[i] as char)
}

} // verus!
