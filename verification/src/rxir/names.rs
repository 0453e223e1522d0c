//! ASCII names, as the `ascii` crate keeps them.

use ascii::{AsAsciiStrError, AsciiString};
use std::str::FromStr;
use vstd::prelude::*;
use vstd::utf8::is_ascii_chars;

verus! {

/// `ascii::AsciiString`, carried through as it is. What it holds is told by
/// [`ascii_chars`].
#[verifier::external_type_specification]
#[verifier::external_body]
pub struct ExAsciiString(AsciiString);

/// `ascii::AsAsciiStrError`, carried through as it is: nothing is said of
/// what the error holds.
#[verifier::external_type_specification]
#[verifier::external_body]
pub struct ExAsAsciiStrError(AsAsciiStrError);

/// The characters that an ASCII string holds, in order.
pub uninterp spec fn ascii_chars(name: AsciiString) -> Seq<char>;

/// `<AsciiString as FromStr>::from_str`: succeeds exactly on a text whose
/// characters are all ASCII, and the string it gives holds the characters of the text.
#[verifier::external_body]
pub(crate) fn ascii_from_str(text: &str) -> (parsed: Result<AsciiString, AsAsciiStrError>)
    ensures
        parsed is Ok <==> is_ascii_chars(text@),
        parsed matches Ok(name) ==> ascii_chars(name) == text@,
{
    AsciiString::from_str(text)
}

/// `AsciiStr::as_str`, reached through `AsciiString`'s `Deref`: the text holds
/// the characters of the string.
#[verifier::external_body]
pub(crate) fn ascii_as_str(name: &AsciiString) -> (text: &str)
    ensures
        text@ == ascii_chars(*name),
{
    name.as_str()
}

/// `<AsciiString as PartialEq>::eq`: two strings are equal exactly when they
/// hold the same characters.
#[verifier::external_body]
pub(crate) fn ascii_eq(left: &AsciiString, right: &AsciiString) -> (equal: bool)
    ensures
        equal == (ascii_chars(*left) == ascii_chars(*right)),
{
    left == right
}

/// `<AsciiString as Clone>::clone`: the copy holds the same characters.
#[verifier::external_body]
pub(crate) fn ascii_clone(name: &AsciiString) -> (copy: AsciiString)
    ensures
        ascii_chars(copy) == ascii_chars(*name),
{
    name.clone()
}

} // verus!
