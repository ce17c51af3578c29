//! Percent-encoding of text for use in a URL.

use vstd::prelude::*;
use vstd::string::*;

verus! {

/// Whether a byte goes into a URL as it is: an ASCII letter or digit, or one
/// of `-`, `.`, `_` and `~`.
pub open spec fn is_unreserved(byte: u8) -> bool {
    ||| 48 <= byte <= 57
    ||| 65 <= byte <= 90
    ||| 97 <= byte <= 122
    ||| byte == 45
    ||| byte == 46
    ||| byte == 95
    ||| byte == 126
}

/// The upper-case hexadecimal digit for a value below sixteen.
pub open spec fn upper_hex_digit(nibble: u8) -> char {
    if nibble < 10 {
        ((nibble + 48) as u8) as char
    } else {
        ((nibble + 55) as u8) as char
    }
}

/// One byte, percent-encoded: itself where it is unreserved, else `%` and its
/// two upper-case hexadecimal digits.
pub open spec fn percent_encoded_byte(byte: u8) -> Seq<char> {
    if is_unreserved(byte) {
        seq![byte as char]
    } else {
        seq!['%', upper_hex_digit(byte >> 4), upper_hex_digit(byte & 0x0f)]
    }
}

/// Bytes, percent-encoded one after the other.
pub open spec fn percent_encoding(bytes: Seq<u8>) -> Seq<char>
    decreases bytes.len(),
{
    if bytes.len() == 0 {
        Seq::empty()
    } else {
        percent_encoded_byte(bytes[0]) + percent_encoding(bytes.drop_first())
    }
}

/// The text that percent-encoded `text` stands for, or nothing where the
/// bytes it decodes to are no UTF-8.
pub uninterp spec fn url_decoding(text: Seq<char>) -> Option<Seq<char>>;

/// `std::string::FromUtf8Error`: the decoded bytes were no UTF-8. Nothing
/// is read out of it.
#[verifier::external_type_specification]
#[verifier::external_body]
pub struct ExFromUtf8Error(std::string::FromUtf8Error);

/// `urlencoding::encode`: the result is the percent-encoding of the UTF-8
/// bytes of the argument, and decoding it gives the argument back.
#[verifier::external_body]
pub(crate) fn url_encode(text: &str) -> (encoded: String)
    ensures
        encoded@ == percent_encoding(text.spec_bytes()),
        url_decoding(encoded@) == Some(text@),
{
    urlencoding::encode(text).into_owned()
}

/// `urlencoding::decode`: the result is the text that the argument stands
/// for, and an error where the decoded bytes are no UTF-8.
#[verifier::external_body]
pub(crate) fn url_decode(text: &str) -> (decoded: Result<String, std::string::FromUtf8Error>)
    ensures
        decoded is Ok <==> url_decoding(text@) is Some,
        decoded is Ok ==> Some(decoded->Ok_0@) == url_decoding(text@),
{
    urlencoding::decode(text).map(|decoded| decoded.into_owned())
}

} // verus!
