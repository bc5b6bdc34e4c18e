//! Bytes written as hexadecimal digits, two to a byte.
use crate::text::{join, numeral_text};
use vstd::prelude::*;
use vstd::utf8::*;

#[allow(unused_imports)]
use crate::text::{digit_char, hex_digit, numeral};

verus! {

/// Why a text is not the hexadecimal form of some bytes.
#[derive(Debug, PartialEq, Eq)]
pub enum HexError {
    /// The byte at `index` of the text, read as the character `c`, is no hexadecimal digit.
    InvalidHexCharacter { c: char, index: usize },
    /// The text has an odd number of bytes.
    OddLength,
    /// The text does not have the length of a buffer of fixed size.
    InvalidStringLength,
}

/// `data` in lower-case hexadecimal, two digits to a byte, the high one first.
pub open spec fn hex_text(data: Seq<u8>) -> Seq<char> {
    Seq::new(
        2 * data.len(),
        |i: int|
            if i % 2 == 0 {
                digit_char(data[i / 2] as nat / 16)
            } else {
                digit_char(data[i / 2] as nat % 16)
            },
    )
}

/// Whether the byte is a hexadecimal digit of either case.
pub open spec fn is_hex_byte(b: u8) -> bool {
    hex_digit(b as char) is Some
}

/// How many hexadecimal digits the text begins with.
pub open spec fn leading_digits(text: Seq<u8>) -> nat
    decreases text.len(),
{
    if text.len() == 0 || !is_hex_byte(text[0]) {
        0
    } else {
        1 + leading_digits(text.skip(1))
    }
}

/// The bytes whose hexadecimal form is `text`.
pub open spec fn hex_bytes(text: Seq<u8>) -> Seq<u8> {
    Seq::new(
        text.len() / 2,
        |i: int|
            (16 * hex_digit(text[2 * i] as char)->0 + hex_digit(text[2 * i + 1] as char)->0) as u8,
    )
}

/// What the bytes of a text are when read as hexadecimal: an odd number of them is refused, then the
/// first that is no digit.
pub open spec fn hex_decoded(text: Seq<u8>) -> Result<Seq<u8>, HexError> {
    let digits = leading_digits(text);
    if text.len() % 2 == 1 {
        Err(HexError::OddLength)
    } else if digits == text.len() {
        Ok(hex_bytes(text))
    } else {
        Err(
            HexError::InvalidHexCharacter {
                c: text[digits as int] as char,
                index: digits as usize,
            },
        )
    }
}

/// The form that the standard library's `{:?}` gives a character: in single quotes, escaped where
/// it does not print.
pub uninterp spec fn quoted_char(c: char) -> Seq<char>;

/// The message of a [`HexError`].
pub open spec fn hex_error_text(e: HexError) -> Seq<char> {
    match e {
        HexError::InvalidHexCharacter { c, index } => "Invalid character "@ + quoted_char(c)
            + " at position "@ + numeral(index as nat, 10),
        HexError::OddLength => "Odd number of digits"@,
        HexError::InvalidStringLength => "Invalid string length"@,
    }
}

/// The `Debug` form of `char` in the standard library. The contract names the text that it gives
/// for a character and says no more of it.
#[verifier::external_body]
fn quote_char(c: char) -> (res: String)
    ensures
        res@ == quoted_char(c),
{
    format!("{:?}", c)
}

/// `hex::encode`. The contract claims that it writes two lower-case digits for each byte, the high
/// one first.
#[verifier::external_body]
pub(crate) fn hex_encode(data: &[u8]) -> (res: String)
    ensures
        res@ == hex_text(data@),
{
    hex::encode(data)
}

/// `hex::decode` on the bytes of a text. The contract claims that it first refuses an odd number of
/// bytes, then the first byte that is no digit of either case, and that otherwise it gives one byte
/// for each two digits, the high one first.
#[verifier::external_body]
pub(crate) fn hex_decode(text: &str) -> (res: Result<Vec<u8>, HexError>)
    ensures
        match res {
            Ok(data) => hex_decoded(encode_utf8(text@)) == Ok::<Seq<u8>, HexError>(data@),
            Err(e) => hex_decoded(encode_utf8(text@)) == Err::<Seq<u8>, HexError>(e),
        },
{
    match hex::decode(text) {
        Ok(data) => Ok(data),
        Err(hex::FromHexError::InvalidHexCharacter { c, index }) => {
            Err(HexError::InvalidHexCharacter { c, index })
        },
        Err(hex::FromHexError::OddLength) => Err(HexError::OddLength),
        Err(hex::FromHexError::InvalidStringLength) => Err(HexError::InvalidStringLength),
    }
}

impl HexError {
    /// The message of the error.
    pub fn message(&self) -> (res: String)
        ensures
            res@ == hex_error_text(*self),
    {
        match self {
            HexError::InvalidHexCharacter { c, index } => {
                let quoted = join("Invalid character ", quote_char(*c).as_str());
                let placed = join(quoted.as_str(), " at position ");
                join(placed.as_str(), numeral_text(*index as u64, 10).as_str())
            },
            HexError::OddLength => "Odd number of digits".to_string(),
            HexError::InvalidStringLength => "Invalid string length".to_string(),
        }
    }
}

} // verus!
