//! What texts, digits and bytes stand for, said of single characters and bytes.
#[allow(unused_imports)]
use crate::bytes::{be_value, usize_range};
#[allow(unused_imports)]
use crate::hexadecimal::{
    hex_bytes, hex_decoded, hex_error_text, hex_text, is_hex_byte, leading_digits, quoted_char,
    HexError,
};
#[allow(unused_imports)]
use crate::text::{digit_char, hex_digit, hex_number, hex_value, numeral, without_0x};
use vstd::prelude::*;
use vstd::utf8::*;

verus! {

/// The sixteen digits in lower case.
#[verifier::opaque]
pub open spec fn small_digits() -> Seq<char> {
    seq!['0', '1', '2', '3', '4', '5', '6', '7', '8', '9', 'a', 'b', 'c', 'd', 'e', 'f']
}

/// The sixteen digits in upper case.
#[verifier::opaque]
pub open spec fn capital_digits() -> Seq<char> {
    seq!['0', '1', '2', '3', '4', '5', '6', '7', '8', '9', 'A', 'B', 'C', 'D', 'E', 'F']
}

/// Whether a character is the digit `d`, in either case.
pub open spec fn is_digit(c: char, d: int) -> bool {
    0 <= d < 16 && (c == small_digits()[d] || c == capital_digits()[d])
}

/// Whether a text is two digits for each byte, in either case, the high one first.
pub open spec fn spells(text: Seq<char>, data: Seq<u8>) -> bool {
    &&& text.len() == 2 * data.len()
    &&& forall|i: int|
        0 <= i < data.len() ==> is_digit(text[2 * i], (#[trigger] data[i]) as int / 16) && is_digit(
            text[2 * i + 1],
            data[i] as int % 16,
        )
}

/// Digits are the sixteen characters of the table, and are read in either case.
pub proof fn law_digits_are_those_of_the_table(c: char, d: nat)
    requires
        d < 16,
    ensures
        digit_char(d) == small_digits()[d as int],
        hex_digit(c) == Some(d) <==> is_digit(c, d as int),
        hex_digit(c) matches Some(v) ==> v < 16,
        is_digit(c, d as int) ==> '\0' <= c <= '\u{7f}' && c != '+' && c != 'x',
{
    reveal(small_digits);
    reveal(capital_digits);
}

/// Whether a character is a digit.
pub open spec fn is_any_digit(c: char) -> bool {
    exists|d: int| is_digit(c, d)
}

/// The characters with a value are the digits.
proof fn lemma_any_digit(c: char)
    ensures
        is_any_digit(c) <==> hex_digit(c) is Some,
{
    if let Some(d) = hex_digit(c) {
        law_digits_are_those_of_the_table(c, 0);
        law_digits_are_those_of_the_table(c, d);
        assert(is_digit(c, d as int));
    }
    if is_any_digit(c) {
        let d = choose|d: int| is_digit(c, d);
        law_digits_are_those_of_the_table(c, d as nat);
    }
}

/// A numeral of one digit is that digit, and each further digit is written behind the others.
pub proof fn law_numerals_grow_by_digits(n: nat, d: nat, base: nat)
    requires
        2 <= base <= 16,
        d < base,
    ensures
        numeral(d, base) == seq![small_digits()[d as int]],
        n > 0 ==> numeral(base * n + d, base) == numeral(n, base).push(small_digits()[d as int]),
{
    law_digits_are_those_of_the_table('0', d);
    if n > 0 {
        let m = base * n + d;
        assert(m >= base) by (nonlinear_arith)
            requires
                m == base * n + d,
                n >= 1,
                base >= 2,
        ;
        vstd::arithmetic::div_mod::lemma_fundamental_div_mod_converse(
            m as int,
            base as int,
            n as int,
            d as int,
        );
    }
}

/// A text of digits has the value of the digits before the last, sixteen times, and of the last. A text
/// with another character has none.
pub proof fn law_hexadecimal_value(s: Seq<char>, c: char, d: nat)
    requires
        d < 16,
    ensures
        hex_value(Seq::empty()) == Some(0nat),
        is_digit(c, d as int) ==> hex_value(s.push(c)) == (match hex_value(s) {
            Some(v) => Some(16 * v + d),
            None => None,
        }),
        hex_value(s) is Some <==> (forall|i: int|
            0 <= i < s.len() ==> is_any_digit(#[trigger] s[i])),
    decreases s.len(),
{
    assert(s.push(c).drop_last() =~= s);
    law_digits_are_those_of_the_table(c, d);
    if s.len() > 0 {
        let front = s.drop_last();
        law_hexadecimal_value(front, c, d);
        assert(forall|i: int| 0 <= i < front.len() ==> front[i] == #[trigger] s[i]);
        assert(s[s.len() - 1] == s.last());
        lemma_any_digit(s.last());
        if hex_value(s) is Some {
            assert forall|i: int| 0 <= i < s.len() implies is_any_digit(#[trigger] s[i]) by {
                if i < front.len() {
                    assert(is_any_digit(front[i]));
                }
            }
        }
        if forall|i: int| 0 <= i < s.len() ==> is_any_digit(#[trigger] s[i]) {
            assert forall|i: int| 0 <= i < front.len() implies is_any_digit(#[trigger] front[i]) by {
                assert(is_any_digit(s[i]));
            }
        }
    }
}

/// A number is digits with a value of at most 64 bits, with or without one plus sign in front. Nothing at
/// all is no number.
pub proof fn law_hexadecimal_numbers(digits: Seq<char>)
    ensures
        hex_number(Seq::empty()) is None,
        hex_number(seq!['+']) is None,
        digits.len() > 0 ==> hex_number(seq!['+'] + digits) == (match hex_value(digits) {
            Some(v) if v < 0x1_0000_0000_0000_0000 => Some(v as u64),
            _ => None,
        }),
        digits.len() > 0 && digits[0] != '+' ==> hex_number(digits) == (match hex_value(digits) {
            Some(v) if v < 0x1_0000_0000_0000_0000 => Some(v as u64),
            _ => None,
        }),
{
    assert((seq!['+'] + digits).skip(1) =~= digits);
    assert(seq!['+'].skip(1) =~= Seq::empty());
}

/// A text behind `0x` is what the whole is without its prefix, and a text that does not begin with `0x` is
/// left as it is.
pub proof fn law_prefix_is_taken_away(text: Seq<char>)
    ensures
        without_0x(seq!['0', 'x'] + text) == text,
        text.len() < 2 || text[0] != '0' || text[1] != 'x' ==> without_0x(text) == text,
{
    assert((seq!['0', 'x'] + text).skip(2) =~= text);
}

/// Each byte behind others counts once, and all that stand before it 256 times.
pub proof fn law_bytes_count_most_significant_first(s: Seq<u8>, b: u8)
    ensures
        be_value(Seq::empty()) == 0,
        be_value(s.push(b)) == 256 * be_value(s) + b,
        usize_range() == usize::MAX + 1,
{
    assert(s.push(b).drop_last() =~= s);
}

/// Eight bytes, written out.
pub open spec fn eight_bytes(s: Seq<u8>) -> int {
    s[0] * 0x100_0000_0000_0000 + s[1] * 0x1_0000_0000_0000 + s[2] * 0x100_0000_0000 + s[3]
        * 0x1_0000_0000 + s[4] * 0x100_0000 + s[5] * 0x1_0000 + s[6] * 0x100 + s[7]
}

/// Eight bytes have the value that is written out.
pub proof fn law_eight_bytes(s: Seq<u8>)
    requires
        s.len() == 8,
    ensures
        be_value(s) == eight_bytes(s),
        eight_bytes(s) < 0x1_0000_0000_0000_0000,
{
    assert(s =~= seq![s[0], s[1], s[2], s[3], s[4], s[5], s[6], s[7]]);
    let e = Seq::<u8>::empty();
    let s1 = e.push(s[0]);
    let s2 = s1.push(s[1]);
    let s3 = s2.push(s[2]);
    let s4 = s3.push(s[3]);
    let s5 = s4.push(s[4]);
    let s6 = s5.push(s[5]);
    let s7 = s6.push(s[6]);
    assert(s =~= s7.push(s[7]));
    law_bytes_count_most_significant_first(e, s[0]);
    law_bytes_count_most_significant_first(s1, s[1]);
    law_bytes_count_most_significant_first(s2, s[2]);
    law_bytes_count_most_significant_first(s3, s[3]);
    law_bytes_count_most_significant_first(s4, s[4]);
    law_bytes_count_most_significant_first(s5, s[5]);
    law_bytes_count_most_significant_first(s6, s[6]);
    law_bytes_count_most_significant_first(s7, s[7]);
}

/// One byte is written as two lower-case digits.
proof fn lemma_written_byte(data: Seq<u8>, i: int)
    requires
        0 <= i < data.len(),
    ensures
        hex_text(data)[2 * i] == small_digits()[data[i] as int / 16],
        hex_text(data)[2 * i + 1] == small_digits()[data[i] as int % 16],
{
    let b = data[i] as nat;
    law_digits_are_those_of_the_table('0', b / 16);
    law_digits_are_those_of_the_table('0', b % 16);
    assert((2 * i) / 2 == i && (2 * i) % 2 == 0);
    assert((2 * i + 1) / 2 == i && (2 * i + 1) % 2 == 1);
    assert(hex_text(data)[2 * i] == digit_char(b / 16));
    assert(hex_text(data)[2 * i + 1] == digit_char(b % 16));
}

/// Bytes are written as two lower-case digits each, the high one first.
pub proof fn law_bytes_are_written_in_lower_case(data: Seq<u8>, i: int)
    requires
        0 <= i < data.len(),
    ensures
        hex_text(data).len() == 2 * data.len(),
        hex_text(data)[2 * i] == small_digits()[data[i] as int / 16],
        hex_text(data)[2 * i + 1] == small_digits()[data[i] as int % 16],
{
    lemma_written_byte(data, i);
}

/// Bytes are spelt by how they are written.
pub proof fn law_written_bytes_are_spelt(data: Seq<u8>)
    ensures
        spells(hex_text(data), data),
{
    assert forall|j: int| 0 <= j < data.len() implies is_digit(
        hex_text(data)[2 * j],
        (#[trigger] data[j]) as int / 16,
    ) && is_digit(hex_text(data)[2 * j + 1], data[j] as int % 16) by {
        lemma_written_byte(data, j);
    }
}

/// Whether a byte is the character code of the digit `d`, in either case.
pub open spec fn is_digit_byte(b: u8, d: int) -> bool {
    ||| 0 <= d < 10 && b == 0x30 + d
    ||| 10 <= d < 16 && (b == 0x61 + d - 10 || b == 0x41 + d - 10)
}

/// How many digits a text begins with: all up to the first byte that is none.
proof fn lemma_leading_digits(text: Seq<u8>)
    ensures
        leading_digits(text) <= text.len(),
        forall|i: int| 0 <= i < leading_digits(text) ==> is_hex_byte(#[trigger] text[i]),
        leading_digits(text) < text.len() ==> !is_hex_byte(text[leading_digits(text) as int]),
    decreases text.len(),
{
    if text.len() > 0 && is_hex_byte(text[0]) {
        let rest = text.skip(1);
        lemma_leading_digits(rest);
        assert(forall|i: int| 0 <= i < rest.len() ==> rest[i] == #[trigger] text[i + 1]);
        assert forall|i: int| 0 <= i < leading_digits(text) implies is_hex_byte(
            #[trigger] text[i],
        ) by {
            if i > 0 {
                assert(is_hex_byte(rest[i - 1]));
            }
        }
    }
}

/// Bytes of text are read as hexadecimal where they are even in number and digits throughout; each two
/// then give one byte, the first sixteen times the second. An odd number is refused, and otherwise the
/// first byte that is no digit, by its position.
pub proof fn law_hexadecimal_is_read_by_pairs(text: Seq<u8>, i: int)
    ensures
        match hex_decoded(text) {
            Ok(data) => {
                &&& text.len() == 2 * data.len()
                &&& forall|j: int|
                    0 <= j < data.len() ==> is_digit_byte(
                        text[2 * j],
                        (#[trigger] data[j]) as int / 16,
                    ) && is_digit_byte(text[2 * j + 1], data[j] as int % 16)
            },
            Err(HexError::OddLength) => text.len() % 2 == 1,
            Err(HexError::InvalidHexCharacter { c, index }) => {
                &&& text.len() % 2 == 0
                &&& text.len() <= usize::MAX ==> index < text.len() && c == text[index as int] as char
                    && (forall|d: int| !is_digit_byte(text[index as int], d))
                &&& text.len() <= usize::MAX && 0 <= i < index ==> exists|d: int|
                    is_digit_byte(text[i], d)
            },
            Err(HexError::InvalidStringLength) => false,
        },
{
    lemma_leading_digits(text);
    let n = leading_digits(text);
    assert forall|b: u8| #[trigger] is_hex_byte(b) implies is_digit_byte(
        b,
        hex_digit(b as char)->0 as int,
    ) by {}
    assert forall|b: u8, d: int| #[trigger] is_digit_byte(b, d) implies is_hex_byte(b) by {}
    if text.len() % 2 == 0 {
        if n == text.len() {
            let data = hex_bytes(text);
            assert forall|j: int| 0 <= j < data.len() implies is_digit_byte(
                text[2 * j],
                (#[trigger] data[j]) as int / 16,
            ) && is_digit_byte(text[2 * j + 1], data[j] as int % 16) by {
                assert(is_hex_byte(text[2 * j]));
                assert(is_hex_byte(text[2 * j + 1]));
            }
        } else if text.len() <= usize::MAX {
            if 0 <= i < n {
                assert(is_hex_byte(text[i]));
                assert(is_digit_byte(text[i], hex_digit(text[i] as char)->0 as int));
            }
        }
    }
}

/// Every character of a text that spells bytes is a digit.
proof fn lemma_spelt_digit(text: Seq<char>, data: Seq<u8>, k: int)
    requires
        spells(text, data),
        0 <= k < text.len(),
    ensures
        hex_digit(text[k]) == Some(
            (if k % 2 == 0 {
                data[k / 2] as int / 16
            } else {
                data[k / 2] as int % 16
            }) as nat,
        ),
        '\0' <= text[k] <= '\u{7f}',
        text[k] != 'x',
{
    let i = k / 2;
    let b = data[i];
    assert(is_digit(text[2 * i], b as int / 16));
    assert(is_digit(text[2 * i + 1], b as int % 16));
    if k % 2 == 0 {
        assert(k == 2 * i);
        law_digits_are_those_of_the_table(text[k], b as nat / 16);
    } else {
        assert(k == 2 * i + 1);
        law_digits_are_those_of_the_table(text[k], b as nat % 16);
    }
}

/// A text that spells bytes is read as those bytes, with `0x` in front or without.
pub proof fn law_spelt_bytes_are_read(text: Seq<char>, data: Seq<u8>)
    requires
        spells(text, data),
    ensures
        hex_decoded(encode_utf8(text)) == Ok::<Seq<u8>, HexError>(data),
        encode_utf8(text).len() == text.len(),
        without_0x(text) == text,
        without_0x(seq!['0', 'x'] + text) == text,
{
    assert forall|k: int| 0 <= k < text.len() implies '\0' <= #[trigger] text[k] <= '\u{7f}' by {
        lemma_spelt_digit(text, data, k);
    }
    is_ascii_chars_encode_utf8(text);
    let bytes = encode_utf8(text);
    assert forall|k: int| 0 <= k < bytes.len() implies is_hex_byte(#[trigger] bytes[k]) && bytes[k]
        as char == text[k] by {
        lemma_spelt_digit(text, data, k);
        assert(text[k] as u8 == bytes[k]);
    }
    lemma_leading_digits(bytes);
    assert(leading_digits(bytes) == bytes.len());
    assert forall|i: int| 0 <= i < data.len() implies #[trigger] hex_bytes(bytes)[i] == data[i] by {
        lemma_spelt_digit(text, data, 2 * i);
        lemma_spelt_digit(text, data, 2 * i + 1);
        assert(bytes[2 * i] as char == text[2 * i]);
        assert(bytes[2 * i + 1] as char == text[2 * i + 1]);
    }
    assert(hex_bytes(bytes) =~= data);
    law_prefix_is_taken_away(text);
    if text.len() >= 2 {
        lemma_spelt_digit(text, data, 1);
    }
}

/// The messages of hexadecimal errors. A position is written in decimal.
pub proof fn law_hexadecimal_messages(c: char, index: usize)
    ensures
        hex_error_text(HexError::OddLength) == "Odd number of digits"@,
        hex_error_text(HexError::InvalidStringLength) == "Invalid string length"@,
        hex_error_text(HexError::InvalidHexCharacter { c, index }) == "Invalid character "@
            + quoted_char(c) + " at position "@ + numeral(index as nat, 10),
{
}

} // verus!
