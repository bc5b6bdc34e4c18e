use brc20_unwrap::error::AlkanesError;
use brc20_unwrap::hexadecimal::HexError;
use brc20_unwrap::text::{join, numeral_text, parse_hex_u64, strip_0x};

#[test]
fn joined_texts_stand_one_after_the_other() {
    assert_eq!(join("Alloy decode ", "failed"), "Alloy decode failed");
    assert_eq!(join("", ""), "");
}

#[test]
fn numerals_are_lower_case_without_leading_zero() {
    assert_eq!(numeral_text(0, 10), "0");
    assert_eq!(numeral_text(64, 10), "64");
    assert_eq!(numeral_text(u64::MAX, 10), "18446744073709551615");
    assert_eq!(numeral_text(0x5000000, 16), "5000000");
    assert_eq!(numeral_text(0xabcdef, 16), "abcdef");
    assert_eq!(numeral_text(5, 2), "101");
}

#[test]
fn prefix_is_taken_away_once() {
    assert_eq!(strip_0x("0x1234"), "1234");
    assert_eq!(strip_0x("1234"), "1234");
    assert_eq!(strip_0x("0x0x12"), "0x12");
    assert_eq!(strip_0x("0X12"), "0X12");
    assert_eq!(strip_0x("0x"), "");
    assert_eq!(strip_0x("0"), "0");
    assert_eq!(strip_0x(""), "");
    assert_eq!(strip_0x("0xé"), "é");
}

#[test]
fn hexadecimal_numbers_are_read_as_the_standard_library_reads_them() {
    let texts = [
        "", "+", "-", "0", "00", "ff", "FF", "fF", "+ff", "-ff", "++1", "g", "1g", " 1", "1 ",
        "ffffffffffffffff", "10000000000000000", "0000000000000000000001", "fffffffffffffffff", "é",
    ];
    for text in texts {
        assert_eq!(parse_hex_u64(text), u64::from_str_radix(text, 16).ok(), "{:?}", text);
    }
}

#[test]
fn numerals_are_read_back() {
    for n in [0, 1, 9, 10, 15, 16, 255, 256, 0x5000000, u64::MAX] {
        assert_eq!(parse_hex_u64(&numeral_text(n, 16)), Some(n));
        assert_eq!(numeral_text(n, 16), format!("{:x}", n));
        assert_eq!(numeral_text(n, 10), format!("{}", n));
    }
}

#[test]
fn hex_errors_have_messages() {
    assert_eq!(HexError::OddLength.message(), hex::FromHexError::OddLength.to_string());
    assert_eq!(HexError::OddLength.message(), "Odd number of digits");
    assert_eq!(
        HexError::InvalidStringLength.message(),
        hex::FromHexError::InvalidStringLength.to_string()
    );
    assert_eq!(
        HexError::InvalidHexCharacter { c: 'g', index: 12 }.message(),
        "Invalid character 'g' at position 12"
    );
    assert_eq!(
        HexError::InvalidHexCharacter { c: '\n', index: 0 }.message(),
        hex::FromHexError::InvalidHexCharacter { c: '\n', index: 0 }.to_string()
    );
}

#[test]
fn errors_are_shown_with_their_kind() {
    assert_eq!(AlkanesError::Configuration("a".to_string()).to_text(), "Configuration error: a");
    assert_eq!(AlkanesError::RpcError("b".to_string()).to_text(), "RPC error: b");
    assert_eq!(
        AlkanesError::AddressResolution("c".to_string()).to_text(),
        "Address resolution error: c"
    );
}
