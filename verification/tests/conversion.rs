use int2b58::codec::decode_base58;
use int2b58::codec::encode_base58;
use int2b58::decimal::parse_u64;
use int2b58::error::ConvertError;

#[test]
fn encode_zero_is_first_alphabet_character() {
    assert_eq!(encode_base58(0), "1");
}

#[test]
fn decode_first_alphabet_character_is_zero() {
    assert_eq!(decode_base58("1"), Ok(0));
}

#[test]
fn encode_57_is_last_alphabet_character() {
    assert_eq!(encode_base58(57), "z");
}

#[test]
fn decode_last_alphabet_character_is_57() {
    assert_eq!(decode_base58("z"), Ok(57));
}

#[test]
fn encode_58_needs_two_digits() {
    assert_eq!(encode_base58(58), "21");
    assert_eq!(decode_base58("21"), Ok(58));
}

#[test]
fn encode_12345() {
    // 12345 = 3 * 58 * 58 + 38 * 58 + 49, and the alphabet characters at
    // positions 3, 38 and 49 are '4', 'f' and 'r'.
    assert_eq!(encode_base58(12345), "4fr");
}

#[test]
fn decode_12345() {
    assert_eq!(decode_base58("4fr"), Ok(12345));
}

#[test]
fn encode_known_values() {
    assert_eq!(encode_base58(1000000), "68GP");
    assert_eq!(encode_base58(u64::MAX), "jpXCZedGfVQ");
}

#[test]
fn round_trip_samples() {
    for n in [
        0u64,
        1,
        9,
        10,
        57,
        58,
        59,
        3363,
        3364,
        12345,
        1000000,
        u64::MAX - 1,
        u64::MAX,
    ] {
        assert_eq!(decode_base58(&encode_base58(n)), Ok(n));
    }
}

#[test]
fn decode_rejects_ambiguous_characters() {
    for s in ["0", "O", "I", "l"] {
        assert_eq!(decode_base58(s), Err(ConvertError::InvalidCharacter));
    }
}

#[test]
fn decode_rejects_characters_outside_the_alphabet() {
    for s in ["4f!", " 4fr", "4fr\n", "+", "é", "4f r"] {
        assert_eq!(decode_base58(s), Err(ConvertError::InvalidCharacter));
    }
}

#[test]
fn decode_empty_string_is_zero() {
    assert_eq!(decode_base58(""), Ok(0));
}

#[test]
fn decode_rejects_values_beyond_u64() {
    // Twelve maximal digits denote 58^12 - 1, which exceeds u64::MAX.
    assert_eq!(
        decode_base58("zzzzzzzzzzzz"),
        Err(ConvertError::Overflow)
    );
    // One digit appended to the largest encodable value also overflows.
    assert_eq!(decode_base58("jpXCZedGfVQ1"), Err(ConvertError::Overflow));
}

#[test]
fn decode_reports_the_error_reached_first() {
    // The overflowing prefix ends before the invalid character is reached.
    assert_eq!(
        decode_base58("zzzzzzzzzzzz0"),
        Err(ConvertError::Overflow)
    );
    // The invalid character comes first, before any overflow can happen.
    assert_eq!(
        decode_base58("0zzzzzzzzzzzz"),
        Err(ConvertError::InvalidCharacter)
    );
}

#[test]
fn parse_accepts_decimal_u64() {
    assert_eq!(parse_u64("0"), Ok(0));
    assert_eq!(parse_u64("12345"), Ok(12345));
    assert_eq!(parse_u64("007"), Ok(7));
    assert_eq!(parse_u64("18446744073709551615"), Ok(u64::MAX));
}

#[test]
fn parse_rejects_non_numeric_text() {
    for s in ["abc", "", "12a", " 12", "12 ", "+12", "-5", "１２"] {
        assert_eq!(parse_u64(s), Err(ConvertError::InvalidInteger));
    }
}

#[test]
fn parse_rejects_values_beyond_u64() {
    assert_eq!(
        parse_u64("18446744073709551616"),
        Err(ConvertError::InvalidInteger)
    );
    assert_eq!(
        parse_u64("99999999999999999999999"),
        Err(ConvertError::InvalidInteger)
    );
}

#[test]
fn error_messages_name_the_failure() {
    assert_eq!(
        ConvertError::InvalidInteger.message(),
        "Input is not a valid integer"
    );
    assert_eq!(
        ConvertError::InvalidCharacter.message(),
        "Invalid Base58 character"
    );
    assert_eq!(
        ConvertError::Overflow.message(),
        "Value exceeds the supported integer range"
    );
}
