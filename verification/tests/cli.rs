use ananse::cli::text::{entry_subject, expected_arguments, format_word};
use ananse::executor::entry::Entry;
use ananse::cli::{coerce_word, parse_hex, parse_u32, parse_u64, ArgumentError};
use ananse::decoder::types::{Word, WordType};

#[test]
fn i32_arguments_accept_signed_and_unsigned_decimals() {
    assert_eq!(parse_u32("10"), Ok(10));
    assert_eq!(parse_u32("-1"), Ok(u32::MAX));
    assert_eq!(parse_u32("+7"), Ok(7));
    assert_eq!(parse_u32("4294967295"), Ok(u32::MAX));
    assert_eq!(parse_u32("-2147483648"), Ok(0x8000_0000));
}

#[test]
fn i32_arguments_reject_what_fits_no_32_bit_pattern() {
    assert!(matches!(parse_u32("4294967296"), Err(ArgumentError::Invalid { ty: WordType::I32, .. })));
    assert!(matches!(parse_u32("-2147483649"), Err(ArgumentError::Invalid { .. })));
    assert!(matches!(parse_u32(""), Err(ArgumentError::Invalid { .. })));
    assert!(matches!(parse_u32("-"), Err(ArgumentError::Invalid { .. })));
    assert!(matches!(parse_u32("12a"), Err(ArgumentError::Invalid { .. })));
}

#[test]
fn hex_arguments_keep_their_bit_pattern() {
    assert_eq!(parse_hex("0xff"), Some(Some(255)));
    assert_eq!(parse_hex("0XFF"), Some(Some(255)));
    assert_eq!(parse_hex("0x"), Some(None));
    assert_eq!(parse_hex("0xg"), Some(None));
    assert_eq!(parse_hex("ff"), None);
    assert_eq!(parse_u32("0xffffffff"), Ok(u32::MAX));
    assert!(matches!(parse_u32("0x100000000"), Err(ArgumentError::OutOfRange { .. })));
    assert!(matches!(parse_u32("0x1ffffffffffffffff"), Err(ArgumentError::InvalidHex { .. })));
    assert_eq!(parse_u64("0xffffffffffffffff"), Ok(u64::MAX));
}

#[test]
fn i64_arguments_accept_signed_and_unsigned_decimals() {
    assert_eq!(parse_u64("-1"), Ok(u64::MAX));
    assert_eq!(parse_u64("18446744073709551615"), Ok(u64::MAX));
    assert_eq!(parse_u64("-9223372036854775808"), Ok(1 << 63));
    assert!(matches!(parse_u64("18446744073709551616"), Err(ArgumentError::Invalid { ty: WordType::I64, .. })));
}

#[test]
fn words_take_the_parameter_width() {
    assert_eq!(coerce_word(WordType::I32, "5"), Ok(Word::I32(5)));
    assert_eq!(coerce_word(WordType::I64, "5"), Ok(Word::I64(5)));
}

#[test]
fn format_word_prints_unsigned_decimal() {
    assert_eq!(format_word(Word::I32(0)), "0");
    assert_eq!(format_word(Word::I32(4294967295)), "4294967295");
    assert_eq!(format_word(Word::I64(1234567890123)), "1234567890123");
}

#[test]
fn entry_subject_names_an_export_or_the_default_entry() {
    assert_eq!(entry_subject(&Entry::Export("add".to_string())), "`add`");
    assert_eq!(entry_subject(&Entry::Auto), "the module entry");
}

#[test]
fn expected_arguments_counts_and_names_the_parameters() {
    assert_eq!(expected_arguments(&[]), "no arguments");
    assert_eq!(expected_arguments(&[WordType::I32]), "1 argument (i32)");
    assert_eq!(expected_arguments(&[WordType::I32, WordType::I64]), "2 arguments (i32, i64)");
}
