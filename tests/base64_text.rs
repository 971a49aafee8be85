use maze_player::base64::base64_decode;
use maze_player::error::DecodeError;

#[test]
fn decodes_whole_groups() {
    assert_eq!(base64_decode("TWFu"), Ok(b"Man".to_vec()));
    assert_eq!(base64_decode("QUJD"), Ok(b"ABC".to_vec()));
    assert_eq!(base64_decode("SGVsbG8gV29ybGQh"), Ok(b"Hello World!".to_vec()));
}

#[test]
fn infers_padding_from_length() {
    assert_eq!(base64_decode("QQ"), Ok(vec![65]));
    assert_eq!(base64_decode("TWE"), Ok(b"Ma".to_vec()));
    assert_eq!(base64_decode("SGVsbG8"), Ok(b"Hello".to_vec()));
}

#[test]
fn empty_text_decodes_to_nothing() {
    assert_eq!(base64_decode(""), Ok(vec![]));
    assert_eq!(base64_decode("   "), Ok(vec![]));
}

#[test]
fn surrounding_white_space_is_ignored() {
    assert_eq!(base64_decode("  TWFu\n"), Ok(b"Man".to_vec()));
    assert_eq!(base64_decode("\tTWE \r\n"), Ok(b"Ma".to_vec()));
    assert_eq!(base64_decode("\u{a0}QQ\u{3000}"), Ok(vec![65]));
}

#[test]
fn length_one_modulo_four_is_invalid() {
    assert_eq!(base64_decode("abcde"), Err(DecodeError::InvalidLength));
    assert_eq!(base64_decode("A"), Err(DecodeError::InvalidLength));
    assert_eq!(base64_decode(" TWFuT "), Err(DecodeError::InvalidLength));
}

#[test]
fn invalid_len_str_reports_its_first_bad_character() {
    // Fifteen characters: the length is acceptable, the underscore is not.
    assert_eq!(base64_decode("invalid_len_str"), Err(DecodeError::InvalidCharacter('_')));
}

#[test]
fn characters_outside_the_alphabet_are_invalid() {
    assert_eq!(base64_decode("TW-u"), Err(DecodeError::InvalidCharacter('-')));
    assert_eq!(base64_decode("T Fu"), Err(DecodeError::InvalidCharacter(' ')));
    assert_eq!(base64_decode("é"), Err(DecodeError::InvalidCharacter('é')));
}

#[test]
fn length_counts_utf8_bytes() {
    // One character of two bytes and three ASCII letters: five bytes.
    assert_eq!(base64_decode("éTWF"), Err(DecodeError::InvalidLength));
}

#[test]
fn padding_characters_are_skipped() {
    assert_eq!(base64_decode("TW=Fu==="), Ok(b"Man".to_vec()));
    assert_eq!(base64_decode("QQ==QQ=="), Ok(vec![65, 4, 16]));
}

#[test]
fn padding_that_breaks_the_groups_is_an_invalid_length() {
    assert_eq!(base64_decode("QQ=="), Err(DecodeError::InvalidLength));
    assert_eq!(base64_decode("TWE="), Err(DecodeError::InvalidLength));
}
