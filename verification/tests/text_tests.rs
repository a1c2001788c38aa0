use test_infra::error::TracerError;
use test_infra::text::{
    decode_message, strip_trailing_zeros, test_hook_as_int_or_hex, test_hook_as_string,
};
use test_infra::word::Word;

fn word_with_text(text: &[u8]) -> Word {
    let mut bytes = [0u8; 32];
    bytes[..text.len()].copy_from_slice(text);
    Word::from_be_bytes(bytes)
}

#[test]
fn strip_trailing_zeros_cuts_the_padding() {
    assert_eq!(strip_trailing_zeros(&[1, 2, 0, 3, 0, 0]), &[1, 2, 0, 3]);
}

#[test]
fn strip_trailing_zeros_of_nothing_but_zeros_is_empty() {
    assert_eq!(strip_trailing_zeros(&[0, 0, 0]), &[] as &[u8]);
    assert_eq!(strip_trailing_zeros(&[]), &[] as &[u8]);
}

#[test]
fn strip_trailing_zeros_keeps_what_has_no_padding() {
    assert_eq!(strip_trailing_zeros(&[0, 7]), &[0, 7]);
}

#[test]
fn padded_message_decodes_to_the_trimmed_text() {
    let word = word_with_text(b"ok");
    assert_eq!(test_hook_as_string(&word), Ok("ok".to_string()));
}

#[test]
fn message_of_a_full_word_keeps_every_byte() {
    let word = word_with_text(b"0123456789abcdef0123456789abcdef");
    assert_eq!(
        test_hook_as_string(&word),
        Ok("0123456789abcdef0123456789abcdef".to_string())
    );
}

#[test]
fn empty_message_decodes_to_the_empty_text() {
    assert_eq!(test_hook_as_string(&Word::zero()), Ok(String::new()));
}

#[test]
fn message_that_is_not_utf8_is_a_fault() {
    let word = word_with_text(&[0xff, 0xfe]);
    assert_eq!(test_hook_as_string(&word), Err(TracerError::InvalidDebugMessage));
    assert_eq!(decode_message(&[0xc3]), Err(TracerError::InvalidDebugMessage));
}

#[test]
fn unpadded_decoding_keeps_the_zero_bytes() {
    assert_eq!(decode_message(b"ab\0\0"), Ok("ab\0\0".to_string()));
}

#[test]
fn multibyte_message_decodes() {
    let word = word_with_text("h\u{e9}llo".as_bytes());
    assert_eq!(test_hook_as_string(&word), Ok("h\u{e9}llo".to_string()));
}

#[test]
fn small_numbers_render_in_decimal() {
    assert_eq!(test_hook_as_int_or_hex(&Word::zero()), "0");
    assert_eq!(test_hook_as_int_or_hex(&Word::from_u64(7)), "7");
    assert_eq!(test_hook_as_int_or_hex(&Word::from_u64(1234567890)), "1234567890");
}

#[test]
fn largest_64_bit_number_renders_in_decimal() {
    assert_eq!(
        test_hook_as_int_or_hex(&Word::from_u64(u64::MAX)),
        "18446744073709551615"
    );
    assert_eq!(
        test_hook_as_int_or_hex(&Word::from_u64(u64::MAX - 1)),
        "18446744073709551614"
    );
}

#[test]
fn first_number_beyond_64_bits_renders_in_hexadecimal() {
    let mut bytes = [0u8; 32];
    bytes[23] = 1;
    assert_eq!(
        test_hook_as_int_or_hex(&Word::from_be_bytes(bytes)),
        "0x0000000000000000000000000000000000000000000000010000000000000000"
    );
}

#[test]
fn large_numbers_render_as_66_characters() {
    let mut bytes = [0u8; 32];
    for (i, byte) in bytes.iter_mut().enumerate() {
        *byte = (i as u8) * 8 + 1;
    }
    let text = test_hook_as_int_or_hex(&Word::from_be_bytes(bytes));
    assert_eq!(text.len(), 66);
    assert_eq!(
        text,
        "0x0109111921293139414951596169717981899199a1a9b1b9c1c9d1d9e1e9f1f9"
    );
    assert_eq!(
        test_hook_as_int_or_hex(&Word::from_be_bytes([0xff; 32])),
        format!("0x{}", "ff".repeat(32))
    );
}
