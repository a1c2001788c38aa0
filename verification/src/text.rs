//! Turning hook parameters into text: zero-padded messages and numbers.

use crate::error::TracerError;
use crate::word::{be_value, Word};
use vstd::prelude::*;
use vstd::slice::*;
use vstd::string::*;
use vstd::utf8::*;

verus! {

/// The length of `bytes` once its trailing zero bytes are cut off.
pub open spec fn trimmed_len(bytes: Seq<u8>) -> nat
    decreases bytes.len(),
{
    if bytes.len() == 0 {
        0
    } else if bytes.last() != 0 {
        bytes.len()
    } else {
        trimmed_len(bytes.drop_last())
    }
}

/// `bytes` up to and including its last non-zero byte.
pub open spec fn without_trailing_zeros(bytes: Seq<u8>) -> Seq<u8> {
    bytes.take(trimmed_len(bytes) as int)
}

/// Whether `end` is where the trailing zero bytes of `bytes` begin.
pub open spec fn is_trim_point(bytes: Seq<u8>, end: int) -> bool {
    &&& 0 <= end <= bytes.len()
    &&& forall|i: int| end <= i < bytes.len() ==> bytes[i] == 0
    &&& end > 0 ==> bytes[end - 1] != 0
}

/// `trimmed_len` is a trim point, and the only one.
pub proof fn lemma_trim_point(bytes: Seq<u8>, end: int)
    ensures
        is_trim_point(bytes, trimmed_len(bytes) as int),
        is_trim_point(bytes, end) ==> end == trimmed_len(bytes),
    decreases bytes.len(),
{
    if bytes.len() > 0 && bytes.last() == 0 {
        let front = bytes.drop_last();
        lemma_trim_point(front, end);
        let cut = trimmed_len(front) as int;
        assert forall|i: int| cut <= i < bytes.len() implies bytes[i] == 0 by {
            if i < front.len() {
                assert(front[i] == bytes[i]);
            }
        }
        if cut > 0 {
            assert(front[cut - 1] == bytes[cut - 1]);
        }
        if is_trim_point(bytes, end) {
            assert(end < bytes.len());
            assert forall|i: int| end <= i < front.len() implies front[i] == 0 by {
                assert(front[i] == bytes[i]);
            }
            if end > 0 {
                assert(front[end - 1] == bytes[end - 1]);
            }
            assert(is_trim_point(front, end));
        }
    }
}

/// Zero padding never reaches the text: bytes that do not end in a zero
/// byte come back unchanged when any number of zero bytes is put behind
/// them and then cut off, and so does the text that they hold.
pub proof fn lemma_padding_is_cut(text: Seq<u8>, padding: nat)
    requires
        text.len() == 0 || text.last() != 0,
    ensures
        without_trailing_zeros(text + Seq::new(padding, |i: int| 0u8)) == text,
        padded_message_text(text + Seq::new(padding, |i: int| 0u8)) == message_text(text),
{
    let padded = text + Seq::new(padding, |i: int| 0u8);
    assert(is_trim_point(padded, text.len() as int));
    lemma_trim_point(padded, text.len() as int);
    assert(padded.take(text.len() as int) =~= text);
}

/// Cuts the trailing zero bytes off `input`.
pub fn strip_trailing_zeros(input: &[u8]) -> (stripped: &[u8])
    ensures
        stripped@ == without_trailing_zeros(input@),
        is_trim_point(input@, stripped@.len() as int),
{
    let mut end: usize = input.len();
    while end > 0 && input[end - 1] == 0
        invariant
            end <= input@.len(),
            forall|i: int| end <= i < input@.len() ==> input@[i] == 0,
        decreases end,
    {
        end = end - 1;
    }
    proof {
        lemma_trim_point(input@, end as int);
    }
    slice_subrange(input, 0, end)
}

/// The text that `bytes` hold, where they are UTF-8.
pub open spec fn message_text(bytes: Seq<u8>) -> Result<Seq<char>, TracerError> {
    if valid_utf8(bytes) {
        Ok(decode_utf8(bytes))
    } else {
        Err(TracerError::InvalidDebugMessage)
    }
}

/// The text of a message field that is padded with zero bytes at its end.
pub open spec fn padded_message_text(bytes: Seq<u8>) -> Result<Seq<char>, TracerError> {
    message_text(without_trailing_zeros(bytes))
}

/// What a decoded message says, character by character.
pub open spec fn text_of(decoded: Result<String, TracerError>) -> Result<Seq<char>, TracerError> {
    match decoded {
        Ok(text) => Ok(text@),
        Err(error) => Err(error),
    }
}

/// The character for one decimal digit.
pub open spec fn decimal_digit(digit: int) -> char {
    seq!['0', '1', '2', '3', '4', '5', '6', '7', '8', '9'][digit]
}

/// The decimal numeral of `n`, without leading zeros.
pub open spec fn decimal_digits(n: nat) -> Seq<char>
    decreases n,
{
    if n < 10 {
        seq![decimal_digit(n as int)]
    } else {
        decimal_digits(n / 10).push(decimal_digit((n % 10) as int))
    }
}

/// The lower-case character for one hexadecimal digit.
pub open spec fn hex_digit(nibble: int) -> char {
    seq!['0', '1', '2', '3', '4', '5', '6', '7', '8', '9', 'a', 'b', 'c', 'd', 'e', 'f'][nibble]
}

/// Two lower-case hexadecimal digits for each byte, high nibble first.
pub open spec fn hex_lower(bytes: Seq<u8>) -> Seq<char> {
    Seq::new(
        2 * bytes.len(),
        |i: int|
            if i % 2 == 0 {
                hex_digit(bytes[i / 2] as int / 16)
            } else {
                hex_digit(bytes[i / 2] as int % 16)
            },
    )
}

/// How a numeric parameter is shown: in decimal while it fits in 64 bits,
/// else as `0x` and all 32 bytes in hexadecimal.
pub open spec fn number_text(bytes: Seq<u8>) -> Seq<char> {
    if be_value(bytes) <= u64::MAX {
        decimal_digits(be_value(bytes))
    } else {
        seq!['0', 'x'] + hex_lower(bytes)
    }
}

/// The error of `String::from_utf8`. Nothing is read from it.
#[verifier::external_type_specification]
#[verifier::external_body]
pub struct ExFromUtf8Error(std::string::FromUtf8Error);

/// `String::from_utf8` of std. Trusted: it accepts exactly the byte
/// strings that are UTF-8, and then returns the text that they encode.
#[verifier::external_body]
fn string_from_utf8(bytes: Vec<u8>) -> (decoded: Result<String, std::string::FromUtf8Error>)
    ensures
        decoded is Ok <==> valid_utf8(bytes@),
        decoded is Ok ==> decoded->Ok_0@ == decode_utf8(bytes@),
{
    String::from_utf8(bytes)
}

/// `hex::encode`. Trusted: it writes each byte as two lower-case
/// hexadecimal digits, the high nibble first, in the order of the bytes.
#[verifier::external_body]
fn hex_encode(bytes: &[u8]) -> (text: String)
    ensures
        text@ == hex_lower(bytes@),
{
    hex::encode(bytes)
}

/// `U256::from_big_endian` and the `Display` of `U256`, of primitive-types.
/// Trusted: the 32 bytes are read as one big-endian number, and the text is
/// that number's decimal numeral without sign, padding or leading zeros.
#[verifier::external_body]
pub(crate) fn u256_to_decimal(bytes: &[u8; 32]) -> (text: String)
    ensures
        text@ == decimal_digits(be_value(bytes@)),
{
    primitive_types::U256::from_big_endian(bytes).to_string()
}

/// Reads `bytes` as UTF-8 text.
pub fn decode_message(bytes: &[u8]) -> (decoded: Result<String, TracerError>)
    ensures
        text_of(decoded) == message_text(bytes@),
{
    match string_from_utf8(slice_to_vec(bytes)) {
        Ok(text) => Ok(text),
        Err(_) => Err(TracerError::InvalidDebugMessage),
    }
}

/// Reads a hook parameter as a message: the word's bytes without the zero
/// bytes that pad its end, as UTF-8 text.
pub fn test_hook_as_string(hook_param: &Word) -> (decoded: Result<String, TracerError>)
    ensures
        text_of(decoded) == padded_message_text(hook_param@),
{
    decode_message(strip_trailing_zeros(hook_param.bytes.as_slice()))
}

/// Shows a numeric hook parameter: in decimal while it fits in 64 bits, and
/// as `0x` followed by all 64 hexadecimal digits of the word beyond that.
pub fn test_hook_as_int_or_hex(hook_param: &Word) -> (text: String)
    ensures
        text@ == number_text(hook_param@),
        hook_param.value() <= u64::MAX ==> text@ == decimal_digits(hook_param.value()),
        hook_param.value() > u64::MAX ==> text@.len() == 66 && text@.take(2) == seq!['0', 'x']
            && text@.skip(2) == hex_lower(hook_param@),
{
    if hook_param.fits_u64() {
        u256_to_decimal(&hook_param.bytes)
    } else {
        let digits = hex_encode(hook_param.bytes.as_slice());
        let mut text = String::from_str("0x");
        text.append(digits.as_str());
        proof {
            reveal_strlit("0x");
            assert("0x"@ =~= seq!['0', 'x']);
            assert(text@.take(2) =~= seq!['0', 'x']);
            assert(text@.skip(2) =~= hex_lower(hook_param@));
        }
        text
    }
}

} // verus!
