//! Random tokens in hexadecimal digits.
use vstd::prelude::*;

use rand_core::RngCore;

verus! {

/// A lower-case hexadecimal digit.
pub open spec fn hex_digit(value: int) -> char {
    if value < 10 {
        ('0' as int + value) as char
    } else {
        ('a' as int + value - 10) as char
    }
}

/// Some bytes in lower-case hexadecimal digits, two for each byte.
pub open spec fn hex_text(bytes: Seq<u8>) -> Seq<char> {
    Seq::new(
        2 * bytes.len(),
        |i: int|
            if i % 2 == 0 {
                hex_digit(bytes[i / 2] as int / 16)
            } else {
                hex_digit(bytes[i / 2] as int % 16)
            },
    )
}

/// `hex::encode` writes bytes in lower-case hexadecimal digits.
#[verifier::external_body]
pub(crate) fn encode_hex(bytes: &[u8]) -> (result: String)
    ensures
        result@ == hex_text(bytes@),
{
    hex::encode(bytes)
}

/// `rand_core::OsRng::try_fill_bytes` fills so many bytes at random, or fails where the operating
/// system has no random source. Which bytes come is left open.
#[verifier::external_body]
pub(crate) fn random_bytes(size: usize) -> (result: Result<Vec<u8>, String>)
    requires
        size <= isize::MAX,
    ensures
        result matches Ok(bytes) ==> bytes@.len() == size,
{
    let mut bytes = vec![0_u8; size];
    match rand_core::OsRng.try_fill_bytes(&mut bytes) {
        Ok(()) => Ok(bytes),
        Err(error) => Err(error.to_string()),
    }
}

/// No hexadecimal digit is a slash or white space.
pub proof fn lemma_hex_text(bytes: Seq<u8>)
    ensures
        hex_text(bytes).len() == 2 * bytes.len(),
        forall|i: int|
            0 <= i < hex_text(bytes).len() ==> '0' <= #[trigger] hex_text(bytes)[i] <= '9' || 'a'
                <= hex_text(bytes)[i] <= 'f',
{
    assert forall|i: int| 0 <= i < hex_text(bytes).len() implies '0' <= #[trigger] hex_text(
        bytes,
    )[i] <= '9' || 'a' <= hex_text(bytes)[i] <= 'f' by {
        let byte = bytes[i / 2];
        lemma_hex_digit(byte as int / 16);
        lemma_hex_digit(byte as int % 16);
    }
}

proof fn lemma_hex_digit(value: int)
    requires
        0 <= value < 16,
    ensures
        '0' <= hex_digit(value) <= '9' || 'a' <= hex_digit(value) <= 'f',
{
}

/// The number that a lower-case hexadecimal digit stands for.
pub open spec fn hex_digit_value(digit: char) -> int {
    if '0' <= digit <= '9' {
        digit as int - '0' as int
    } else {
        digit as int - 'a' as int + 10
    }
}

/// Two hexadecimal digits give back the byte that they were written for, the first one its upper
/// half, so that different bytes have different digits.
pub proof fn hex_digits_read_back(bytes: Seq<u8>, at: int)
    requires
        0 <= at < bytes.len(),
    ensures
        hex_digit_value(hex_text(bytes)[2 * at]) * 16 + hex_digit_value(hex_text(bytes)[2 * at + 1])
            == bytes[at],
{
    let text = hex_text(bytes);
    let byte = bytes[at] as int;
    assert((2 * at) / 2 == at && (2 * at + 1) / 2 == at);
    assert(text[2 * at] == hex_digit(byte / 16));
    assert(text[2 * at + 1] == hex_digit(byte % 16));
    assert(hex_digit_value(hex_digit(byte / 16)) == byte / 16);
    assert(hex_digit_value(hex_digit(byte % 16)) == byte % 16);
}

} // verus!
