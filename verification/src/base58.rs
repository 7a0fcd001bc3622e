//! Base-58 text of a byte string.
//!
//! The encoding reads the bytes as one number, first byte most significant,
//! and writes that number in base 58 with the digits drawn from a fixed
//! alphabet. A number has no leading zeros, so each zero byte at the front of
//! the input is written as the alphabet's first character, `'1'`, ahead of the
//! digits.

use crate::numerals::{
    base58_digits, be_bytes, be_value, digits_value, leading_run, leading_zeros,
    lemma_be_bytes_of_value, lemma_be_value_below_power, lemma_be_value_skips_zero_bytes,
    lemma_digit_count_below_power, lemma_digits, lemma_digits_outnumber_bytes, lemma_digits_value,
    lemma_leading_run, lemma_leading_run_is, lemma_value_skips_zero_digits, power,
};
use vstd::prelude::*;

verus! {

/// The 58 digit characters in digit order. The alphabet leaves out `0`, `O`,
/// `I` and `l`.
pub open spec fn alphabet() -> Seq<char> {
    "123456789ABCDEFGHJKLMNPQRSTUVWXYZabcdefghijkmnopqrstuvwxyz"@
}

/// How many characters at the front of `text` are `'1'`.
pub open spec fn leading_ones(text: Seq<char>) -> nat {
    leading_run(text, '1')
}

/// The base-58 text of `bytes`: one `'1'` for each leading zero byte, then
/// the base-58 digits of the number the bytes spell, each written as its
/// character of the alphabet.
pub open spec fn base58_text(bytes: Seq<u8>) -> Seq<char> {
    Seq::new(leading_zeros(bytes), |i: int| '1') + base58_digits(be_value(bytes)).map_values(
        |d: nat| alphabet()[d as int],
    )
}

/// Encodes `bytes` with `bs58::encode(..).into_string()`, which uses the
/// crate's default (Bitcoin) alphabet.
///
/// Not proved: that the crate's output is [`base58_text`] of the input. The
/// crate keeps a number in base 58, least significant digit first; for each
/// byte in turn it multiplies that number by 256 and adds the byte. Then it
/// appends one zero digit per leading zero byte, maps every digit through its
/// alphabet and reverses the result.
#[verifier::external_body]
pub(crate) fn base58_encode(bytes: &[u8]) -> (text: String)
    ensures
        text@ == base58_text(bytes@),
{
    bs58::encode(bytes).into_string()
}

/// The digit that the character `c` stands for.
pub open spec fn digit_of(c: char) -> nat {
    alphabet().index_of(c) as nat
}

/// Whether every character of `text` is one of the alphabet.
pub open spec fn is_base58(text: Seq<char>) -> bool {
    forall|i: int| 0 <= i < text.len() ==> alphabet().contains(#[trigger] text[i])
}

/// The bytes that `text` stands for, if it is base-58 text: one zero byte for
/// each leading `'1'`, then the bytes of the number that the digits spell.
pub open spec fn base58_bytes(text: Seq<char>) -> Option<Seq<u8>> {
    if is_base58(text) {
        Some(
            Seq::new(leading_ones(text), |i: int| 0u8) + be_bytes(
                digits_value(text.map_values(|c: char| digit_of(c))),
            ),
        )
    } else {
        None
    }
}

/// The alphabet has 58 characters, no two of them equal, and starts with
/// `'1'`.
pub proof fn lemma_alphabet()
    ensures
        alphabet().len() == 58,
        alphabet().no_duplicates(),
        alphabet()[0] == '1',
{
    reveal_strlit("123456789ABCDEFGHJKLMNPQRSTUVWXYZabcdefghijkmnopqrstuvwxyz");
}

/// None of the characters `0`, `O`, `I` and `l` is in the alphabet.
pub proof fn lemma_alphabet_leaves_out_lookalikes()
    ensures
        !alphabet().contains('0'),
        !alphabet().contains('O'),
        !alphabet().contains('I'),
        !alphabet().contains('l'),
{
    reveal_strlit("123456789ABCDEFGHJKLMNPQRSTUVWXYZabcdefghijkmnopqrstuvwxyz");
}

/// Every character of a base-58 text belongs to the alphabet, so none of
/// them is `0`, `O`, `I` or `l`.
pub proof fn lemma_text_stays_in_alphabet(bytes: Seq<u8>)
    ensures
        is_base58(base58_text(bytes)),
        forall|i: int|
            0 <= i < base58_text(bytes).len() ==> {
                let c = #[trigger] base58_text(bytes)[i];
                c != '0' && c != 'O' && c != 'I' && c != 'l'
            },
{
    lemma_alphabet();
    lemma_alphabet_leaves_out_lookalikes();
    lemma_digits(be_value(bytes));
}

/// A base-58 text starts with exactly one `'1'` for each zero byte at the
/// front of the bytes it encodes.
pub proof fn lemma_text_keeps_leading_zeros(bytes: Seq<u8>)
    ensures
        leading_ones(base58_text(bytes)) == leading_zeros(bytes),
        leading_zeros(bytes) <= base58_text(bytes).len(),
        forall|i: int| 0 <= i < leading_zeros(bytes) ==> base58_text(bytes)[i] == '1',
{
    lemma_alphabet();
    lemma_digits(be_value(bytes));
    lemma_leading_run_is(base58_text(bytes), '1', leading_zeros(bytes));
}

/// Decoding the base-58 text of any bytes gives those bytes back.
pub proof fn lemma_decode_inverts_encode(bytes: Seq<u8>)
    ensures
        base58_bytes(base58_text(bytes)) == Some(bytes),
{
    let zeros = leading_zeros(bytes);
    let value = be_value(bytes);
    let digits = base58_digits(value);
    lemma_alphabet();
    lemma_digits(value);
    lemma_text_keeps_leading_zeros(bytes);
    // Read back, the text gives a zero digit for each leading `'1'`, then the
    // digits of the value.
    let read = base58_text(bytes).map_values(|c: char| digit_of(c));
    assert(read =~= Seq::new(zeros, |i: int| 0nat) + digits);
    lemma_value_skips_zero_digits(zeros, digits);
    lemma_digits_value(value);
    // The bytes of the value are the input without its leading zeros.
    lemma_be_bytes_of_value(bytes);
    lemma_leading_run(bytes, 0u8);
}

/// A base-58 text is at least as long as the bytes it encodes.
pub proof fn lemma_text_is_no_shorter(bytes: Seq<u8>)
    ensures
        bytes.len() <= base58_text(bytes).len(),
{
    lemma_be_bytes_of_value(bytes);
    lemma_digits_outnumber_bytes(be_value(bytes));
}

/// The base-58 text of bytes that spell a number below the `count`-th power
/// of 58 has at most `count` characters after its leading `'1'`s.
pub proof fn lemma_text_length_below_power(bytes: Seq<u8>, count: nat)
    requires
        power(256, (bytes.len() - leading_zeros(bytes)) as nat) <= power(58, count),
    ensures
        base58_text(bytes).len() <= leading_zeros(bytes) + count,
{
    lemma_leading_run(bytes, 0u8);
    lemma_be_value_skips_zero_bytes(bytes);
    lemma_be_value_below_power(bytes.skip(leading_zeros(bytes) as int));
    lemma_digit_count_below_power(be_value(bytes), count);
}

} // verus!
