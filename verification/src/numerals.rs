//! Numbers written as bytes and as base-58 digits.
//!
//! A byte string is read as a number in base 256 with its first byte most
//! significant, and a number is written in base 58 with its first digit most
//! significant. Zeros at the front of a numeral do not count: they are
//! measured apart, as the leading run of a sequence.

use vstd::prelude::*;

verus! {

/// How many elements at the front of `s` equal `x`.
pub open spec fn leading_run<T>(s: Seq<T>, x: T) -> nat
    decreases s.len(),
{
    if s.len() > 0 && s[0] == x {
        1 + leading_run(s.drop_first(), x)
    } else {
        0
    }
}

/// How many bytes at the front of `bytes` are zero.
pub open spec fn leading_zeros(bytes: Seq<u8>) -> nat {
    leading_run(bytes, 0u8)
}

/// The number that `bytes` spells in base 256, first byte most significant.
pub open spec fn be_value(bytes: Seq<u8>) -> nat
    decreases bytes.len(),
{
    if bytes.len() == 0 {
        0
    } else {
        be_value(bytes.drop_last()) * 256 + bytes.last() as nat
    }
}

/// The bytes of `n` in base 256, most significant first; no byte for zero.
pub open spec fn be_bytes(n: nat) -> Seq<u8>
    decreases n,
{
    if n == 0 {
        Seq::empty()
    } else {
        be_bytes(n / 256).push((n % 256) as u8)
    }
}

/// The digits of `n` in base 58, most significant first; no digit for zero.
pub open spec fn base58_digits(n: nat) -> Seq<nat>
    decreases n,
{
    if n == 0 {
        Seq::empty()
    } else {
        base58_digits(n / 58).push(n % 58)
    }
}

/// The number that `digits` spell in base 58, first digit most significant.
pub open spec fn digits_value(digits: Seq<nat>) -> nat
    decreases digits.len(),
{
    if digits.len() == 0 {
        0
    } else {
        digits_value(digits.drop_last()) * 58 + digits.last()
    }
}

/// `base` multiplied by itself `exponent` times.
pub open spec fn power(base: nat, exponent: nat) -> nat
    decreases exponent,
{
    if exponent == 0 {
        1
    } else {
        base * power(base, (exponent - 1) as nat)
    }
}

/// A leading run stays within the sequence, covers only elements equal to
/// `x`, and ends at an element that differs from `x`.
pub proof fn lemma_leading_run<T>(s: Seq<T>, x: T)
    ensures
        leading_run(s, x) <= s.len(),
        forall|i: int| 0 <= i < leading_run(s, x) ==> s[i] == x,
        leading_run(s, x) < s.len() ==> s[leading_run(s, x) as int] != x,
    decreases s.len(),
{
    if s.len() > 0 && s[0] == x {
        let rest = s.drop_first();
        lemma_leading_run(rest, x);
        assert forall|i: int| 0 <= i < leading_run(s, x) implies s[i] == x by {
            if i > 0 {
                assert(s[i] == rest[i - 1]);
            }
        }
    }
}

/// A prefix of elements equal to `x` that ends the sequence, or ends at an
/// element that differs from `x`, is the leading run.
pub proof fn lemma_leading_run_is<T>(s: Seq<T>, x: T, k: nat)
    requires
        k <= s.len(),
        forall|i: int| 0 <= i < k ==> s[i] == x,
        k < s.len() ==> s[k as int] != x,
    ensures
        leading_run(s, x) == k,
    decreases k,
{
    if k > 0 {
        lemma_leading_run_is(s.drop_first(), x, (k - 1) as nat);
    }
}

/// A byte string spells zero exactly when all its bytes are zero.
pub proof fn lemma_be_value_zero(bytes: Seq<u8>)
    ensures
        be_value(bytes) == 0 <==> leading_zeros(bytes) == bytes.len(),
    decreases bytes.len(),
{
    lemma_leading_run(bytes, 0u8);
    if bytes.len() > 0 {
        let front = bytes.drop_last();
        lemma_be_value_zero(front);
        lemma_leading_run(front, 0u8);
        if be_value(bytes) == 0 {
            assert forall|i: int| 0 <= i < bytes.len() implies bytes[i] == 0u8 by {
                if i < front.len() {
                    assert(front[i] == bytes[i]);
                }
            }
        }
    }
}

/// Zero bytes in front of a byte string do not change the number it spells.
pub proof fn lemma_be_value_skips_zero_bytes(bytes: Seq<u8>)
    ensures
        be_value(bytes.skip(leading_zeros(bytes) as int)) == be_value(bytes),
    decreases bytes.len(),
{
    lemma_leading_run(bytes, 0u8);
    let zeros = leading_zeros(bytes);
    if zeros == bytes.len() {
        lemma_be_value_zero(bytes);
    } else {
        let front = bytes.drop_last();
        lemma_leading_run_is(front, 0u8, zeros);
        lemma_be_value_skips_zero_bytes(front);
        assert(bytes.skip(zeros as int).drop_last() == front.skip(zeros as int));
    }
}

/// A byte string spells a number below 256 to the power of its length.
pub proof fn lemma_be_value_below_power(bytes: Seq<u8>)
    ensures
        be_value(bytes) < power(256, bytes.len()),
    decreases bytes.len(),
{
    if bytes.len() > 0 {
        lemma_be_value_below_power(bytes.drop_last());
    }
}

/// The bytes of the number that a byte string spells are that byte string
/// without its leading zeros.
pub proof fn lemma_be_bytes_of_value(bytes: Seq<u8>)
    ensures
        be_bytes(be_value(bytes)) == bytes.skip(leading_zeros(bytes) as int),
    decreases bytes.len(),
{
    lemma_be_value_zero(bytes);
    if be_value(bytes) != 0 {
        let front = bytes.drop_last();
        lemma_be_bytes_of_value(front);
        lemma_leading_run(front, 0u8);
        lemma_be_value_zero(front);
        let k = leading_zeros(front);
        assert forall|i: int| 0 <= i < k implies bytes[i] == 0u8 by {
            assert(front[i] == bytes[i]);
        }
        lemma_leading_run_is(bytes, 0u8, k);
    }
}

/// The digits of a number are below 58, and the first of them is not zero.
pub proof fn lemma_digits(n: nat)
    ensures
        forall|i: int| 0 <= i < base58_digits(n).len() ==> #[trigger] base58_digits(n)[i] < 58,
        n > 0 ==> base58_digits(n).len() > 0 && base58_digits(n)[0] != 0,
        n == 0 ==> base58_digits(n).len() == 0,
    decreases n,
{
    if n > 0 {
        lemma_digits(n / 58);
    }
}

/// The digits of a number spell that number.
pub proof fn lemma_digits_value(n: nat)
    ensures
        digits_value(base58_digits(n)) == n,
    decreases n,
{
    if n > 0 {
        lemma_digits_value(n / 58);
        assert(base58_digits(n).drop_last() == base58_digits(n / 58));
    }
}

/// Zero digits in front of a numeral do not change its value.
pub proof fn lemma_value_skips_zero_digits(zeros: nat, digits: Seq<nat>)
    ensures
        digits_value(Seq::new(zeros, |i: int| 0nat) + digits) == digits_value(digits),
    decreases digits.len(), zeros,
{
    let front = Seq::new(zeros, |i: int| 0nat);
    if digits.len() > 0 {
        lemma_value_skips_zero_digits(zeros, digits.drop_last());
        assert((front + digits).drop_last() == front + digits.drop_last());
    } else if zeros > 0 {
        lemma_value_skips_zero_digits((zeros - 1) as nat, digits);
        assert(front.drop_last() == Seq::new((zeros - 1) as nat, |i: int| 0nat));
    }
}

/// A smaller number has no more digits than a larger one.
pub proof fn lemma_digit_count_grows(a: nat, b: nat)
    requires
        a <= b,
    ensures
        base58_digits(a).len() <= base58_digits(b).len(),
    decreases b,
{
    if a > 0 {
        lemma_digit_count_grows(a / 58, b / 58);
    }
}

/// A number below the `count`-th power of 58 has at most `count` digits.
pub proof fn lemma_digit_count_below_power(n: nat, count: nat)
    requires
        n < power(58, count),
    ensures
        base58_digits(n).len() <= count,
    decreases count,
{
    if n > 0 {
        lemma_digit_count_below_power(n / 58, (count - 1) as nat);
    }
}

/// A number has at least as many digits in base 58 as bytes in base 256.
pub proof fn lemma_digits_outnumber_bytes(n: nat)
    ensures
        be_bytes(n).len() <= base58_digits(n).len(),
    decreases n,
{
    if n > 0 {
        lemma_digits_outnumber_bytes(n / 256);
        lemma_digit_count_grows(n / 256, n / 58);
    }
}

} // verus!
