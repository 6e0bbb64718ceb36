//! The Base58 encoder and decoder for unsigned 64-bit integers.
//!
//! `b58_seq` is the canonical Base58 representation of an integer: repeated
//! division by 58, most-significant digit first, with 0 represented by the
//! single first alphabet character. `b58_value` reads a character sequence
//! back as a base-58 numeral. The executable functions are proved against
//! those two definitions.

use vstd::prelude::*;
use vstd::string::StrSliceExecFns;
use vstd::string::StringExecFns;

use crate::alphabet::b58_char;
use crate::alphabet::b58_char_str;
use crate::alphabet::b58_digit;
use crate::alphabet::b58_digit_of;
use crate::alphabet::is_b58_char;
use crate::alphabet::lemma_b58_char_digit;
use crate::error::ConvertError;
use crate::numeral::lemma_place_value_step;
use crate::numeral::lemma_place_value_take_le;
use crate::numeral::place_value;

verus! {

/// The digit-value function of the Base58 alphabet, as a first-class spec
/// function, so that the generic numeral lemmas apply to `b58_value`.
pub open spec fn b58_digit_fn() -> spec_fn(char) -> int {
    |c: char| b58_digit(c)
}

/// The value denoted by `s` read as a base-58 numeral. The empty sequence
/// denotes zero.
pub open spec fn b58_value(s: Seq<char>) -> int {
    place_value(s, b58_digit_fn(), 58)
}

/// Whether every character of `s` belongs to the Base58 alphabet.
pub open spec fn all_b58(s: Seq<char>) -> bool {
    forall|i: int| 0 <= i < s.len() ==> is_b58_char(#[trigger] s[i])
}

/// The canonical Base58 representation of `n`: most-significant digit first,
/// no leading padding, and the single digit 0 when `n` is zero.
pub open spec fn b58_seq(n: nat) -> Seq<char>
    decreases n,
{
    if n < 58 {
        seq![b58_char(n as int)]
    } else {
        b58_seq(n / 58) + seq![b58_char((n % 58) as int)]
    }
}

/// Whether some prefix of `s` made only of alphabet characters already
/// denotes a value beyond `u64::MAX`. Reading `s` left to right, the decoder
/// overflows exactly when such a prefix exists.
pub open spec fn overflow_prefix(s: Seq<char>) -> bool {
    exists|i: int|
        0 <= i < s.len() && all_b58(#[trigger] s.take(i + 1)) && b58_value(s.take(i + 1))
            > u64::MAX
}

proof fn lemma_b58_digits_nonneg(s: Seq<char>)
    requires
        all_b58(s),
    ensures
        forall|i: int| 0 <= i < s.len() ==> #[trigger] b58_digit_fn()(s[i]) >= 0,
{
    assert forall|i: int| 0 <= i < s.len() implies #[trigger] b58_digit_fn()(s[i]) >= 0 by {
        assert(is_b58_char(s[i]));
    }
}

proof fn lemma_b58_value_step(s: Seq<char>, i: int)
    requires
        0 <= i < s.len(),
    ensures
        b58_value(s.take(i + 1)) == b58_value(s.take(i)) * 58 + b58_digit(s[i]),
{
    lemma_place_value_step(s, b58_digit_fn(), 58, i);
}

proof fn lemma_b58_value_take_le(s: Seq<char>, k: int)
    requires
        all_b58(s),
        0 <= k <= s.len(),
    ensures
        b58_value(s.take(k)) <= b58_value(s),
{
    lemma_b58_digits_nonneg(s);
    lemma_place_value_take_le(s, b58_digit_fn(), 58, k);
}

/// The canonical representation of `n` is non-empty, made only of alphabet
/// characters, and denotes `n` itself.
pub proof fn lemma_b58_seq_value(n: nat)
    ensures
        b58_seq(n).len() >= 1,
        all_b58(b58_seq(n)),
        b58_value(b58_seq(n)) == n,
    decreases n,
{
    if n < 58 {
        let s = b58_seq(n);
        lemma_b58_char_digit(n as int);
        assert(s.drop_last() =~= Seq::<char>::empty());
        assert(place_value(Seq::<char>::empty(), b58_digit_fn(), 58) == 0);
        assert(b58_digit_fn()(s.last()) == n);
        assert(b58_value(s) == place_value(s.drop_last(), b58_digit_fn(), 58) * 58 + b58_digit_fn()(
            s.last(),
        ));
    } else {
        lemma_b58_seq_value(n / 58);
        lemma_b58_char_digit((n % 58) as int);
        let a = b58_seq(n / 58);
        let s = b58_seq(n);
        assert(s.drop_last() =~= a);
        assert(s.last() == b58_char((n % 58) as int));
        assert(b58_digit_fn()(s.last()) == n % 58);
        assert(b58_value(s) == b58_value(a) * 58 + n % 58);
        assert(n / 58 * 58 + n % 58 == n);
        assert(all_b58(s)) by {
            assert forall|i: int| 0 <= i < s.len() implies is_b58_char(#[trigger] s[i]) by {
                if i < a.len() {
                    assert(s[i] == a[i]);
                } else {
                    assert(s[i] == b58_char((n % 58) as int));
                }
            }
        }
    }
}

/// Round trip: for every unsigned 64-bit integer `n`, the canonical Base58
/// representation that the encoder returns is made only of alphabet
/// characters, never overflows the decoder, and decodes back to `n`.
pub proof fn lemma_round_trip(n: u64)
    ensures
        all_b58(b58_seq(n as nat)),
        b58_value(b58_seq(n as nat)) == n,
        !overflow_prefix(b58_seq(n as nat)),
{
    lemma_b58_seq_value(n as nat);
    let s = b58_seq(n as nat);
    assert forall|i: int|
        0 <= i < s.len() && all_b58(#[trigger] s.take(i + 1)) implies b58_value(s.take(i + 1))
        <= u64::MAX by {
        lemma_b58_value_take_le(s, i + 1);
    }
}

/// The characters of the digit values in `digits`, read back to front, so
/// that a least-significant-first accumulation reads most-significant first.
spec fn chars_of_rev(digits: Seq<u8>) -> Seq<char> {
    Seq::new(digits.len(), |i: int| b58_char(digits[digits.len() - 1 - i] as int))
}

/// Encode `n` in Base58: repeated division by 58, remainders mapped through
/// the alphabet, most-significant digit first. Zero encodes as the single
/// first alphabet character.
pub fn encode_base58(n: u64) -> (r: String)
    ensures
        r@ == b58_seq(n as nat),
        all_b58(r@),
        b58_value(r@) == n,
{
    proof {
        lemma_b58_seq_value(n as nat);
    }
    let mut digits: Vec<u8> = Vec::new();
    let mut m: u64 = n;
    while m >= 58
        invariant
            b58_seq(n as nat) == b58_seq(m as nat) + chars_of_rev(digits@),
            forall|k: int| 0 <= k < digits@.len() ==> #[trigger] digits@[k] < 58,
        decreases m,
    {
        let d: u8 = (m % 58) as u8;
        proof {
            assert(chars_of_rev(digits@.push(d)) =~= seq![b58_char(d as int)] + chars_of_rev(
                digits@,
            ));
            assert(b58_seq(m as nat) + chars_of_rev(digits@) =~= b58_seq((m / 58) as nat) + (seq![
                b58_char(d as int),
            ] + chars_of_rev(digits@)));
        }
        digits.push(d);
        m = m / 58;
    }
    proof {
        assert(chars_of_rev(digits@.push(m as u8)) =~= seq![b58_char(m as int)] + chars_of_rev(
            digits@,
        ));
        assert(b58_seq(m as nat) + chars_of_rev(digits@) =~= chars_of_rev(digits@.push(m as u8)));
    }
    digits.push(m as u8);
    let ghost target: Seq<char> = b58_seq(n as nat);
    let mut r: String = String::new();
    let mut i: usize = digits.len();
    while i > 0
        invariant
            i <= digits.len(),
            forall|k: int| 0 <= k < digits@.len() ==> #[trigger] digits@[k] < 58,
            target == chars_of_rev(digits@),
            r@ == chars_of_rev(digits@).take(digits@.len() - i),
        decreases i,
    {
        i = i - 1;
        let part = b58_char_str(digits[i]);
        r.append(part);
        proof {
            assert(chars_of_rev(digits@)[digits@.len() - 1 - i] == b58_char(digits@[i as int] as int));
            assert(r@ =~= chars_of_rev(digits@).take(digits@.len() - i));
        }
    }
    proof {
        assert(r@ =~= chars_of_rev(digits@));
    }
    r
}

/// Decode a Base58 string into the integer it denotes, reading the first
/// character as the most significant digit.
///
/// The empty string decodes to 0: the accumulation performs no steps and the
/// accumulator keeps its initial value. A character outside the alphabet is
/// rejected with `InvalidCharacter`; a value that no longer fits in a `u64`
/// is rejected with `Overflow`. The errors follow reading order: `Overflow`
/// is reported only when the overflowing all-alphabet prefix ends before any
/// invalid character.
pub fn decode_base58(s: &str) -> (r: Result<u64, ConvertError>)
    ensures
        r is Ok <==> all_b58(s@) && b58_value(s@) <= u64::MAX,
        r matches Ok(v) ==> v == b58_value(s@),
        r == Err::<u64, ConvertError>(ConvertError::Overflow) <==> overflow_prefix(s@),
        r == Err::<u64, ConvertError>(ConvertError::InvalidCharacter) <==> !all_b58(s@)
            && !overflow_prefix(s@),
{
    let n: usize = s.unicode_len();
    let mut num: u64 = 0;
    let mut i: usize = 0;
    while i < n
        invariant
            i <= n,
            n == s@.len(),
            all_b58(s@.take(i as int)),
            num == b58_value(s@.take(i as int)),
        decreases n - i,
    {
        let c = s.get_char(i);
        match b58_digit_of(c) {
            None => {
                proof {
                    assert(!is_b58_char(s@[i as int]));
                    assert(!all_b58(s@));
                    assert forall|j: int|
                        0 <= j < s@.len() && all_b58(#[trigger] s@.take(j + 1)) implies b58_value(
                        s@.take(j + 1),
                    ) <= u64::MAX by {
                        if j >= i {
                            assert(s@.take(j + 1)[i as int] == s@[i as int]);
                            assert(is_b58_char(s@.take(j + 1)[i as int]));
                            assert(false);
                        } else {
                            assert(s@.take(j + 1) =~= s@.take(i as int).take(j + 1));
                            lemma_b58_value_take_le(s@.take(i as int), j + 1);
                        }
                    }
                    assert(!overflow_prefix(s@));
                }
                return Err(ConvertError::InvalidCharacter);
            },
            Some(d) => {
                proof {
                    lemma_b58_value_step(s@, i as int);
                    assert(all_b58(s@.take(i as int + 1))) by {
                        assert forall|j: int|
                            0 <= j < s@.take(i as int + 1).len() implies is_b58_char(
                            #[trigger] s@.take(i as int + 1)[j],
                        ) by {
                            if j < i {
                                assert(s@.take(i as int + 1)[j] == s@.take(i as int)[j]);
                            } else {
                                assert(s@.take(i as int + 1)[j] == s@[i as int]);
                            }
                        }
                    }
                }
                if num > (u64::MAX - (d as u64)) / 58 {
                    proof {
                        assert(num * 58 + d > u64::MAX);
                        assert(b58_value(s@.take(i as int + 1)) > u64::MAX);
                        assert(overflow_prefix(s@));
                        if all_b58(s@) {
                            lemma_b58_value_take_le(s@, i as int + 1);
                        }
                    }
                    return Err(ConvertError::Overflow);
                }
                proof {
                    assert(num * 58 + d <= u64::MAX);
                }
                num = num * 58 + (d as u64);
            },
        }
        i = i + 1;
    }
    proof {
        assert(s@.take(n as int) =~= s@);
        assert forall|j: int|
            0 <= j < s@.len() && all_b58(#[trigger] s@.take(j + 1)) implies b58_value(
            s@.take(j + 1),
        ) <= u64::MAX by {
            lemma_b58_value_take_le(s@, j + 1);
        }
        assert(!overflow_prefix(s@));
    }
    Ok(num)
}

} // verus!
