//! A verified decimal parser for unsigned 64-bit integers.
//!
//! The encoder's caller reads its integer as text; this module validates that
//! text. A string parses exactly when it is non-empty, made only of the
//! digits `0` to `9`, and denotes a value that fits in a `u64`; anything
//! else — including a sign, surrounding whitespace, or a value beyond the
//! range — is rejected as `InvalidInteger`.

use vstd::prelude::*;
use vstd::string::StrSliceExecFns;

use crate::error::ConvertError;
use crate::numeral::lemma_place_value_step;
use crate::numeral::lemma_place_value_take_le;
use crate::numeral::place_value;

verus! {

/// The digit value of the character `c`, or `-1` when `c` is not a decimal
/// digit.
pub open spec fn dec_digit(c: char) -> int {
    if c == '0' { 0
    } else if c == '1' { 1
    } else if c == '2' { 2
    } else if c == '3' { 3
    } else if c == '4' { 4
    } else if c == '5' { 5
    } else if c == '6' { 6
    } else if c == '7' { 7
    } else if c == '8' { 8
    } else if c == '9' { 9
    } else { -1
    }
}

/// Whether `c` is one of the ten decimal digits.
pub open spec fn is_dec_digit(c: char) -> bool {
    dec_digit(c) >= 0
}

/// The digit-value function of the decimal digits, as a first-class spec
/// function, so that the generic numeral lemmas apply to `dec_value`.
pub open spec fn dec_digit_fn() -> spec_fn(char) -> int {
    |c: char| dec_digit(c)
}

/// The value denoted by `s` read as a decimal numeral. The empty sequence
/// denotes zero.
pub open spec fn dec_value(s: Seq<char>) -> int {
    place_value(s, dec_digit_fn(), 10)
}

/// Whether every character of `s` is a decimal digit.
pub open spec fn all_dec(s: Seq<char>) -> bool {
    forall|i: int| 0 <= i < s.len() ==> is_dec_digit(#[trigger] s[i])
}

proof fn lemma_dec_digits_nonneg(s: Seq<char>)
    requires
        all_dec(s),
    ensures
        forall|i: int| 0 <= i < s.len() ==> #[trigger] dec_digit_fn()(s[i]) >= 0,
{
    assert forall|i: int| 0 <= i < s.len() implies #[trigger] dec_digit_fn()(s[i]) >= 0 by {
        assert(is_dec_digit(s[i]));
    }
}

proof fn lemma_dec_value_take_le(s: Seq<char>, k: int)
    requires
        all_dec(s),
        0 <= k <= s.len(),
    ensures
        dec_value(s.take(k)) <= dec_value(s),
{
    lemma_dec_digits_nonneg(s);
    lemma_place_value_take_le(s, dec_digit_fn(), 10, k);
}

/// The decimal digit value of `c`, or `None` when `c` is not a digit.
fn dec_digit_of(c: char) -> (r: Option<u8>)
    ensures
        r is Some <==> is_dec_digit(c),
        r is Some ==> r->0 == dec_digit(c) && r->0 < 10,
{
    match c {
        '0' => Some(0),
        '1' => Some(1),
        '2' => Some(2),
        '3' => Some(3),
        '4' => Some(4),
        '5' => Some(5),
        '6' => Some(6),
        '7' => Some(7),
        '8' => Some(8),
        '9' => Some(9),
        _ => None,
    }
}

/// Parse `s` as an unsigned 64-bit decimal integer.
///
/// Parsing succeeds exactly when `s` is non-empty, every character is a
/// decimal digit, and the denoted value fits in a `u64`; every failure is
/// reported as `InvalidInteger`.
pub fn parse_u64(s: &str) -> (r: Result<u64, ConvertError>)
    ensures
        r is Ok <==> s@.len() > 0 && all_dec(s@) && dec_value(s@) <= u64::MAX,
        r matches Ok(v) ==> v == dec_value(s@),
        r is Err ==> r == Err::<u64, ConvertError>(ConvertError::InvalidInteger),
{
    let n: usize = s.unicode_len();
    if n == 0 {
        return Err(ConvertError::InvalidInteger);
    }
    let mut num: u64 = 0;
    let mut i: usize = 0;
    while i < n
        invariant
            i <= n,
            n == s@.len(),
            all_dec(s@.take(i as int)),
            num == dec_value(s@.take(i as int)),
        decreases n - i,
    {
        let c = s.get_char(i);
        match dec_digit_of(c) {
            None => {
                proof {
                    assert(!is_dec_digit(s@[i as int]));
                    assert(!all_dec(s@));
                }
                return Err(ConvertError::InvalidInteger);
            },
            Some(d) => {
                proof {
                    lemma_place_value_step(s@, dec_digit_fn(), 10, i as int);
                    assert(all_dec(s@.take(i as int + 1))) by {
                        assert forall|j: int|
                            0 <= j < s@.take(i as int + 1).len() implies is_dec_digit(
                            #[trigger] s@.take(i as int + 1)[j],
                        ) by {
                            if j < i {
                                assert(s@.take(i as int + 1)[j] == s@.take(i as int)[j]);
                            } else {
                                assert(s@.take(i as int + 1)[j] == s@[i as int]);
                            }
                        }
                    }
                }
                if num > (u64::MAX - (d as u64)) / 10 {
                    proof {
                        assert(num * 10 + d > u64::MAX);
                        if all_dec(s@) {
                            lemma_dec_value_take_le(s@, i as int + 1);
                        }
                    }
                    return Err(ConvertError::InvalidInteger);
                }
                proof {
                    assert(num * 10 + d <= u64::MAX);
                }
                num = num * 10 + (d as u64);
            },
        }
        i = i + 1;
    }
    proof {
        assert(s@.take(n as int) =~= s@);
    }
    Ok(num)
}

} // verus!
