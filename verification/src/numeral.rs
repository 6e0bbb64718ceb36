//! Positional numerals over character sequences.
//!
//! A string of digits in base `base` denotes the value obtained by the usual
//! left fold: start at zero, and for each character multiply by the base and
//! add the character's digit value. The digit value of a character is given
//! by a spec function, so both the Base58 codec and the decimal parser state
//! their contracts through the one definition.

use vstd::prelude::*;

verus! {

/// The value denoted by `s` read as a base-`base` numeral, where `digit`
/// gives each character's digit value. The empty sequence denotes zero.
pub open spec fn place_value(s: Seq<char>, digit: spec_fn(char) -> int, base: int) -> int
    decreases s.len(),
{
    if s.len() == 0 {
        0
    } else {
        place_value(s.drop_last(), digit, base) * base + digit(s.last())
    }
}

/// A numeral whose digit values are all non-negative denotes a non-negative
/// value.
pub proof fn lemma_place_value_nonneg(s: Seq<char>, digit: spec_fn(char) -> int, base: int)
    requires
        base >= 1,
        forall|i: int| 0 <= i < s.len() ==> #[trigger] digit(s[i]) >= 0,
    ensures
        place_value(s, digit, base) >= 0,
    decreases s.len(),
{
    if s.len() > 0 {
        let s2 = s.drop_last();
        assert(forall|i: int| 0 <= i < s2.len() ==> #[trigger] digit(s2[i]) >= 0);
        lemma_place_value_nonneg(s2, digit, base);
        assert(place_value(s2, digit, base) * base >= 0) by (nonlinear_arith)
            requires
                place_value(s2, digit, base) >= 0,
                base >= 1,
        ;
        assert(digit(s[s.len() - 1]) >= 0);
    }
}

/// Extending a numeral by one character multiplies its value by the base and
/// adds the new character's digit value.
pub proof fn lemma_place_value_step(s: Seq<char>, digit: spec_fn(char) -> int, base: int, i: int)
    requires
        0 <= i < s.len(),
    ensures
        place_value(s.take(i + 1), digit, base) == place_value(s.take(i), digit, base) * base
            + digit(s[i]),
{
    let p = s.take(i + 1);
    assert(p.drop_last() =~= s.take(i));
    assert(p.last() == s[i]);
}

/// Dropping characters from the end of a numeral with non-negative digit
/// values can only lower the value it denotes.
pub proof fn lemma_place_value_take_le(s: Seq<char>, digit: spec_fn(char) -> int, base: int, k: int)
    requires
        base >= 1,
        forall|i: int| 0 <= i < s.len() ==> #[trigger] digit(s[i]) >= 0,
        0 <= k <= s.len(),
    ensures
        place_value(s.take(k), digit, base) <= place_value(s, digit, base),
    decreases s.len(),
{
    if k == s.len() {
        assert(s.take(k) =~= s);
    } else {
        let s2 = s.drop_last();
        assert(forall|i: int| 0 <= i < s2.len() ==> #[trigger] digit(s2[i]) >= 0);
        assert(s.take(k) =~= s2.take(k));
        lemma_place_value_take_le(s2, digit, base, k);
        lemma_place_value_nonneg(s2, digit, base);
        assert(place_value(s2, digit, base) * base >= place_value(s2, digit, base))
            by (nonlinear_arith)
            requires
                place_value(s2, digit, base) >= 0,
                base >= 1,
        ;
        assert(digit(s[s.len() - 1]) >= 0);
    }
}

} // verus!
