//! Facts about single bits of a 128-bit word.

use vstd::prelude::*;

verus! {

/// The number of values a word can hold, one per bit.
pub const CAPACITY: u128 = 128;

/// Bit `i` of `x` is set.
pub open spec fn has_bit(x: u128, i: u128) -> bool {
    x & (1u128 << i) != 0
}

/// A bit of `a | b` is set when it is set in either word.
pub proof fn lemma_bit_or(a: u128, b: u128, i: u128)
    requires
        i < 128,
    ensures
        has_bit(a | b, i) == (has_bit(a, i) || has_bit(b, i)),
{
    assert((a | b) & (1u128 << i) != 0 <==> (a & (1u128 << i) != 0 || b & (1u128 << i) != 0))
        by (bit_vector)
        requires
            i < 128,
    ;
}

/// A bit of `a & b` is set when it is set in both words.
pub proof fn lemma_bit_and(a: u128, b: u128, i: u128)
    requires
        i < 128,
    ensures
        has_bit(a & b, i) == (has_bit(a, i) && has_bit(b, i)),
{
    assert((a & b) & (1u128 << i) != 0 <==> (a & (1u128 << i) != 0 && b & (1u128 << i) != 0))
        by (bit_vector)
        requires
            i < 128,
    ;
}

/// A bit of `!a` is set when it is clear in `a`.
pub proof fn lemma_bit_not(a: u128, i: u128)
    requires
        i < 128,
    ensures
        has_bit(!a, i) == !has_bit(a, i),
{
    assert((!a) & (1u128 << i) != 0 <==> !(a & (1u128 << i) != 0)) by (bit_vector)
        requires
            i < 128,
    ;
}

/// A bit of `a ^ b` is set when the two words differ there.
pub proof fn lemma_bit_xor(a: u128, b: u128, i: u128)
    requires
        i < 128,
    ensures
        has_bit(a ^ b, i) == (has_bit(a, i) != has_bit(b, i)),
{
    assert((a ^ b) & (1u128 << i) != 0 <==> (a & (1u128 << i) != 0) != (b & (1u128 << i) != 0))
        by (bit_vector)
        requires
            i < 128,
    ;
}

/// The word with only bit `k` set has no other bit.
pub proof fn lemma_bit_single(k: u128, i: u128)
    requires
        k < 128,
        i < 128,
    ensures
        has_bit(1u128 << k, i) == (i == k),
{
    assert((1u128 << k) & (1u128 << i) != 0 <==> i == k) by (bit_vector)
        requires
            k < 128,
            i < 128,
    ;
}

/// No bit of the zero word is set.
pub proof fn lemma_zero_has_no_bit(i: u128)
    requires
        i < 128,
    ensures
        !has_bit(0, i),
{
    assert(0u128 & (1u128 << i) == 0) by (bit_vector);
}

/// A word whose bits from `k` up are not all clear has a set bit there.
proof fn lemma_high_bit_set(x: u128, k: u128)
    requires
        k < 128,
        x >> k != 0,
    ensures
        exists|i: u128| k <= i < 128 && #[trigger] has_bit(x, i),
    decreases 128 - k,
{
    if x & (1u128 << k) != 0 {
        assert(has_bit(x, k));
    } else if k == 127 {
        assert(x >> k != 0 && x & (1u128 << k) == 0 && k == 127 ==> false) by (bit_vector);
    } else {
        assert(x >> k != 0 && x & (1u128 << k) == 0 && k < 127 ==> x >> (k + 1) as u128 != 0)
            by (bit_vector);
        lemma_high_bit_set(x, (k + 1) as u128);
    }
}

/// A word other than zero has a set bit.
pub proof fn lemma_nonzero_has_bit(x: u128)
    requires
        x != 0,
    ensures
        exists|i: u128| i < 128 && #[trigger] has_bit(x, i),
{
    assert(x >> 0u128 == x) by (bit_vector);
    lemma_high_bit_set(x, 0);
}

/// Two words with the same bits are the same word.
pub proof fn lemma_bits_determine_word(a: u128, b: u128)
    requires
        forall|i: u128| i < 128 ==> has_bit(a, i) == has_bit(b, i),
    ensures
        a == b,
{
    if a != b {
        assert(a ^ b != 0) by (bit_vector)
            requires
                a != b,
        ;
        lemma_nonzero_has_bit(a ^ b);
        let i = choose|i: u128| i < 128 && #[trigger] has_bit(a ^ b, i);
        lemma_bit_xor(a, b, i);
    }
}

} // verus!
