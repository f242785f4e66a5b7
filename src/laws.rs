//! General properties of sets, stated over the contracts of their operations.

use vstd::prelude::*;

use crate::bitset::{members_of, universe, Bitset};

verus! {

/// Inserting a value from 0 to 127 into an empty set makes it a member, and
/// the set is then not empty.
pub proof fn lemma_insert_into_empty(s: Bitset, v: u128)
    requires
        s@ == Set::<u128>::empty(),
        v < 128,
    ensures
        s@.insert(v).contains(v),
        s@.insert(v) != Set::<u128>::empty(),
{
    assert(s@.insert(v).contains(v));
}

/// A value above 127 is never a member, so a refused insertion leaves
/// every question of membership as it was.
pub proof fn lemma_no_member_above_range(s: Bitset, v: u128)
    requires
        v >= 128,
    ensures
        !s@.contains(v),
        s@.subset_of(universe()),
{
}

/// A cleared set is empty, whatever it held before.
pub proof fn lemma_cleared_is_empty(s: Bitset)
    requires
        s.word() == 0,
    ensures
        s@ == Set::<u128>::empty(),
{
    crate::bitset::lemma_members_of_zero();
}

/// Inserting a value twice: the second insertion finds it present, and the
/// set after two insertions is the set after one.
pub proof fn lemma_insert_twice(s: Bitset, v: u128)
    requires
        v < 128,
    ensures
        !s@.contains(v) ==> s@.insert(v) != s@,
        s@.insert(v).contains(v),
        s@.insert(v).insert(v) == s@.insert(v),
        (s.word() | (1u128 << v)) | (1u128 << v) == s.word() | (1u128 << v),
{
    assert(s@.insert(v).insert(v) =~= s@.insert(v));
    let w = s.word();
    assert((w | (1u128 << v)) | (1u128 << v) == w | (1u128 << v)) by (bit_vector);
}

/// A set built in place by union holds the same value as the union built
/// as a new set.
pub proof fn lemma_union_in_place(a: Bitset, b: Bitset, in_place: Bitset)
    requires
        in_place@ == a@.union(b@),
    ensures
        in_place == Bitset::from_word(a.word() | b.word()),
{
    crate::bitset::lemma_members_of_or(a.word(), b.word());
    Bitset::lemma_from_word(a.word() | b.word());
    Bitset::lemma_view_determines(in_place, Bitset::from_word(a.word() | b.word()));
}

/// A set built in place by intersection holds the same value as the
/// intersection built as a new set.
pub proof fn lemma_intersection_in_place(a: Bitset, b: Bitset, in_place: Bitset)
    requires
        in_place@ == a@.intersect(b@),
    ensures
        in_place == Bitset::from_word(a.word() & b.word()),
{
    crate::bitset::lemma_members_of_and(a.word(), b.word());
    Bitset::lemma_from_word(a.word() & b.word());
    Bitset::lemma_view_determines(in_place, Bitset::from_word(a.word() & b.word()));
}

/// A set built in place by difference holds the same value as the
/// difference built as a new set.
pub proof fn lemma_difference_in_place(a: Bitset, b: Bitset, in_place: Bitset)
    requires
        in_place@ == a@.difference(b@),
    ensures
        in_place == Bitset::from_word(a.word() & !b.word()),
{
    crate::bitset::lemma_members_of_and_not(a.word(), b.word());
    Bitset::lemma_from_word(a.word() & !b.word());
    Bitset::lemma_view_determines(in_place, Bitset::from_word(a.word() & !b.word()));
}

/// Building a set from a raw word and reading the word back gives the word
/// that went in.
pub proof fn lemma_raw_round_trip(x: u128)
    ensures
        Bitset::from_word(x).word() == x,
        Bitset::from_word(x)@ == members_of(x),
{
    Bitset::lemma_from_word(x);
}

} // verus!
