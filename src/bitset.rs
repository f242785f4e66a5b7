//! The set type and its operations.

use vstd::prelude::*;

use crate::bits::{
    has_bit, lemma_bit_and, lemma_bit_not, lemma_bit_or, lemma_bit_single, lemma_bits_determine_word,
    lemma_nonzero_has_bit, lemma_zero_has_no_bit, CAPACITY,
};

verus! {

/// The values a set can hold: 0 to 127.
pub open spec fn universe() -> Set<u128> {
    Set::new(|v: u128| v < 128)
}

/// The values whose bits are set in `x`.
pub open spec fn members_of(x: u128) -> Set<u128> {
    Set::new(|v: u128| v < 128 && has_bit(x, v))
}

/// Why an insertion was refused.
#[derive(Debug, Clone, Copy, PartialEq, Eq, Structural)]
pub enum BitsetError {
    /// The value is above 127.
    OutOfRange,
}

/// A set of integers from 0 to 127: value `i` is a member when bit `i` of
/// `data` is set.
#[derive(Debug, Clone, Copy, PartialEq, Eq, Structural)]
pub struct Bitset {
    data: u128,
}

impl View for Bitset {
    type V = Set<u128>;

    open spec fn view(&self) -> Set<u128> {
        members_of(self.word())
    }
}

impl Bitset {
    /// The word that stores the set.
    pub closed spec fn word(&self) -> u128 {
        self.data
    }

    /// The set stored in the word `x`.
    pub closed spec fn from_word(x: u128) -> Bitset {
        Bitset { data: x }
    }

    /// The word of the set stored in `x` is `x`.
    pub proof fn lemma_from_word(x: u128)
        ensures
            Bitset::from_word(x).word() == x,
            Bitset::from_word(x)@ == members_of(x),
    {
    }

    /// Two sets with the same members are the same value: the word is the
    /// one form of its set.
    pub proof fn lemma_view_determines(a: Bitset, b: Bitset)
        requires
            a@ == b@,
        ensures
            a == b,
    {
        assert forall|i: u128| i < 128 implies has_bit(a.data, i) == has_bit(b.data, i) by {
            assert(members_of(a.data).contains(i) == members_of(b.data).contains(i));
        }
        lemma_bits_determine_word(a.data, b.data);
    }

    /// An empty set.
    pub fn new() -> (r: Bitset)
        ensures
            r.word() == 0,
            r@ == Set::<u128>::empty(),
    {
        let r = Bitset { data: 0 };
        proof {
            lemma_members_of_zero();
        }
        r
    }

    /// Whether `value` is a member. `value` must be below 128.
    pub fn contains(&self, value: u128) -> (r: bool)
        requires
            value < 128,
        ensures
            r == self@.contains(value),
            r == has_bit(self.word(), value),
    {
        let mask: u128 = 1u128 << value;
        self.data & mask != 0
    }

    /// Adds `value` to the set and tells whether it was there before.
    /// A value above 127 is refused and the set is left as it was.
    pub fn insert(&mut self, value: u128) -> (r: Result<bool, BitsetError>)
        ensures
            value >= 128 <==> r == Err::<bool, BitsetError>(BitsetError::OutOfRange),
            value >= 128 ==> *final(self) == *old(self),
            value < 128 ==> r == Ok::<bool, BitsetError>(old(self)@.contains(value)),
            value < 128 ==> final(self)@ == old(self)@.insert(value),
            value < 128 ==> final(self).word() == old(self).word() | (1u128 << value),
    {
        if value >= CAPACITY {
            return Err(BitsetError::OutOfRange);
        }
        let mask: u128 = 1u128 << value;
        let exists = self.data & mask != 0;
        self.data = self.data | mask;
        proof {
            lemma_members_of_insert(old(self).data, value);
        }
        Ok(exists)
    }

    /// Removes every member.
    pub fn clear(&mut self)
        ensures
            final(self).word() == 0,
            final(self)@ == Set::<u128>::empty(),
    {
        self.data = 0;
        proof {
            lemma_members_of_zero();
        }
    }

    /// Whether the set has no member.
    pub fn is_empty(&self) -> (r: bool)
        ensures
            r == (self@ == Set::<u128>::empty()),
            r == (self.word() == 0),
    {
        proof {
            lemma_members_of_zero();
            lemma_empty_only_zero(self.data);
        }
        self.data == 0
    }

    /// The word that stores the set: bit `i` is set when `i` is a member.
    pub fn to_raw(&self) -> (r: u128)
        ensures
            r == self.word(),
    {
        self.data
    }
}

/// The members of `a | b` are those of either word.
pub proof fn lemma_members_of_or(a: u128, b: u128)
    ensures
        members_of(a | b) == members_of(a).union(members_of(b)),
{
    assert forall|v: u128| #[trigger] members_of(a | b).contains(v) == members_of(a).union(
        members_of(b),
    ).contains(v) by {
        if v < 128 {
            lemma_bit_or(a, b, v);
        }
    }
    assert(members_of(a | b) =~= members_of(a).union(members_of(b)));
}

/// The members of `a & b` are those of both words.
pub proof fn lemma_members_of_and(a: u128, b: u128)
    ensures
        members_of(a & b) == members_of(a).intersect(members_of(b)),
{
    assert forall|v: u128| #[trigger] members_of(a & b).contains(v) == members_of(a).intersect(
        members_of(b),
    ).contains(v) by {
        if v < 128 {
            lemma_bit_and(a, b, v);
        }
    }
    assert(members_of(a & b) =~= members_of(a).intersect(members_of(b)));
}

/// The members of `!a` are the values from 0 to 127 that `a` lacks.
pub proof fn lemma_members_of_not(a: u128)
    ensures
        members_of(!a) == universe().difference(members_of(a)),
{
    assert forall|v: u128| #[trigger] members_of(!a).contains(v) == universe().difference(
        members_of(a),
    ).contains(v) by {
        if v < 128 {
            lemma_bit_not(a, v);
        }
    }
    assert(members_of(!a) =~= universe().difference(members_of(a)));
}

/// The members of `a & !b` are those of `a` that `b` lacks.
pub proof fn lemma_members_of_and_not(a: u128, b: u128)
    ensures
        members_of(a & !b) == members_of(a).difference(members_of(b)),
{
    lemma_members_of_and(a, !b);
    lemma_members_of_not(b);
    assert(members_of(a & !b) =~= members_of(a).difference(members_of(b)));
}

/// Setting bit `value` of a word adds `value` to its members.
proof fn lemma_members_of_insert(x: u128, value: u128)
    requires
        value < 128,
    ensures
        members_of(x | (1u128 << value)) == members_of(x).insert(value),
{
    let mask = 1u128 << value;
    assert forall|v: u128| #[trigger] members_of(x | mask).contains(v) == members_of(x).insert(
        value,
    ).contains(v) by {
        if v < 128 {
            lemma_bit_or(x, mask, v);
            lemma_bit_single(value, v);
        }
    }
    assert(members_of(x | mask) =~= members_of(x).insert(value));
}

impl From<u128> for Bitset {
    /// The set whose members are the set bits of `value`.
    fn from(value: u128) -> (r: Bitset)
        ensures
            r == Bitset::from_word(value),
            r.word() == value,
            r@ == members_of(value),
    {
        Bitset { data: value }
    }
}

impl vstd::std_specs::convert::FromSpecImpl<u128> for Bitset {
    open spec fn obeys_from_spec() -> bool {
        true
    }

    open spec fn from_spec(v: u128) -> Bitset {
        Bitset::from_word(v)
    }
}

impl core::ops::BitAnd for Bitset {
    type Output = Bitset;

    /// The intersection: the values in both sets.
    fn bitand(self, rhs: Bitset) -> (r: Bitset)
        ensures
            r == Bitset::from_word(self.word() & rhs.word()),
            r@ == self@.intersect(rhs@),
    {
        proof {
            lemma_members_of_and(self.data, rhs.data);
        }
        Bitset::from(self.data & rhs.data)
    }
}

impl vstd::std_specs::ops::BitAndSpecImpl for Bitset {
    open spec fn obeys_bitand_spec() -> bool {
        true
    }

    open spec fn bitand_req(self, rhs: Bitset) -> bool {
        true
    }

    open spec fn bitand_spec(self, rhs: Bitset) -> Bitset {
        Bitset::from_word(self.word() & rhs.word())
    }
}

impl core::ops::BitAndAssign for Bitset {
    /// Keeps only the values that are also in `rhs`.
    fn bitand_assign(&mut self, rhs: Bitset)
        ensures
            *final(self) == Bitset::from_word(old(self).word() & rhs.word()),
            final(self)@ == old(self)@.intersect(rhs@),
    {
        proof {
            lemma_members_of_and(self.data, rhs.data);
        }
        *self = Bitset::from(self.data & rhs.data);
    }
}

impl core::ops::BitOr for Bitset {
    type Output = Bitset;

    /// The union: the values in either set.
    fn bitor(self, rhs: Bitset) -> (r: Bitset)
        ensures
            r == Bitset::from_word(self.word() | rhs.word()),
            r@ == self@.union(rhs@),
    {
        proof {
            lemma_members_of_or(self.data, rhs.data);
        }
        Bitset::from(self.data | rhs.data)
    }
}

impl vstd::std_specs::ops::BitOrSpecImpl for Bitset {
    open spec fn obeys_bitor_spec() -> bool {
        true
    }

    open spec fn bitor_req(self, rhs: Bitset) -> bool {
        true
    }

    open spec fn bitor_spec(self, rhs: Bitset) -> Bitset {
        Bitset::from_word(self.word() | rhs.word())
    }
}

impl core::ops::BitOrAssign for Bitset {
    /// Adds every value of `rhs`.
    fn bitor_assign(&mut self, rhs: Bitset)
        ensures
            *final(self) == Bitset::from_word(old(self).word() | rhs.word()),
            final(self)@ == old(self)@.union(rhs@),
    {
        proof {
            lemma_members_of_or(self.data, rhs.data);
        }
        *self = Bitset::from(self.data | rhs.data);
    }
}

impl core::ops::Sub for Bitset {
    type Output = Bitset;

    /// The difference: the values of `self` that `rhs` lacks.
    fn sub(self, rhs: Bitset) -> (r: Bitset)
        ensures
            r == Bitset::from_word(self.word() & !rhs.word()),
            r@ == self@.difference(rhs@),
    {
        proof {
            lemma_members_of_and_not(self.data, rhs.data);
        }
        Bitset::from(self.data & !rhs.data)
    }
}

impl vstd::std_specs::ops::SubSpecImpl for Bitset {
    open spec fn obeys_sub_spec() -> bool {
        true
    }

    open spec fn sub_req(self, rhs: Bitset) -> bool {
        true
    }

    open spec fn sub_spec(self, rhs: Bitset) -> Bitset {
        Bitset::from_word(self.word() & !rhs.word())
    }
}

impl core::ops::SubAssign for Bitset {
    /// Removes every value of `rhs`.
    fn sub_assign(&mut self, rhs: Bitset)
        ensures
            *final(self) == Bitset::from_word(old(self).word() & !rhs.word()),
            final(self)@ == old(self)@.difference(rhs@),
    {
        proof {
            lemma_members_of_and_not(self.data, rhs.data);
        }
        *self = Bitset::from(self.data & !rhs.data);
    }
}

impl core::ops::Not for Bitset {
    type Output = Bitset;

    /// The complement over the whole word: every value from 0 to 127 that
    /// `self` lacks.
    fn not(self) -> (r: Bitset)
        ensures
            r == Bitset::from_word(!self.word()),
            r@ == universe().difference(self@),
    {
        proof {
            lemma_members_of_not(self.data);
        }
        Bitset::from(!self.data)
    }
}

impl vstd::std_specs::ops::NotSpecImpl for Bitset {
    open spec fn obeys_not_spec() -> bool {
        true
    }

    open spec fn not_req(self) -> bool {
        true
    }

    open spec fn not_spec(self) -> Bitset {
        Bitset::from_word(!self.word())
    }
}

/// The word zero holds no value.
pub proof fn lemma_members_of_zero()
    ensures
        members_of(0) == Set::<u128>::empty(),
{
    assert forall|v: u128| !members_of(0).contains(v) by {
        if v < 128 {
            lemma_zero_has_no_bit(v);
        }
    }
    assert(members_of(0) =~= Set::<u128>::empty());
}

/// Only the word zero holds no value.
proof fn lemma_empty_only_zero(x: u128)
    ensures
        members_of(x) == Set::<u128>::empty() <==> x == 0,
{
    lemma_members_of_zero();
    if x != 0 {
        lemma_nonzero_has_bit(x);
        let i = choose|i: u128| i < 128 && #[trigger] has_bit(x, i);
        assert(members_of(x).contains(i));
    }
}

} // verus!
