use vstd::prelude::*;

use crate::errors::RouterError;

verus! {

/// Whether bit `index` of `bits` is set. Meaningful for `index < 128`.
pub open spec fn bit_set(bits: u128, index: u8) -> bool
    recommends
        index < 128,
{
    bits & (1u128 << index) != 0
}

/// `bits` with bit `index` forced to `value`. Meaningful for `index < 128`.
pub open spec fn with_bit(bits: u128, index: u8, value: bool) -> u128
    recommends
        index < 128,
{
    if value {
        bits | (1u128 << index)
    } else {
        bits & !(1u128 << index)
    }
}

/// A fixed-width set of adapter indices 0..128, used both for "which adapters
/// are enabled" and for "which adapters have attested".
#[derive(Clone, Copy, Debug, PartialEq, Eq, Structural)]
pub struct Bitmap {
    pub bits: u128,
}

impl Bitmap {
    /// The all-zero bitmap.
    pub fn new() -> (r: Self)
        ensures
            r.bits == 0,
    {
        Bitmap { bits: 0 }
    }

    /// A bitmap with exactly the bits of `value`, mainly for tests and for
    /// bitwise comparison against an expected raw value.
    pub fn from_value(value: u128) -> (r: Self)
        ensures
            r.bits == value,
    {
        Bitmap { bits: value }
    }

    /// The raw 128-bit value.
    pub fn as_value(&self) -> (r: u128)
        ensures
            r == self.bits,
    {
        self.bits
    }

    /// Reads bit `index`; an index of 128 or more is out of range.
    pub fn get(&self, index: u8) -> (r: Result<bool, RouterError>)
        ensures
            index >= 128 ==> r == Err::<bool, RouterError>(RouterError::IndexOutOfRange),
            index < 128 ==> r == Ok::<bool, RouterError>(bit_set(self.bits, index)),
    {
        if index >= 128 {
            Err(RouterError::IndexOutOfRange)
        } else {
            Ok(self.bits & (1u128 << index) != 0)
        }
    }

    /// Forces bit `index` to `value`; an index of 128 or more is out of range
    /// and leaves the bitmap unchanged.
    pub fn set(&mut self, index: u8, value: bool) -> (r: Result<(), RouterError>)
        ensures
            index >= 128 ==> r == Err::<(), RouterError>(RouterError::IndexOutOfRange)
                && *final(self) == *old(self),
            index < 128 ==> r == Ok::<(), RouterError>(())
                && final(self).bits == with_bit(old(self).bits, index, value),
    {
        if index >= 128 {
            Err(RouterError::IndexOutOfRange)
        } else {
            if value {
                self.bits = self.bits | (1u128 << index);
            } else {
                self.bits = self.bits & !(1u128 << index);
            }
            Ok(())
        }
    }

    /// Whether no bit at all is set.
    pub fn is_empty(&self) -> (r: bool)
        ensures
            r == (self.bits == 0),
    {
        self.bits == 0
    }
}

/// Quorum over raw bitmap values: the attested set is a bitwise superset of
/// the required set.
pub open spec fn spec_quorum(required: u128, attested: u128) -> bool {
    attested & required == required
}

/// Whether the adapters in `attested` cover every adapter in `required`:
/// the quorum predicate of the release path.
pub fn quorum_satisfied(required: &Bitmap, attested: &Bitmap) -> (r: bool)
    ensures
        r == spec_quorum(required.bits, attested.bits),
{
    attested.bits & required.bits == required.bits
}

/// Quorum holds exactly when every single bit set in `required` is also set
/// in `attested`: adapters enabled after some attestations arrived block
/// quorum until they attest too, and extra attested bits never hurt.
pub proof fn lemma_quorum_covers_each_bit(required: u128, attested: u128)
    ensures
        spec_quorum(required, attested) == (forall|i: u8|
            i < 128 && bit_set(required, i) ==> bit_set(attested, i)),
{
    if spec_quorum(required, attested) {
        assert forall|i: u8| i < 128 && bit_set(required, i) implies bit_set(attested, i) by {
            assert(attested & required == required && i < 128 && required & (1u128 << i) != 0
                ==> attested & (1u128 << i) != 0) by (bit_vector);
        }
    }
    if !spec_quorum(required, attested) {
        let uncovered = required & !attested;
        assert(uncovered != 0) by (bit_vector)
            requires
                attested & required != required,
                uncovered == required & !attested,
        ;
        let j = some_set_bit(uncovered);
        assert(required & (1u128 << j) != 0 && attested & (1u128 << j) == 0) by (bit_vector)
            requires
                j < 128,
                (required & !attested) & (1u128 << j) != 0,
        ;
        assert(bit_set(required, j) && !bit_set(attested, j));
    }
}

/// Writing a bit and reading it back gives the written value: after
/// `set(i, v)`, `get(i)` returns `v`.
pub proof fn lemma_set_get_roundtrip(bits: u128, index: u8, value: bool)
    requires
        index < 128,
    ensures
        bit_set(with_bit(bits, index, value), index) == value,
{
    if value {
        assert(index < 128 ==> (bits | (1u128 << index)) & (1u128 << index) != 0)
            by (bit_vector);
    } else {
        assert(index < 128 ==> (bits & !(1u128 << index)) & (1u128 << index) == 0)
            by (bit_vector);
    }
}

/// Writing one bit leaves every other bit as it was: adapters never clear or
/// set each other's bits.
pub proof fn lemma_set_preserves_other_bits(bits: u128, index: u8, value: bool, other: u8)
    requires
        index < 128,
        other < 128,
        other != index,
    ensures
        bit_set(with_bit(bits, index, value), other) == bit_set(bits, other),
{
    if value {
        assert(index < 128 && other < 128 && other != index ==> ((bits | (1u128 << index)) & (
        1u128 << other) != 0) == (bits & (1u128 << other) != 0)) by (bit_vector);
    } else {
        assert(index < 128 && other < 128 && other != index ==> ((bits & !(1u128 << index)) & (
        1u128 << other) != 0) == (bits & (1u128 << other) != 0)) by (bit_vector);
    }
}

/// Picks the index of one set bit of a nonzero value.
pub proof fn some_set_bit(value: u128) -> (j: u8)
    requires
        value != 0,
    ensures
        j < 128,
        value & (1u128 << j) != 0,
    decreases value,
{
    if value & 1 != 0 {
        assert(value & (1u128 << 0) != 0) by (bit_vector)
            requires
                value & 1 != 0,
        ;
        0
    } else {
        assert(value >> 1 != 0 && value >> 1 < value) by (bit_vector)
            requires
                value != 0,
                value & 1 == 0,
        ;
        let j1 = some_set_bit(value >> 1);
        assert(j1 < 127 && value & (1u128 << (j1 + 1) as u8) != 0) by (bit_vector)
            requires
                j1 < 128,
                (value >> 1) & (1u128 << j1) != 0,
        ;
        (j1 + 1) as u8
    }
}

} // verus!
