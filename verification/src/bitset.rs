//! Trusted interface to `fixedbitset::FixedBitSet`, the bit-packed cell store.
//!
//! Each wrapper relies on one method of `fixedbitset` and states over
//! [`bits_of`] what that method does to the stored bits.

use vstd::prelude::*;

verus! {

#[verifier::external_type_specification]
#[verifier::external_body]
pub struct ExFixedBitSet(fixedbitset::FixedBitSet);

/// The bits held by a `FixedBitSet`, in index order; its length is the
/// set's fixed capacity in bits.
pub uninterp spec fn bits_of(s: fixedbitset::FixedBitSet) -> Seq<bool>;

/// Relies on `FixedBitSet::with_capacity`: a set of `bits` bits, all clear.
#[verifier::external_body]
pub(crate) fn bitset_with_capacity(bits: usize) -> (r: fixedbitset::FixedBitSet)
    ensures
        bits_of(r) == Seq::new(bits as nat, |i: int| false),
{
    fixedbitset::FixedBitSet::with_capacity(bits)
}

/// Relies on `FixedBitSet::contains`: the bit at `bit`, or false when `bit`
/// lies beyond the capacity.
#[verifier::external_body]
pub(crate) fn bitset_get(s: &fixedbitset::FixedBitSet, bit: usize) -> (r: bool)
    ensures
        r == (bit < bits_of(*s).len() && bits_of(*s)[bit as int]),
{
    s.contains(bit)
}

/// Relies on `FixedBitSet::set`: writes `enabled` at `bit`, leaving every
/// other bit alone. It panics on a bit beyond the capacity, which the
/// precondition rules out.
#[verifier::external_body]
pub(crate) fn bitset_set(s: &mut fixedbitset::FixedBitSet, bit: usize, enabled: bool)
    requires
        bit < bits_of(*old(s)).len(),
    ensures
        bits_of(*final(s)) == bits_of(*old(s)).update(bit as int, enabled),
{
    s.set(bit, enabled)
}

/// Relies on `FixedBitSet::toggle`: inverts the bit at `bit`, leaving every
/// other bit alone. It panics on a bit beyond the capacity, which the
/// precondition rules out.
#[verifier::external_body]
pub(crate) fn bitset_toggle(s: &mut fixedbitset::FixedBitSet, bit: usize)
    requires
        bit < bits_of(*old(s)).len(),
    ensures
        bits_of(*final(s)) == bits_of(*old(s)).update(
            bit as int,
            !bits_of(*old(s))[bit as int],
        ),
{
    s.toggle(bit)
}

/// Relies on `FixedBitSet::clear`: clears every bit, keeping the capacity.
#[verifier::external_body]
pub(crate) fn bitset_clear(s: &mut fixedbitset::FixedBitSet)
    ensures
        bits_of(*final(s)) == Seq::new(bits_of(*old(s)).len(), |i: int| false),
{
    s.clear()
}

} // verus!
