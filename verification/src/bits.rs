//! The contracts under which the grid uses `fixedbitset::FixedBitSet`.
//!
//! Nothing in this file is proved: each item states what the bit set's
//! source shows, and the rest of the crate is verified against it.

use vstd::prelude::*;
use fixedbitset::FixedBitSet;

verus! {

/// `fixedbitset::FixedBitSet`, carried as an opaque value.
#[verifier::external_type_specification]
#[verifier::external_body]
pub struct ExFixedBitSet(fixedbitset::FixedBitSet);

/// The bits that a set holds, in index order; its length is the set's
/// length in bits.
pub uninterp spec fn bit_values(set: FixedBitSet) -> Seq<bool>;

/// `FixedBitSet::with_capacity`: a set of `bits` bits, every one clear.
pub assume_specification[ FixedBitSet::with_capacity ](bits: usize) -> (set: FixedBitSet)
    ensures
        bit_values(set) == Seq::new(bits as nat, |i: int| false),
;

/// `FixedBitSet::set`: writes one bit and leaves the others and the length
/// as they were. It panics on an index past the end, which `requires`
/// leaves out.
pub assume_specification[ FixedBitSet::set ](set: &mut FixedBitSet, bit: usize, enabled: bool)
    requires
        bit < bit_values(*old(set)).len(),
    ensures
        bit_values(*final(set)) == bit_values(*old(set)).update(bit as int, enabled),
;

/// `FixedBitSet::toggle`: inverts one bit and leaves the others and the
/// length as they were. It panics on an index past the end, which
/// `requires` leaves out.
pub assume_specification[ FixedBitSet::toggle ](set: &mut FixedBitSet, bit: usize)
    requires
        bit < bit_values(*old(set)).len(),
    ensures
        bit_values(*final(set)) == bit_values(*old(set)).update(
            bit as int,
            !bit_values(*old(set))[bit as int],
        ),
;

/// `FixedBitSet`'s `Index<usize>`: for an index within the set's length,
/// the value of that bit. Indexing does not panic; of an index past the
/// end nothing is claimed.
#[verifier::external_body]
pub(crate) fn bit_at(set: &FixedBitSet, bit: usize) -> (on: bool)
    ensures
        bit < bit_values(*set).len() ==> on == bit_values(*set)[bit as int],
{
    set[bit]
}

/// `Clone::clone_from` on `FixedBitSet`: afterwards the target holds the
/// source's bits, with the source's length.
#[verifier::external_body]
pub(crate) fn copy_bits(target: &mut FixedBitSet, source: &FixedBitSet)
    ensures
        bit_values(*final(target)) == bit_values(*source),
{
    target.clone_from(source)
}

} // verus!
