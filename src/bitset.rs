//! The packed cell storage: `fixedbitset::FixedBitSet`, declared to Verus and
//! described by the sequence of booleans it holds.
use fixedbitset::FixedBitSet;
use vstd::prelude::*;

verus! {

#[verifier::external_type_specification]
#[verifier::external_body]
pub struct ExFixedBitSet(FixedBitSet);

/// The bits a `FixedBitSet` holds, bit `i` at position `i`; the length of the
/// sequence is the bit set's length in bits.
pub uninterp spec fn bits_of(s: FixedBitSet) -> Seq<bool>;

/// Relies on `FixedBitSet::with_capacity`: `bits` bits, all clear.
pub assume_specification[ FixedBitSet::with_capacity ](bits: usize) -> (r: FixedBitSet)
    ensures
        bits_of(r) == Seq::new(bits as nat, |i: int| false),
;

/// Relies on `FixedBitSet::len`: the length in bits.
pub assume_specification[ FixedBitSet::len ](s: &FixedBitSet) -> (r: usize)
    ensures
        r == bits_of(*s).len(),
;

/// Relies on `FixedBitSet::contains`: the bit's value, and `false` past the end.
pub assume_specification[ FixedBitSet::contains ](s: &FixedBitSet, bit: usize) -> (r: bool)
    ensures
        r == (bit < bits_of(*s).len() && bits_of(*s)[bit as int]),
;

/// Relies on `FixedBitSet::set`: writes one bit; it panics past the end.
pub assume_specification[ FixedBitSet::set ](s: &mut FixedBitSet, bit: usize, enabled: bool)
    requires
        bit < bits_of(*old(s)).len(),
    ensures
        bits_of(*final(s)) == bits_of(*old(s)).update(bit as int, enabled),
;

/// Relies on `FixedBitSet::clear`: every bit cleared, the length kept.
pub assume_specification[ FixedBitSet::clear ](s: &mut FixedBitSet)
    ensures
        bits_of(*final(s)) == Seq::new(bits_of(*old(s)).len(), |i: int| false),
;

/// Relies on `FixedBitSet`'s `Clone`: the same bits in a new set.
pub assume_specification[ <FixedBitSet as Clone>::clone ](s: &FixedBitSet) -> (r: FixedBitSet)
    ensures
        bits_of(r) == bits_of(*s),
;

/// Whether bit `i` of a sequence of 32-bit blocks is set, bit `i` being bit
/// `i % 32` of block `i / 32`.
pub open spec fn block_bit(blocks: Seq<u32>, i: int) -> bool {
    (blocks[i / 32] >> ((i % 32) as u32)) & 1u32 == 1u32
}

/// Relies on `FixedBitSet::as_slice`: the blocks that store the bits, as many
/// as needed and no more, bit `i` in bit `i % 32` of block `i / 32`.
pub assume_specification<'a>[ FixedBitSet::as_slice ](s: &'a FixedBitSet) -> (r: &'a [u32])
    ensures
        r@.len() == (bits_of(*s).len() + 31) / 32,
        forall|i: int| 0 <= i < bits_of(*s).len() ==> #[trigger] bits_of(*s)[i] == block_bit(r@, i),
;

} // verus!
