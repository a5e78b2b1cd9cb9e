//! Packed block state: the upper 12 bits of the 16-bit value are the
//! block id, the lower 4 bits its metadata.  The packed integer is stored
//! verbatim as received from the wire; the derived predicates are pure
//! functions of it.

use vstd::prelude::*;

verus! {

/// A block's packed 16-bit state, exactly as carried on the wire.
#[derive(Clone, Copy, PartialEq, Eq, Hash, Debug, Structural)]
pub struct BlockState(pub u16);

impl BlockState {
    /// The block id held in the upper 12 bits.
    pub open spec fn spec_id(self) -> int {
        self.0 as int / 16
    }

    /// The metadata held in the lower 4 bits.
    pub open spec fn spec_meta(self) -> int {
        self.0 as int % 16
    }

    /// A block is passable when its id is air or one of the two
    /// plant sentinels (tall grass and flower).
    pub open spec fn spec_passable(self) -> bool {
        self.spec_id() == 0 || self.spec_id() == 31 || self.spec_id() == 32
    }

    pub fn id(&self) -> (r: u16)
        ensures
            r == self.spec_id(),
            r < 0x1000,
    {
        proof {
            lemma_block_state_bits(self.0);
        }
        self.0 >> 4
    }

    pub fn meta(&self) -> (r: u8)
        ensures
            r == self.spec_meta(),
            r < 16,
    {
        proof {
            lemma_block_state_bits(self.0);
        }
        (self.0 & 0x0F) as u8
    }

    pub fn is_passable(&self) -> (r: bool)
        ensures
            r == self.spec_passable(),
    {
        let id = self.id();
        id == 0 || id == 31 || id == 32
    }
}

proof fn lemma_block_state_bits(v: u16)
    by (bit_vector)
    ensures
        (v >> 4) == v / 16,
        (v & 0x0F) == v % 16,
        (v >> 4) < 0x1000,
{
}

} // verus!
