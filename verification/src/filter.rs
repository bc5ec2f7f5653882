//! Address filtering: a mask and a value that the masked address must equal.

use vstd::prelude::*;
use crate::frame::CanFrame;

verus! {

/// Mask that keeps every bit of an address.
pub const MASK_ALL: u32 = 0xFFFF_FFFF;

/// An address-matching rule. The default accepts every address.
#[derive(Debug, Clone, Copy, PartialEq, Eq, Structural)]
pub struct FilterSpec {
    pub mask: u32,
    pub filter: u32,
}

impl FilterSpec {
    /// Whether the rule accepts `address`.
    pub open spec fn accepts(self, address: u32) -> bool {
        address & self.mask == self.filter
    }

    /// The rule that accepts every address: mask and filter both zero.
    pub fn accept_all() -> (rule: FilterSpec)
        ensures
            rule == (FilterSpec { mask: 0, filter: 0 }),
    {
        FilterSpec { mask: 0, filter: 0 }
    }

    /// The rule that accepts `address` and nothing else.
    pub fn only(address: u32) -> (rule: FilterSpec)
        ensures
            rule == (FilterSpec { mask: MASK_ALL, filter: address }),
    {
        FilterSpec { mask: MASK_ALL, filter: address }
    }

    /// Tests an address against the rule.
    pub fn passes_address(&self, address: u32) -> (accepted: bool)
        ensures
            accepted == ((address & self.mask) == self.filter),
            accepted == self.accepts(address),
    {
        (address & self.mask) == self.filter
    }

    /// Tests a frame against the rule: the frame passes if and only if its
    /// address, masked, equals the filter value.
    pub fn passes(&self, frame: &CanFrame) -> (accepted: bool)
        ensures
            accepted == ((frame@.address & self.mask) == self.filter),
            accepted == self.accepts(frame@.address),
    {
        self.passes_address(frame.get_address())
    }
}

impl Default for FilterSpec {
    fn default() -> (rule: FilterSpec)
        ensures
            rule == (FilterSpec { mask: 0, filter: 0 }),
    {
        FilterSpec::accept_all()
    }
}

/// The accept-all rule accepts every address.
pub proof fn lemma_accept_all_accepts(address: u32)
    ensures
        (FilterSpec { mask: 0, filter: 0 }).accepts(address),
{
    assert(address & 0 == 0) by (bit_vector);
}

/// A rule made for one address accepts that address and no other.
pub proof fn lemma_only_accepts_exactly(selected: u32, address: u32)
    ensures
        (FilterSpec { mask: MASK_ALL, filter: selected }).accepts(address) <==> address == selected,
{
    assert(address & 0xFFFF_FFFFu32 == address) by (bit_vector);
}

} // verus!
