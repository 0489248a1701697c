//! Physical addresses: 52 significant bits.

use vstd::prelude::*;

verus! {

/// One past the largest physical address: bits 52 to 63 must be zero.
pub const PHYS_ADDR_LIMIT: u64 = 0x0010_0000_0000_0000;

/// A 64-bit physical memory address whose upper 12 bits are zero.
#[derive(Clone, Copy, Debug)]
pub struct PhysAddr(u64);

impl View for PhysAddr {
    type V = u64;

    closed spec fn view(&self) -> u64 {
        self.0
    }
}

impl PhysAddr {
    #[verifier::type_invariant]
    spec fn valid(self) -> bool {
        self.0 < PHYS_ADDR_LIMIT
    }

    /// Creates a physical address from an integer that has no bit set from
    /// bit 52 upwards.
    pub fn new(addr: u64) -> (phys: Self)
        requires
            addr < PHYS_ADDR_LIMIT,
        ensures
            phys@ == addr,
    {
        PhysAddr(addr)
    }

    /// Creates a physical address without testing the upper bits: the caller
    /// vouches that they are zero.
    pub fn unsafe_new(addr: u64) -> (phys: Self)
        requires
            addr < PHYS_ADDR_LIMIT,
        ensures
            phys@ == addr,
    {
        PhysAddr(addr)
    }

    /// Creates a physical address, refusing an integer with a bit set from
    /// bit 52 upwards.
    pub fn try_new(addr: u64) -> (phys: Result<Self, ()>)
        ensures
            phys.is_ok() == (addr < PHYS_ADDR_LIMIT),
            phys matches Ok(p) ==> p@ == addr,
    {
        let truncated = Self::new_truncate(addr);
        if truncated.0 == addr {
            Ok(truncated)
        } else {
            Err(())
        }
    }

    /// Creates a physical address from the lower 52 bits of `addr`.
    pub fn new_truncate(addr: u64) -> (phys: Self)
        ensures
            phys@ == addr % PHYS_ADDR_LIMIT,
    {
        PhysAddr(addr % PHYS_ADDR_LIMIT)
    }

    /// The address as an integer, below `PHYS_ADDR_LIMIT`.
    pub fn as_u64(self) -> (addr: u64)
        ensures
            addr == self@,
            addr < PHYS_ADDR_LIMIT,
    {
        proof {
            use_type_invariant(&self);
        }
        self.0
    }
}

} // verus!
