//! Physical memory frames for the x86-64 architecture, as the kernel names
//! them.
use vstd::prelude::*;

use crate::addr::{BadAddress, PhysAddr, UnalignedAddress, FRAME_SIZE, PHYS_ADDR_LIMIT};

verus! {

/// A physical frame as the kernel sees it, given by its first address.
#[derive(Debug, Copy, Clone, Eq, PartialEq, Structural)]
pub struct RawFrame {
    base: PhysAddr,
}

impl View for RawFrame {
    type V = u64;

    closed spec fn view(&self) -> u64 {
        self.base@
    }
}

/// The frame that starts at `addr`.
pub open spec fn frame_of(addr: u64) -> RawFrame {
    choose|f: RawFrame| f@ == addr
}

impl RawFrame {
    /// A frame is determined by its first address.
    pub proof fn lemma_view_injective(a: Self, b: Self)
        ensures
            a@ == b@ ==> a == b,
    {
        PhysAddr::lemma_view_injective(a.base, b.base);
    }

    /// The frame that starts at the aligned address `base`.
    pub fn from_start_address(base: PhysAddr) -> (r: Self)
        requires
            base@ % 4096 == 0,
        ensures
            r@ == base@,
    {
        match Self::try_from_start_address(base) {
            Ok(f) => f,
            Err(_) => Self { base },
        }
    }

    /// The first address of the frame.
    pub fn base(&self) -> (r: PhysAddr)
        ensures
            r@ == self@,
    {
        self.base
    }

    /// The frame whose first address is `index * FRAME_SIZE`, failing when
    /// that address is wider than 52 bits.
    pub fn from_index(index: u64) -> (r: Result<Self, BadAddress>)
        requires
            index * 4096 <= u64::MAX,
        ensures
            match r {
                Ok(f) => index * 4096 < PHYS_ADDR_LIMIT && f@ == index * 4096,
                Err(_) => index * 4096 >= PHYS_ADDR_LIMIT,
            },
    {
        let start = index * FRAME_SIZE;
        assert(start % 4096 == 0) by {
            vstd::arithmetic::div_mod::lemma_mod_multiples_basic(index as int, 4096);
        }
        Ok(Self::from_start_address(PhysAddr::try_new(start)?))
    }

    /// The frame that starts at `base`, failing when `base` is not aligned.
    pub fn try_from_start_address(base: PhysAddr) -> (r: Result<Self, UnalignedAddress>)
        ensures
            match r {
                Ok(f) => base@ % 4096 == 0 && f@ == base@,
                Err(_) => base@ % 4096 != 0,
            },
    {
        if base.as_u64() % FRAME_SIZE != 0 {
            return Err(UnalignedAddress);
        }
        Ok(Self { base })
    }

    /// The frame whose base is the offset of `addr` within its frame.
    pub fn within_frame(addr: PhysAddr) -> (r: Self)
        ensures
            r@ == addr@ % 4096,
    {
        let base = PhysAddr::new(addr.as_u64() % FRAME_SIZE);
        Self { base }
    }

    /// The first address of the frame.
    pub fn addr(&self) -> (r: PhysAddr)
        ensures
            r@ == self@,
    {
        self.base
    }
}

} // verus!
