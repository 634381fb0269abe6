//! A frame allocator that walks the retype table upwards and takes the first
//! frame that can be typed as requested.
use vstd::prelude::*;

use crate::addr::{PhysAddr, FRAME_SIZE};
use crate::kernel::frames::RawFrame;
use crate::kernel::retyping::{
    entry_state, entry_value, frame_index, lemma_untyped_entry, AsTypeError, KernelFrame, RetypeError, RetypeTable,
    State, UserFrame,
};

verus! {

/// The largest number of frames below the 52-bit physical address limit.
pub const MAX_FRAMES: u64 = 0x100_0000_0000;

/// A frame can be retyped when it is untyped and unreferenced.
pub open spec fn retypable(v: u16) -> bool {
    v == entry_value(State::Untyped, 0)
}

/// The index of the first untyped frame of `t` at or after `i`, or the
/// number of frames when there is none.
pub open spec fn next_untyped(t: Seq<u16>, i: nat) -> nat
    decreases t.len() - i,
{
    if i >= t.len() {
        t.len()
    } else if entry_state(t[i as int]) == State::Untyped {
        i
    } else {
        next_untyped(t, i + 1)
    }
}

/// The first untyped frame at or after `i` is the one that no frame before
/// it, from `i` on, is.
proof fn lemma_next_untyped(t: Seq<u16>, i: nat, k: nat)
    requires
        i <= k <= t.len(),
        forall|j: int| i <= j < k ==> entry_state(#[trigger] t[j]) != State::Untyped,
        k == t.len() || entry_state(t[k as int]) == State::Untyped,
    ensures
        next_untyped(t, i) == k,
    decreases k - i,
{
    if i < k {
        lemma_next_untyped(t, i + 1, k);
    }
}

/// Hands out frames by walking the frame indices upwards.
#[derive(Debug)]
pub struct BumpAllocator {
    index: u64,
}

impl BumpAllocator {
    /// The index of the next frame to try.
    pub closed spec fn spec_index(&self) -> u64 {
        self.index
    }

    /// An allocator that starts at frame 0.
    pub fn new() -> (r: Self)
        ensures
            r.spec_index() == 0,
    {
        Self { index: 0 }
    }

    fn frame_at(index: u64) -> (r: RawFrame)
        requires
            index < MAX_FRAMES,
        ensures
            r@ == index * 4096,
            frame_index(r@) == index,
    {
        assert((index * 4096) % 4096 == 0) by {
            vstd::arithmetic::div_mod::lemma_mod_multiples_basic(index as int, 4096);
        }
        assert((index * 4096) / 4096 == index) by {
            vstd::arithmetic::div_mod::lemma_div_multiples_vanish(index as int, 4096);
        }
        RawFrame::from_start_address(PhysAddr::new(FRAME_SIZE * index))
    }

    /// Retypes the first untyped, unreferenced frame at or after the current
    /// index into user memory; `None` when the table has none.
    pub fn alloc_user_frame(&mut self, table: &mut RetypeTable) -> (r: Option<UserFrame>)
        requires
            old(table).wf(),
            old(table)@.len() < MAX_FRAMES,
            old(self).spec_index() <= old(table)@.len(),
        ensures
            final(table).wf(),
            final(self).spec_index() <= old(table)@.len(),
            old(self).spec_index() <= final(self).spec_index(),
            forall|j: int|
                old(self).spec_index() <= j < final(self).spec_index() ==> !retypable(
                    #[trigger] old(table)@[j],
                ),
            match r {
                Some(f) => final(self).spec_index() < old(table)@.len() && f@ == final(self).spec_index() * 4096 && retypable(old(table)@[final(self).spec_index() as int])
                    && final(table)@ == old(table)@.update(
                    final(self).spec_index() as int,
                    entry_value(State::User, 1),
                ),
                None => final(self).spec_index() == old(table)@.len() && final(table)@ == old(table)@,
            },
            final(self).spec_index() == next_untyped(old(table)@, old(self).spec_index() as nat),
    {
        loop
            invariant
                table.wf(),
                table@ == old(table)@,
                table@.len() < MAX_FRAMES,
                old(self).spec_index() <= self.index <= table@.len(),
                forall|j: int| old(self).spec_index() <= j < self.index ==> !retypable(#[trigger] table@[j]),
            decreases table@.len() - self.index,
        {
            proof {
                assert forall|j: int| old(self).spec_index() <= j < self.index implies entry_state(
                    #[trigger] table@[j],
                ) != State::Untyped by {
                    if entry_state(table@[j]) == State::Untyped {
                        lemma_untyped_entry(table@[j]);
                    }
                }
                crate::kernel::retyping::lemma_entry_round_trip(State::Untyped, 0);
            }
            let frame = Self::frame_at(self.index);
            match frame.try_into_user(table) {
                Ok(frame) => {
                    proof {
                        lemma_next_untyped(old(table)@, old(self).spec_index() as nat, self.index as nat);
                    }
                    return Some(frame);
                },
                Err(RetypeError::OutOfBounds) => {
                    proof {
                        lemma_next_untyped(old(table)@, old(self).spec_index() as nat, self.index as nat);
                    }
                    return None;
                },
                Err(_) => {},
            }
            self.index = self.index + 1;
        }
    }

    /// The first untyped frame at or after the current index; the table is
    /// left unchanged.
    pub fn alloc_untyped_frame(&mut self, table: &RetypeTable) -> (r: Option<RawFrame>)
        requires
            table@.len() < MAX_FRAMES,
            old(self).spec_index() <= table@.len(),
        ensures
            final(self).spec_index() <= table@.len(),
            old(self).spec_index() <= final(self).spec_index(),
            forall|j: int|
                old(self).spec_index() <= j < final(self).spec_index() ==> entry_state(
                    #[trigger] table@[j],
                ) != State::Untyped,
            match r {
                Some(f) => final(self).spec_index() < table@.len() && f@ == final(self).spec_index()
                    * 4096 && entry_state(table@[final(self).spec_index() as int]) == State::Untyped
                    && frame_index(f@) == final(self).spec_index(),
                None => final(self).spec_index() == table@.len(),
            },
            final(self).spec_index() == next_untyped(table@, old(self).spec_index() as nat),
    {
        loop
            invariant
                table@.len() < MAX_FRAMES,
                old(self).spec_index() <= self.index <= table@.len(),
                forall|j: int|
                    old(self).spec_index() <= j < self.index ==> entry_state(#[trigger] table@[j])
                        != State::Untyped,
            decreases table@.len() - self.index,
        {
            let frame = Self::frame_at(self.index);
            match frame.try_as_untyped(table) {
                Ok(frame) => {
                    proof {
                        lemma_next_untyped(table@, old(self).spec_index() as nat, self.index as nat);
                    }
                    return Some(frame);
                },
                Err(AsTypeError::OutOfBounds) => {
                    proof {
                        lemma_next_untyped(table@, old(self).spec_index() as nat, self.index as nat);
                    }
                    return None;
                },
                Err(_) => {},
            }
            self.index = self.index + 1;
        }
    }

    /// Retypes the first untyped, unreferenced frame at or after the current
    /// index into kernel memory; `None` when the table has none.
    pub fn alloc_kernel_frame(&mut self, table: &mut RetypeTable) -> (r: Option<KernelFrame>)
        requires
            old(table).wf(),
            old(table)@.len() < MAX_FRAMES,
            old(self).spec_index() <= old(table)@.len(),
        ensures
            final(table).wf(),
            final(self).spec_index() <= old(table)@.len(),
            old(self).spec_index() <= final(self).spec_index(),
            forall|j: int|
                old(self).spec_index() <= j < final(self).spec_index() ==> !retypable(
                    #[trigger] old(table)@[j],
                ),
            match r {
                Some(f) => final(self).spec_index() < old(table)@.len() && f@ == final(self).spec_index() * 4096 && retypable(old(table)@[final(self).spec_index() as int])
                    && final(table)@ == old(table)@.update(
                    final(self).spec_index() as int,
                    entry_value(State::Kernel, 1),
                ),
                None => final(self).spec_index() == old(table)@.len() && final(table)@ == old(table)@,
            },
    {
        loop
            invariant
                table.wf(),
                table@ == old(table)@,
                table@.len() < MAX_FRAMES,
                old(self).spec_index() <= self.index <= table@.len(),
                forall|j: int| old(self).spec_index() <= j < self.index ==> !retypable(#[trigger] table@[j]),
            decreases table@.len() - self.index,
        {
            let frame = Self::frame_at(self.index);
            match frame.try_into_kernel(table) {
                Ok(frame) => return Some(frame),
                Err(RetypeError::OutOfBounds) => return None,
                Err(_) => {},
            }
            self.index = self.index + 1;
        }
    }
}

} // verus!
