//! The counter-based capability manager: capabilities are handed out in
//! numeric order, and the last slot of each group of 64 holds the
//! capability table for the next group.
use vstd::prelude::*;

use super::structures::{CapTable, PhysFrame};
use crate::ops::SlotId;
use crate::raw::CapId;

verus! {

/// Hands out frames for new capability tables.
pub trait FrameAllocator {
    /// A fresh frame.
    fn alloc_frame(&mut self) -> PhysFrame;
}

/// A capability, with the table and slot that hold it.
#[derive(Debug, Clone, Copy)]
pub struct CapSlot {
    pub id: CapId,
    pub table: CapTable,
    pub slot: SlotId,
}

impl CapSlot {
    /// The capability.
    pub fn cap(&self) -> (r: CapId)
        ensures
            r == self.id,
    {
        self.id
    }
}

/// What allocating a capability asks of the kernel before the slot can be
/// used.
#[derive(Debug)]
pub enum AllocationPlan {
    /// The slot is in a table that exists.
    Ready(CapSlot),
    /// A capability table must first be made with `frame` in the last slot
    /// of `parent_table`; `slot` is then ready.
    WithTable { frame: PhysFrame, parent_table: CapTable, slot: CapSlot },
}

/// The capability of the table that manages capability `c`: the root below
/// 64, else the last capability of the group of 64 before `c`'s.
pub open spec fn managing_table(root: CapTable, c: u32) -> CapTable {
    if c < 64 {
        root
    } else {
        CapTable { id: CapId::spec_new(((c / 64) * 64 - 1) as u32) }
    }
}

/// A capability manager for a component's own trie, with the allocator of
/// frames for new tables.
#[derive(Debug)]
pub struct SelfCapabilityManager<A: FrameAllocator> {
    root_table: CapTable,
    current_cap: CapId,
    frame_allocator: A,
}

impl<A: FrameAllocator> SelfCapabilityManager<A> {
    /// The root table.
    pub closed spec fn spec_root(&self) -> CapTable {
        self.root_table
    }

    /// The next capability to hand out.
    pub closed spec fn spec_current(&self) -> u32 {
        self.current_cap@
    }

    /// A manager that assumes no capability is set yet.
    pub fn new(root_table: CapTable, allocator: A) -> (r: Self)
        ensures
            r.spec_root() == root_table,
            r.spec_current() == 0,
    {
        Self { root_table, current_cap: CapId::new(0), frame_allocator: allocator }
    }

    /// A manager that sets no capability before `start_cap`.
    pub fn new_with_start(root_table: CapTable, start_cap: CapId, allocator: A) -> (r: Self)
        ensures
            r.spec_root() == root_table,
            r.spec_current() == start_cap@,
    {
        Self { root_table, current_cap: start_cap, frame_allocator: allocator }
    }

    /// The root table.
    pub fn root(&self) -> (r: &CapTable)
        ensures
            *r == self.spec_root(),
    {
        &self.root_table
    }

    /// The table that manages capability `cap`.
    pub fn table_for_cap(&self, cap: CapId) -> (r: CapTable)
        ensures
            r == managing_table(self.spec_root(), cap@),
    {
        let c = cap.get();
        if c < 64 {
            self.root_table
        } else {
            let t = CapId::new((c / 64) * 64 - 1);
            proof {
                CapId::lemma_spec_new(t@, t);
            }
            CapTable::new(t)
        }
    }

    /// The next capability's slot. A capability in the last slot of a group
    /// of 64 becomes a new capability table instead, and the capability after
    /// it is handed out from slot 0 of that table.
    pub fn allocate_capability(&mut self) -> (r: AllocationPlan)
        requires
            old(self).spec_current() + 2 <= u32::MAX,
            old(self).spec_current() % 64 != 63 ==> old(self).spec_current() < 64,
        ensures
            final(self).spec_root() == old(self).spec_root(),
            ({
                let c = old(self).spec_current();
                let root = old(self).spec_root();
                if c % 64 == 63 {
                    let table = CapTable { id: CapId::spec_new(c) };
                    &&& final(self).spec_current() == c + 2
                    &&& r matches AllocationPlan::WithTable { frame, parent_table, slot }
                    &&& parent_table == managing_table(root, c)
                    &&& slot == (CapSlot {
                        id: CapId::spec_new((c + 1) as u32),
                        table,
                        slot: SlotId::spec_new(0),
                    })
                } else {
                    &&& final(self).spec_current() == c + 1
                    &&& r == AllocationPlan::Ready(
                        CapSlot {
                            id: CapId::spec_new(c),
                            table: root,
                            slot: SlotId::spec_new(c as usize),
                        },
                    )
                }
            }),
    {
        let cap = self.current_cap;
        proof {
            CapId::lemma_spec_new(cap@, cap);
        }
        self.current_cap = CapId::new(cap.get() + 1);
        if cap.get() % 64 == 63 {
            let table_cap = cap;
            let new_cap = self.current_cap;
            proof {
                CapId::lemma_spec_new(new_cap@, new_cap);
            }
            self.current_cap = CapId::new(new_cap.get() + 1);
            let frame = self.frame_allocator.alloc_frame();
            let parent_table = self.table_for_cap(table_cap);
            let table = CapTable::new(table_cap);
            let slot = SlotId::new(0).unwrap();
            AllocationPlan::WithTable { frame, parent_table, slot: CapSlot { id: new_cap, table, slot } }
        } else {
            let slot = SlotId::new(cap.get() as usize).unwrap();
            AllocationPlan::Ready(CapSlot { id: cap, table: self.root_table, slot })
        }
    }
}

} // verus!
