//! Userspace side of the kernel API: capability handles, the capability
//! manager, and the read-only view of the retype table.
use vstd::prelude::*;

use crate::raw::CapId;
use crate::ops::cap_table::ThreadConsArgs;
use structures::{CapTable, HardwareAccess, PageTable, PhysFrame, Retype, SyncRet, Thread};

pub mod structures;
pub mod paging;
pub mod cap_management;
pub mod cap_managment;
pub mod addrspace;

verus! {

/// The capabilities that the kernel gives the boot component, in slots 0
/// to 5 of its capability table.
#[derive(Debug)]
pub struct Booter {
    pub sync_ret: SyncRet,
    pub retype: Retype,
    pub self_caps: CapTable,
    pub self_thread: Thread,
    pub self_paging: PageTable,
    pub hardware: HardwareAccess,
}

impl Booter {
    /// The boot component's capabilities: the return gate, the retype
    /// capability, its own capability table, thread and root page table,
    /// and hardware access, in that order.
    pub fn make() -> (r: Self)
        ensures
            r.sync_ret.id@ == 0,
            r.retype.id@ == 1,
            r.self_caps.id@ == 2,
            r.self_thread.id@ == 3,
            r.self_paging.id@ == 4,
            r.hardware.id@ == 5,
    {
        Self {
            sync_ret: SyncRet::new(CapId::new(0)),
            retype: Retype::new(CapId::new(1)),
            self_caps: CapTable::new(CapId::new(2)),
            self_thread: Thread::new(CapId::new(3)),
            self_paging: PageTable::new(CapId::new(4)),
            hardware: HardwareAccess::new(CapId::new(5)),
        }
    }
}

/// A step of giving the memory manager its capabilities and its thread.
#[derive(Debug, Clone, Copy)]
pub enum ManagerStep {
    /// Make a capability table over the frame at `region`, in capability
    /// `slot` of the boot component.
    MakeCapTable { slot: CapId, region: usize },
    /// Copy capability `cap` of the boot component into slot `slot` of the
    /// memory manager's capability table `table`.
    Copy { cap: CapId, table: CapId, slot: usize },
    /// Make the memory manager's thread in capability `slot`.
    MakeThread { slot: CapId, args: ThreadConsArgs },
    /// Switch to the thread `thread`.
    Activate { thread: CapId },
}

impl Booter {
    /// The steps that start the memory manager, once its program is
    /// loaded into the address space of root table `l4_table` (held in
    /// capability `l4_slot`): make its capability table in `cap_table_slot`
    /// over `cap_table_frame`, copy the return gate into slot 0, make its
    /// thread in `thread_slot` over `thread_frame`, starting at `entry` with
    /// the stack top at `stack_top`, copy its capability table into
    /// slot 1, its root table into slot 2, the retype capability into slot
    /// 3 and hardware access into slot 4, then switch to the thread.
    pub fn memory_manager_plan(
        &self,
        entry: usize,
        stack_top: usize,
        cap_table_slot: CapId,
        cap_table_frame: PhysFrame,
        thread_slot: CapId,
        thread_frame: PhysFrame,
        l4_slot: CapId,
        l4_table: PageTable,
    ) -> (r: Vec<ManagerStep>)
        ensures
            r@ == seq![
                ManagerStep::MakeCapTable { slot: cap_table_slot, region: cap_table_frame@ },
                ManagerStep::Copy { cap: self.sync_ret.id, table: cap_table_slot, slot: 0 },
                ManagerStep::MakeThread {
                    slot: thread_slot,
                    args: ThreadConsArgs {
                        entry,
                        stack_pointer: stack_top,
                        cap_table: cap_table_slot,
                        page_table: l4_table.id,
                        arg0: 0,
                        region: thread_frame@,
                    },
                },
                ManagerStep::Copy { cap: cap_table_slot, table: cap_table_slot, slot: 1 },
                ManagerStep::Copy { cap: l4_slot, table: cap_table_slot, slot: 2 },
                ManagerStep::Copy { cap: self.retype.id, table: cap_table_slot, slot: 3 },
                ManagerStep::Copy { cap: self.hardware.id, table: cap_table_slot, slot: 4 },
                ManagerStep::Activate { thread: thread_slot },
            ],
    {
        let cap_table = CapTable::new(cap_table_slot);
        let args = ThreadConsArgs::new(entry, stack_top, cap_table, l4_table, thread_frame, 0);
        let mut steps: Vec<ManagerStep> = Vec::new();
        steps.push(ManagerStep::MakeCapTable { slot: cap_table_slot, region: cap_table_frame.addr() });
        steps.push(ManagerStep::Copy { cap: self.sync_ret.id, table: cap_table_slot, slot: 0 });
        steps.push(ManagerStep::MakeThread { slot: thread_slot, args });
        steps.push(ManagerStep::Copy { cap: cap_table_slot, table: cap_table_slot, slot: 1 });
        steps.push(ManagerStep::Copy { cap: l4_slot, table: cap_table_slot, slot: 2 });
        steps.push(ManagerStep::Copy { cap: self.retype.id, table: cap_table_slot, slot: 3 });
        steps.push(ManagerStep::Copy { cap: self.hardware.id, table: cap_table_slot, slot: 4 });
        steps.push(ManagerStep::Activate { thread: thread_slot });
        proof {
            assert(steps@ =~= seq![
                ManagerStep::MakeCapTable { slot: cap_table_slot, region: cap_table_frame@ },
                ManagerStep::Copy { cap: self.sync_ret.id, table: cap_table_slot, slot: 0 },
                ManagerStep::MakeThread {
                    slot: thread_slot,
                    args: ThreadConsArgs {
                        entry,
                        stack_pointer: stack_top,
                        cap_table: cap_table_slot,
                        page_table: l4_table.id,
                        arg0: 0,
                        region: thread_frame@,
                    },
                },
                ManagerStep::Copy { cap: cap_table_slot, table: cap_table_slot, slot: 1 },
                ManagerStep::Copy { cap: l4_slot, table: cap_table_slot, slot: 2 },
                ManagerStep::Copy { cap: self.retype.id, table: cap_table_slot, slot: 3 },
                ManagerStep::Copy { cap: self.hardware.id, table: cap_table_slot, slot: 4 },
                ManagerStep::Activate { thread: thread_slot },
            ]);
        }
        steps
    }
}

} // verus!
