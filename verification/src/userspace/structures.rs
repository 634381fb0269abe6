//! Typed handles over capabilities, and the constructors of the structures
//! that construct operations refer to.
use vstd::prelude::*;

use crate::ops::cap_table::{PageTableConsArgs, SyncCallConsArgs, ThreadConsArgs};
use crate::raw::CapId;

verus! {

/// A page-aligned physical frame address handed to the kernel.
#[derive(Debug, Copy, Clone, Eq, PartialEq, Structural)]
pub struct PhysFrame(usize);

impl View for PhysFrame {
    type V = usize;

    closed spec fn view(&self) -> usize {
        self.0
    }
}

impl PhysFrame {
    #[verifier::type_invariant]
    spec fn inv(self) -> bool {
        self.0 % 4096 == 0
    }

    /// The frame at the page-aligned address `frame`.
    pub fn new(frame: usize) -> (r: Self)
        requires
            frame % 4096 == 0,
        ensures
            r@ == frame,
    {
        Self(frame)
    }

    /// The address of the frame.
    pub fn addr(&self) -> (r: usize)
        ensures
            r == self@,
            r % 4096 == 0,
    {
        proof {
            use_type_invariant(self);
        }
        self.0
    }
}

/// A capability to a capability table.
#[derive(Debug, Clone, Copy)]
pub struct CapTable {
    pub id: CapId,
}

impl CapTable {
    /// The table named by `cap`.
    pub fn new(cap: CapId) -> (r: Self)
        ensures
            r.id == cap,
    {
        Self { id: cap }
    }
}

/// A capability to a page table.
#[derive(Debug, Clone, Copy, PartialEq, Eq, Structural)]
pub struct PageTable {
    pub id: CapId,
}

impl PageTable {
    /// The page table named by `id`.
    pub fn new(id: CapId) -> (r: Self)
        ensures
            r.id == id,
    {
        Self { id }
    }
}

/// A capability to a thread.
#[derive(Debug, Clone, Copy)]
pub struct Thread {
    pub id: CapId,
}

impl Thread {
    /// The thread named by `id`.
    pub fn new(id: CapId) -> (r: Self)
        ensures
            r.id == id,
    {
        Self { id }
    }
}

/// A capability to hardware access.
#[derive(Debug, Clone, Copy)]
pub struct HardwareAccess {
    pub id: CapId,
}

impl HardwareAccess {
    /// The hardware access named by `id`.
    pub fn new(id: CapId) -> (r: Self)
        ensures
            r.id == id,
    {
        Self { id }
    }
}

/// A capability to a synchronous call gate.
#[derive(Debug, Clone, Copy)]
pub struct SyncCall {
    pub id: CapId,
}

impl SyncCall {
    /// The call gate named by `id`.
    pub fn new(id: CapId) -> (r: Self)
        ensures
            r.id == id,
    {
        Self { id }
    }
}

/// A capability to return from a synchronous call.
#[derive(Debug, Clone, Copy)]
pub struct SyncRet {
    pub id: CapId,
}

impl SyncRet {
    /// The return capability named by `id`.
    pub fn new(id: CapId) -> (r: Self)
        ensures
            r.id == id,
    {
        Self { id }
    }
}

/// A capability to retype memory.
#[derive(Debug, Clone, Copy)]
pub struct Retype {
    pub id: CapId,
}

impl Retype {
    /// The retype capability named by `id`.
    pub fn new(id: CapId) -> (r: Self)
        ensures
            r.id == id,
    {
        Self { id }
    }
}

impl ThreadConsArgs {
    /// Parameters of a thread that starts at the code address `entry` with
    /// the stack top `stack_top`, the given resources, and `arg0` as its
    /// first argument; its control block goes into `construct_frame`.
    pub fn new(
        entry: usize,
        stack_top: usize,
        resources: CapTable,
        page_table: PageTable,
        construct_frame: PhysFrame,
        arg0: usize,
    ) -> (r: Self)
        ensures
            r == (ThreadConsArgs {
                entry,
                stack_pointer: stack_top,
                cap_table: resources.id,
                page_table: page_table.id,
                arg0,
                region: construct_frame@,
            }),
    {
        Self {
            entry,
            stack_pointer: stack_top,
            cap_table: resources.id,
            page_table: page_table.id,
            arg0,
            region: construct_frame.addr(),
        }
    }
}

impl PageTableConsArgs {
    /// Parameters of a page table of `level` stored in `frame`.
    pub fn new(frame: PhysFrame, level: u8) -> (r: Self)
        ensures
            r.region == frame@,
            r.level == level,
            r._padding@ == seq![0u8, 0u8, 0u8, 0u8, 0u8, 0u8, 0u8],
    {
        let r = Self { region: frame.addr(), level, _padding: [0, 0, 0, 0, 0, 0, 0] };
        assert(r._padding@ =~= seq![0u8, 0u8, 0u8, 0u8, 0u8, 0u8, 0u8]);
        r
    }
}

impl SyncCallConsArgs {
    /// Parameters of a call gate that enters at the code address `entry`
    /// with the given resources.
    pub fn new(entry: usize, resources: CapTable, page_table: PageTable) -> (r: Self)
        ensures
            r == (SyncCallConsArgs { entry, cap_table: resources.id, page_table: page_table.id }),
    {
        Self { entry, cap_table: resources.id, page_table: page_table.id }
    }
}

} // verus!
