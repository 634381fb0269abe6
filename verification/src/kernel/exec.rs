//! x86-64 execution context of a thread, and the register states that
//! interrupt and syscall entry save.
use vstd::prelude::*;

verus! {

/// Saves the interrupted user state into a thread's registers.
pub trait SaveState: Sized {
    /// Writes the state that this saver holds into `regs`.
    fn save_state(self, regs: &mut Regs);
}

/// A saver that keeps the registers as they are.
#[derive(Debug, Copy, Clone)]
pub struct NoopSaver {}

impl NoopSaver {
    /// The saver that changes nothing.
    pub fn new() -> (r: Self) {
        Self {  }
    }
}

impl SaveState for NoopSaver {
    fn save_state(self, _regs: &mut Regs)
        ensures
            *final(_regs) == *old(_regs),
    {
    }
}

/// Registers the callee must preserve.
#[derive(Debug, Clone, Copy)]
pub struct PreservedRegs {
    pub rbx: u64,
    pub rbp: u64,
    pub r12: u64,
    pub r13: u64,
    pub r14: u64,
    pub r15: u64,
}

/// Registers a call may clobber.
#[derive(Debug, Clone, Copy)]
pub struct ScratchRegs {
    pub rax: u64,
    pub rcx: u64,
    pub rdx: u64,
    pub rsi: u64,
    pub rdi: u64,
    pub r8: u64,
    pub r9: u64,
    pub r10: u64,
    pub r11: u64,
}

/// The flags, stack pointer and instruction pointer.
#[derive(Debug, Clone, Copy)]
pub struct ControlRegs {
    pub rflags: u64,
    pub rsp: u64,
    pub rip: u64,
}

/// All the registers of a thread.
#[derive(Debug, Clone, Copy)]
pub struct Regs {
    pub scratch: ScratchRegs,
    pub preserved: PreservedRegs,
    pub control: ControlRegs,
}

impl Default for PreservedRegs {
    fn default() -> (r: Self)
        ensures
            r == (PreservedRegs { rbx: 0, rbp: 0, r12: 0, r13: 0, r14: 0, r15: 0 }),
    {
        PreservedRegs { rbx: 0, rbp: 0, r12: 0, r13: 0, r14: 0, r15: 0 }
    }
}

impl Default for ScratchRegs {
    fn default() -> (r: Self)
        ensures
            r == (ScratchRegs {
                rax: 0,
                rcx: 0,
                rdx: 0,
                rsi: 0,
                rdi: 0,
                r8: 0,
                r9: 0,
                r10: 0,
                r11: 0,
            }),
    {
        ScratchRegs { rax: 0, rcx: 0, rdx: 0, rsi: 0, rdi: 0, r8: 0, r9: 0, r10: 0, r11: 0 }
    }
}

impl Default for ControlRegs {
    fn default() -> (r: Self)
        ensures
            r == (ControlRegs { rflags: 0, rsp: 0, rip: 0 }),
    {
        ControlRegs { rflags: 0, rsp: 0, rip: 0 }
    }
}

impl Default for Regs {
    fn default() -> (r: Self)
        ensures
            r.scratch == (ScratchRegs {
                rax: 0,
                rcx: 0,
                rdx: 0,
                rsi: 0,
                rdi: 0,
                r8: 0,
                r9: 0,
                r10: 0,
                r11: 0,
            }),
            r.preserved == (PreservedRegs { rbx: 0, rbp: 0, r12: 0, r13: 0, r14: 0, r15: 0 }),
            r.control == (ControlRegs { rflags: 0, rsp: 0, rip: 0 }),
    {
        Regs {
            scratch: ScratchRegs::default(),
            preserved: PreservedRegs::default(),
            control: ControlRegs::default(),
        }
    }
}

/// The execution context that a dispatch restores.
#[derive(Debug)]
pub struct ExecCtx {
    regs: Regs,
}

impl ExecCtx {
    /// The registers the context holds.
    pub closed spec fn spec_regs(&self) -> Regs {
        self.regs
    }

    /// A context that holds `regs`.
    pub fn new(regs: Regs) -> (r: Self)
        ensures
            r.spec_regs() == regs,
    {
        Self { regs }
    }

    /// The registers.
    pub fn regs(&self) -> (r: &Regs)
        ensures
            *r == self.spec_regs(),
    {
        &self.regs
    }

    /// The registers, for update.
    pub fn regs_mut(&mut self) -> (r: &mut Regs)
        ensures
            *r == old(self).spec_regs(),
            final(self).spec_regs() == *final(r),
    {
        &mut self.regs
    }
}

/// What a syscall entry saves: the control and preserved registers.
#[derive(Debug, Clone, Copy)]
pub struct SyscallCtx {
    pub control_regs: ControlRegs,
    pub preserved_regs: PreservedRegs,
}

impl SaveState for SyscallCtx {
    fn save_state(self, regs: &mut Regs)
        ensures
            final(regs).control == self.control_regs,
            final(regs).preserved == self.preserved_regs,
            final(regs).scratch == old(regs).scratch,
    {
        regs.control = self.control_regs;
        regs.preserved = self.preserved_regs;
    }
}

/// What an interrupt entry saves: every register.
#[derive(Debug, Clone, Copy)]
pub struct IrqCtx {
    pub control_regs: ControlRegs,
    pub preserved_regs: PreservedRegs,
    pub scratch_regs: ScratchRegs,
}

impl SaveState for IrqCtx {
    fn save_state(self, regs: &mut Regs)
        ensures
            final(regs).control == self.control_regs,
            final(regs).preserved == self.preserved_regs,
            final(regs).scratch == self.scratch_regs,
    {
        regs.control = self.control_regs;
        regs.preserved = self.preserved_regs;
        regs.scratch = self.scratch_regs;
    }
}

/// The initial state of the boot process: its entry point and stack top.
#[derive(Debug)]
pub struct Process {
    pub entry: u64,
    pub rsp: u64,
    pub l4_table: crate::kernel::frames::RawFrame,
}

impl Process {
    /// The registers that start the process (interrupts enabled), and its
    /// root page table.
    pub fn into_parts(self) -> (r: (Regs, crate::kernel::frames::RawFrame))
        ensures
            r.0.control == (ControlRegs { rsp: self.rsp, rip: self.entry, rflags: 0x202 }),
            r.0.scratch == (ScratchRegs {
                rax: 0,
                rcx: 0,
                rdx: 0,
                rsi: 0,
                rdi: 0,
                r8: 0,
                r9: 0,
                r10: 0,
                r11: 0,
            }),
            r.0.preserved == (PreservedRegs { rbx: 0, rbp: 0, r12: 0, r13: 0, r14: 0, r15: 0 }),
            r.1 == self.l4_table,
    {
        (
            Regs {
                control: ControlRegs { rsp: self.rsp, rip: self.entry, rflags: 0x202 },
                scratch: ScratchRegs::default(),
                preserved: PreservedRegs::default(),
            },
            self.l4_table,
        )
    }
}

} // verus!
