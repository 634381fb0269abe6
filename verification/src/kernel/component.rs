//! Threads, the components they run in, and the kernel's handling of a
//! syscall on a capability.
//!
//! The kernel state is the capability-table arena, the threads, the page
//! tables in memory and the retype table. A syscall changes that state and
//! ends in one of three ways: a value returned to the caller, the caller's
//! I/O ports to enable, or a thread to dispatch.
use vstd::prelude::*;

use super::bump_allocator::{next_untyped, BumpAllocator, MAX_FRAMES};
use super::caps::{
    cap_resource, cap_slot, cap_table_of, get_cap_table, get_capability, get_page_table, page_table_of,
    CapTables, PageCapFlags, Resource,
};
use super::exec::{ControlRegs, ExecCtx, PreservedRegs, Regs, SaveState, ScratchRegs, SyscallCtx};
use super::frames::{frame_of, RawFrame};
use super::page_table::{
    empty_table, memory_wf, table_at, walk, Addrspace, AnyPageTable, PageTableFlags,
    PageTableMemory, PRESENT,
};
use super::retyping::{
    entry_count, entry_state, entry_value, frame_index, into_type_outcome, lemma_untyped_entry,
    RetypeTable, State, MAX_REF_COUNT,
};
use crate::addr::{is_canonical, Page, PhysAddr, VirtAddr};
use crate::ops::cap_table::{CapTableOp, ConsArgs, ConstructArgs};
use crate::ops::hardware::HardwareOp;
use crate::ops::ipc::{SyncCallOp, SyncRetOp};
use crate::ops::thread::ThreadOp;
use crate::ops::{cap_error_of, InvalidOperation, SyscallOp};
use crate::raw::{cap_error_code, CapError, CapId, SyscallArgs};
use crate::trie::{SlotRef, TrieSlot};

verus! {

/// Where untyped memory is mapped in every address space.
pub const UNTYPED_MEMORY_OFFSET: u64 = 0x0000_7000_0000_0000;

/// The most nested synchronous calls a thread can make.
pub const SYNC_CALL_LIMIT: usize = 16;

/// The resources a thread runs with: its capability table and its page
/// table.
#[derive(Debug, Clone, Copy, PartialEq, Eq, Structural)]
pub struct Component {
    pub resources: usize,
    pub page_table: RawFrame,
}

impl Component {
    /// The component of capability table `resources` and page table
    /// `page_table`.
    pub fn new(resources: usize, page_table: RawFrame) -> (r: Self)
        ensures
            r == (Component { resources, page_table }),
    {
        Self { resources, page_table }
    }

    /// The address space of the component's page table.
    pub fn addrspace(&self) -> (r: Addrspace)
        ensures
            r.spec_l4() == self.page_table@,
    {
        Addrspace::from_frame(self.page_table)
    }
}

/// A component entered by a synchronous call, with the caller's saved
/// registers.
pub type StackItem = (Component, SyscallCtx);

/// The components a thread has entered by synchronous calls, with the
/// caller's saved registers, innermost last.
#[verifier::external_body]
pub struct ComponentStack {
    inner: heapless::Vec<StackItem, 16>,
}

/// What a component stack holds, innermost last.
pub uninterp spec fn component_stack_items(stack: ComponentStack) -> Seq<(Component, SyscallCtx)>;

impl ComponentStack {
    /// An empty stack, from `heapless::Vec::new`.
    #[verifier::external_body]
    pub fn new() -> (r: Self)
        ensures
            component_stack_items(r) == Seq::<(Component, SyscallCtx)>::empty(),
    {
        Self { inner: heapless::Vec::new() }
    }

    /// Pushes `item` with `heapless::Vec::push`, which refuses it when the
    /// 16 places are taken.
    #[verifier::external_body]
    pub fn push(&mut self, item: StackItem) -> (r: Result<(), StackItem>)
        ensures
            component_stack_items(*old(self)).len() < 16 ==> r is Ok,
            component_stack_items(*old(self)).len() < 16 ==> component_stack_items(*final(self)) == component_stack_items(*old(self)).push(item),
            component_stack_items(*old(self)).len() >= 16 ==> r is Err && r->Err_0 == item,
            component_stack_items(*old(self)).len() >= 16 ==> component_stack_items(*final(self)) == component_stack_items(*old(self)),
    {
        self.inner.push(item)
    }

    /// Takes the innermost item with `heapless::Vec::pop`.
    #[verifier::external_body]
    pub fn pop(&mut self) -> (r: Option<StackItem>)
        ensures
            component_stack_items(*old(self)).len() == 0 ==> r is None,
            component_stack_items(*old(self)).len() == 0 ==> component_stack_items(*final(self)) == component_stack_items(*old(self)),
            component_stack_items(*old(self)).len() > 0 ==> r == Some(component_stack_items(*old(self)).last()),
            component_stack_items(*old(self)).len() > 0 ==> component_stack_items(*final(self)) == component_stack_items(*old(self)).drop_last(),
    {
        self.inner.pop()
    }

    /// The innermost item, read through the slice that `heapless::Vec`
    /// dereferences to.
    #[verifier::external_body]
    pub fn last(&self) -> (r: Option<StackItem>)
        ensures
            component_stack_items(*self).len() == 0 ==> r is None,
            component_stack_items(*self).len() > 0 ==> r == Some(component_stack_items(*self).last()),
    {
        self.inner.last().copied()
    }
}

/// A user-space thread: its registers, the component it started in, and
/// the components it has entered by synchronous calls.
pub struct Thread {
    pub exec_ctx: ExecCtx,
    pub root_comp: Component,
    pub component_stack: ComponentStack,
}

/// The component a thread with root `root` and call stack `stack` runs in.
pub open spec fn running_component(root: Component, stack: Seq<(Component, SyscallCtx)>) -> Component {
    if stack.len() == 0 {
        root
    } else {
        stack.last().0
    }
}

impl Thread {
    /// The thread's registers.
    pub open spec fn regs(&self) -> Regs {
        self.exec_ctx.spec_regs()
    }

    /// The thread's call stack.
    pub open spec fn stack(&self) -> Seq<(Component, SyscallCtx)> {
        component_stack_items(self.component_stack)
    }

    /// The component the thread runs in.
    pub open spec fn spec_component(&self) -> Component {
        running_component(self.root_comp, self.stack())
    }

    /// A thread that starts with `regs` in `component`.
    pub fn new(regs: Regs, component: Component) -> (r: Self)
        ensures
            r.regs() == regs,
            r.root_comp == component,
            r.stack() == Seq::<(Component, SyscallCtx)>::empty(),
    {
        Self {
            exec_ctx: ExecCtx::new(regs),
            root_comp: component,
            component_stack: ComponentStack::new(),
        }
    }

    /// The component the thread runs in: the innermost called one, or its
    /// own.
    pub fn component(&self) -> (r: Component)
        ensures
            r == self.spec_component(),
    {
        match self.component_stack.last() {
            Some((comp, _)) => comp,
            None => self.root_comp,
        }
    }
}

/// How a syscall ends when it does not fail.
#[derive(Debug, Clone, Copy, PartialEq, Eq, Structural)]
pub enum Outcome {
    /// The value returned to the caller.
    Complete(usize),
    /// The caller's I/O ports are to be enabled, then 0 returned.
    EnableIoPorts,
    /// The thread to dispatch; the caller does not return.
    Dispatch(usize),
}

/// The kernel's state.
pub struct Kernel {
    pub caps: CapTables,
    pub threads: Vec<Thread>,
    pub tables: PageTableMemory,
    pub retype: RetypeTable,
    /// The root table the kernel runs on, whose kernel half new root
    /// tables share.
    pub kernel_l4: u64,
}

/// A component names a table of the arena and an aligned page table.
pub open spec fn component_wf(c: Component, ntables: nat) -> bool {
    c.resources < ntables
}

/// A resource names objects that exist.
pub open spec fn resource_wf(r: Resource, ntables: nat, nthreads: nat) -> bool {
    match r {
        Resource::CapEntry(t) => t < ntables,
        Resource::Thread(t) => t < nthreads,
        Resource::SyncCall { entry, component } => component_wf(component, ntables),
        _ => true,
    }
}

/// A thread's components exist.
pub open spec fn thread_wf(t: Thread, ntables: nat) -> bool {
    &&& component_wf(t.root_comp, ntables)
    &&& forall|i: int| 0 <= i < t.stack().len() ==> component_wf(#[trigger] t.stack()[i].0, ntables)
}

impl Kernel {
    /// The arena and tables are well formed, every handle names an object
    /// that exists, and untyped memory fits below the top of the lower half.
    pub open spec fn wf(&self) -> bool {
        &&& self.caps.wf()
        &&& self.retype.wf()
        &&& memory_wf(self.tables@)
        &&& self.retype@.len() * 4096 + UNTYPED_MEMORY_OFFSET <= 0x0000_8000_0000_0000
        &&& self.retype@.len() * 4096 <= usize::MAX
        &&& forall|n: int, o: int|
            0 <= n < self.caps@.len() && 0 <= o < 64 ==> resource_wf(
                #[trigger] self.caps@[n][o].payload,
                self.caps@.len(),
                self.threads@.len(),
            )
        &&& forall|i: int| 0 <= i < self.threads@.len() ==> thread_wf(#[trigger] self.threads@[i], self.caps@.len())
    }
}

/// The operations whose handling the kernel has not implemented: dropping
/// or copying a capability, and any operation on a page-table or
/// memory-typing capability.
pub open spec fn unimplemented_op(k: &Kernel, this: usize, cap: u32, args: SyscallArgs) -> bool {
    let comp = k.threads@[this as int].spec_component();
    match cap_resource(k.caps@, comp.resources, cap) {
        Ok(Resource::PageTable { .. }) => true,
        Ok(Resource::MemoryTyping) => true,
        Ok(Resource::CapEntry(_)) => match CapTableOp::decoded(
            args.spec_op(),
            args.spec_args(),
            args.spec_payload(),
        ) {
            Ok(CapTableOp::Drop { .. }) => true,
            Ok(CapTableOp::Copy { .. }) => true,
            _ => !CapTableOp::can_decode(args.spec_op(), args.spec_args(), args.spec_payload()),
        },
        _ => false,
    }
}

/// The state is as it was.
pub open spec fn unchanged(pre: &Kernel, post: &Kernel) -> bool {
    &&& post.caps@ == pre.caps@
    &&& post.threads@ == pre.threads@
    &&& post.tables@ == pre.tables@
    &&& post.retype@ == pre.retype@
    &&& post.kernel_l4 == pre.kernel_l4
}

/// Only the capability tables changed, to `caps`.
pub open spec fn only_caps(pre: &Kernel, post: &Kernel, caps: Seq<Seq<TrieSlot<Resource>>>) -> bool {
    &&& post.caps@ == caps
    &&& post.threads@ == pre.threads@
    &&& post.tables@ == pre.tables@
    &&& post.retype@ == pre.retype@
    &&& post.kernel_l4 == pre.kernel_l4
}

/// `caps` with the child of slot `(node, slot)` set to `child`.
pub open spec fn with_child(
    caps: Seq<Seq<TrieSlot<Resource>>>,
    node: usize,
    slot: usize,
    child: Option<usize>,
) -> Seq<Seq<TrieSlot<Resource>>> {
    caps.update(
        node as int,
        caps[node as int].update(
            slot as int,
            TrieSlot { child, payload: caps[node as int][slot as int].payload },
        ),
    )
}

/// `caps` with the resource of slot `(node, slot)` set to `payload`.
pub open spec fn with_payload(
    caps: Seq<Seq<TrieSlot<Resource>>>,
    node: usize,
    slot: usize,
    payload: Resource,
) -> Seq<Seq<TrieSlot<Resource>>> {
    caps.update(
        node as int,
        caps[node as int].update(
            slot as int,
            TrieSlot { child: caps[node as int][slot as int].child, payload },
        ),
    )
}

/// A capability table with no child and no resource in any slot.
pub open spec fn empty_cap_table() -> Seq<TrieSlot<Resource>> {
    Seq::new(64, |o: int| TrieSlot { child: None, payload: Resource::Empty })
}

/// Thread `this` of `post` has registers `regs` and call stack `stack`, its
/// root component and every other thread unchanged.
pub open spec fn thread_set(
    pre: &Kernel,
    post: &Kernel,
    this: usize,
    regs: Regs,
    stack: Seq<(Component, SyscallCtx)>,
) -> bool {
    &&& post.caps@ == pre.caps@
    &&& post.tables@ == pre.tables@
    &&& post.retype@ == pre.retype@
    &&& post.kernel_l4 == pre.kernel_l4
    &&& post.threads@.len() == pre.threads@.len()
    &&& forall|i: int| 0 <= i < pre.threads@.len() && i != this ==> post.threads@[i] == pre.threads@[i]
    &&& post.threads@[this as int].regs() == regs
    &&& post.threads@[this as int].stack() == stack
    &&& post.threads@[this as int].root_comp == pre.threads@[this as int].root_comp
}

/// The physical frame that the construct at `region` uses: the frame that
/// the page of untyped memory at `region` maps to in `comp`'s address
/// space, or why there is none.
pub open spec fn construct_frame(k: &Kernel, comp: Component, region: usize) -> Result<u64, CapError> {
    let addr = region + UNTYPED_MEMORY_OFFSET;
    if region > k.retype@.len() * 4096 {
        Err(CapError::InvalidFrame)
    } else if !is_canonical(addr as u64) || addr % 4096 != 0 {
        Err(CapError::InvalidArgument)
    } else {
        match walk(k.tables@, comp.page_table@, addr as u64, 4) {
            None => Err(CapError::Internal),
            Some((frame, flags)) => if flags & PRESENT != PRESENT {
                Err(CapError::MissingRightsToFrame)
            } else {
                Ok(frame)
            },
        }
    }
}

/// The registers of a new thread: it starts at `entry` with stack pointer
/// `sp` and `arg0` in `rdi`, interrupts enabled.
pub open spec fn thread_start_regs(entry: usize, sp: usize, arg0: usize) -> Regs {
    Regs {
        control: ControlRegs { rip: entry as u64, rsp: sp as u64, rflags: 0x202 },
        scratch: ScratchRegs {
            rax: 0,
            rcx: 0,
            rdx: 0,
            rsi: 0,
            rdi: arg0 as u64,
            r8: 0,
            r9: 0,
            r10: 0,
            r11: 0,
        },
        preserved: PreservedRegs { rbx: 0, rbp: 0, r12: 0, r13: 0, r14: 0, r15: 0 },
    }
}

/// The outcome of a construct operation that puts a resource in slot
/// `(node, slot)`.
pub open spec fn construct_outcome(
    pre: &Kernel,
    post: &Kernel,
    comp: Component,
    node: usize,
    slot: usize,
    kind: ConstructArgs,
    r: Result<Outcome, CapError>,
) -> bool {
    let caps = pre.caps@;
    match kind {
        ConstructArgs::SyncCall(a) => match cap_table_of(caps, comp.resources, a.cap_table@) {
            Err(e) => r == Err::<Outcome, _>(e) && unchanged(pre, post),
            Ok(ct) => match page_table_of(caps, comp.resources, a.page_table@) {
                Err(e) => r == Err::<Outcome, _>(e) && unchanged(pre, post),
                Ok((pt, _)) => r == Ok::<_, CapError>(Outcome::Complete(0)) && only_caps(
                    pre,
                    post,
                    with_payload(
                        caps,
                        node,
                        slot,
                        Resource::SyncCall {
                            entry: a.entry,
                            component: Component { resources: ct, page_table: pt },
                        },
                    ),
                ),
            },
        },
        ConstructArgs::CapTable(a) => match construct_frame(pre, comp, a.region) {
            Err(e) => r == Err::<Outcome, _>(e) && unchanged(pre, post),
            Ok(frame) => {
                &&& post.threads@ == pre.threads@
                &&& post.tables@ == pre.tables@
                &&& post.kernel_l4 == pre.kernel_l4
                &&& match r {
                    Err(e) => e == CapError::BadFrameType && post.caps@ == caps
                        && into_type_outcome(pre.retype@, post.retype@, frame, State::Kernel, Err(
                        e_retype_of(pre.retype@, frame),
                    )),
                    Ok(o) => o == Outcome::Complete(0) && into_type_outcome(
                        pre.retype@,
                        post.retype@,
                        frame,
                        State::Kernel,
                        Ok(()),
                    ) && post.caps@ == with_payload(
                        caps.push(empty_cap_table()),
                        node,
                        slot,
                        Resource::CapEntry(caps.len() as usize),
                    ),
                }
            },
        },
        ConstructArgs::PageTable(a) => match construct_frame(pre, comp, a.region) {
            Err(e) => r == Err::<Outcome, _>(e) && unchanged(pre, post),
            Ok(frame) => if a.level > 4 || a.level == 0 {
                r == Err::<Outcome, _>(CapError::InvalidArgument) && unchanged(pre, post)
            } else {
                &&& post.threads@ == pre.threads@
                &&& post.kernel_l4 == pre.kernel_l4
                &&& match r {
                    Err(e) => e == CapError::BadFrameType && post.caps@ == caps && post.tables@
                        == pre.tables@ && into_type_outcome(
                        pre.retype@,
                        post.retype@,
                        frame,
                        State::Kernel,
                        Err(e_retype_of(pre.retype@, frame)),
                    ),
                    Ok(o) => o == Outcome::Complete(0) && into_type_outcome(
                        pre.retype@,
                        post.retype@,
                        frame,
                        State::Kernel,
                        Ok(()),
                    ) && post.tables@ == pre.tables@.insert(
                        frame,
                        if a.level == 4 {
                            Seq::new(
                                512,
                                |i: int|
                                    if i >= 256 {
                                        table_at(pre.tables@, pre.kernel_l4)[i]
                                    } else {
                                        0u64
                                    },
                            )
                        } else {
                            empty_table()
                        },
                    ) && post.caps@ == with_payload(
                        caps,
                        node,
                        slot,
                        Resource::PageTable {
                            table: frame_of(frame),
                            flags: PageCapFlags::spec_new(a.level),
                        },
                    ),
                }
            },
        },
        ConstructArgs::Thread(a) => match construct_frame(pre, comp, a.region) {
            Err(e) => r == Err::<Outcome, _>(e) && unchanged(pre, post),
            Ok(frame) => match cap_table_of(caps, comp.resources, a.cap_table@) {
                Err(e) => r == Err::<Outcome, _>(e) && unchanged(pre, post),
                Ok(ct) => match page_table_of(caps, comp.resources, a.page_table@) {
                    Err(e) => r == Err::<Outcome, _>(e) && unchanged(pre, post),
                    Ok((pt, flags)) => if !flags@ == 4u8 {
                        r == Err::<Outcome, _>(CapError::InvalidArgument) && unchanged(pre, post)
                    } else {
                        &&& post.tables@ == pre.tables@
                        &&& post.kernel_l4 == pre.kernel_l4
                        &&& match r {
                            Err(e) => e == CapError::BadFrameType && post.caps@ == caps
                                && post.threads@ == pre.threads@ && into_type_outcome(
                                pre.retype@,
                                post.retype@,
                                frame,
                                State::Kernel,
                                Err(e_retype_of(pre.retype@, frame)),
                            ),
                            Ok(o) => {
                                &&& o == Outcome::Complete(0)
                                &&& into_type_outcome(
                                    pre.retype@,
                                    post.retype@,
                                    frame,
                                    State::Kernel,
                                    Ok(()),
                                )
                                &&& post.threads@.len() == pre.threads@.len() + 1
                                &&& post.threads@.take(pre.threads@.len() as int) == pre.threads@
                                &&& post.threads@.last().regs() == thread_start_regs(
                                    a.entry,
                                    a.stack_pointer,
                                    a.arg0,
                                )
                                &&& post.threads@.last().root_comp == (Component {
                                    resources: ct,
                                    page_table: pt,
                                })
                                &&& post.threads@.last().stack().len() == 0
                                &&& post.caps@ == with_payload(
                                    caps,
                                    node,
                                    slot,
                                    Resource::Thread(pre.threads@.len() as usize),
                                )
                            },
                        }
                    },
                },
            },
        },
    }
}

/// The error with which retyping the frame at `frame` into kernel memory
/// fails: beyond the table, or not untyped.
pub open spec fn e_retype_of(retype: Seq<u16>, frame: u64) -> super::retyping::RetypeError {
    let i = super::retyping::frame_index(frame);
    if i >= retype.len() {
        super::retyping::RetypeError::OutOfBounds
    } else {
        super::retyping::RetypeError::InvalidFromState(super::retyping::entry_state(retype[i]))
    }
}

/// The outcome of an operation on the capability table `node`.
pub open spec fn cap_table_outcome(
    pre: &Kernel,
    post: &Kernel,
    comp: Component,
    node: usize,
    args: SyscallArgs,
    r: Result<Outcome, CapError>,
) -> bool {
    match CapTableOp::decoded(args.spec_op(), args.spec_args(), args.spec_payload()) {
        Err(e) => r == Err::<Outcome, _>(cap_error_of(e)) && unchanged(pre, post),
        Ok(CapTableOp::Link { slot, other_table_cap }) => match cap_table_of(
            pre.caps@,
            comp.resources,
            other_table_cap@,
        ) {
            Err(e) => r == Err::<Outcome, _>(e) && unchanged(pre, post),
            Ok(o) => r == Ok::<_, CapError>(Outcome::Complete(0)) && only_caps(
                pre,
                post,
                with_child(pre.caps@, node, slot@, Some(o)),
            ),
        },
        Ok(CapTableOp::Unlink { slot }) => r == Ok::<_, CapError>(Outcome::Complete(0))
            && only_caps(pre, post, with_child(pre.caps@, node, slot@, None)),
        Ok(CapTableOp::Construct(ConsArgs { kind, slot })) => construct_outcome(
            pre,
            post,
            comp,
            node,
            slot@,
            kind,
            r,
        ),
        _ => false,
    }
}

/// What a syscall by thread `this` on capability `cap` with `args` does,
/// with `ctx` the registers its syscall entry saved.
pub open spec fn syscall_outcome(
    pre: &Kernel,
    post: &Kernel,
    this: usize,
    cap: u32,
    args: SyscallArgs,
    ctx: SyscallCtx,
    r: Result<Outcome, CapError>,
) -> bool {
    let thread = pre.threads@[this as int];
    let comp = thread.spec_component();
    let (op, words, payload) = (args.spec_op(), args.spec_args(), args.spec_payload());
    match cap_resource(pre.caps@, comp.resources, cap) {
        Err(e) => r == Err::<Outcome, _>(e) && unchanged(pre, post),
        Ok(Resource::Empty) => r == Err::<Outcome, _>(CapError::NotFound) && unchanged(pre, post),
        Ok(Resource::CapEntry(node)) => cap_table_outcome(pre, post, comp, node, args, r),
        Ok(Resource::Thread(target)) => match ThreadOp::decoded(op, words, payload) {
            Err(e) => r == Err::<Outcome, _>(cap_error_of(e)) && unchanged(pre, post),
            Ok(_) => r == Ok::<_, CapError>(Outcome::Dispatch(target)) && thread_set(
                pre,
                post,
                this,
                Regs {
                    control: ctx.control_regs,
                    preserved: ctx.preserved_regs,
                    scratch: thread.regs().scratch,
                },
                thread.stack(),
            ),
        },
        Ok(Resource::HardwareAccess) => match HardwareOp::decoded(op, words, payload) {
            Err(e) => r == Err::<Outcome, _>(cap_error_of(e)) && unchanged(pre, post),
            Ok(HardwareOp::EnableIoPorts) => r == Ok::<_, CapError>(Outcome::EnableIoPorts)
                && unchanged(pre, post),
            Ok(HardwareOp::FlushPage { .. }) => r == Err::<Outcome, _>(CapError::InvalidOp)
                && unchanged(pre, post),
        },
        Ok(Resource::SyncCall { entry, component }) => match SyncCallOp::decoded(
            op,
            words,
            payload,
        ) {
            Err(e) => r == Err::<Outcome, _>(cap_error_of(e)) && unchanged(pre, post),
            Ok(SyncCallOp::Call((a0, a1, a2, a3))) => if thread.stack().len() >= SYNC_CALL_LIMIT {
                r == Err::<Outcome, _>(CapError::SyncCallLimit) && thread_set(
                    pre,
                    post,
                    this,
                    thread.regs(),
                    thread.stack(),
                )
            } else {
                r == Ok::<_, CapError>(Outcome::Dispatch(this)) && thread_set(
                    pre,
                    post,
                    this,
                    Regs {
                        control: ControlRegs { rip: entry as u64, rsp: 0, rflags: 0x202 },
                        scratch: ScratchRegs {
                            rdi: a0 as u64,
                            rsi: a1 as u64,
                            rdx: a2 as u64,
                            rcx: a3 as u64,
                            ..thread.regs().scratch
                        },
                        preserved: thread.regs().preserved,
                    },
                    thread.stack().push((component, ctx)),
                )
            },
        },
        Ok(Resource::SyncRet) => match SyncRetOp::decoded(op, words, payload) {
            Err(e) => r == Err::<Outcome, _>(cap_error_of(e)) && unchanged(pre, post),
            Ok(SyncRetOp::SyncRet(code)) => if thread.stack().len() == 0 {
                r == Err::<Outcome, _>(CapError::SyncRetBottom) && thread_set(
                    pre,
                    post,
                    this,
                    thread.regs(),
                    thread.stack(),
                )
            } else {
                let saved = thread.stack().last().1;
                r == Ok::<_, CapError>(Outcome::Dispatch(this)) && thread_set(
                    pre,
                    post,
                    this,
                    Regs {
                        control: saved.control_regs,
                        preserved: saved.preserved_regs,
                        scratch: ScratchRegs { rax: code as u64, ..thread.regs().scratch },
                    },
                    thread.stack().drop_last(),
                )
            },
        },
        Ok(Resource::PageTable { .. }) => false,
        Ok(Resource::MemoryTyping) => false,
    }
}

/// The capability table of the boot component: the sync return in slot 0,
/// the right to retype memory in slot 1, the table itself in slot 2, the boot thread in slot 3, its root page
/// table in slot 4 and hardware access in slot 5.
pub open spec fn boot_table(node: usize, thread: usize, page_table: RawFrame) -> Seq<TrieSlot<Resource>> {
    Seq::new(
        64,
        |o: int|
            TrieSlot {
                child: None,
                payload: if o == 0 {
                    Resource::SyncRet
                } else if o == 1 {
                    Resource::MemoryTyping
                } else if o == 2 {
                    Resource::CapEntry(node)
                } else if o == 3 {
                    Resource::Thread(thread)
                } else if o == 4 {
                    Resource::PageTable { table: page_table, flags: PageCapFlags::spec_new(4) }
                } else if o == 5 {
                    Resource::HardwareAccess
                } else {
                    Resource::Empty
                },
            },
    )
}

impl Kernel {
    /// The frame that the page of untyped memory at `region` maps to in
    /// `comp`'s address space, present, or why there is none.
    fn construct_frame(&self, comp: Component, region: usize) -> (r: Result<RawFrame, CapError>)
        requires
            self.wf(),
        ensures
            match construct_frame(self, comp, region) {
                Ok(f) => r is Ok && r->Ok_0@ == f,
                Err(e) => r == Err::<RawFrame, _>(e),
            },
    {
        if region > RawFrame::memory_size(&self.retype) {
            return Err(CapError::InvalidFrame);
        }
        let page_address = region as u64 + UNTYPED_MEMORY_OFFSET;
        let va = match VirtAddr::try_new(page_address) {
            Ok(v) => v,
            Err(_) => {
                return Err(CapError::InvalidArgument);
            },
        };
        let page = match Page::try_from_start_address(va) {
            Ok(p) => p,
            Err(_) => {
                return Err(CapError::InvalidArgument);
            },
        };
        let (frame, flags) = match comp.addrspace().get(page, &self.tables) {
            Some(x) => x,
            None => {
                return Err(CapError::Internal);
            },
        };
        if !flags.contains(PageTableFlags::present()) {
            return Err(CapError::MissingRightsToFrame);
        }
        Ok(frame)
    }

    /// Puts the resource that `kind` describes in slot `slot` of table
    /// `node`.
    fn construct(&mut self, comp: Component, node: usize, slot: usize, kind: ConstructArgs) -> (r:
        Result<Outcome, CapError>)
        requires
            old(self).wf(),
            node < old(self).caps@.len(),
            slot < 64,
            component_wf(comp, old(self).caps@.len()),
        ensures
            final(self).wf(),
            construct_outcome(old(self), final(self), comp, node, slot, kind, r),
    {
        match kind {
            ConstructArgs::SyncCall(_) => self.construct_sync_call(comp, node, slot, kind),
            ConstructArgs::CapTable(_) => self.construct_cap_table(comp, node, slot, kind),
            ConstructArgs::PageTable(_) => self.construct_page_table(comp, node, slot, kind),
            ConstructArgs::Thread(_) => self.construct_thread(comp, node, slot, kind),
        }
    }

    /// Puts `res` in slot `slot` of table `node`; the state stays well
    /// formed when `res` names objects that exist.
    fn put_resource(&mut self, node: usize, slot: usize, res: Resource)
        requires
            old(self).wf(),
            node < old(self).caps@.len(),
            slot < 64,
            resource_wf(res, old(self).caps@.len(), old(self).threads@.len()),
        ensures
            final(self).wf(),
            final(self).caps@ == with_payload(old(self).caps@, node, slot, res),
            final(self).threads@ == old(self).threads@,
            final(self).tables@ == old(self).tables@,
            final(self).retype@ == old(self).retype@,
            final(self).kernel_l4 == old(self).kernel_l4,
    {
        proof {
            self.caps.lemma_wf();
        }
        self.caps.set_payload(SlotRef { node, offset: slot }, res);
        proof {
            self.caps.lemma_wf();
            assert forall|n: int, o: int|
                0 <= n < self.caps@.len() && 0 <= o < 64 implies resource_wf(
                #[trigger] self.caps@[n][o].payload,
                self.caps@.len(),
                self.threads@.len(),
            ) by {
                if n != node || o != slot {
                    assert(self.caps@[n][o] == old(self).caps@[n][o]);
                }
            }
        }
    }

    fn construct_sync_call(&mut self, comp: Component, node: usize, slot: usize, kind: ConstructArgs) -> (r:
        Result<Outcome, CapError>)
        requires
            old(self).wf(),
            node < old(self).caps@.len(),
            slot < 64,
            component_wf(comp, old(self).caps@.len()),
            kind is SyncCall,
        ensures
            final(self).wf(),
            construct_outcome(old(self), final(self), comp, node, slot, kind, r),
    {
        let a = match kind {
            ConstructArgs::SyncCall(a) => a,
            _ => {
                return Err(CapError::Internal);
            },
        };
        let ct = get_cap_table(&self.caps, comp.resources, a.cap_table)?;
        let (pt, _) = get_page_table(&self.caps, comp.resources, a.page_table)?;
        proof {
            self.lemma_cap_table_exists(comp.resources, a.cap_table@);
        }
        let resource = Resource::SyncCall { entry: a.entry, component: Component::new(ct, pt) };
        self.put_resource(node, slot, resource);
        Ok(Outcome::Complete(0))
    }

    /// A capability table that a capability designates exists.
    proof fn lemma_cap_table_exists(&self, node: usize, cap: u32)
        requires
            self.wf(),
            node < self.caps@.len(),
        ensures
            cap_table_of(self.caps@, node, cap) matches Ok(t) ==> t < self.caps@.len(),
    {
        self.caps.lemma_wf();
        crate::trie::lemma_lookup_in_arena(self.caps@, 64, node as nat, cap as nat);
        match cap_slot(self.caps@, node, cap) {
            Some(s) => {
                assert(resource_wf(self.caps@[s.node as int][s.offset as int].payload, self.caps@.len(), self.threads@.len()));
            },
            None => {},
        }
    }

    fn construct_cap_table(&mut self, comp: Component, node: usize, slot: usize, kind: ConstructArgs) -> (r:
        Result<Outcome, CapError>)
        requires
            old(self).wf(),
            node < old(self).caps@.len(),
            slot < 64,
            component_wf(comp, old(self).caps@.len()),
            kind is CapTable,
        ensures
            final(self).wf(),
            construct_outcome(old(self), final(self), comp, node, slot, kind, r),
    {
        let a = match kind {
            ConstructArgs::CapTable(a) => a,
            _ => {
                return Err(CapError::Internal);
            },
        };
        let frame = self.construct_frame(comp, a.region)?;
        match frame.try_into_kernel(&mut self.retype) {
            Err(e) => {
                proof {
                    self.lemma_retype_error(old(self).retype@, frame@, e);
                }
                Err(CapError::BadFrameType)
            },
            Ok(_) => {
                let n = self.caps.add_node(Resource::Empty);
                proof {
                    self.caps.lemma_wf();
                    assert(self.caps@[n as int] =~= empty_cap_table());
                    assert(self.caps@ =~= old(self).caps@.push(empty_cap_table()));
                    assert forall|m: int, o: int|
                        0 <= m < self.caps@.len() && 0 <= o < 64 implies resource_wf(
                        #[trigger] self.caps@[m][o].payload,
                        self.caps@.len(),
                        self.threads@.len(),
                    ) by {
                        if m < n {
                            assert(self.caps@[m] == old(self).caps@[m]);
                        }
                    }
                    assert forall|i: int| 0 <= i < self.threads@.len() implies thread_wf(
                        #[trigger] self.threads@[i],
                        self.caps@.len(),
                    ) by {
                        assert(thread_wf(self.threads@[i], old(self).caps@.len()));
                    }
                }
                self.put_resource(node, slot, Resource::CapEntry(n));
                Ok(Outcome::Complete(0))
            },
        }
    }

    /// A failed retype into kernel memory leaves the table as it was and
    /// fails as `e_retype_of` says.
    proof fn lemma_retype_error(&self, before: Seq<u16>, frame: u64, e: super::retyping::RetypeError)
        requires
            into_type_outcome(before, self.retype@, frame, State::Kernel, Err(e)),
        ensures
            into_type_outcome(before, self.retype@, frame, State::Kernel, Err(e_retype_of(before, frame))),
            self.retype@ == before,
    {
    }

    fn construct_page_table(&mut self, comp: Component, node: usize, slot: usize, kind: ConstructArgs) -> (r:
        Result<Outcome, CapError>)
        requires
            old(self).wf(),
            node < old(self).caps@.len(),
            slot < 64,
            component_wf(comp, old(self).caps@.len()),
            kind is PageTable,
        ensures
            final(self).wf(),
            construct_outcome(old(self), final(self), comp, node, slot, kind, r),
    {
        let a = match kind {
            ConstructArgs::PageTable(a) => a,
            _ => {
                return Err(CapError::Internal);
            },
        };
        let frame = self.construct_frame(comp, a.region)?;
        if a.level > 4 || a.level == 0 {
            return Err(CapError::InvalidArgument);
        }
        let table = if a.level == 4 {
            self.tables.clone_kernel_table(self.kernel_l4)
        } else {
            AnyPageTable::new()
        };
        match frame.try_into_kernel(&mut self.retype) {
            Err(e) => {
                proof {
                    self.lemma_retype_error(old(self).retype@, frame@, e);
                }
                Err(CapError::BadFrameType)
            },
            Ok(_) => {
                let addr = frame.addr().as_u64();
                self.tables.write_table(addr, table);
                proof {
                    assert forall|k: u64| #[trigger] self.tables@.contains_key(k) implies self.tables@[k].len()
                        == 512 by {
                        if k != addr {
                            assert(old(self).tables@.contains_key(k));
                        }
                    }
                    let f = frame_of(frame@);
                    assert(f@ == frame@);
                    RawFrame::lemma_view_injective(f, frame);
                }
                let resource = Resource::PageTable { table: frame, flags: PageCapFlags::new(a.level) };
                self.put_resource(node, slot, resource);
                Ok(Outcome::Complete(0))
            },
        }
    }

    fn construct_thread(&mut self, comp: Component, node: usize, slot: usize, kind: ConstructArgs) -> (r:
        Result<Outcome, CapError>)
        requires
            old(self).wf(),
            node < old(self).caps@.len(),
            slot < 64,
            component_wf(comp, old(self).caps@.len()),
            kind is Thread,
        ensures
            final(self).wf(),
            construct_outcome(old(self), final(self), comp, node, slot, kind, r),
    {
        let a = match kind {
            ConstructArgs::Thread(a) => a,
            _ => {
                return Err(CapError::Internal);
            },
        };
        let frame = self.construct_frame(comp, a.region)?;
        let ct = get_cap_table(&self.caps, comp.resources, a.cap_table)?;
        let (pt, flags) = get_page_table(&self.caps, comp.resources, a.page_table)?;
        if !flags.level() == 4 {
            return Err(CapError::InvalidArgument);
        }
        proof {
            self.lemma_cap_table_exists(comp.resources, a.cap_table@);
        }
        let regs = Regs {
            control: ControlRegs { rip: a.entry as u64, rsp: a.stack_pointer as u64, rflags: 0x202 },
            scratch: ScratchRegs {
                rax: 0,
                rcx: 0,
                rdx: 0,
                rsi: 0,
                rdi: a.arg0 as u64,
                r8: 0,
                r9: 0,
                r10: 0,
                r11: 0,
            },
            preserved: PreservedRegs { rbx: 0, rbp: 0, r12: 0, r13: 0, r14: 0, r15: 0 },
        };
        match frame.try_into_kernel(&mut self.retype) {
            Err(e) => {
                proof {
                    self.lemma_retype_error(old(self).retype@, frame@, e);
                }
                Err(CapError::BadFrameType)
            },
            Ok(_) => {
                let index = self.threads.len();
                let thread = Thread::new(regs, Component::new(ct, pt));
                self.threads.push(thread);
                proof {
                    assert(self.threads@.take(index as int) =~= old(self).threads@);
                    assert forall|i: int| 0 <= i < self.threads@.len() implies thread_wf(
                        #[trigger] self.threads@[i],
                        self.caps@.len(),
                    ) by {
                        if i < index {
                            assert(self.threads@[i] == old(self).threads@[i]);
                        }
                    }
                    assert forall|n: int, o: int|
                        0 <= n < self.caps@.len() && 0 <= o < 64 implies resource_wf(
                        #[trigger] self.caps@[n][o].payload,
                        self.caps@.len(),
                        self.threads@.len(),
                    ) by {
                        assert(resource_wf(self.caps@[n][o].payload, old(self).caps@.len(), old(self).threads@.len()));
                    }
                }
                self.put_resource(node, slot, Resource::Thread(index));
                Ok(Outcome::Complete(0))
            },
        }
    }

    /// Performs an operation on the capability table `node`.
    fn exercise_cap_table(&mut self, comp: Component, node: usize, args: &SyscallArgs) -> (r: Result<
        Outcome,
        CapError,
    >)
        requires
            old(self).wf(),
            node < old(self).caps@.len(),
            component_wf(comp, old(self).caps@.len()),
            CapTableOp::can_decode(args.spec_op(), args.spec_args(), args.spec_payload()),
            !(CapTableOp::decoded(args.spec_op(), args.spec_args(), args.spec_payload()) matches Ok(
                CapTableOp::Drop { .. },
            )),
            !(CapTableOp::decoded(args.spec_op(), args.spec_args(), args.spec_payload()) matches Ok(
                CapTableOp::Copy { .. },
            )),
        ensures
            final(self).wf(),
            cap_table_outcome(old(self), final(self), comp, node, *args, r),
    {
        let op = match CapTableOp::from_args(args) {
            Ok(op) => op,
            Err(e) => {
                return Err(CapError::from(e));
            },
        };
        proof {
            self.caps.lemma_wf();
        }
        match op {
            CapTableOp::Link { slot, other_table_cap } => {
                let other = get_cap_table(&self.caps, comp.resources, other_table_cap)?;
                proof {
                    self.lemma_cap_table_exists(comp.resources, other_table_cap@);
                }
                self.caps.set_child(SlotRef { node, offset: slot.as_usize() }, Some(other));
                proof {
                    self.lemma_wf_after_child(old(self), node, slot@);
                }
                Ok(Outcome::Complete(0))
            },
            CapTableOp::Unlink { slot } => {
                self.caps.set_child(SlotRef { node, offset: slot.as_usize() }, None);
                proof {
                    self.lemma_wf_after_child(old(self), node, slot@);
                }
                Ok(Outcome::Complete(0))
            },
            CapTableOp::Construct(ConsArgs { kind, slot }) => self.construct(
                comp,
                node,
                slot.as_usize(),
                kind,
            ),
            _ => Err(CapError::InvalidOp),
        }
    }

    /// Changing the child of one slot keeps the state well formed.
    proof fn lemma_wf_after_child(&self, pre: &Kernel, node: usize, slot: usize)
        requires
            pre.wf(),
            self.caps.wf(),
            node < pre.caps@.len(),
            slot < 64,
            self.caps@ == with_child(pre.caps@, node, slot, self.caps@[node as int][slot as int].child),
            self.threads@ == pre.threads@,
            self.tables@ == pre.tables@,
            self.retype@ == pre.retype@,
        ensures
            self.wf(),
    {
        pre.caps.lemma_wf();
        assert forall|n: int, o: int|
            0 <= n < self.caps@.len() && 0 <= o < 64 implies resource_wf(
            #[trigger] self.caps@[n][o].payload,
            self.caps@.len(),
            self.threads@.len(),
        ) by {
            assert(self.caps@[n][o].payload == pre.caps@[n][o].payload);
        }
    }

    /// Handles the syscall that thread `this` made with the capability in
    /// the word `a` and the arguments `args`: a capability that does not fit
    /// 32 bits is an invalid argument; otherwise the capability is
    /// exercised. An error comes back as its negative number.
    pub fn handle(&mut self, this: usize, a: usize, args: &SyscallArgs, ctx: SyscallCtx) -> (r: Result<
        Outcome,
        isize,
    >)
        requires
            old(self).wf(),
            this < old(self).threads@.len(),
            a <= u32::MAX ==> !unimplemented_op(old(self), this, a as u32, *args),
        ensures
            final(self).wf(),
            a > u32::MAX ==> r == Err::<Outcome, isize>(
                -(cap_error_code(CapError::InvalidArgument) as int) as isize,
            ) && unchanged(old(self), final(self)),
            a <= u32::MAX ==> exists|res: Result<Outcome, CapError>|
                #[trigger] syscall_outcome(old(self), final(self), this, a as u32, *args, ctx, res)
                    && r == match res {
                    Ok(o) => Ok::<Outcome, isize>(o),
                    Err(e) => Err(-(cap_error_code(e) as int) as isize),
                },
    {
        if a as u64 > 0xFFFF_FFFFu64 {
            return Err(CapError::InvalidArgument.to_errno());
        }
        let capability = CapId::new(a as u32);
        let res = self.exercise_cap(this, capability, args, ctx);
        let r = match res {
            Ok(o) => Ok(o),
            Err(e) => Err(e.to_errno()),
        };
        proof {
            assert(syscall_outcome(old(self), self, this, a as u32, *args, ctx, res));
        }
        r
    }

    /// Handles a syscall by thread `this` on capability `capability` with
    /// `args`; `ctx` holds the registers that the syscall entry saved.
    pub fn exercise_cap(&mut self, this: usize, capability: CapId, args: &SyscallArgs, ctx: SyscallCtx) -> (r:
        Result<Outcome, CapError>)
        requires
            old(self).wf(),
            this < old(self).threads@.len(),
            !unimplemented_op(old(self), this, capability@, *args),
        ensures
            final(self).wf(),
            syscall_outcome(old(self), final(self), this, capability@, *args, ctx, r),
    {
        let comp = self.threads[this].component();
        proof {
            assert(thread_wf(self.threads@[this as int], self.caps@.len()));
            let t = self.threads@[this as int];
            if t.stack().len() > 0 {
                assert(component_wf(t.stack()[t.stack().len() - 1].0, self.caps@.len()));
            }
            self.caps.lemma_wf();
            crate::trie::lemma_lookup_in_arena(self.caps@, 64, comp.resources as nat, capability@ as nat);
        }
        let slot = get_capability(&self.caps, comp.resources, capability)?;
        match slot.payload {
            Resource::Empty => Err(CapError::NotFound),
            Resource::CapEntry(node) => {
                proof {
                    self.lemma_cap_table_exists(comp.resources, capability@);
                }
                self.exercise_cap_table(comp, node, args)
            },
            Resource::Thread(target) => match ThreadOp::from_args(args) {
                Err(e) => Err(CapError::from(e)),
                Ok(_) => {
                    let mut thread = self.threads.remove(this);
                    ctx.save_state(thread.exec_ctx.regs_mut());
                    self.threads.insert(this, thread);
                    proof {
                        self.lemma_wf_after_thread(old(self), this);
                    }
                    Ok(Outcome::Dispatch(target))
                },
            },
            Resource::HardwareAccess => match HardwareOp::from_args(args) {
                Err(e) => Err(CapError::from(e)),
                Ok(HardwareOp::EnableIoPorts) => Ok(Outcome::EnableIoPorts),
                Ok(HardwareOp::FlushPage { .. }) => Err(CapError::InvalidOp),
            },
            Resource::SyncCall { entry, component } => match SyncCallOp::from_args(args) {
                Err(e) => Err(CapError::from(e)),
                Ok(SyncCallOp::Call((a0, a1, a2, a3))) => {
                    let mut thread = self.threads.remove(this);
                    match thread.component_stack.push((component, ctx)) {
                        Err(_) => {
                            self.threads.insert(this, thread);
                            proof {
                                self.lemma_wf_after_thread(old(self), this);
                            }
                            Err(CapError::SyncCallLimit)
                        },
                        Ok(()) => {
                            let regs = thread.exec_ctx.regs_mut();
                            regs.scratch.rdi = a0 as u64;
                            regs.scratch.rsi = a1 as u64;
                            regs.scratch.rdx = a2 as u64;
                            regs.scratch.rcx = a3 as u64;
                            regs.control.rip = entry as u64;
                            regs.control.rsp = 0;
                            regs.control.rflags = 0x202;
                            self.threads.insert(this, thread);
                            proof {
                                self.lemma_wf_after_thread(old(self), this);
                            }
                            Ok(Outcome::Dispatch(this))
                        },
                    }
                },
            },
            Resource::SyncRet => match SyncRetOp::from_args(args) {
                Err(e) => Err(CapError::from(e)),
                Ok(SyncRetOp::SyncRet(code)) => {
                    let mut thread = self.threads.remove(this);
                    match thread.component_stack.pop() {
                        None => {
                            self.threads.insert(this, thread);
                            proof {
                                self.lemma_wf_after_thread(old(self), this);
                            }
                            Err(CapError::SyncRetBottom)
                        },
                        Some((_comp, saved)) => {
                            let regs = thread.exec_ctx.regs_mut();
                            regs.scratch.rax = code as u64;
                            regs.preserved = saved.preserved_regs;
                            regs.control = saved.control_regs;
                            self.threads.insert(this, thread);
                            proof {
                                self.lemma_wf_after_thread(old(self), this);
                            }
                            Ok(Outcome::Dispatch(this))
                        },
                    }
                },
            },
            Resource::PageTable { .. } => Err(CapError::InvalidOp),
            Resource::MemoryTyping => Err(CapError::InvalidOp),
        }
    }

    /// Replacing thread `this` by one whose components exist keeps the state
    /// well formed, and every other thread is as it was.
    proof fn lemma_wf_after_thread(&self, pre: &Kernel, this: usize)
        requires
            pre.wf(),
            this < pre.threads@.len(),
            self.threads@.len() == pre.threads@.len(),
            forall|i: int| 0 <= i < pre.threads@.len() && i != this ==> self.threads@[i] == pre.threads@[i],
            thread_wf(self.threads@[this as int], pre.caps@.len()),
            self.caps@ == pre.caps@,
            self.caps.wf(),
            self.retype@ == pre.retype@,
            self.retype.wf(),
            self.tables@ == pre.tables@,
        ensures
            self.wf(),
    {
        assert forall|i: int| 0 <= i < self.threads@.len() implies thread_wf(
            #[trigger] self.threads@[i],
            self.caps@.len(),
        ) by {
            if i != this {
                assert(self.threads@[i] == pre.threads@[i]);
            }
        }
    }

    /// The kernel's state before any component exists: one empty
    /// capability table, no thread, the page tables `tables` and the retype
    /// table `retype`. `None` when the untyped memory of all frames would
    /// not fit below the top of the lower half.
    pub fn new(retype: RetypeTable, tables: PageTableMemory, kernel_l4: u64) -> (r: Option<Self>)
        requires
            retype.wf(),
            memory_wf(tables@),
        ensures
            r is Some <==> (retype@.len() * 4096 + UNTYPED_MEMORY_OFFSET <= 0x0000_8000_0000_0000
                && retype@.len() * 4096 <= usize::MAX),
            r matches Some(k) ==> {
                &&& k.wf()
                &&& k.caps@.len() == 1
                &&& forall|o: int| 0 <= o < 64 ==> #[trigger] k.caps@[0][o].payload == Resource::Empty
                &&& k.threads@.len() == 0
                &&& k.tables@ == tables@
                &&& k.retype@ == retype@
                &&& k.kernel_l4 == kernel_l4
            },
    {
        let n = retype.len();
        if n as u64 > 0x1_0000_0000u64 || n > usize::MAX / 4096 {
            return None;
        }
        let caps: CapTables = crate::trie::Trie::new(Resource::Empty);
        let k = Kernel { caps, threads: Vec::new(), tables, retype, kernel_l4 };
        proof {
            assert forall|i: int, o: int|
                0 <= i < k.caps@.len() && 0 <= o < 64 implies resource_wf(
                #[trigger] k.caps@[i][o].payload,
                k.caps@.len(),
                k.threads@.len(),
            ) by {
                assert(k.caps@[0][o].payload == Resource::Empty);
            }
        }
        Some(k)
    }

    /// Sets up the boot component: a capability table and a thread that
    /// starts with `regs` on the root table `page_table`, its `rdi` set to
    /// the address of the first untyped frame left for it. Gives the
    /// thread's index, or `None` when no untyped frame is left or the root
    /// table's frame cannot be referenced as kernel memory.
    pub fn boot(&mut self, allocator: &mut BumpAllocator, regs: Regs, page_table: RawFrame) -> (r:
        Option<usize>)
        requires
            old(self).wf(),
            old(self).retype@.len() < MAX_FRAMES,
            old(allocator).spec_index() <= old(self).retype@.len(),
        ensures
            final(self).wf(),
            final(self).retype@.len() == old(self).retype@.len(),
            final(allocator).spec_index() <= final(self).retype@.len(),
            ({
                let t0 = old(self).retype@;
                let a = next_untyped(t0, old(allocator).spec_index() as nat);
                let t1 = t0.update(a as int, entry_value(State::Kernel, 1));
                let b = next_untyped(t1, a);
                let t2 = t1.update(b as int, entry_value(State::Kernel, 1));
                let c = next_untyped(t2, b);
                let p = frame_index(page_table@);
                &&& r is None <==> (a >= t0.len() || b >= t0.len() || c >= t0.len() || !(0 <= p
                    < t0.len() && entry_state(t2[p]) == State::Kernel && entry_count(t2[p])
                    < MAX_REF_COUNT))
                &&& r matches Some(t) ==> {
                    &&& final(self).retype@ == t2.update(
                        p,
                        entry_value(State::Kernel, (entry_count(t2[p]) + 1) as u16),
                    )
                    &&& final(self).threads@[t as int].regs().scratch.rdi == c * 4096
                    &&& final(allocator).spec_index() == c
                }
            }),
            r matches Some(t) ==> {
                &&& t == old(self).threads@.len()
                &&& final(self).threads@.len() == t + 1
                &&& final(self).threads@.take(t as int) == old(self).threads@
                &&& final(self).threads@[t as int].root_comp == (Component {
                    resources: old(self).caps@.len() as usize,
                    page_table,
                })
                &&& final(self).threads@[t as int].stack().len() == 0
                &&& final(self).threads@[t as int].regs() == (Regs {
                    scratch: ScratchRegs {
                        rdi: final(self).threads@[t as int].regs().scratch.rdi,
                        ..regs.scratch
                    },
                    ..regs
                })
                &&& final(self).caps@ == old(self).caps@.push(
                    boot_table(old(self).caps@.len() as usize, t, page_table),
                )
                &&& final(self).tables@ == old(self).tables@
            },
    {
        let ghost len0 = self.retype@.len();
        let table_frame = allocator.alloc_untyped_frame(&self.retype)?;
        proof {
            lemma_untyped_entry(self.retype@[allocator.spec_index() as int]);
        }
        match table_frame.try_into_kernel(&mut self.retype) {
            Ok(_) => {},
            Err(_) => {
                return None;
            },
        }
        let node = self.caps.add_node(Resource::Empty);
        proof {
            self.caps.lemma_wf();
            assert forall|m: int, o: int|
                0 <= m < self.caps@.len() && 0 <= o < 64 implies resource_wf(
                #[trigger] self.caps@[m][o].payload,
                self.caps@.len(),
                self.threads@.len(),
            ) by {
                if m < node {
                    assert(self.caps@[m] == old(self).caps@[m]);
                }
            }
            assert forall|i: int| 0 <= i < self.threads@.len() implies thread_wf(
                #[trigger] self.threads@[i],
                self.caps@.len(),
            ) by {
                assert(thread_wf(self.threads@[i], old(self).caps@.len()));
            }
        }
        let thread_frame = allocator.alloc_untyped_frame(&self.retype)?;
        proof {
            lemma_untyped_entry(self.retype@[allocator.spec_index() as int]);
        }
        match thread_frame.try_into_kernel(&mut self.retype) {
            Ok(_) => {},
            Err(_) => {
                return None;
            },
        }
        let next = allocator.alloc_untyped_frame(&self.retype)?;
        match page_table.try_as_kernel(&mut self.retype) {
            Ok(_) => {},
            Err(_) => {
                return None;
            },
        }
        let mut boot_regs = regs;
        boot_regs.scratch.rdi = next.addr().as_u64();
        let index = self.threads.len();
        self.threads.push(Thread::new(boot_regs, Component::new(node, page_table)));
        proof {
            assert(self.threads@.take(index as int) =~= old(self).threads@);
            assert forall|i: int| 0 <= i < self.threads@.len() implies thread_wf(
                #[trigger] self.threads@[i],
                self.caps@.len(),
            ) by {
                if i < index {
                    assert(self.threads@[i] == old(self).threads@[i]);
                }
            }
            assert forall|n: int, o: int|
                0 <= n < self.caps@.len() && 0 <= o < 64 implies resource_wf(
                #[trigger] self.caps@[n][o].payload,
                self.caps@.len(),
                self.threads@.len(),
            ) by {
                assert(resource_wf(self.caps@[n][o].payload, self.caps@.len(), old(self).threads@.len()));
            }
        }
        self.put_resource(node, 0, Resource::SyncRet);
        self.put_resource(node, 1, Resource::MemoryTyping);
        self.put_resource(node, 2, Resource::CapEntry(node));
        self.put_resource(node, 3, Resource::Thread(index));
        self.put_resource(node, 4, Resource::PageTable { table: page_table, flags: PageCapFlags::new(4) });
        self.put_resource(node, 5, Resource::HardwareAccess);
        proof {
            assert(self.caps@[node as int] =~= boot_table(node, index, page_table));
            assert(self.caps@ =~= old(self).caps@.push(boot_table(node, index, page_table)));
        }
        Some(index)
    }

    /// Saves what `saver` holds into the active thread, if any, and gives
    /// the registers and the root page table to switch to for `target`.
    pub fn dispatch<S: SaveState>(&mut self, active: Option<usize>, target: usize, saver: S) -> (r: (
        Regs,
        RawFrame,
    ))
        requires
            old(self).wf(),
            target < old(self).threads@.len(),
            active matches Some(a) ==> a < old(self).threads@.len(),
        ensures
            final(self).wf(),
            final(self).caps@ == old(self).caps@,
            final(self).tables@ == old(self).tables@,
            final(self).retype@ == old(self).retype@,
            final(self).threads@.len() == old(self).threads@.len(),
            forall|i: int|
                0 <= i < old(self).threads@.len() && (active is None || i != active->0)
                    ==> final(self).threads@[i] == old(self).threads@[i],
            active matches Some(a) ==> final(self).threads@[a as int].stack() == old(self).threads@[a as int].stack()
                && final(self).threads@[a as int].root_comp == old(self).threads@[a as int].root_comp,
            r.0 == final(self).threads@[target as int].regs(),
            r.1 == final(self).threads@[target as int].spec_component().page_table,
    {
        if let Some(a) = active {
            proof {
                assert(thread_wf(self.threads@[a as int], self.caps@.len()));
            }
            let mut thread = self.threads.remove(a);
            let ghost before = thread;
            assert(thread_wf(before, self.caps@.len()));
            saver.save_state(thread.exec_ctx.regs_mut());
            assert(thread.stack() == before.stack());
            assert(thread.root_comp == before.root_comp);
            self.threads.insert(a, thread);
            proof {
                self.lemma_wf_after_thread(old(self), a);
            }
        }
        let regs = *self.threads[target].exec_ctx.regs();
        let comp = self.threads[target].component();
        (regs, comp.page_table)
    }
}

} // verus!
