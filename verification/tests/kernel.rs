use harmony::addr::{Page, PageTableOffset, PhysAddr, VirtAddr};
use harmony::kernel::bump_allocator::BumpAllocator;
use harmony::kernel::caps::{CapSlot, PageCapFlags, Resource};
use harmony::kernel::component::{Component, Kernel, Outcome, UNTYPED_MEMORY_OFFSET};
use harmony::kernel::exec::{ControlRegs, PreservedRegs, Regs, SyscallCtx};
use harmony::kernel::frames::RawFrame;
use harmony::kernel::memory_map::{BumpAllocator as MapAllocator, Entry, EntryType};
use harmony::kernel::page_table::{
    Addrspace, AnyPageTable, MapperError, PageTableEntry, PageTableFlags, PageTableMemory,
};
use harmony::kernel::retyping::{RetypeEntry, RetypeTable, State};
use harmony::ops::cap_table::{
    CapTableConsArgs, CapTableOp, ConsArgs, ConstructArgs, PageTableConsArgs, SyncCallConsArgs,
    ThreadConsArgs,
};
use harmony::ops::hardware::HardwareOp;
use harmony::ops::ipc::{SyncCallOp, SyncRetOp};
use harmony::ops::thread::ThreadOp;
use harmony::ops::{SlotId, SyscallOp};
use harmony::raw::{CapError, CapId};
use harmony::trie::{SlotRef, Trie, TrieEntry};

const FRAME_SIZE: u64 = 4096;

fn frame(index: u64) -> RawFrame {
    RawFrame::from_start_address(PhysAddr::new(index * FRAME_SIZE))
}

#[test]
fn allocation_test() {
    let map = vec![
        Entry { base: 0, length: FRAME_SIZE * 2, entry_type: EntryType::Usable },
        Entry { base: FRAME_SIZE * 4, length: FRAME_SIZE, entry_type: EntryType::Usable },
        Entry { base: FRAME_SIZE * 5, length: FRAME_SIZE, entry_type: EntryType::Reserved },
        Entry { base: FRAME_SIZE * 6, length: FRAME_SIZE, entry_type: EntryType::Usable },
    ];
    let mut allocator = MapAllocator::new(map);
    for expected in [0, FRAME_SIZE, FRAME_SIZE * 4, FRAME_SIZE * 6] {
        assert_eq!(allocator.alloc_frame().unwrap(), frame(expected / FRAME_SIZE));
    }
    assert!(allocator.alloc_frame().is_none());
}

#[test]
fn multi_allocation_test() {
    let map = vec![
        Entry { base: 0, length: FRAME_SIZE * 2, entry_type: EntryType::Usable },
        Entry { base: FRAME_SIZE * 4, length: FRAME_SIZE, entry_type: EntryType::Usable },
        Entry { base: FRAME_SIZE * 5, length: FRAME_SIZE, entry_type: EntryType::Reserved },
        Entry { base: FRAME_SIZE * 6, length: FRAME_SIZE * 2, entry_type: EntryType::Usable },
    ];
    let mut allocator = MapAllocator::new(map);
    for expected in [0, FRAME_SIZE * 6] {
        let start = allocator.alloc_frames(2).unwrap();
        assert_eq!(start.as_u64(), expected);
        assert_eq!(start.as_u64() % FRAME_SIZE, 0);
    }
    assert!(allocator.alloc_frame().is_none());
}

#[test]
fn retype_entry_packs_state_and_count() {
    for (state, count) in [(State::Unavailable, 0u16), (State::Untyped, 0), (State::User, 5), (State::Kernel, 16382)] {
        let v = RetypeEntry::value_for(state, count);
        assert_eq!(RetypeEntry::value_into(v), (state, count));
    }
    assert_eq!(RetypeEntry::value_for(State::Kernel, 1), 0xC001);
    // The counter is stored modulo the largest count.
    assert_eq!(RetypeEntry::value_into(RetypeEntry::value_for(State::Kernel, 16383)), (State::Kernel, 0));
}

#[test]
fn retype_entry_counts_references() {
    // Both operations give the count from before the change.
    let mut entry = RetypeEntry::kernel(1);
    assert_eq!(entry.increment().unwrap(), 1);
    assert_eq!(entry.get(), (State::Kernel, 2));
    assert_eq!(entry.decrement().unwrap(), 2);
    assert_eq!(entry.decrement().unwrap(), 1);
    assert_eq!(entry.get(), (State::Kernel, 0));
    assert!(entry.decrement().is_err());
}

fn table_with_untyped(n: usize, untyped: std::ops::Range<usize>) -> RetypeTable {
    let mut table = RetypeTable::unavailable(n);
    for i in untyped {
        table.set(i, RetypeEntry::untyped());
    }
    table
}

#[test]
fn frames_retype_and_count_references() {
    let mut table = table_with_untyped(8, 2..6);
    assert_eq!(RawFrame::memory_size(&table), 8 * 4096);
    let kernel = frame(2).try_into_kernel(&mut table).unwrap();
    assert_eq!(table.get(2), (State::Kernel, 1));
    let copy = kernel.try_clone(&mut table).unwrap();
    assert_eq!(table.get(2), (State::Kernel, 2));
    assert_eq!(copy.drop(&mut table), 2);
    assert_eq!(kernel.drop(&mut table), 1);
    assert_eq!(table.get(2), (State::Kernel, 0));
    assert!(frame(2).try_into_untyped(&mut table).is_ok());
    assert_eq!(table.get(2), (State::Untyped, 0));
    assert!(frame(0).try_into_user(&mut table).is_err());
    assert!(frame(9).try_into_user(&mut table).is_err());
    let user = frame(3).try_into_user(&mut table).unwrap();
    assert!(frame(3).try_as_kernel(&mut table).is_err());
    assert!(frame(3).try_as_user(&mut table).is_ok());
    assert_eq!(table.get(3), (State::User, 2));
    let _ = user;
}

#[test]
fn retype_table_from_memory_map() {
    let map = vec![
        Entry { base: 0, length: FRAME_SIZE * 4, entry_type: EntryType::Usable },
        Entry { base: FRAME_SIZE * 4, length: FRAME_SIZE * 4, entry_type: EntryType::Reserved },
        Entry { base: FRAME_SIZE * 8, length: FRAME_SIZE * 8, entry_type: EntryType::Usable },
    ];
    let table = RetypeTable::new(map).unwrap();
    assert_eq!(table.len(), 16);
    assert_eq!(table.get(4).0, State::Unavailable);
    assert!(RetypeTable::new(vec![]).is_none());
}

#[test]
fn kernel_bump_allocator_takes_first_fit() {
    let mut table = table_with_untyped(8, 3..5);
    let mut allocator = BumpAllocator::new();
    assert_eq!(allocator.alloc_untyped_frame(&table).unwrap(), frame(3));
    let k = allocator.alloc_kernel_frame(&mut table).unwrap();
    assert_eq!(k.frame(), frame(3));
    let u = allocator.alloc_user_frame(&mut table).unwrap();
    assert_eq!(u.frame(), frame(4));
    assert!(allocator.alloc_user_frame(&mut table).is_none());
}

#[test]
fn page_table_entries_hold_frame_and_flags() {
    let mut entry = PageTableEntry::new();
    assert!(entry.get().is_none());
    let flags = PageTableFlags::present().union(PageTableFlags::writable());
    assert!(entry.set(frame(7), flags).is_none());
    let (f, fl) = entry.get().unwrap();
    assert_eq!(f, frame(7));
    assert_eq!(fl.bits(), flags.bits());
    assert_eq!(entry.reset().unwrap().0, frame(7));
    assert!(entry.get().is_none());
}

fn flags_user() -> PageTableFlags {
    PageTableFlags::present().union(PageTableFlags::user_accessible())
}

#[test]
fn map_to_then_walk_gives_the_frame() {
    let mut table = table_with_untyped(64, 10..40);
    table.set(1, RetypeEntry::kernel(1));
    let mut mem = PageTableMemory::new();
    mem.write_table(4096, AnyPageTable::new());
    let space = Addrspace::from_frame(frame(1));
    let mut allocator = BumpAllocator::new();
    let page = Page::from_start_address(VirtAddr::new(0x40_0000));
    space
        .map_to(page, frame(20), flags_user(), flags_user(), &mut allocator, &mut table, &mut mem)
        .unwrap();
    let (f, fl) = space.get(page, &mem).unwrap();
    assert_eq!(f, frame(20));
    assert_eq!(fl.bits(), flags_user().bits());
    match space.map_to(page, frame(21), flags_user(), flags_user(), &mut allocator, &mut table, &mut mem) {
        Err(MapperError::AlreadyMapped(f)) => assert_eq!(f, frame(20)),
        other => panic!("unexpected {other:?}"),
    }
    let other = Page::from_start_address(VirtAddr::new(0x80_0000));
    assert!(space.get(other, &mem).is_none());
}

#[test]
fn clone_kernel_keeps_the_upper_half() {
    let mut current = AnyPageTable::new();
    current.map(harmony::addr::PageTableOffset::new(300).unwrap(), frame(5), flags_user());
    current.map(harmony::addr::PageTableOffset::new(3).unwrap(), frame(6), flags_user());
    let cloned = AnyPageTable::clone_kernel(&current);
    assert_eq!(cloned.get(harmony::addr::PageTableOffset::new(300).unwrap()).frame(), Some(frame(5)));
    assert!(cloned.get(harmony::addr::PageTableOffset::new(3).unwrap()).frame().is_none());
}

#[test]
fn cap_slot_insert_refuses_a_used_slot() {
    let mut slot = CapSlot { child: None, resource: Resource::Empty };
    assert!(slot.insert(Resource::SyncRet).is_ok());
    assert_eq!(slot.resource, Resource::SyncRet);
    assert!(slot.insert(Resource::HardwareAccess).is_err());
    assert_eq!(slot.resource, Resource::SyncRet);
    assert!(Resource::Empty.is_empty());
    assert_eq!(PageCapFlags::new(3).level(), 3);
}

fn regs(rip: u64) -> Regs {
    let mut r = Regs::default();
    r.control.rip = rip;
    r
}

fn ctx(rip: u64) -> SyscallCtx {
    SyscallCtx {
        control_regs: ControlRegs { rflags: 0x246, rsp: 0x9000, rip },
        preserved_regs: PreservedRegs { rbx: 1, rbp: 2, r12: 3, r13: 4, r14: 5, r15: 6 },
    }
}

/// A kernel with untyped frames 10..40, a root table in frame 1 that maps
/// untyped region 0x5000..0x9000 to frames 30..34, and the boot component.
fn booted() -> (Kernel, usize) {
    let mut retype = table_with_untyped(64, 10..40);
    retype.set(1, RetypeEntry::kernel(1));
    let mut tables = PageTableMemory::new();
    tables.write_table(4096, AnyPageTable::new());
    let mut allocator = BumpAllocator::new();
    let space = Addrspace::from_frame(frame(1));
    for i in 0..4u64 {
        let page = Page::from_start_address(VirtAddr::new(UNTYPED_MEMORY_OFFSET + 0x5000 + i * 4096));
        space
            .map_to(page, frame(30 + i), flags_user(), flags_user(), &mut allocator, &mut retype, &mut tables)
            .unwrap();
    }
    let mut kernel = Kernel {
        caps: Trie::new(Resource::Empty),
        threads: Vec::new(),
        tables,
        retype,
        kernel_l4: 4096,
    };
    let mut boot_allocator = BumpAllocator::new();
    let thread = kernel.boot(&mut boot_allocator, regs(0x1000), frame(1)).unwrap();
    (kernel, thread)
}

fn slot(i: usize) -> SlotId {
    SlotId::new(i).unwrap()
}

fn payload(kernel: &Kernel, node: usize, offset: usize) -> Resource {
    *kernel.caps.payload(SlotRef { node, offset })
}

#[test]
fn boot_installs_the_boot_capabilities() {
    let (kernel, thread) = booted();
    assert_eq!(thread, 0);
    assert_eq!(kernel.threads.len(), 1);
    assert_eq!(kernel.caps.len(), 2);
    let node = 1;
    assert_eq!(payload(&kernel, node, 0), Resource::SyncRet);
    assert_eq!(payload(&kernel, node, 2), Resource::CapEntry(node));
    assert_eq!(payload(&kernel, node, 3), Resource::Thread(0));
    assert_eq!(payload(&kernel, node, 4), Resource::PageTable { table: frame(1), flags: PageCapFlags::new(4) });
    assert_eq!(payload(&kernel, node, 5), Resource::HardwareAccess);
    assert_eq!(payload(&kernel, node, 1), Resource::MemoryTyping);
    assert_eq!(kernel.threads[0].component(), Component::new(node, frame(1)));
    assert_eq!(kernel.threads[0].exec_ctx.regs().control.rip, 0x1000);
    assert_eq!(kernel.retype.get(1), (State::Kernel, 2));
}

#[test]
fn syscall_on_missing_or_empty_capability_fails() {
    let (mut kernel, t) = booted();
    let args = ThreadOp::Activate.make_args();
    assert_eq!(kernel.exercise_cap(t, CapId::new(9), &args, ctx(0)), Err(CapError::NotFound));
    assert_eq!(kernel.exercise_cap(t, CapId::new(9 + 64 * 3), &args, ctx(0)), Err(CapError::NotFound));
}

#[test]
fn hardware_and_thread_capabilities() {
    let (mut kernel, t) = booted();
    let args = HardwareOp::EnableIoPorts.make_args();
    assert_eq!(kernel.exercise_cap(t, CapId::new(5), &args, ctx(0)), Ok(Outcome::EnableIoPorts));
    let args = ThreadOp::Activate.make_args();
    assert_eq!(kernel.exercise_cap(t, CapId::new(5), &args, ctx(0)), Err(CapError::InvalidOp));
    assert_eq!(kernel.exercise_cap(t, CapId::new(3), &args, ctx(0x4444)), Ok(Outcome::Dispatch(0)));
    assert_eq!(kernel.threads[0].exec_ctx.regs().control.rip, 0x4444);
    assert_eq!(kernel.threads[0].exec_ctx.regs().preserved.r15, 6);
}

#[test]
fn construct_link_and_reach_a_new_table() {
    let (mut kernel, t) = booted();
    let op = CapTableOp::Construct(ConsArgs {
        kind: ConstructArgs::CapTable(CapTableConsArgs { region: 0x5000 }),
        slot: slot(8),
    });
    assert_eq!(kernel.exercise_cap(t, CapId::new(2), &op.make_args(), ctx(0)), Ok(Outcome::Complete(0)));
    assert_eq!(kernel.caps.len(), 3);
    assert_eq!(payload(&kernel, 1, 8), Resource::CapEntry(2));
    assert_eq!(kernel.retype.get(30), (State::Kernel, 1));
    let again = kernel.exercise_cap(t, CapId::new(2), &op.make_args(), ctx(0));
    assert_eq!(again, Err(CapError::BadFrameType));

    let link = CapTableOp::Link { slot: slot(10), other_table_cap: CapId::new(8) };
    assert_eq!(kernel.exercise_cap(t, CapId::new(2), &link.make_args(), ctx(0)), Ok(Outcome::Complete(0)));
    // Capability 10 + 64 * 5 is slot 5 of the table linked below slot 10.
    let reached = TrieEntry::get(&kernel.caps, 1, 10 + 64 * 5).unwrap();
    assert_eq!(reached, SlotRef { node: 2, offset: 5 });
    let unlink = CapTableOp::Unlink { slot: slot(10) };
    assert_eq!(kernel.exercise_cap(t, CapId::new(2), &unlink.make_args(), ctx(0)), Ok(Outcome::Complete(0)));
    assert!(TrieEntry::get(&kernel.caps, 1, 10 + 64 * 5).is_none());
}

#[test]
fn construct_checks_region_and_level() {
    let (mut kernel, t) = booted();
    let outside = CapTableOp::Construct(ConsArgs {
        kind: ConstructArgs::CapTable(CapTableConsArgs { region: 65 * 4096 }),
        slot: slot(8),
    });
    assert_eq!(kernel.exercise_cap(t, CapId::new(2), &outside.make_args(), ctx(0)), Err(CapError::InvalidFrame));
    let unmapped = CapTableOp::Construct(ConsArgs {
        kind: ConstructArgs::CapTable(CapTableConsArgs { region: 0x20000 }),
        slot: slot(8),
    });
    assert_eq!(kernel.exercise_cap(t, CapId::new(2), &unmapped.make_args(), ctx(0)), Err(CapError::Internal));
    let unaligned = CapTableOp::Construct(ConsArgs {
        kind: ConstructArgs::CapTable(CapTableConsArgs { region: 0x5008 }),
        slot: slot(8),
    });
    assert_eq!(kernel.exercise_cap(t, CapId::new(2), &unaligned.make_args(), ctx(0)), Err(CapError::InvalidArgument));
    let bad_level = CapTableOp::Construct(ConsArgs {
        kind: ConstructArgs::PageTable(PageTableConsArgs { region: 0x6000, level: 5, _padding: [0; 7] }),
        slot: slot(8),
    });
    assert_eq!(kernel.exercise_cap(t, CapId::new(2), &bad_level.make_args(), ctx(0)), Err(CapError::InvalidArgument));
    let page_table = CapTableOp::Construct(ConsArgs {
        kind: ConstructArgs::PageTable(PageTableConsArgs { region: 0x6000, level: 2, _padding: [0; 7] }),
        slot: slot(8),
    });
    assert_eq!(kernel.exercise_cap(t, CapId::new(2), &page_table.make_args(), ctx(0)), Ok(Outcome::Complete(0)));
    assert_eq!(payload(&kernel, 1, 8), Resource::PageTable { table: frame(31), flags: PageCapFlags::new(2) });
}

#[test]
fn construct_thread_and_sync_call_round_trip() {
    let (mut kernel, t) = booted();
    let thread = CapTableOp::Construct(ConsArgs {
        kind: ConstructArgs::Thread(ThreadConsArgs {
            entry: 0x2000,
            stack_pointer: 0x8000,
            cap_table: CapId::new(2),
            page_table: CapId::new(4),
            arg0: 42,
            region: 0x7000,
        }),
        slot: slot(12),
    });
    assert_eq!(kernel.exercise_cap(t, CapId::new(2), &thread.make_args(), ctx(0)), Ok(Outcome::Complete(0)));
    assert_eq!(payload(&kernel, 1, 12), Resource::Thread(1));
    let new_regs = *kernel.threads[1].exec_ctx.regs();
    assert_eq!(new_regs.control.rip, 0x2000);
    assert_eq!(new_regs.control.rsp, 0x8000);
    assert_eq!(new_regs.control.rflags, 0x202);
    assert_eq!(new_regs.scratch.rdi, 42);

    let sync = CapTableOp::Construct(ConsArgs {
        kind: ConstructArgs::SyncCall(SyncCallConsArgs {
            entry: 0x3000,
            cap_table: CapId::new(2),
            page_table: CapId::new(4),
        }),
        slot: slot(11),
    });
    assert_eq!(kernel.exercise_cap(t, CapId::new(2), &sync.make_args(), ctx(0)), Ok(Outcome::Complete(0)));
    let call = SyncCallOp::Call((1, 2, 3, 4)).make_args();
    assert_eq!(kernel.exercise_cap(t, CapId::new(11), &call, ctx(0x1234)), Ok(Outcome::Dispatch(t)));
    let regs = *kernel.threads[t].exec_ctx.regs();
    assert_eq!((regs.scratch.rdi, regs.scratch.rsi, regs.scratch.rdx, regs.scratch.rcx), (1, 2, 3, 4));
    assert_eq!(regs.control.rip, 0x3000);
    assert_eq!(regs.control.rsp, 0);

    let ret = SyncRetOp::SyncRet(5).make_args();
    assert_eq!(kernel.exercise_cap(t, CapId::new(0), &ret, ctx(0)), Ok(Outcome::Dispatch(t)));
    let regs = *kernel.threads[t].exec_ctx.regs();
    assert_eq!(regs.scratch.rax, 5);
    assert_eq!(regs.control.rip, 0x1234);
    assert_eq!(regs.preserved.rbx, 1);
    assert_eq!(kernel.exercise_cap(t, CapId::new(0), &ret, ctx(0)), Err(CapError::SyncRetBottom));
}

#[test]
fn sync_calls_nest_at_most_sixteen_deep() {
    let (mut kernel, t) = booted();
    let sync = CapTableOp::Construct(ConsArgs {
        kind: ConstructArgs::SyncCall(SyncCallConsArgs {
            entry: 0x3000,
            cap_table: CapId::new(2),
            page_table: CapId::new(4),
        }),
        slot: slot(11),
    });
    assert_eq!(kernel.exercise_cap(t, CapId::new(2), &sync.make_args(), ctx(0)), Ok(Outcome::Complete(0)));
    let call = SyncCallOp::Call((0, 0, 0, 0)).make_args();
    for _ in 0..16 {
        assert_eq!(kernel.exercise_cap(t, CapId::new(11), &call, ctx(0)), Ok(Outcome::Dispatch(t)));
    }
    assert_eq!(kernel.exercise_cap(t, CapId::new(11), &call, ctx(0)), Err(CapError::SyncCallLimit));
}

#[test]
fn dispatch_saves_the_active_thread() {
    let (mut kernel, t) = booted();
    let (regs, table) = kernel.dispatch(Some(t), t, ctx(0x7777));
    assert_eq!(regs.control.rip, 0x7777);
    assert_eq!(table, frame(1));
}

#[test]
fn kernel_starts_with_one_empty_table_and_no_thread() {
    let retype = table_with_untyped(64, 10..40);
    let mut tables = PageTableMemory::new();
    tables.write_table(4096, AnyPageTable::new());
    let kernel = Kernel::new(retype, tables, 4096).unwrap();
    assert_eq!(kernel.caps.len(), 1);
    assert!(kernel.threads.is_empty());
    assert_eq!(kernel.kernel_l4, 4096);
    assert_eq!(payload(&kernel, 0, 7), Resource::Empty);
}

#[test]
fn new_root_tables_share_the_kernel_half() {
    let mut retype = table_with_untyped(64, 10..40);
    let mut tables = PageTableMemory::new();
    let mut kernel_table = AnyPageTable::new();
    let high = PageTableOffset::new(300).unwrap();
    let low = PageTableOffset::new(3).unwrap();
    let _ = kernel_table.map(high, frame(50), PageTableFlags::present());
    let _ = kernel_table.map(low, frame(51), PageTableFlags::present());
    tables.write_table(4096, kernel_table);
    let l4 = AnyPageTable::new_l4(frame(12), &mut tables, &mut retype, 4096).unwrap();
    assert_eq!(l4.frame(), frame(12));
    assert_eq!(retype.get(12), (State::Kernel, 1));
    assert_eq!(tables.entry(12 * 4096, high).get().unwrap().0, frame(50));
    assert!(tables.entry(12 * 4096, low).get().is_none());
    assert!(AnyPageTable::new_l4(frame(12), &mut tables, &mut retype, 4096).is_err());
    assert!(AnyPageTable::new_l4(frame(2), &mut tables, &mut retype, 4096).is_err());
}

#[test]
fn trie_slots_have_a_size() {
    assert_eq!(TrieEntry::<64, Resource>::slot_size(), std::mem::size_of::<harmony::trie::TrieSlot<Resource>>());
}

#[test]
fn retype_release_and_back_restores_the_table() {
    let mut table = table_with_untyped(8, 3..5);
    let user = frame(3).try_into_user(&mut table).unwrap();
    assert_eq!(table.get(3), (State::User, 1));
    assert_eq!(user.drop(&mut table), 1);
    assert_eq!(table.get(3), (State::User, 0));
    assert!(frame(3).try_into_untyped(&mut table).is_ok());
    assert_eq!(table.get(3), (State::Untyped, 0));
    let kernel = frame(4).try_into_kernel(&mut table).unwrap();
    assert_eq!(kernel.drop(&mut table), 1);
    assert!(frame(4).try_into_untyped(&mut table).is_ok());
    assert_eq!(table.get(4), (State::Untyped, 0));
}

#[test]
fn kernel_addrspace_unmap_after_map() {
    let mut retype = table_with_untyped(64, 10..40);
    retype.set(1, RetypeEntry::kernel(1));
    let mut tables = PageTableMemory::new();
    tables.write_table(4096, AnyPageTable::new());
    let mut allocator = BumpAllocator::new();
    let space = Addrspace::from_frame(frame(1));
    let page = Page::from_start_address(VirtAddr::new(0x40_0000));
    space
        .map_to(page, frame(30), flags_user(), flags_user(), &mut allocator, &mut retype, &mut tables)
        .unwrap();
    assert_eq!(space.get(page, &tables).unwrap().0, frame(30));
}

#[test]
fn boot_takes_the_first_untyped_frames() {
    let (kernel, thread) = booted();
    // Frames 10 to 12 hold the page tables that `booted` maps untyped memory with.
    assert_eq!(kernel.threads[thread].exec_ctx.regs().scratch.rdi, 15 * 4096);
    assert_eq!(kernel.retype.get(13), (State::Kernel, 1));
    assert_eq!(kernel.retype.get(14), (State::Kernel, 1));
    assert_eq!(kernel.retype.get(15), (State::Untyped, 0));
    assert_eq!(kernel.retype.get(1), (State::Kernel, 2));
}

#[test]
fn boot_needs_three_untyped_frames() {
    let mut retype = table_with_untyped(64, 10..12);
    retype.set(1, RetypeEntry::kernel(1));
    let mut tables = PageTableMemory::new();
    tables.write_table(4096, AnyPageTable::new());
    let mut kernel = Kernel::new(retype, tables, 4096).unwrap();
    let mut allocator = BumpAllocator::new();
    assert!(kernel.boot(&mut allocator, regs(0x1000), frame(1)).is_none());
}

#[test]
fn handle_turns_errors_into_negative_numbers() {
    let (mut kernel, t) = booted();
    let args = HardwareOp::EnableIoPorts.make_args();
    assert_eq!(kernel.handle(t, 5, &args, ctx(0)), Ok(Outcome::EnableIoPorts));
    assert_eq!(kernel.handle(t, 9, &args, ctx(0)), Err(-2));
    let too_wide = (u32::MAX as usize) + 1;
    assert_eq!(kernel.handle(t, too_wide, &args, ctx(0)), Err(-4));
}
