use harmony::addr::{Page, PhysAddr, VirtAddr};
use harmony::kernel::bootup::{BootError, BootstrapLoader, LoadError};
use harmony::kernel::bump_allocator::BumpAllocator;
use harmony::kernel::exec::Process;
use harmony::kernel::frames::RawFrame;
use harmony::kernel::page_table::{Addrspace, AnyPageTable, PageTableMemory};
use harmony::kernel::retyping::{RetypeEntry, RetypeTable};
use harmony::loader::{Loader, MemFlags};

fn elf_bytes() -> Vec<u8> {
    let mut b = vec![0u8; 64 + 56 + 16];
    b[0..4].copy_from_slice(&[0x7f, b'E', b'L', b'F']);
    b[4] = 2;
    b[5] = 1;
    b[6] = 1;
    b[24..32].copy_from_slice(&0x40_1000u64.to_le_bytes());
    b[32..40].copy_from_slice(&64u64.to_le_bytes());
    b[54..56].copy_from_slice(&56u16.to_le_bytes());
    b[56..58].copy_from_slice(&1u16.to_le_bytes());
    let ph = 64;
    b[ph..ph + 4].copy_from_slice(&1u32.to_le_bytes());
    b[ph + 4..ph + 8].copy_from_slice(&5u32.to_le_bytes());
    b[ph + 8..ph + 16].copy_from_slice(&120u64.to_le_bytes());
    b[ph + 16..ph + 24].copy_from_slice(&0x40_0000u64.to_le_bytes());
    b[ph + 32..ph + 40].copy_from_slice(&16u64.to_le_bytes());
    b[ph + 40..ph + 48].copy_from_slice(&0x1000u64.to_le_bytes());
    for byte in b.iter_mut().skip(120) {
        *byte = 0xAB;
    }
    b
}

fn retype(untyped: std::ops::Range<usize>) -> RetypeTable {
    let mut table = RetypeTable::unavailable(64);
    for i in untyped {
        table.set(i, RetypeEntry::untyped());
    }
    table
}

fn kernel_tables() -> PageTableMemory {
    let mut tables = PageTableMemory::new();
    tables.write_table(4096, AnyPageTable::new());
    tables
}

const OFFSET: usize = 0x7000_0000_0000;

#[test]
fn boot_process_is_loaded_with_stack_and_untyped_memory() {
    let bytes = elf_bytes();
    let (process, loader) =
        Process::load(&bytes, 0, 2, OFFSET, 4 * 4096, retype(10..60), kernel_tables(), 4096).unwrap();
    assert_eq!(process.entry, 0x40_1000);
    assert_eq!(process.rsp, OFFSET as u64);
    let l4 = process.l4_table;
    let (_, _, tables, writes) = loader.into_parts();
    assert_eq!(writes.len(), 3);
    assert_eq!(writes[0].offset, 0);
    assert_eq!(writes[0].bytes.len(), 4096);
    assert_eq!(writes[0].bytes[0], Some(0xAB));
    assert_eq!(writes[0].bytes[16], Some(0));
    let space = Addrspace::from_frame(l4);
    let text = Page::from_start_address(VirtAddr::new(0x40_0000));
    let (frame, flags) = space.get(text, &tables).unwrap();
    assert_eq!(frame, writes[0].frame);
    assert_eq!(flags.bits(), 5);
    let stack = Page::from_start_address(VirtAddr::new((OFFSET - 4096) as u64));
    let (_, stack_flags) = space.get(stack, &tables).unwrap();
    assert_eq!(stack_flags.bits(), 7 | (1 << 63));
    let untyped = Page::from_start_address(VirtAddr::new((OFFSET + 2 * 4096) as u64));
    let (frame, flags) = space.get(untyped, &tables).unwrap();
    assert_eq!(frame, RawFrame::from_start_address(PhysAddr::new(2 * 4096)));
    assert_eq!(flags.bits(), 1);
}

#[test]
fn boot_fails_without_frames() {
    let bytes = elf_bytes();
    let out = Process::load(&bytes, 0, 2, OFFSET, 4096, retype(0..0), kernel_tables(), 4096);
    assert!(matches!(out, Err(BootError::NoRootFrame)));
    let out = Process::load(&bytes, 8, 2, OFFSET, 4096, retype(10..60), kernel_tables(), 4096);
    assert!(matches!(out, Err(BootError::Elf(_))));
}

#[test]
fn pages_need_read_access() {
    let mut table = retype(10..60);
    let mut allocator = BumpAllocator::new();
    let l4 = allocator.alloc_kernel_frame(&mut table).unwrap().into_raw();
    let mut tables = kernel_tables();
    tables.write_table(l4.addr().as_u64(), AnyPageTable::new());
    let mut loader = BootstrapLoader::new(Addrspace::from_frame(l4), allocator, table, tables);
    let page = Page::from_start_address(VirtAddr::new(0x1000));
    assert_eq!(
        loader.request_page(page, MemFlags::from_bits_truncate(MemFlags::WRITE)).unwrap_err(),
        LoadError::BadMemoryFlags
    );
    assert!(loader.request_page(page, MemFlags::empty()).is_ok());
    assert!(loader.load_zeroed(0x3000..0x3010, MemFlags::from_bits_truncate(MemFlags::READ)).is_ok());
    let (_, _, _, writes) = loader.into_parts();
    assert_eq!(writes.len(), 1);
    assert_eq!(writes[0].offset, 0);
    assert_eq!(writes[0].bytes.len(), 16);
}

#[test]
fn boot_stack_pages_are_zeroed_whole() {
    let bytes = elf_bytes();
    let (_, loader) =
        Process::load(&bytes, 0, 2, OFFSET, 4096, retype(10..60), kernel_tables(), 4096).unwrap();
    let (_, _, _, writes) = loader.into_parts();
    assert_eq!(writes.len(), 3);
    for w in &writes[1..] {
        assert_eq!(w.offset, 0);
        assert_eq!(w.bytes.len(), 4096);
        assert!(w.bytes.iter().all(|b| *b == Some(0)));
    }
    assert_ne!(writes[1].frame, writes[2].frame);
}

#[test]
fn boot_stack_must_fit_below_the_untyped_memory() {
    let bytes = elf_bytes();
    let out = Process::load(&bytes, 0, 3, 2 * 4096, 4096, retype(10..60), kernel_tables(), 4096);
    assert!(matches!(out, Err(BootError::StackRange)));
    let out = Process::load(&bytes, 0, usize::MAX, OFFSET, 4096, retype(10..60), kernel_tables(), 4096);
    assert!(matches!(out, Err(BootError::StackRange)));
}

#[test]
fn upper_half_pages_are_refused() {
    let mut table = retype(10..60);
    let mut allocator = BumpAllocator::new();
    let l4 = allocator.alloc_kernel_frame(&mut table).unwrap().into_raw();
    let mut tables = kernel_tables();
    tables.write_table(l4.addr().as_u64(), AnyPageTable::new());
    let mut loader = BootstrapLoader::new(Addrspace::from_frame(l4), allocator, table, tables);
    let high = Page::from_start_address(VirtAddr::new(0xFFFF_8000_0000_0000));
    assert_eq!(
        loader.request_page(high, MemFlags::from_bits_truncate(MemFlags::READ)).unwrap_err(),
        LoadError::InvalidVirtualRange
    );
    let frame = RawFrame::from_start_address(PhysAddr::new(0x3000));
    assert_eq!(
        loader.map_page(high, frame, harmony::kernel::page_table::PageTableFlags::present()).unwrap_err(),
        LoadError::InvalidVirtualRange
    );
}

#[test]
fn every_untyped_page_maps_its_frame() {
    let bytes = elf_bytes();
    let (process, loader) =
        Process::load(&bytes, 0, 1, OFFSET, 3 * 4096, retype(10..60), kernel_tables(), 4096).unwrap();
    let (_, _, tables, _) = loader.into_parts();
    let space = Addrspace::from_frame(process.l4_table);
    for i in 0..3u64 {
        let page = Page::from_start_address(VirtAddr::new(OFFSET as u64 + i * 4096));
        let (frame, flags) = space.get(page, &tables).unwrap();
        assert_eq!(frame, RawFrame::from_start_address(PhysAddr::new(i * 4096)));
        assert_eq!(flags.bits(), 1);
    }
}

#[test]
fn kernel_frame_survives_into_raw_and_back() {
    let mut table = retype(10..60);
    let mut allocator = BumpAllocator::new();
    let k = allocator.alloc_kernel_frame(&mut table).unwrap();
    let f = k.frame();
    let before = table.get(10);
    let back = harmony::kernel::retyping::KernelFrame::from_raw(k.into_raw());
    assert_eq!(back.frame(), f);
    assert_eq!(table.get(10), before);
}
