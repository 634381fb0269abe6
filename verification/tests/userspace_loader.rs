use harmony::addr::{Frame, Page, PageTableLevel, VirtAddr};
use harmony::booter::userspace_loader::{PageTableAlloc, UserLoadError, UserspaceLoader, WINDOW_ADDRESS};
use harmony::loader::{Loader, MemFlags};
use harmony::ops::paging::PermissionMask;
use harmony::raw::CapId;
use harmony::userspace::addrspace::{Addrspace, PageTableAllocator, PagingAction};
use harmony::userspace::cap_management::{AllocationPlan, FrameAllocator, SelfCapabilityManager};
use harmony::userspace::structures::{CapTable, PageTable, PhysFrame};

struct Resources {
    next_cap: u32,
    next_frame: usize,
}

impl PageTableAllocator for Resources {
    fn allocate_table(&mut self, _level: PageTableLevel) -> PageTable {
        self.next_cap += 1;
        self.next_frame += 0x1000;
        PageTable::new(CapId::new(self.next_cap))
    }
}

impl FrameAllocator for Resources {
    fn alloc_frame(&mut self) -> PhysFrame {
        let f = PhysFrame::new(self.next_frame);
        self.next_frame += 0x1000;
        f
    }
}

fn loader() -> UserspaceLoader<Resources> {
    UserspaceLoader::new(
        Addrspace::new(PageTable::new(CapId::new(3))),
        Addrspace::new(PageTable::new(CapId::new(9))),
        Resources { next_cap: 100, next_frame: 0x20_0000 },
    )
}

fn rw() -> MemFlags {
    MemFlags::from_bits_truncate(MemFlags::READ | MemFlags::WRITE)
}

#[test]
fn request_page_maps_the_frame_twice() {
    let mut l = loader();
    let window = Page::from_start_address(VirtAddr::new(WINDOW_ADDRESS));
    let page = Page::from_start_address(VirtAddr::new(0x40_0000));
    let load = l.request_page(window, page, rw()).unwrap();
    assert_eq!(load.frame, Frame::from_index(0x200).unwrap());
    assert_eq!(load.target.len(), 4);
    match load.target[3] {
        PagingAction::MapFrame { frame, mask, .. } => {
            assert_eq!(frame, load.frame);
            assert_eq!(mask, PermissionMask::write());
        }
        other => panic!("unexpected {other:?}"),
    }
    assert!(load.window_unmap.is_none());
    assert_eq!(load.window.len(), 4);
    match load.window[3] {
        PagingAction::MapFrame { frame, mask, .. } => {
            assert_eq!(frame, load.frame);
            assert_eq!(mask, PermissionMask::write());
        }
        other => panic!("unexpected {other:?}"),
    }
}

#[test]
fn the_window_moves_to_each_new_frame() {
    let mut l = loader();
    let window = Page::from_start_address(VirtAddr::new(WINDOW_ADDRESS));
    let first = l.request_page(window, Page::from_start_address(VirtAddr::new(0x40_0000)), rw()).unwrap();
    let second = l.request_page(window, Page::from_start_address(VirtAddr::new(0x40_1000)), rw()).unwrap();
    assert_ne!(first.frame, second.frame);
    assert_eq!(second.target.len(), 1);
    assert!(matches!(second.window_unmap, Some(PagingAction::Unmap { .. })));
    assert_eq!(second.window.len(), 1);
}

#[test]
fn executable_pages_get_the_execute_right() {
    let mut l = loader();
    let window = Page::from_start_address(VirtAddr::new(WINDOW_ADDRESS));
    let rx = MemFlags::from_bits_truncate(MemFlags::READ | MemFlags::EXECUTE);
    let load = l.request_page(window, Page::from_start_address(VirtAddr::new(0x40_0000)), rx).unwrap();
    match load.target[3] {
        PagingAction::MapFrame { mask, .. } => assert_eq!(mask, PermissionMask::execute()),
        other => panic!("unexpected {other:?}"),
    }
}

#[test]
fn unreadable_ranges_are_refused() {
    let mut l = loader();
    let window = Page::from_start_address(VirtAddr::new(WINDOW_ADDRESS));
    let w = MemFlags::from_bits_truncate(MemFlags::WRITE);
    let r = l.request_page(window, Page::from_start_address(VirtAddr::new(0x40_0000)), w);
    assert_eq!(r.unwrap_err(), UserLoadError::NotReadable);
}

#[test]
fn loading_a_range_records_each_page_and_its_bytes() {
    let mut l = loader();
    let source: Vec<u8> = (0..0x1800u32).map(|i| (i % 251) as u8).collect();
    l.load_source(0x40_0800..0x40_2000, &source, rw()).unwrap();
    let (_, _, _, loads) = l.into_parts();
    assert_eq!(loads.len(), 2);
    assert_eq!(loads[0].offset, 0x800);
    assert_eq!(loads[0].bytes.len(), 0x800);
    assert_eq!(loads[0].bytes[0], Some(0));
    assert_eq!(loads[1].offset, 0);
    assert_eq!(loads[1].bytes.len(), 0x1000);
    assert_eq!(loads[1].bytes[0], Some((0x800 % 251) as u8));
}

#[test]
fn zeroed_ranges_write_zeros() {
    let mut l = loader();
    l.load_zeroed(0x7000_0000_0000 - 0x2000..0x7000_0000_0000, rw()).unwrap();
    let (_, _, _, loads) = l.into_parts();
    assert_eq!(loads.len(), 2);
    assert!(loads.iter().all(|p| p.bytes.iter().all(|b| *b == Some(0))));
}

#[test]
fn the_target_record_fills_up() {
    let mut l = loader();
    let window = Page::from_start_address(VirtAddr::new(WINDOW_ADDRESS));
    let mut last = Ok(());
    let mut loaded = 0;
    for i in 0..40u64 {
        match l.request_page(window, Page::from_start_address(VirtAddr::new(0x40_0000 + i * 0x1000)), rw()) {
            Ok(_) => loaded += 1,
            Err(e) => {
                last = Err(e);
                break;
            }
        }
    }
    // Three tables and one entry per page fill the 32 places.
    assert_eq!(loaded, 29);
    assert_eq!(last, Err(UserLoadError::RecordFull));
}

struct Frames {
    next: usize,
}

impl FrameAllocator for Frames {
    fn alloc_frame(&mut self) -> PhysFrame {
        let f = PhysFrame::new(self.next);
        self.next += 0x1000;
        f
    }
}

fn page_table_alloc() -> PageTableAlloc<Frames> {
    let manager = SelfCapabilityManager::new_with_start(
        CapTable::new(CapId::new(2)),
        CapId::new(6),
        Frames { next: 0x30_0000 },
    );
    PageTableAlloc::new(manager)
}

#[test]
fn page_tables_come_from_the_next_capabilities() {
    let mut alloc = page_table_alloc();
    let t = alloc.allocate_table(PageTableLevel::new(3));
    assert_eq!(t.id.get(), 6);
    let t = alloc.allocate_table(PageTableLevel::new(2));
    assert_eq!(t.id.get(), 7);
    let (_, requests, exhausted) = alloc.into_parts();
    assert!(!exhausted);
    assert_eq!(requests.len(), 2);
    assert_eq!(requests[0].level, 3);
    assert_eq!(requests[0].frame.addr(), 0x30_0000);
    assert_eq!(requests[1].frame.addr(), 0x30_1000);
    assert!(matches!(requests[0].plan, AllocationPlan::Ready(_)));
}

#[test]
fn loading_with_page_table_capabilities() {
    let mut l = UserspaceLoader::new(
        Addrspace::new(PageTable::new(CapId::new(4))),
        Addrspace::new(PageTable::new(CapId::new(9))),
        page_table_alloc(),
    );
    let window = Page::from_start_address(VirtAddr::new(WINDOW_ADDRESS));
    let load = l.request_page(window, Page::from_start_address(VirtAddr::new(0x40_0000)), rw()).unwrap();
    assert_eq!(load.frame, Frame::from_index(0x300).unwrap());
    match load.target[0] {
        PagingAction::Link { next, .. } => assert_eq!(next.id.get(), 6),
        other => panic!("unexpected {other:?}"),
    }
    let (_, _, alloc, _) = l.into_parts();
    let (_, requests, _) = alloc.into_parts();
    assert_eq!(requests.len(), 6);
    assert_eq!(requests[0].frame.addr(), 0x30_1000);
}

#[test]
fn load_frame_refuses_a_frame_past_the_physical_limit() {
    let mut l = loader();
    let window = Page::from_start_address(VirtAddr::new(WINDOW_ADDRESS));
    let page = Page::from_start_address(VirtAddr::new(0x40_0000));
    let far = PhysFrame::new(0x10_0000_0000_0000);
    assert!(matches!(l.load_frame(window, page, rw(), far), Err(UserLoadError::BadFrame)));
    let near = PhysFrame::new(0x30_0000);
    let load = l.load_frame(window, page, rw(), near).unwrap();
    assert_eq!(load.frame, Frame::from_index(0x300).unwrap());
    let again = PhysFrame::new(0x31_0000);
    assert!(matches!(
        l.load_frame(window, page, rw(), again),
        Err(UserLoadError::AlreadyMapped(f)) if f == Frame::from_index(0x300).unwrap()
    ));
}
