use harmony::addr::{Frame, Page, PageTableLevel, VirtAddr};
use harmony::ops::paging::PermissionMask;
use harmony::raw::CapId;
use harmony::userspace::addrspace::{
    Addrspace, MapperError, PageTableAllocator, PagingAction, UnmapError,
};
use harmony::userspace::structures::PageTable;

struct Tables {
    next: u32,
    levels: Vec<u8>,
}

impl PageTableAllocator for Tables {
    fn allocate_table(&mut self, level: PageTableLevel) -> PageTable {
        self.next += 1;
        self.levels.push(level.level());
        PageTable::new(CapId::new(self.next))
    }
}

fn page(addr: u64) -> Page {
    Page::from_start_address(VirtAddr::new(addr))
}

#[test]
fn first_mapping_links_three_tables_then_maps() {
    let l4 = PageTable::new(CapId::new(4));
    let mut space = Addrspace::new(l4);
    let mut tables = Tables { next: 100, levels: vec![] };
    let frame = Frame::from_index(7).unwrap();
    let (actions, result, _) =
        space.map_to(page(0x40_1000), frame, PermissionMask::write(), PermissionMask::all(), &mut tables);
    assert!(result.is_ok());
    assert_eq!(tables.levels, vec![3, 2, 1]);
    assert_eq!(actions.len(), 4);
    match actions[0] {
        PagingAction::Link { table, next, offset, mask } => {
            assert_eq!(table, l4);
            assert_eq!(next.id.get(), 101);
            assert_eq!(offset.as_usize(), 0);
            assert_eq!(mask, PermissionMask::all());
        }
        other => panic!("unexpected {other:?}"),
    }
    match actions[3] {
        PagingAction::MapFrame { table, offset, frame: f, mask } => {
            assert_eq!(table.id.get(), 103);
            assert_eq!(offset.as_usize(), 1);
            assert_eq!(f, frame);
            assert_eq!(mask, PermissionMask::write());
        }
        other => panic!("unexpected {other:?}"),
    }
}

#[test]
fn second_mapping_reuses_tables() {
    let mut space = Addrspace::new(PageTable::new(CapId::new(4)));
    let mut tables = Tables { next: 100, levels: vec![] };
    let f1 = Frame::from_index(7).unwrap();
    let f2 = Frame::from_index(8).unwrap();
    let _ = space.map_to(page(0x40_1000), f1, PermissionMask::write(), PermissionMask::all(), &mut tables);
    let (actions, result, _) =
        space.map_to(page(0x40_2000), f2, PermissionMask::write(), PermissionMask::all(), &mut tables);
    assert!(result.is_ok());
    assert_eq!(actions.len(), 1);
    assert_eq!(tables.levels.len(), 3);
    let (actions, result, _) =
        space.map_to(page(0x40_2000), f1, PermissionMask::write(), PermissionMask::all(), &mut tables);
    assert_eq!(result, Err(MapperError::AlreadyMapped(f2)));
    assert!(actions.is_empty());
}

#[test]
fn unmap_gives_the_frame_and_forgets_it() {
    let mut space = Addrspace::new(PageTable::new(CapId::new(4)));
    let mut tables = Tables { next: 100, levels: vec![] };
    let frame = Frame::from_index(9).unwrap();
    assert_eq!(space.unmap(page(0x40_1000)).unwrap_err(), UnmapError::NotMapped);
    let _ = space.map_to(page(0x40_1000), frame, PermissionMask::empty(), PermissionMask::all(), &mut tables);
    let (f, action) = space.unmap(page(0x40_1000)).unwrap();
    assert_eq!(f, frame);
    match action {
        PagingAction::Unmap { table, offset } => {
            assert_eq!(table.id.get(), 103);
            assert_eq!(offset.as_usize(), 1);
        }
        other => panic!("unexpected {other:?}"),
    }
    assert_eq!(space.unmap(page(0x40_1000)).unwrap_err(), UnmapError::NotMapped);
    let (actions, result, _) =
        space.map_to(page(0x40_1000), frame, PermissionMask::empty(), PermissionMask::all(), &mut tables);
    assert!(result.is_ok());
    assert_eq!(actions.len(), 1);
    assert_eq!(space.into_inner().id.get(), 4);
}

#[test]
fn map_then_unmap_gives_the_frame_back() {
    let mut space = Addrspace::new(PageTable::new(CapId::new(4)));
    let mut tables = Tables { next: 100, levels: vec![] };
    let frame = Frame::from_index(21).unwrap();
    let (_, result, _) =
        space.map_to(page(0x7f_3000), frame, PermissionMask::empty(), PermissionMask::all(), &mut tables);
    assert!(result.is_ok());
    let count = space.mapping_count();
    assert!(space.unmap_reaches(page(0x7f_3000)));
    let (f, action) = space.unmap(page(0x7f_3000)).unwrap();
    assert_eq!(f, frame);
    assert!(matches!(action, PagingAction::Unmap { .. }));
    assert_eq!(space.mapping_count(), count - 1);
}

#[test]
fn room_needed_counts_the_unrecorded_levels() {
    let mut space = Addrspace::new(PageTable::new(CapId::new(4)));
    let mut tables = Tables { next: 100, levels: vec![] };
    assert_eq!(space.room_needed(page(0x40_1000)), 4);
    let _ = space.map_to(page(0x40_1000), Frame::from_index(7).unwrap(), PermissionMask::write(), PermissionMask::all(), &mut tables);
    assert_eq!(space.room_needed(page(0x40_2000)), 1);
    assert_eq!(space.room_needed(page(0x8000_0000)), 3);
}
