use harmony::addr::{
    Frame, Page, PageTableLevel, PageTableOffset, PhysAddr, VirtAddr, HIGHER_HALF_START,
};

#[test]
fn canonical_addresses() {
    assert!(VirtAddr::try_new(0x0000_7FFF_FFFF_F000).is_ok());
    assert!(VirtAddr::try_new(0xFFFF_8000_0000_0000).is_ok());
    assert!(VirtAddr::try_new(0x0000_8000_0000_0000).is_err());
    assert_eq!(VirtAddr::new_truncate(0x0000_8000_0000_0000).as_u64(), 0xFFFF_8000_0000_0000);
    assert_eq!(VirtAddr::new_truncate(0x1234_0000_0000_1000).as_u64(), 0x1000);
    assert!(VirtAddr::new(HIGHER_HALF_START).is_higher_half());
    assert!(VirtAddr::zero().is_lower_half());
    assert_eq!(VirtAddr::zero().as_u64(), 0);
}

#[test]
fn page_table_indices() {
    let addr = VirtAddr::new((3 << 39) | (5 << 30) | (7 << 21) | (9 << 12) | 0x123);
    assert_eq!(addr.p4_index().as_usize(), 3);
    assert_eq!(addr.p3_index().as_usize(), 5);
    assert_eq!(addr.p2_index().as_usize(), 7);
    assert_eq!(addr.p1_index().as_usize(), 9);
    assert_eq!(addr.page_table_index(PageTableLevel::new(2)).as_usize(), 7);
}

#[test]
fn page_table_levels() {
    let top = PageTableLevel::top();
    assert_eq!(top.level(), 4);
    assert!(!top.is_bottom());
    assert_eq!(top.lower().unwrap().level(), 3);
    assert!(PageTableLevel::new(1).is_bottom());
    assert!(PageTableLevel::new(1).lower().is_none());
    assert!(PageTableLevel::try_new(0).is_err());
    assert!(PageTableLevel::try_new(5).is_err());
}

#[test]
fn page_table_offsets() {
    assert_eq!(PageTableOffset::new(511).unwrap().as_usize(), 511);
    assert!(PageTableOffset::new(512).is_err());
    assert_eq!(PageTableOffset::new_truncate(513).as_usize(), 1);
    assert!(PageTableOffset::new(255).unwrap().is_lower_half());
    assert!(!PageTableOffset::new(256).unwrap().is_lower_half());
    assert!(PageTableOffset::try_from_usize(600).is_err());
    assert_eq!(PageTableOffset::try_from_u16(3).unwrap().as_usize(), 3);
}

#[test]
fn pages() {
    assert_eq!(Page::size(), 4096);
    let page = Page::containing_address(VirtAddr::new(0x5123));
    assert_eq!(page.base().as_u64(), 0x5000);
    assert_eq!(page.index(), 5);
    assert!(Page::try_from_start_address(VirtAddr::new(0x5123)).is_err());
    assert_eq!(Page::from_index(7).unwrap().base().as_u64(), 7 * 4096);
    assert!(Page::from_index(0x8_0000_0000).is_err());
}

#[test]
fn physical_addresses_and_frames() {
    assert!(PhysAddr::try_new(1 << 52).is_err());
    assert_eq!(PhysAddr::new_truncate((1 << 52) | 5).as_u64(), 5);
    let frame = Frame::from_index(3).unwrap();
    assert_eq!(frame.base().as_u64(), 0x3000);
    assert!(Frame::try_from_start_address(PhysAddr::new(0x3001)).is_err());
    assert_eq!(Frame::within_frame(PhysAddr::new(0x3456)).addr().as_u64(), 0x456);
    assert_eq!(
        PhysAddr::new(0x2000).to_virtual(VirtAddr::new(0xFFFF_8000_0000_0000)).as_u64(),
        0xFFFF_8000_0000_2000
    );
}

#[test]
fn from_virtual_undoes_to_virtual() {
    let pmo = VirtAddr::new(0xFFFF_8000_0000_0000);
    let virt = PhysAddr::new(0x2345).to_virtual(pmo);
    assert_eq!(PhysAddr::from_virtual(virt, pmo).as_u64(), 0x2345);
}
