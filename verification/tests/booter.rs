use harmony::addr::{Frame, PhysAddr};
use harmony::booter::{BitmapAllocator, FrameBumper, OutOfRange};
use harmony::userspace::paging::{RetypeEntry, RetypeTable};

#[test]
fn frame_bumper_hands_out_consecutive_frames() {
    let mut bumper = FrameBumper::new(Frame::from_start_address(PhysAddr::new(0x5000)));
    assert_eq!(bumper.next().base().as_u64(), 0x5000);
    assert_eq!(bumper.next().base().as_u64(), 0x6000);
    assert_eq!(bumper.next().base().as_u64(), 0x7000);
}

fn untyped() -> RetypeEntry {
    RetypeEntry(1 << 14)
}

fn user() -> RetypeEntry {
    RetypeEntry((2 << 14) | 1)
}

#[test]
fn bitmap_allocator_hands_out_untyped_frames_first_fit() {
    let table = RetypeTable { table: vec![user(), untyped(), user(), untyped(), untyped()] };
    let mut allocator = BitmapAllocator::new(8, &table);
    assert_eq!(allocator.allocate().unwrap().base().as_u64(), 0x1000);
    assert_eq!(allocator.allocate().unwrap().base().as_u64(), 0x3000);
    assert_eq!(allocator.allocate().unwrap().base().as_u64(), 0x4000);
    assert!(allocator.allocate().is_none());
    allocator.dealloc(Frame::from_index(3).unwrap()).unwrap();
    assert_eq!(allocator.allocate().unwrap().base().as_u64(), 0x3000);
    let out: Result<(), OutOfRange> = allocator.dealloc(Frame::from_index(8).unwrap());
    assert!(out.is_err());
}
