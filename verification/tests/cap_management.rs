use harmony::raw::CapId;
use harmony::userspace::cap_management::{
    AllocationPlan, CapAllocation, CapGenerator, CapIndex, CapSlot, FrameAllocator,
    SelfCapabilityManager,
};
use harmony::userspace::cap_managment;
use harmony::userspace::structures::{CapTable, PhysFrame};

struct Frames(usize);

impl FrameAllocator for Frames {
    fn alloc_frame(&mut self) -> PhysFrame {
        self.0 += 4096;
        PhysFrame::new(self.0)
    }
}

impl cap_managment::FrameAllocator for Frames {
    fn alloc_frame(&mut self) -> PhysFrame {
        self.0 += 4096;
        PhysFrame::new(self.0)
    }
}

#[test]
fn cap_index_reverses_offsets() {
    // Offsets (1, 2) least significant first become (2, 1).
    let cap = CapId::new(1 | (2 << 6));
    let index = CapIndex::from_cap(cap);
    assert_eq!(index.as_u32(), 2 | (1 << 6));
    assert_eq!(index.try_into_cap().unwrap().get(), cap.get());
    assert!(CapIndex::from_idx(64).try_into_cap().is_err());
    assert_eq!(CapIndex::new().as_u32(), 0);
    assert_eq!(CapIndex::from_idx(5).add(3).sub(2).as_u32(), 6);
}

#[test]
fn cap_index_round_trips() {
    for value in [1u32, 7, 63, 65, 130, 4097, 0x0104_1041, 0x3FFF_FFFF] {
        let back = CapIndex::from_cap(CapId::new(value)).try_into_cap().unwrap();
        assert_eq!(back.get(), value);
        let index = CapIndex::from_idx(value);
        let again = CapIndex::from_cap(index.try_into_cap().unwrap());
        assert_eq!(again.as_u32(), value);
    }
}

#[test]
fn generator_fills_the_root_then_asks_for_a_table() {
    let mut gen = CapGenerator::new();
    for expected in 1u32..63 {
        match gen.get_next() {
            CapAllocation::Simple(cap) => assert_eq!(cap.get(), expected),
            other => panic!("unexpected {other:?}"),
        }
    }
    match gen.get_next() {
        CapAllocation::RequiresTable { table_cap, new_cap } => {
            assert_eq!(table_cap.get(), 63);
            assert_eq!(new_cap.get(), 65);
        }
        other => panic!("unexpected {other:?}"),
    }
}

#[test]
fn generator_starts_at_a_capability() {
    let mut gen = CapGenerator::from_starting_cap(CapId::new(6));
    match gen.get_next() {
        CapAllocation::Simple(cap) => assert_eq!(cap.get(), 6),
        other => panic!("unexpected {other:?}"),
    }
}

#[test]
fn slots_of_capabilities() {
    let root = CapTable::new(CapId::new(2));
    let slot = CapSlot::from_root_and_cap(root, CapId::new(5));
    assert_eq!(slot.table.id.get(), 2);
    assert_eq!(slot.slot.as_usize(), 5);
    assert_eq!(slot.cap().get(), 5);
    let deeper = CapSlot::from_root_and_cap(root, CapId::new(65));
    assert_eq!(deeper.table.id.get(), 63);
    assert_eq!(deeper.slot.as_usize(), 1);
}

#[test]
fn manager_plans_tables_when_a_table_fills() {
    let root = CapTable::new(CapId::new(2));
    let mut manager = SelfCapabilityManager::new_with_start(root, CapId::new(62), Frames(0));
    assert_eq!(manager.root().id.get(), 2);
    match manager.allocate_capability() {
        AllocationPlan::Ready(slot) => {
            assert_eq!(slot.id.get(), 62);
            assert_eq!(slot.slot.as_usize(), 62);
        }
        other => panic!("unexpected {other:?}"),
    }
    match manager.allocate_capability() {
        AllocationPlan::WithTable { frame, table_parent, link_parent, table, slot } => {
            assert_eq!(frame.addr(), 4096);
            assert_eq!(table_parent.id.get(), 63);
            assert_eq!(table_parent.table.id.get(), 2);
            assert_eq!(table.id.get(), 63);
            assert_eq!(link_parent.id.get(), 1);
            assert_eq!(slot.id.get(), 65);
            assert_eq!(slot.slot.as_usize(), 1);
        }
        other => panic!("unexpected {other:?}"),
    }
    let fresh = SelfCapabilityManager::new(root, Frames(0));
    assert_eq!(fresh.root().id.get(), 2);
}

#[test]
fn counter_manager_plans_tables_at_the_end_of_a_group() {
    let root = CapTable::new(CapId::new(2));
    let mut manager = cap_managment::SelfCapabilityManager::new(root, Frames(0));
    match manager.allocate_capability() {
        cap_managment::AllocationPlan::Ready(slot) => {
            assert_eq!(slot.id.get(), 0);
            assert_eq!(slot.table.id.get(), 2);
            assert_eq!(slot.slot.as_usize(), 0);
        }
        other => panic!("unexpected {other:?}"),
    }
    let mut manager = cap_managment::SelfCapabilityManager::new_with_start(root, CapId::new(63), Frames(0));
    match manager.allocate_capability() {
        cap_managment::AllocationPlan::WithTable { frame, parent_table, slot } => {
            assert_eq!(frame.addr(), 4096);
            assert_eq!(parent_table.id.get(), 2);
            assert_eq!(slot.id.get(), 64);
            assert_eq!(slot.table.id.get(), 63);
            assert_eq!(slot.slot.as_usize(), 0);
        }
        other => panic!("unexpected {other:?}"),
    }
    assert_eq!(manager.table_for_cap(CapId::new(130)).id.get(), 127);
    assert_eq!(manager.table_for_cap(CapId::new(10)).id.get(), 2);
}
