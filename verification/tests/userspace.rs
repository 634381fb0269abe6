use harmony::userspace::paging::{ReadEntry, RetypeEntry, RetypeState, RetypeTable};
use harmony::userspace::structures::{CapTable, PageTable, PhysFrame};
use harmony::userspace::{Booter, ManagerStep};
use harmony::raw::CapId;

#[test]
fn retype_entries_read_state_and_count() {
    assert_eq!(
        RetypeEntry::value_into((3 << 14) | 7),
        ReadEntry { state: RetypeState::Kernel, ref_count: 7 }
    );
    assert_eq!(RetypeEntry(1 << 14).get().state, RetypeState::Untyped);
    assert!(RetypeState::try_from(4).is_err());
    assert_eq!(RetypeState::try_from(2).unwrap(), RetypeState::User);
}

#[test]
fn retype_table_reads_by_frame() {
    let table = RetypeTable { table: vec![RetypeEntry(0), RetypeEntry((2 << 14) | 3)] };
    let (entry, frame) = table.get(1).unwrap();
    assert_eq!(entry, ReadEntry { state: RetypeState::User, ref_count: 3 });
    assert_eq!(frame.base().as_u64(), 0x1000);
    assert!(table.get(2).is_none());
    let all = table.iter();
    assert_eq!(all.len(), 2);
    assert_eq!(all[0].0.state, RetypeState::Unavailable);
}

#[test]
fn handles_wrap_capabilities() {
    assert_eq!(CapTable::new(CapId::new(2)).id.get(), 2);
    assert_eq!(PhysFrame::new(0x2000).addr(), 0x2000);
}

#[test]
fn the_boot_component_gets_slots_zero_to_five() {
    let b = harmony::userspace::Booter::make();
    assert_eq!(b.sync_ret.id.get(), 0);
    assert_eq!(b.retype.id.get(), 1);
    assert_eq!(b.self_caps.id.get(), 2);
    assert_eq!(b.self_thread.id.get(), 3);
    assert_eq!(b.self_paging.id.get(), 4);
    assert_eq!(b.hardware.id.get(), 5);
}

#[test]
fn memory_manager_gets_its_capabilities_in_order() {
    let booter = Booter::make();
    let steps = booter.memory_manager_plan(
        0x40_1000,
        0x7000_0000_0000,
        CapId::new(7),
        PhysFrame::new(0x10_0000),
        CapId::new(8),
        PhysFrame::new(0x11_0000),
        CapId::new(6),
        PageTable::new(CapId::new(6)),
    );
    assert_eq!(steps.len(), 8);
    assert!(matches!(steps[0], ManagerStep::MakeCapTable { slot, region: 0x10_0000 } if slot == CapId::new(7)));
    let copies: Vec<(u32, usize)> = steps
        .iter()
        .filter_map(|s| match s {
            ManagerStep::Copy { cap, table, slot } => {
                assert_eq!(*table, CapId::new(7));
                Some((cap.get(), *slot))
            }
            _ => None,
        })
        .collect();
    assert_eq!(copies, vec![(0, 0), (7, 1), (6, 2), (1, 3), (5, 4)]);
    match steps[2] {
        ManagerStep::MakeThread { slot, args } => {
            assert_eq!(slot, CapId::new(8));
            assert_eq!(args.entry, 0x40_1000);
            assert_eq!(args.stack_pointer, 0x7000_0000_0000);
            assert_eq!(args.cap_table, CapId::new(7));
            assert_eq!(args.page_table, CapId::new(6));
            assert_eq!(args.region, 0x11_0000);
        }
        other => panic!("unexpected {other:?}"),
    }
    assert!(matches!(steps[7], ManagerStep::Activate { thread } if thread == CapId::new(8)));
}
