use harmony::ops::cap_table::{
    CapTableConsArgs, CapTableOp, ConsArgs, ConstructArgs, PageTableConsArgs, SyncCallConsArgs,
    ThreadConsArgs,
};
use harmony::ops::hardware::HardwareOp;
use harmony::ops::ipc::{SyncCallOp, SyncRetOp};
use harmony::ops::memory::{RetypeKind, RetypeOp};
use harmony::ops::paging::{PageTableOp, PermissionMask};
use harmony::ops::thread::ThreadOp;
use harmony::ops::{InvalidOperation, SlotId, SyscallOp};
use harmony::raw::{CapError, CapId, RawOperation, SyscallArgs};

#[test]
fn thread_activate_round_trip() {
    let args = ThreadOp::Activate.make_args();
    assert_eq!(args.op(), RawOperation::ThreadActivate.as_usize());
    assert_eq!(ThreadOp::from_args(&args), Ok(ThreadOp::Activate));
}

#[test]
fn hardware_ops_round_trip() {
    let args = HardwareOp::EnableIoPorts.make_args();
    assert_eq!(HardwareOp::from_args(&args), Ok(HardwareOp::EnableIoPorts));
    let args = HardwareOp::FlushPage { addr: 0x4000 }.make_args();
    assert_eq!(args.args().0, 0x4000);
    assert_eq!(HardwareOp::from_args(&args), Ok(HardwareOp::FlushPage { addr: 0x4000 }));
}

#[test]
fn wrong_operation_is_bad_op() {
    let args = SyncRetOp::SyncRet(1).make_args();
    assert_eq!(HardwareOp::from_args(&args), Err(InvalidOperation::BadOp));
    let args = SyscallArgs::new(1000, 0, 0, 0, 0);
    assert_eq!(ThreadOp::from_args(&args), Err(InvalidOperation::InvalidArgument));
    assert_eq!(CapError::from(InvalidOperation::BadOp), CapError::InvalidOp);
    assert_eq!(CapError::from(InvalidOperation::InvalidArgument), CapError::InvalidArgument);
}

#[test]
fn ipc_ops_round_trip() {
    let call = SyncCallOp::Call((1, 2, 3, 4));
    let args = call.make_args();
    assert_eq!(args.args(), (1, 2, 3, 4));
    assert_eq!(SyncCallOp::from_args(&args), Ok(call));
    let ret = SyncRetOp::SyncRet(77);
    assert_eq!(SyncRetOp::from_args(&ret.make_args()), Ok(ret));
}

#[test]
fn retype_op_round_trip() {
    for to in [RetypeKind::Retype2Kernel, RetypeKind::Retype2User, RetypeKind::Retype2Untyped] {
        let op = RetypeOp { region: 0x5000, to };
        assert_eq!(RetypeOp::from_args(&op.make_args()), Ok(op));
    }
}

#[test]
fn page_table_ops_round_trip() {
    let ops = [
        PageTableOp::Link {
            other_table: CapId::new(12),
            slot: 3,
            permissions: PermissionMask::all(),
        },
        PageTableOp::Unlink { slot: 4 },
        PageTableOp::MapFrame {
            user_frame: 0x9000,
            slot: 5,
            permissions: PermissionMask::write(),
        },
        PageTableOp::UnmapFrame { slot: 6 },
    ];
    for op in ops {
        assert_eq!(PageTableOp::from_args(&op.make_args()), Ok(op));
    }
}

#[test]
fn permission_masks() {
    let all = PermissionMask::all();
    assert!(all.contains(PermissionMask::write()));
    assert!(all.contains(PermissionMask::execute()));
    assert!(!PermissionMask::empty().contains(PermissionMask::write()));
    assert_eq!(
        PermissionMask::write().union(PermissionMask::execute()).bits(),
        all.bits()
    );
}

fn slot(i: usize) -> SlotId {
    SlotId::new(i).unwrap()
}

#[test]
fn cap_table_link_round_trip() {
    let op = CapTableOp::Link { slot: slot(7), other_table_cap: CapId::new(300) };
    match CapTableOp::from_args(&op.make_args()).unwrap() {
        CapTableOp::Link { slot, other_table_cap } => {
            assert_eq!(slot.as_usize(), 7);
            assert_eq!(other_table_cap.get(), 300);
        }
        other => panic!("unexpected {other:?}"),
    }
}

#[test]
fn cap_table_construct_thread_round_trip() {
    let op = CapTableOp::Construct(ConsArgs {
        kind: ConstructArgs::Thread(ThreadConsArgs {
            entry: 0x40_1000,
            stack_pointer: 0x7000_0000_0000,
            cap_table: CapId::new(2),
            page_table: CapId::new(4),
            arg0: 99,
            region: 0x3000,
        }),
        slot: slot(9),
    });
    let args = op.make_args();
    assert_eq!(args.payload().len(), 40);
    match CapTableOp::from_args(&args).unwrap() {
        CapTableOp::Construct(ConsArgs { kind: ConstructArgs::Thread(t), slot }) => {
            assert_eq!(slot.as_usize(), 9);
            assert_eq!(t.entry, 0x40_1000);
            assert_eq!(t.stack_pointer, 0x7000_0000_0000);
            assert_eq!(t.cap_table.get(), 2);
            assert_eq!(t.page_table.get(), 4);
            assert_eq!(t.arg0, 99);
            assert_eq!(t.region, 0x3000);
        }
        other => panic!("unexpected {other:?}"),
    }
}

#[test]
fn cap_table_construct_other_kinds_round_trip() {
    let kinds = [
        ConstructArgs::CapTable(CapTableConsArgs { region: 0x1000 }),
        ConstructArgs::PageTable(PageTableConsArgs { region: 0x2000, level: 3, _padding: [0; 7] }),
        ConstructArgs::SyncCall(SyncCallConsArgs {
            entry: 0x1234,
            cap_table: CapId::new(5),
            page_table: CapId::new(6),
        }),
    ];
    for kind in kinds {
        let op = CapTableOp::Construct(ConsArgs { kind, slot: slot(1) });
        let back = CapTableOp::from_args(&op.make_args()).unwrap();
        assert_eq!(format!("{back:?}"), format!("{op:?}"));
    }
}

#[test]
fn cap_table_copy_and_unlink_round_trip() {
    let ops = [
        CapTableOp::Unlink { slot: slot(2) },
        CapTableOp::Copy { slot: slot(1), other_table_cap: CapId::new(8), other_slot: slot(3) },
    ];
    for op in ops {
        let back = CapTableOp::from_args(&op.make_args()).unwrap();
        assert_eq!(format!("{back:?}"), format!("{op:?}"));
    }
}

#[test]
fn construct_args_bytes_round_trip() {
    let kind = ConstructArgs::PageTable(PageTableConsArgs { region: 0xABC000, level: 4, _padding: [0; 7] });
    let (tag, bytes) = kind.encode();
    assert_eq!(tag, 2);
    assert_eq!(bytes.len(), 16);
    let back = ConstructArgs::decode(tag, &bytes).unwrap();
    assert_eq!(format!("{back:?}"), format!("{kind:?}"));
    assert_eq!(ConstructArgs::decode(7, &bytes).unwrap_err(), InvalidOperation::InvalidArgument);
    assert_eq!(ConstructArgs::decode(1, &bytes[..8]).unwrap_err(), InvalidOperation::InvalidArgument);
}
