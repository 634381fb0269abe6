use harmony::raw::{decode_syscall_result, CapError, CapId, RawOperation, SyscallArgs};

#[test]
fn cap_offsets_split_six_bits_at_a_time() {
    let cap = CapId::new(0b000011_000010_000001);
    assert_eq!(cap.offsets(), [1, 2, 3, 0, 0, 0]);
    assert_eq!(CapId::from_offsets([1, 2, 3, 0, 0, 0]).get(), cap.get());
}

#[test]
fn cap_offsets_round_trip() {
    for value in [1u32, 5, 63, 65, 4097, 0x3FFF_FFC1, 0xFFFF_FFFF] {
        let cap = CapId::new(value);
        assert_eq!(CapId::from_offsets(cap.offsets()).get(), value);
    }
}

#[test]
fn cap_from_usize_checks_width() {
    assert_eq!(CapId::try_from_usize(17).unwrap().get(), 17);
    assert!(CapId::try_from_usize(1usize << 40).is_err());
    assert_eq!(CapId::new(9).as_usize(), 9);
}

#[test]
fn errno_round_trip() {
    for code in 1u8..=14 {
        let e = CapError::try_from_u8(code).unwrap();
        assert_eq!(e.as_u8(), code);
        assert_eq!(e.to_errno(), -(code as isize));
        assert_eq!(decode_syscall_result(e.to_errno()), Err(Some(e)));
    }
    assert!(CapError::try_from_u8(0).is_none());
    assert!(CapError::try_from_u8(15).is_none());
}

#[test]
fn syscall_results_decode() {
    assert_eq!(decode_syscall_result(0), Ok(0));
    assert_eq!(decode_syscall_result(42), Ok(42));
    assert_eq!(decode_syscall_result(-2), Err(Some(CapError::NotFound)));
    assert_eq!(decode_syscall_result(-99), Err(None));
}

#[test]
fn raw_operation_codes() {
    assert_eq!(RawOperation::ThreadActivate.as_usize(), 0);
    assert_eq!(RawOperation::CapTableConstruct.as_usize(), 3);
    assert_eq!(RawOperation::Retype2Untyped.as_usize(), 18);
    for code in 0..19 {
        assert_eq!(RawOperation::try_from_usize(code).unwrap().as_usize(), code);
    }
    assert!(RawOperation::try_from_usize(19).is_none());
}

#[test]
fn syscall_args_carry_words_and_payload() {
    let args = SyscallArgs::with_payload(3, 1, 2, 3, 4, vec![9, 8]);
    assert_eq!(args.op(), 3);
    assert_eq!(args.args(), (1, 2, 3, 4));
    assert_eq!(args.payload(), &[9, 8]);
    let plain = SyscallArgs::new(0, 5, 6, 7, 8);
    assert!(plain.payload().is_empty());
}
