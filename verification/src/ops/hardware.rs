//! Operations on the hardware-access capability.
use vstd::prelude::*;

use super::{InvalidOperation, SyscallOp};
use crate::raw::{raw_operation_code, raw_operation_from_code, RawOperation, SyscallArgs};

verus! {

/// What a hardware-access capability can do.
#[derive(Debug, Copy, Clone, PartialEq, Eq, Structural)]
pub enum HardwareOp {
    /// Grants the caller access to the I/O ports.
    EnableIoPorts,
    /// Flushes the translation of the page at `addr`.
    FlushPage { addr: usize },
}

impl SyscallOp for HardwareOp {
    open spec fn can_encode(&self) -> bool {
        true
    }

    open spec fn encoded(&self) -> (usize, (usize, usize, usize, usize), Seq<u8>) {
        match *self {
            HardwareOp::EnableIoPorts => (
                raw_operation_code(RawOperation::HardwareAccessEnable),
                (0, 0, 0, 0),
                Seq::empty(),
            ),
            HardwareOp::FlushPage { addr } => (
                raw_operation_code(RawOperation::HardwareFlushPage),
                (addr, 0, 0, 0),
                Seq::empty(),
            ),
        }
    }

    open spec fn can_decode(
        op: usize,
        words: (usize, usize, usize, usize),
        payload: Seq<u8>,
    ) -> bool {
        true
    }

    open spec fn decoded(op: usize, words: (usize, usize, usize, usize), payload: Seq<u8>) -> Result<
        Self,
        InvalidOperation,
    > {
        match raw_operation_from_code(op) {
            None => Err(InvalidOperation::InvalidArgument),
            Some(RawOperation::HardwareAccessEnable) => Ok(HardwareOp::EnableIoPorts),
            Some(RawOperation::HardwareFlushPage) => Ok(HardwareOp::FlushPage { addr: words.0 }),
            Some(_) => Err(InvalidOperation::BadOp),
        }
    }

    fn make_args(&self) -> (r: SyscallArgs) {
        match *self {
            HardwareOp::EnableIoPorts => SyscallArgs::new(
                RawOperation::HardwareAccessEnable.as_usize(),
                0,
                0,
                0,
                0,
            ),
            HardwareOp::FlushPage { addr } => SyscallArgs::new(
                RawOperation::HardwareFlushPage.as_usize(),
                addr,
                0,
                0,
                0,
            ),
        }
    }

    fn from_args(args: &SyscallArgs) -> (r: Result<Self, InvalidOperation>) {
        let op = match RawOperation::try_from_usize(args.op()) {
            Some(op) => op,
            None => return Err(InvalidOperation::InvalidArgument),
        };
        match op {
            RawOperation::HardwareAccessEnable => Ok(Self::EnableIoPorts),
            RawOperation::HardwareFlushPage => Ok(Self::FlushPage { addr: args.args().0 }),
            _ => Err(InvalidOperation::BadOp),
        }
    }
}

/// Decoding the arguments of a hardware operation gives the operation back.
pub proof fn lemma_hardware_op_round_trip(op: HardwareOp)
    ensures
        HardwareOp::decoded(op.encoded().0, op.encoded().1, op.encoded().2) == Ok::<
            HardwareOp,
            InvalidOperation,
        >(op),
{
    crate::raw::lemma_raw_operation_code_injective(
        RawOperation::HardwareAccessEnable,
        RawOperation::HardwareAccessEnable,
    );
    crate::raw::lemma_raw_operation_code_injective(
        RawOperation::HardwareFlushPage,
        RawOperation::HardwareFlushPage,
    );
}

} // verus!
