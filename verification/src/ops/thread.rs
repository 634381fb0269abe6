//! Operations on a thread capability.
use vstd::prelude::*;

use super::{InvalidOperation, SyscallOp};
use crate::raw::{raw_operation_code, raw_operation_from_code, RawOperation, SyscallArgs};

verus! {

/// What a thread capability can do.
#[derive(Debug, Copy, Clone, PartialEq, Eq, Structural)]
pub enum ThreadOp {
    /// Dispatches the thread.
    Activate,
    /// Moves the thread to another core; no raw operation carries it yet.
    ChangeAffinity,
}

impl SyscallOp for ThreadOp {
    /// Only activation has an encoding so far.
    open spec fn can_encode(&self) -> bool {
        *self == ThreadOp::Activate
    }

    open spec fn encoded(&self) -> (usize, (usize, usize, usize, usize), Seq<u8>) {
        (raw_operation_code(RawOperation::ThreadActivate), (0, 0, 0, 0), Seq::empty())
    }

    open spec fn can_decode(
        op: usize,
        words: (usize, usize, usize, usize),
        payload: Seq<u8>,
    ) -> bool {
        true
    }

    open spec fn decoded(op: usize, words: (usize, usize, usize, usize), payload: Seq<u8>) -> Result<
        Self,
        InvalidOperation,
    > {
        match raw_operation_from_code(op) {
            None => Err(InvalidOperation::InvalidArgument),
            Some(RawOperation::ThreadActivate) => Ok(ThreadOp::Activate),
            Some(_) => Err(InvalidOperation::BadOp),
        }
    }

    fn make_args(&self) -> (r: SyscallArgs) {
        SyscallArgs::new(RawOperation::ThreadActivate.as_usize(), 0, 0, 0, 0)
    }

    fn from_args(args: &SyscallArgs) -> (r: Result<Self, InvalidOperation>) {
        let op = match RawOperation::try_from_usize(args.op()) {
            Some(op) => op,
            None => return Err(InvalidOperation::InvalidArgument),
        };
        match op {
            RawOperation::ThreadActivate => Ok(Self::Activate),
            _ => Err(InvalidOperation::BadOp),
        }
    }
}

/// Decoding the arguments of an encodable thread operation gives the
/// operation back.
pub proof fn lemma_thread_op_round_trip(op: ThreadOp)
    requires
        op.can_encode(),
    ensures
        ThreadOp::decoded(op.encoded().0, op.encoded().1, op.encoded().2) == Ok::<
            ThreadOp,
            InvalidOperation,
        >(op),
{
    crate::raw::lemma_raw_operation_code_injective(
        RawOperation::ThreadActivate,
        RawOperation::ThreadActivate,
    );
}

} // verus!
