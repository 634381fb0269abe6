//! Operations of the synchronous invocation call gate.
use vstd::prelude::*;

use super::{InvalidOperation, SyscallOp};
use crate::raw::{raw_operation_code, raw_operation_from_code, RawOperation, SyscallArgs};

verus! {

/// Invokes a synchronous call with four argument words.
#[derive(Debug, Copy, Clone, Eq, PartialEq)]
pub enum SyncCallOp {
    Call((usize, usize, usize, usize)),
}

impl SyscallOp for SyncCallOp {
    open spec fn can_encode(&self) -> bool {
        true
    }

    open spec fn encoded(&self) -> (usize, (usize, usize, usize, usize), Seq<u8>) {
        match *self {
            SyncCallOp::Call(words) => (
                raw_operation_code(RawOperation::SyncCall),
                words,
                Seq::empty(),
            ),
        }
    }

    open spec fn can_decode(
        op: usize,
        words: (usize, usize, usize, usize),
        payload: Seq<u8>,
    ) -> bool {
        true
    }

    open spec fn decoded(op: usize, words: (usize, usize, usize, usize), payload: Seq<u8>) -> Result<
        Self,
        InvalidOperation,
    > {
        match raw_operation_from_code(op) {
            None => Err(InvalidOperation::InvalidArgument),
            Some(RawOperation::SyncCall) => Ok(SyncCallOp::Call(words)),
            Some(_) => Err(InvalidOperation::BadOp),
        }
    }

    fn make_args(&self) -> (r: SyscallArgs) {
        match self {
            SyncCallOp::Call((a, b, c, d)) => SyscallArgs::new(
                RawOperation::SyncCall.as_usize(),
                *a,
                *b,
                *c,
                *d,
            ),
        }
    }

    fn from_args(args: &SyscallArgs) -> (r: Result<Self, InvalidOperation>) {
        let op = match RawOperation::try_from_usize(args.op()) {
            Some(op) => op,
            None => return Err(InvalidOperation::InvalidArgument),
        };
        match op {
            RawOperation::SyncCall => Ok(SyncCallOp::Call(args.args())),
            _ => Err(InvalidOperation::BadOp),
        }
    }
}

/// Returns from a synchronous call with a return code.
#[derive(Debug, Copy, Clone, Eq, PartialEq, Structural)]
pub enum SyncRetOp {
    SyncRet(usize),
}

impl SyscallOp for SyncRetOp {
    open spec fn can_encode(&self) -> bool {
        true
    }

    open spec fn encoded(&self) -> (usize, (usize, usize, usize, usize), Seq<u8>) {
        match *self {
            SyncRetOp::SyncRet(code) => (
                raw_operation_code(RawOperation::SyncRet),
                (code, 0, 0, 0),
                Seq::empty(),
            ),
        }
    }

    open spec fn can_decode(
        op: usize,
        words: (usize, usize, usize, usize),
        payload: Seq<u8>,
    ) -> bool {
        true
    }

    open spec fn decoded(op: usize, words: (usize, usize, usize, usize), payload: Seq<u8>) -> Result<
        Self,
        InvalidOperation,
    > {
        match raw_operation_from_code(op) {
            None => Err(InvalidOperation::InvalidArgument),
            Some(RawOperation::SyncRet) => Ok(SyncRetOp::SyncRet(words.0)),
            Some(_) => Err(InvalidOperation::BadOp),
        }
    }

    fn make_args(&self) -> (r: SyscallArgs) {
        match *self {
            SyncRetOp::SyncRet(return_code) => SyscallArgs::new(
                RawOperation::SyncRet.as_usize(),
                return_code,
                0,
                0,
                0,
            ),
        }
    }

    fn from_args(args: &SyscallArgs) -> (r: Result<Self, InvalidOperation>) {
        let op = match RawOperation::try_from_usize(args.op()) {
            Some(op) => op,
            None => return Err(InvalidOperation::InvalidArgument),
        };
        match op {
            RawOperation::SyncRet => Ok(Self::SyncRet(args.args().0)),
            _ => Err(InvalidOperation::BadOp),
        }
    }
}

/// Decoding the arguments of a synchronous call gives the call back.
pub proof fn lemma_sync_call_op_round_trip(op: SyncCallOp)
    ensures
        SyncCallOp::decoded(op.encoded().0, op.encoded().1, op.encoded().2) == Ok::<
            SyncCallOp,
            InvalidOperation,
        >(op),
{
    crate::raw::lemma_raw_operation_code_injective(RawOperation::SyncCall, RawOperation::SyncCall);
}

/// Decoding the arguments of a synchronous return gives the return back.
pub proof fn lemma_sync_ret_op_round_trip(op: SyncRetOp)
    ensures
        SyncRetOp::decoded(op.encoded().0, op.encoded().1, op.encoded().2) == Ok::<
            SyncRetOp,
            InvalidOperation,
        >(op),
{
    crate::raw::lemma_raw_operation_code_injective(RawOperation::SyncRet, RawOperation::SyncRet);
}

} // verus!
