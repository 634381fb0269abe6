//! Operations that retype a memory region.
use vstd::prelude::*;

use super::{InvalidOperation, SyscallOp};
use crate::raw::{raw_operation_code, raw_operation_from_code, RawOperation, SyscallArgs};

verus! {

/// Retypes the frame at `region` into the kind `to`.
#[derive(Debug, Copy, Clone, PartialEq, Eq, Structural)]
pub struct RetypeOp {
    pub region: usize,
    pub to: RetypeKind,
}

/// The target kind of a retype.
#[derive(Debug, Copy, Clone, PartialEq, Eq, Structural)]
pub enum RetypeKind {
    Retype2Kernel,
    Retype2User,
    Retype2Untyped,
}

/// The raw operation that retypes into `kind`.
pub open spec fn retype_operation(kind: RetypeKind) -> RawOperation {
    match kind {
        RetypeKind::Retype2Kernel => RawOperation::Retype2Kernel,
        RetypeKind::Retype2User => RawOperation::Retype2User,
        RetypeKind::Retype2Untyped => RawOperation::Retype2Untyped,
    }
}

impl SyscallOp for RetypeOp {
    open spec fn can_encode(&self) -> bool {
        true
    }

    open spec fn encoded(&self) -> (usize, (usize, usize, usize, usize), Seq<u8>) {
        (raw_operation_code(retype_operation(self.to)), (self.region, 0, 0, 0), Seq::empty())
    }

    open spec fn can_decode(
        op: usize,
        words: (usize, usize, usize, usize),
        payload: Seq<u8>,
    ) -> bool {
        true
    }

    open spec fn decoded(op: usize, words: (usize, usize, usize, usize), payload: Seq<u8>) -> Result<
        Self,
        InvalidOperation,
    > {
        match raw_operation_from_code(op) {
            None => Err(InvalidOperation::InvalidArgument),
            Some(RawOperation::Retype2Kernel) => Ok(
                RetypeOp { region: words.0, to: RetypeKind::Retype2Kernel },
            ),
            Some(RawOperation::Retype2User) => Ok(
                RetypeOp { region: words.0, to: RetypeKind::Retype2User },
            ),
            Some(RawOperation::Retype2Untyped) => Ok(
                RetypeOp { region: words.0, to: RetypeKind::Retype2Untyped },
            ),
            Some(_) => Err(InvalidOperation::BadOp),
        }
    }

    fn make_args(&self) -> (r: SyscallArgs) {
        match self.to {
            RetypeKind::Retype2Kernel => SyscallArgs::new(
                RawOperation::Retype2Kernel.as_usize(),
                self.region,
                0,
                0,
                0,
            ),
            RetypeKind::Retype2User => SyscallArgs::new(
                RawOperation::Retype2User.as_usize(),
                self.region,
                0,
                0,
                0,
            ),
            RetypeKind::Retype2Untyped => SyscallArgs::new(
                RawOperation::Retype2Untyped.as_usize(),
                self.region,
                0,
                0,
                0,
            ),
        }
    }

    fn from_args(args: &SyscallArgs) -> (r: Result<Self, InvalidOperation>) {
        let op = match RawOperation::try_from_usize(args.op()) {
            Some(op) => op,
            None => return Err(InvalidOperation::InvalidArgument),
        };
        match op {
            RawOperation::Retype2Kernel => Ok(
                Self { region: args.args().0, to: RetypeKind::Retype2Kernel },
            ),
            RawOperation::Retype2User => Ok(
                Self { region: args.args().0, to: RetypeKind::Retype2User },
            ),
            RawOperation::Retype2Untyped => Ok(
                Self { region: args.args().0, to: RetypeKind::Retype2Untyped },
            ),
            _ => Err(InvalidOperation::BadOp),
        }
    }
}

/// Decoding the arguments of a retype gives the retype back.
pub proof fn lemma_retype_op_round_trip(op: RetypeOp)
    ensures
        RetypeOp::decoded(op.encoded().0, op.encoded().1, op.encoded().2) == Ok::<
            RetypeOp,
            InvalidOperation,
        >(op),
{
    crate::raw::lemma_raw_operation_code_injective(
        retype_operation(op.to),
        retype_operation(op.to),
    );
}

} // verus!
