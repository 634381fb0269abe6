//! The structured operations that a capability invocation performs, and
//! their encoding into raw syscall arguments.
use vstd::prelude::*;

use crate::raw::{CapError, SyscallArgs};
use crate::trie::TrieIndexError;

pub mod cap_table;
pub mod hardware;
pub mod ipc;
pub mod memory;
pub mod paging;
pub mod thread;

verus! {

/// The index of a slot in a capability table.
pub type SlotId = crate::trie::SlotId<64>;

/// Why a syscall's arguments do not describe an operation.
#[derive(Debug, Copy, Clone, PartialEq, Eq, Structural)]
pub enum InvalidOperation {
    BadOp,
    InvalidArgument,
}

/// An operation that travels through a syscall.
///
/// `encoded` gives the operation code, the four argument words and the bytes
/// of a referenced structure; `decoded` gives what the kernel reads back from
/// them.
pub trait SyscallOp: Sized {
    /// Whether the operation has an encoding.
    spec fn can_encode(&self) -> bool;

    /// The raw arguments of the operation.
    spec fn encoded(&self) -> (usize, (usize, usize, usize, usize), Seq<u8>);

    /// Whether decoding these raw arguments is defined.
    spec fn can_decode(op: usize, words: (usize, usize, usize, usize), payload: Seq<u8>) -> bool;

    /// The operation that raw arguments describe, or why they describe none.
    spec fn decoded(op: usize, words: (usize, usize, usize, usize), payload: Seq<u8>) -> Result<
        Self,
        InvalidOperation,
    >;

    /// Encodes the operation into raw syscall arguments.
    fn make_args(&self) -> (r: SyscallArgs)
        requires
            self.can_encode(),
        ensures
            r.spec_op() == self.encoded().0,
            r.spec_args() == self.encoded().1,
            r.spec_payload() == self.encoded().2,
    ;

    /// Decodes raw syscall arguments into an operation.
    fn from_args(args: &SyscallArgs) -> (r: Result<Self, InvalidOperation>)
        requires
            Self::can_decode(args.spec_op(), args.spec_args(), args.spec_payload()),
        ensures
            r == Self::decoded(args.spec_op(), args.spec_args(), args.spec_payload()),
    ;
}

impl InvalidOperation {
    /// An out-of-range index is an invalid argument.
    pub fn from_trie_index_error(_value: TrieIndexError) -> (r: Self)
        ensures
            r == InvalidOperation::InvalidArgument,
    {
        InvalidOperation::InvalidArgument
    }
}

/// The capability error that reports an invalid operation.
pub open spec fn cap_error_of(value: InvalidOperation) -> CapError {
    match value {
        InvalidOperation::BadOp => CapError::InvalidOp,
        InvalidOperation::InvalidArgument => CapError::InvalidArgument,
    }
}

impl From<InvalidOperation> for CapError {
    fn from(value: InvalidOperation) -> (r: Self) {
        match value {
            InvalidOperation::BadOp => Self::InvalidOp,
            InvalidOperation::InvalidArgument => Self::InvalidArgument,
        }
    }
}

impl vstd::std_specs::convert::FromSpecImpl<InvalidOperation> for CapError {
    open spec fn obeys_from_spec() -> bool {
        true
    }

    open spec fn from_spec(v: InvalidOperation) -> CapError {
        cap_error_of(v)
    }
}

} // verus!
