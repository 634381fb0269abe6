//! Operations on page-table capabilities and the permissions they grant.
use vstd::prelude::*;

use super::{InvalidOperation, SyscallOp};
use crate::raw::{raw_operation_code, raw_operation_from_code, CapId, RawOperation, SyscallArgs};

verus! {

/// The access rights of a mapping: bit 0 allows writes, bit 1 execution.
#[derive(Debug, Clone, Copy, Eq, PartialEq, Structural)]
pub struct PermissionMask(usize);

impl View for PermissionMask {
    type V = usize;

    closed spec fn view(&self) -> usize {
        self.0
    }
}

/// The bit that allows writes.
pub const PERMISSION_WRITE: usize = 0x0001;

/// The bit that allows execution.
pub const PERMISSION_EXECUTE: usize = 0x0002;

impl PermissionMask {
    #[verifier::type_invariant]
    spec fn inv(self) -> bool {
        self.0 <= 3
    }

    /// The mask whose bits are `bits`.
    pub closed spec fn spec_from(bits: usize) -> Self {
        PermissionMask(bits)
    }

    /// A mask is determined by its bits.
    pub proof fn lemma_spec_from(bits: usize, m: Self)
        ensures
            Self::spec_from(bits)@ == bits,
            m@ == bits ==> m == Self::spec_from(bits),
    {
    }

    /// The mask that grants nothing.
    pub fn empty() -> (r: Self)
        ensures
            r@ == 0,
    {
        Self(0)
    }

    /// The mask that grants everything.
    pub fn all() -> (r: Self)
        ensures
            r@ == 3,
    {
        Self(3)
    }

    /// The mask that allows writes.
    pub fn write() -> (r: Self)
        ensures
            r@ == PERMISSION_WRITE,
    {
        Self(PERMISSION_WRITE)
    }

    /// The mask that allows execution.
    pub fn execute() -> (r: Self)
        ensures
            r@ == PERMISSION_EXECUTE,
    {
        Self(PERMISSION_EXECUTE)
    }

    /// The bits of the mask.
    pub fn bits(&self) -> (r: usize)
        ensures
            r == self@,
            r <= 3,
    {
        proof {
            use_type_invariant(self);
        }
        self.0
    }

    /// The mask made of the known bits of `bits`; the others are dropped.
    pub fn from_bits_truncate(bits: usize) -> (r: Self)
        ensures
            r@ == bits & 3,
            r == Self::spec_from(bits & 3),
    {
        assert(bits & 3 <= 3) by (bit_vector);
        Self(bits & 3)
    }

    /// The rights of both masks.
    pub fn union(self, other: Self) -> (r: Self)
        ensures
            r@ == self@ | other@,
    {
        let a = self.bits();
        let b = other.bits();
        assert(a | b <= 3) by (bit_vector)
            requires
                a <= 3,
                b <= 3,
        ;
        Self(a | b)
    }

    /// Whether every right of `other` is in this mask.
    pub fn contains(&self, other: Self) -> (r: bool)
        ensures
            r == (self@ & other@ == other@),
    {
        (self.0 & other.0) == other.0
    }
}

/// What a page-table capability can do.
#[derive(Debug, Clone, Copy, Eq, PartialEq, Structural)]
pub enum PageTableOp {
    /// Links the table `other_table` into entry `slot`.
    Link { other_table: CapId, slot: usize, permissions: PermissionMask },
    /// Removes the table linked at entry `slot`.
    Unlink { slot: usize },
    /// Maps the user frame at `user_frame` into entry `slot`.
    MapFrame { user_frame: usize, slot: usize, permissions: PermissionMask },
    /// Removes the frame mapped at entry `slot`.
    UnmapFrame { slot: usize },
}

impl SyscallOp for PageTableOp {
    open spec fn can_encode(&self) -> bool {
        true
    }

    open spec fn encoded(&self) -> (usize, (usize, usize, usize, usize), Seq<u8>) {
        match *self {
            PageTableOp::Link { other_table, slot, permissions } => (
                raw_operation_code(RawOperation::PageTableLink),
                (other_table@ as usize, slot, permissions@, 0),
                Seq::empty(),
            ),
            PageTableOp::Unlink { slot } => (
                raw_operation_code(RawOperation::PageTableUnlink),
                (slot, 0, 0, 0),
                Seq::empty(),
            ),
            PageTableOp::MapFrame { user_frame, slot, permissions } => (
                raw_operation_code(RawOperation::PageTableMapFrame),
                (user_frame, slot, permissions@, 0),
                Seq::empty(),
            ),
            PageTableOp::UnmapFrame { slot } => (
                raw_operation_code(RawOperation::PageTableUnmapFrame),
                (slot, 0, 0, 0),
                Seq::empty(),
            ),
        }
    }

    open spec fn can_decode(
        op: usize,
        words: (usize, usize, usize, usize),
        payload: Seq<u8>,
    ) -> bool {
        true
    }

    open spec fn decoded(op: usize, words: (usize, usize, usize, usize), payload: Seq<u8>) -> Result<
        Self,
        InvalidOperation,
    > {
        match raw_operation_from_code(op) {
            None => Err(InvalidOperation::InvalidArgument),
            Some(RawOperation::PageTableLink) => if words.0 > u32::MAX {
                Err(InvalidOperation::InvalidArgument)
            } else {
                Ok(
                    PageTableOp::Link {
                        other_table: CapId::spec_new(words.0 as u32),
                        slot: words.1,
                        permissions: PermissionMask::spec_from(words.2 & 3),
                    },
                )
            },
            Some(RawOperation::PageTableUnlink) => Ok(PageTableOp::Unlink { slot: words.0 }),
            Some(RawOperation::PageTableMapFrame) => Ok(
                PageTableOp::MapFrame {
                    user_frame: words.0,
                    slot: words.1,
                    permissions: PermissionMask::spec_from(words.2 & 3),
                },
            ),
            Some(RawOperation::PageTableUnmapFrame) => Ok(PageTableOp::UnmapFrame { slot: words.0 }),
            Some(_) => Err(InvalidOperation::BadOp),
        }
    }

    fn make_args(&self) -> (r: SyscallArgs) {
        match *self {
            PageTableOp::Link { other_table, slot, permissions } => SyscallArgs::new(
                RawOperation::PageTableLink.as_usize(),
                other_table.as_usize(),
                slot,
                permissions.bits(),
                0,
            ),
            PageTableOp::Unlink { slot } => SyscallArgs::new(
                RawOperation::PageTableUnlink.as_usize(),
                slot,
                0,
                0,
                0,
            ),
            PageTableOp::MapFrame { user_frame, slot, permissions } => SyscallArgs::new(
                RawOperation::PageTableMapFrame.as_usize(),
                user_frame,
                slot,
                permissions.bits(),
                0,
            ),
            PageTableOp::UnmapFrame { slot } => SyscallArgs::new(
                RawOperation::PageTableUnmapFrame.as_usize(),
                slot,
                0,
                0,
                0,
            ),
        }
    }

    fn from_args(args: &SyscallArgs) -> (r: Result<Self, InvalidOperation>) {
        let op = match RawOperation::try_from_usize(args.op()) {
            Some(op) => op,
            None => return Err(InvalidOperation::InvalidArgument),
        };
        match op {
            RawOperation::PageTableLink => {
                let other_table = match CapId::try_from_usize(args.args().0) {
                    Ok(c) => c,
                    Err(_) => return Err(InvalidOperation::InvalidArgument),
                };
                Ok(
                    Self::Link {
                        other_table,
                        slot: args.args().1,
                        permissions: PermissionMask::from_bits_truncate(args.args().2),
                    },
                )
            },
            RawOperation::PageTableUnlink => Ok(Self::Unlink { slot: args.args().0 }),
            RawOperation::PageTableMapFrame => Ok(
                Self::MapFrame {
                    user_frame: args.args().0,
                    slot: args.args().1,
                    permissions: PermissionMask::from_bits_truncate(args.args().2),
                },
            ),
            RawOperation::PageTableUnmapFrame => Ok(Self::UnmapFrame { slot: args.args().0 }),
            _ => Err(InvalidOperation::BadOp),
        }
    }
}

/// Decoding the arguments of a page-table operation gives the operation
/// back.
pub proof fn lemma_page_table_op_round_trip(op: PageTableOp)
    requires
        page_table_op_valid(op),
    ensures
        PageTableOp::decoded(op.encoded().0, op.encoded().1, op.encoded().2) == Ok::<
            PageTableOp,
            InvalidOperation,
        >(op),
{
    match op {
        PageTableOp::Link { other_table, slot, permissions } => {
            crate::raw::lemma_raw_operation_code_injective(
                RawOperation::PageTableLink,
                RawOperation::PageTableLink,
            );
            CapId::lemma_spec_new(other_table@, other_table);
            lemma_mask_bits(permissions);
        },
        PageTableOp::Unlink { .. } => {
            crate::raw::lemma_raw_operation_code_injective(
                RawOperation::PageTableUnlink,
                RawOperation::PageTableUnlink,
            );
        },
        PageTableOp::MapFrame { permissions, .. } => {
            crate::raw::lemma_raw_operation_code_injective(
                RawOperation::PageTableMapFrame,
                RawOperation::PageTableMapFrame,
            );
            lemma_mask_bits(permissions);
        },
        PageTableOp::UnmapFrame { .. } => {
            crate::raw::lemma_raw_operation_code_injective(
                RawOperation::PageTableUnmapFrame,
                RawOperation::PageTableUnmapFrame,
            );
        },
    }
}

proof fn lemma_mask_bits(m: PermissionMask)
    requires
        m@ <= 3,
    ensures
        PermissionMask::spec_from(m@ & 3) == m,
{
    let b = m.0;
    assert(b <= 3 ==> b & 3 == b) by (bit_vector);
}

/// Every exec mask holds at most the two known bits.
pub open spec fn page_table_op_valid(op: PageTableOp) -> bool {
    match op {
        PageTableOp::Link { permissions, .. } => permissions@ <= 3,
        PageTableOp::MapFrame { permissions, .. } => permissions@ <= 3,
        _ => true,
    }
}

} // verus!
