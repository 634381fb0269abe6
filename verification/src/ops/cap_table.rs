//! Operations on capability tables, and the layout of the structures that a
//! construct operation refers to.
use vstd::prelude::*;

use super::{InvalidOperation, SlotId, SyscallOp};
use crate::bytes::{
    le_bytes_u32, le_bytes_u64, le_u32_at, le_u64_at, lemma_le_u32, lemma_le_u64, push_u32_le,
    push_u64_le, read_u32_le, read_u64_le,
};
use crate::raw::{raw_operation_code, raw_operation_from_code, CapId, RawOperation, SyscallArgs};

verus! {

/// The resource that a construct operation creates, with its parameters.
#[derive(Debug, Copy, Clone)]
pub enum ConstructArgs {
    CapTable(CapTableConsArgs),
    Thread(ThreadConsArgs),
    PageTable(PageTableConsArgs),
    SyncCall(SyncCallConsArgs),
}

/// Parameters of a new thread.
#[derive(Debug, Copy, Clone)]
pub struct ThreadConsArgs {
    pub entry: usize,
    pub stack_pointer: usize,
    pub cap_table: CapId,
    pub page_table: CapId,
    pub arg0: usize,
    pub region: usize,
}

/// Parameters of a new page table.
#[derive(Debug, Copy, Clone)]
pub struct PageTableConsArgs {
    pub region: usize,
    pub level: u8,
    pub _padding: [u8; 7],
}

/// Parameters of a new capability table.
#[derive(Debug, Copy, Clone)]
pub struct CapTableConsArgs {
    pub region: usize,
}

/// Parameters of a new synchronous call gate.
#[derive(Debug, Copy, Clone)]
pub struct SyncCallConsArgs {
    pub entry: usize,
    pub cap_table: CapId,
    pub page_table: CapId,
}

/// A construct operation: the resource and the slot that receives it.
#[derive(Debug, Copy, Clone)]
pub struct ConsArgs {
    pub kind: ConstructArgs,
    pub slot: SlotId,
}

/// What a capability-table capability can do.
#[derive(Debug, Copy, Clone)]
pub enum CapTableOp {
    /// Links the table `other_table_cap` as the child of `slot`.
    Link { slot: SlotId, other_table_cap: CapId },
    /// Removes the child of `slot`.
    Unlink { slot: SlotId },
    /// Creates a resource in a slot.
    Construct(ConsArgs),
    /// Drops the resource in `slot`; no encoding exists for it yet.
    Drop { slot: SlotId },
    /// Copies the resource in `slot` into `other_slot` of `other_table_cap`.
    Copy { slot: SlotId, other_table_cap: CapId, other_slot: SlotId },
}

/// The bytes of a machine word, as x86-64 stores it.
pub open spec fn word_bytes(x: usize) -> Seq<u8> {
    le_bytes_u64(x as u64)
}

impl ConstructArgs {
    /// The number that tells the kernel which structure the bytes hold.
    pub open spec fn tag(self) -> usize {
        match self {
            ConstructArgs::CapTable(_) => 0,
            ConstructArgs::Thread(_) => 1,
            ConstructArgs::PageTable(_) => 2,
            ConstructArgs::SyncCall(_) => 3,
        }
    }

    /// The in-memory bytes of the parameter structure.
    pub open spec fn spec_bytes(self) -> Seq<u8> {
        match self {
            ConstructArgs::CapTable(a) => word_bytes(a.region),
            ConstructArgs::Thread(a) => word_bytes(a.entry) + word_bytes(a.stack_pointer)
                + le_bytes_u32(a.cap_table@) + le_bytes_u32(a.page_table@) + word_bytes(a.arg0)
                + word_bytes(a.region),
            ConstructArgs::PageTable(a) => word_bytes(a.region) + seq![a.level] + a._padding@,
            ConstructArgs::SyncCall(a) => word_bytes(a.entry) + le_bytes_u32(a.cap_table@)
                + le_bytes_u32(a.page_table@),
        }
    }

    /// The parameters that the structure of kind `kind` stored in `b` holds;
    /// an unknown kind or too few bytes is an invalid argument.
    pub open spec fn spec_decode(kind: usize, b: Seq<u8>) -> Result<Self, InvalidOperation> {
        if kind == 0 && b.len() >= 8 {
            Ok(ConstructArgs::CapTable(CapTableConsArgs { region: le_u64_at(b, 0) as usize }))
        } else if kind == 1 && b.len() >= 40 {
            Ok(
                ConstructArgs::Thread(
                    ThreadConsArgs {
                        entry: le_u64_at(b, 0) as usize,
                        stack_pointer: le_u64_at(b, 8) as usize,
                        cap_table: CapId::spec_new(le_u32_at(b, 16)),
                        page_table: CapId::spec_new(le_u32_at(b, 20)),
                        arg0: le_u64_at(b, 24) as usize,
                        region: le_u64_at(b, 32) as usize,
                    },
                ),
            )
        } else if kind == 2 && b.len() >= 16 {
            Ok(
                ConstructArgs::PageTable(
                    PageTableConsArgs {
                        region: le_u64_at(b, 0) as usize,
                        level: b[8],
                        _padding: [b[9], b[10], b[11], b[12], b[13], b[14], b[15]],
                    },
                ),
            )
        } else if kind == 3 && b.len() >= 16 {
            Ok(
                ConstructArgs::SyncCall(
                    SyncCallConsArgs {
                        entry: le_u64_at(b, 0) as usize,
                        cap_table: CapId::spec_new(le_u32_at(b, 8)),
                        page_table: CapId::spec_new(le_u32_at(b, 12)),
                    },
                ),
            )
        } else {
            Err(InvalidOperation::InvalidArgument)
        }
    }

    /// The kind tag and the bytes of the parameter structure.
    pub fn encode(&self) -> (r: (usize, Vec<u8>))
        ensures
            r.0 == self.tag(),
            r.1@ == self.spec_bytes(),
    {
        let mut out: Vec<u8> = Vec::new();
        match *self {
            ConstructArgs::CapTable(a) => {
                push_u64_le(&mut out, a.region as u64);
                assert(out@ =~= self.spec_bytes());
                (0, out)
            },
            ConstructArgs::Thread(a) => {
                push_u64_le(&mut out, a.entry as u64);
                push_u64_le(&mut out, a.stack_pointer as u64);
                push_u32_le(&mut out, a.cap_table.get());
                push_u32_le(&mut out, a.page_table.get());
                push_u64_le(&mut out, a.arg0 as u64);
                push_u64_le(&mut out, a.region as u64);
                assert(out@ =~= self.spec_bytes());
                (1, out)
            },
            ConstructArgs::PageTable(a) => {
                push_u64_le(&mut out, a.region as u64);
                out.push(a.level);
                let mut i: usize = 0;
                while i < 7
                    invariant
                        i <= 7,
                        out@ == word_bytes(a.region) + seq![a.level] + a._padding@.subrange(
                            0,
                            i as int,
                        ),
                    decreases 7 - i,
                {
                    out.push(a._padding[i]);
                    i = i + 1;
                    assert(out@ =~= word_bytes(a.region) + seq![a.level]
                        + a._padding@.subrange(0, i as int));
                }
                assert(a._padding@.subrange(0, 7) =~= a._padding@);
                (2, out)
            },
            ConstructArgs::SyncCall(a) => {
                push_u64_le(&mut out, a.entry as u64);
                push_u32_le(&mut out, a.cap_table.get());
                push_u32_le(&mut out, a.page_table.get());
                assert(out@ =~= self.spec_bytes());
                (3, out)
            },
        }
    }

    /// The parameters that the structure of kind `kind` stored in `b` holds.
    pub fn decode(kind: usize, b: &[u8]) -> (r: Result<Self, InvalidOperation>)
        ensures
            r == Self::spec_decode(kind, b@),
    {
        if kind == 0 && b.len() >= 8 {
            Ok(ConstructArgs::CapTable(CapTableConsArgs { region: read_u64_le(b, 0) as usize }))
        } else if kind == 1 && b.len() >= 40 {
            Ok(
                ConstructArgs::Thread(
                    ThreadConsArgs {
                        entry: read_u64_le(b, 0) as usize,
                        stack_pointer: read_u64_le(b, 8) as usize,
                        cap_table: CapId::new(read_u32_le(b, 16)),
                        page_table: CapId::new(read_u32_le(b, 20)),
                        arg0: read_u64_le(b, 24) as usize,
                        region: read_u64_le(b, 32) as usize,
                    },
                ),
            )
        } else if kind == 2 && b.len() >= 16 {
            Ok(
                ConstructArgs::PageTable(
                    PageTableConsArgs {
                        region: read_u64_le(b, 0) as usize,
                        level: b[8],
                        _padding: [b[9], b[10], b[11], b[12], b[13], b[14], b[15]],
                    },
                ),
            )
        } else if kind == 3 && b.len() >= 16 {
            Ok(
                ConstructArgs::SyncCall(
                    SyncCallConsArgs {
                        entry: read_u64_le(b, 0) as usize,
                        cap_table: CapId::new(read_u32_le(b, 8)),
                        page_table: CapId::new(read_u32_le(b, 12)),
                    },
                ),
            )
        } else {
            Err(InvalidOperation::InvalidArgument)
        }
    }
}

/// Decoding the bytes of a parameter structure gives the parameters back.
pub proof fn lemma_construct_args_round_trip(kind: ConstructArgs)
    ensures
        ConstructArgs::spec_decode(kind.tag(), kind.spec_bytes()) == Ok::<
            ConstructArgs,
            InvalidOperation,
        >(kind),
{
    let b = kind.spec_bytes();
    match kind {
        ConstructArgs::CapTable(a) => {
            assert(b.subrange(0, 8) =~= word_bytes(a.region));
            lemma_le_u64(b, 0, a.region as u64);
        },
        ConstructArgs::Thread(a) => {
            assert(b.subrange(0, 8) =~= word_bytes(a.entry));
            assert(b.subrange(8, 16) =~= word_bytes(a.stack_pointer));
            assert(b.subrange(16, 20) =~= le_bytes_u32(a.cap_table@));
            assert(b.subrange(20, 24) =~= le_bytes_u32(a.page_table@));
            assert(b.subrange(24, 32) =~= word_bytes(a.arg0));
            assert(b.subrange(32, 40) =~= word_bytes(a.region));
            lemma_le_u64(b, 0, a.entry as u64);
            lemma_le_u64(b, 8, a.stack_pointer as u64);
            lemma_le_u32(b, 16, a.cap_table@);
            lemma_le_u32(b, 20, a.page_table@);
            lemma_le_u64(b, 24, a.arg0 as u64);
            lemma_le_u64(b, 32, a.region as u64);
            CapId::lemma_spec_new(a.cap_table@, a.cap_table);
            CapId::lemma_spec_new(a.page_table@, a.page_table);
        },
        ConstructArgs::PageTable(a) => {
            assert(b.subrange(0, 8) =~= word_bytes(a.region));
            lemma_le_u64(b, 0, a.region as u64);
            let p = a._padding;
            let q: [u8; 7] = [b[9], b[10], b[11], b[12], b[13], b[14], b[15]];
            assert(q@ =~= p@);
            broadcast use vstd::array::axiom_array_ext_equal;

            assert(q == p);
        },
        ConstructArgs::SyncCall(a) => {
            assert(b.subrange(0, 8) =~= word_bytes(a.entry));
            assert(b.subrange(8, 12) =~= le_bytes_u32(a.cap_table@));
            assert(b.subrange(12, 16) =~= le_bytes_u32(a.page_table@));
            lemma_le_u64(b, 0, a.entry as u64);
            lemma_le_u32(b, 8, a.cap_table@);
            lemma_le_u32(b, 12, a.page_table@);
            CapId::lemma_spec_new(a.cap_table@, a.cap_table);
            CapId::lemma_spec_new(a.page_table@, a.page_table);
        },
    }
}

/// The slot that index `i` names, when `i < 64`.
pub open spec fn slot_of(i: usize) -> Result<SlotId, InvalidOperation> {
    if i < 64 {
        Ok(SlotId::spec_new(i))
    } else {
        Err(InvalidOperation::InvalidArgument)
    }
}

/// The capability that word `w` names, when it fits 32 bits.
pub open spec fn cap_of(w: usize) -> Result<CapId, InvalidOperation> {
    if w <= u32::MAX {
        Ok(CapId::spec_new(w as u32))
    } else {
        Err(InvalidOperation::InvalidArgument)
    }
}

fn slot_from_word(w: usize) -> (r: Result<SlotId, InvalidOperation>)
    ensures
        r == slot_of(w),
{
    match SlotId::new(w) {
        Ok(s) => Ok(s),
        Err(e) => Err(InvalidOperation::from_trie_index_error(e)),
    }
}

fn cap_from_word(w: usize) -> (r: Result<CapId, InvalidOperation>)
    ensures
        r == cap_of(w),
{
    match CapId::try_from_usize(w) {
        Ok(c) => Ok(c),
        Err(_) => Err(InvalidOperation::InvalidArgument),
    }
}

/// Every slot of an exec operation is below the table size.
pub open spec fn cap_table_op_valid(op: CapTableOp) -> bool {
    match op {
        CapTableOp::Link { slot, .. } => slot@ < 64,
        CapTableOp::Unlink { slot } => slot@ < 64,
        CapTableOp::Construct(c) => c.slot@ < 64,
        CapTableOp::Drop { slot } => slot@ < 64,
        CapTableOp::Copy { slot, other_slot, .. } => slot@ < 64 && other_slot@ < 64,
    }
}

impl SyscallOp for CapTableOp {
    /// Dropping has no encoding yet.
    open spec fn can_encode(&self) -> bool {
        !(*self is Drop)
    }

    open spec fn encoded(&self) -> (usize, (usize, usize, usize, usize), Seq<u8>) {
        match *self {
            CapTableOp::Link { slot, other_table_cap } => (
                raw_operation_code(RawOperation::CapTableLink),
                (other_table_cap@ as usize, slot@, 0, 0),
                Seq::empty(),
            ),
            CapTableOp::Unlink { slot } => (
                raw_operation_code(RawOperation::CapTableUnlink),
                (slot@, 0, 0, 0),
                Seq::empty(),
            ),
            CapTableOp::Construct(c) => (
                raw_operation_code(RawOperation::CapTableConstruct),
                (c.slot@, c.kind.tag(), 0, 0),
                c.kind.spec_bytes(),
            ),
            CapTableOp::Drop { slot } => (
                raw_operation_code(RawOperation::CapTableDrop),
                (slot@, 0, 0, 0),
                Seq::empty(),
            ),
            CapTableOp::Copy { slot, other_table_cap, other_slot } => (
                raw_operation_code(RawOperation::CapTableCopy),
                (slot@, other_table_cap@ as usize, other_slot@, 0),
                Seq::empty(),
            ),
        }
    }

    /// Dropping has no decoding yet.
    open spec fn can_decode(
        op: usize,
        words: (usize, usize, usize, usize),
        payload: Seq<u8>,
    ) -> bool {
        raw_operation_from_code(op) != Some(RawOperation::CapTableDrop)
    }

    open spec fn decoded(op: usize, words: (usize, usize, usize, usize), payload: Seq<u8>) -> Result<
        Self,
        InvalidOperation,
    > {
        match raw_operation_from_code(op) {
            None => Err(InvalidOperation::InvalidArgument),
            Some(RawOperation::CapTableLink) => match (cap_of(words.0), slot_of(words.1)) {
                (Ok(other_table_cap), Ok(slot)) => Ok(CapTableOp::Link { slot, other_table_cap }),
                _ => Err(InvalidOperation::InvalidArgument),
            },
            Some(RawOperation::CapTableUnlink) => match slot_of(words.0) {
                Ok(slot) => Ok(CapTableOp::Unlink { slot }),
                Err(e) => Err(e),
            },
            Some(RawOperation::CapTableConstruct) => match (
                ConstructArgs::spec_decode(words.1, payload),
                slot_of(words.0),
            ) {
                (Ok(kind), Ok(slot)) => Ok(CapTableOp::Construct(ConsArgs { kind, slot })),
                _ => Err(InvalidOperation::InvalidArgument),
            },
            Some(RawOperation::CapTableCopy) => match (
                slot_of(words.0),
                cap_of(words.1),
                slot_of(words.2),
            ) {
                (Ok(slot), Ok(other_table_cap), Ok(other_slot)) => Ok(
                    CapTableOp::Copy { slot, other_table_cap, other_slot },
                ),
                _ => Err(InvalidOperation::InvalidArgument),
            },
            Some(_) => Err(InvalidOperation::BadOp),
        }
    }

    fn make_args(&self) -> (r: SyscallArgs) {
        match *self {
            CapTableOp::Link { other_table_cap, slot } => SyscallArgs::new(
                RawOperation::CapTableLink.as_usize(),
                other_table_cap.as_usize(),
                slot.as_usize(),
                0,
                0,
            ),
            CapTableOp::Unlink { slot } => SyscallArgs::new(
                RawOperation::CapTableUnlink.as_usize(),
                slot.as_usize(),
                0,
                0,
                0,
            ),
            CapTableOp::Construct(ref cons_args) => {
                let (var, bytes) = cons_args.kind.encode();
                SyscallArgs::with_payload(
                    RawOperation::CapTableConstruct.as_usize(),
                    cons_args.slot.as_usize(),
                    var,
                    0,
                    0,
                    bytes,
                )
            },
            CapTableOp::Drop { .. } => {
                assert(false);
                SyscallArgs::new(RawOperation::CapTableDrop.as_usize(), 0, 0, 0, 0)
            },
            CapTableOp::Copy { slot, other_table_cap, other_slot } => SyscallArgs::new(
                RawOperation::CapTableCopy.as_usize(),
                slot.as_usize(),
                other_table_cap.as_usize(),
                other_slot.as_usize(),
                0,
            ),
        }
    }

    fn from_args(args: &SyscallArgs) -> (r: Result<Self, InvalidOperation>) {
        let op = match RawOperation::try_from_usize(args.op()) {
            Some(op) => op,
            None => return Err(InvalidOperation::InvalidArgument),
        };
        let (a, b, c, _) = args.args();
        match op {
            RawOperation::CapTableLink => {
                let other_table_cap = match cap_from_word(a) {
                    Ok(x) => x,
                    Err(_) => return Err(InvalidOperation::InvalidArgument),
                };
                let slot = match slot_from_word(b) {
                    Ok(x) => x,
                    Err(_) => return Err(InvalidOperation::InvalidArgument),
                };
                Ok(Self::Link { other_table_cap, slot })
            },
            RawOperation::CapTableUnlink => {
                let slot = slot_from_word(a)?;
                Ok(Self::Unlink { slot })
            },
            RawOperation::CapTableConstruct => {
                let kind = match ConstructArgs::decode(b, args.payload()) {
                    Ok(k) => k,
                    Err(_) => return Err(InvalidOperation::InvalidArgument),
                };
                let slot = match slot_from_word(a) {
                    Ok(x) => x,
                    Err(_) => return Err(InvalidOperation::InvalidArgument),
                };
                Ok(Self::Construct(ConsArgs { kind, slot }))
            },
            RawOperation::CapTableCopy => {
                let slot = match slot_from_word(a) {
                    Ok(x) => x,
                    Err(_) => return Err(InvalidOperation::InvalidArgument),
                };
                let other_table_cap = match cap_from_word(b) {
                    Ok(x) => x,
                    Err(_) => return Err(InvalidOperation::InvalidArgument),
                };
                let other_slot = match slot_from_word(c) {
                    Ok(x) => x,
                    Err(_) => return Err(InvalidOperation::InvalidArgument),
                };
                Ok(Self::Copy { slot, other_table_cap, other_slot })
            },
            _ => Err(InvalidOperation::BadOp),
        }
    }
}

/// Decoding the arguments of an encodable capability-table operation gives
/// the operation back.
pub proof fn lemma_cap_table_op_round_trip(op: CapTableOp)
    requires
        op.can_encode(),
        cap_table_op_valid(op),
    ensures
        CapTableOp::can_decode(op.encoded().0, op.encoded().1, op.encoded().2),
        CapTableOp::decoded(op.encoded().0, op.encoded().1, op.encoded().2) == Ok::<
            CapTableOp,
            InvalidOperation,
        >(op),
{
    match op {
        CapTableOp::Link { slot, other_table_cap } => {
            crate::raw::lemma_raw_operation_code_injective(
                RawOperation::CapTableLink,
                RawOperation::CapTableLink,
            );
            CapId::lemma_spec_new(other_table_cap@, other_table_cap);
            SlotId::lemma_spec_new(slot@, slot);
        },
        CapTableOp::Unlink { slot } => {
            crate::raw::lemma_raw_operation_code_injective(
                RawOperation::CapTableUnlink,
                RawOperation::CapTableUnlink,
            );
            SlotId::lemma_spec_new(slot@, slot);
        },
        CapTableOp::Construct(c) => {
            crate::raw::lemma_raw_operation_code_injective(
                RawOperation::CapTableConstruct,
                RawOperation::CapTableConstruct,
            );
            SlotId::lemma_spec_new(c.slot@, c.slot);
            lemma_construct_args_round_trip(c.kind);
        },
        CapTableOp::Drop { .. } => {},
        CapTableOp::Copy { slot, other_table_cap, other_slot } => {
            crate::raw::lemma_raw_operation_code_injective(
                RawOperation::CapTableCopy,
                RawOperation::CapTableCopy,
            );
            CapId::lemma_spec_new(other_table_cap@, other_table_cap);
            SlotId::lemma_spec_new(slot@, slot);
            SlotId::lemma_spec_new(other_slot@, other_slot);
        },
    }
}

} // verus!
