//! Raw syscall vocabulary shared by the kernel and userspace: operation and
//! error codes, the argument block of a syscall, and capability identifiers.
use vstd::prelude::*;

verus! {

/// Number of bits of a capability that index one trie level.
pub const SLOT_BITS: u32 = 6;

/// Number of slots in one capability table.
pub const SLOT_COUNT: u32 = 64;

/// The raw operation codes understood by the kernel.
#[derive(Debug, Copy, Clone, PartialEq, Eq, Structural)]
pub enum RawOperation {
    ThreadActivate,
    CapTableLink,
    CapTableUnlink,
    CapTableConstruct,
    CapTableDrop,
    CapTableCopy,
    PageTableLink,
    PageTableUnlink,
    PageTableMapFrame,
    PageTableUnmapFrame,
    MemoryRegionRetype,
    MemoryRegionSplit,
    HardwareAccessEnable,
    HardwareFlushPage,
    SyncCall,
    SyncRet,
    Retype2Kernel,
    Retype2User,
    Retype2Untyped,
}

/// The number that encodes an operation: its position in the declaration.
pub open spec fn raw_operation_code(op: RawOperation) -> usize {
    match op {
        RawOperation::ThreadActivate => 0,
        RawOperation::CapTableLink => 1,
        RawOperation::CapTableUnlink => 2,
        RawOperation::CapTableConstruct => 3,
        RawOperation::CapTableDrop => 4,
        RawOperation::CapTableCopy => 5,
        RawOperation::PageTableLink => 6,
        RawOperation::PageTableUnlink => 7,
        RawOperation::PageTableMapFrame => 8,
        RawOperation::PageTableUnmapFrame => 9,
        RawOperation::MemoryRegionRetype => 10,
        RawOperation::MemoryRegionSplit => 11,
        RawOperation::HardwareAccessEnable => 12,
        RawOperation::HardwareFlushPage => 13,
        RawOperation::SyncCall => 14,
        RawOperation::SyncRet => 15,
        RawOperation::Retype2Kernel => 16,
        RawOperation::Retype2User => 17,
        RawOperation::Retype2Untyped => 18,
    }
}

/// The operation that `code` encodes, if any.
pub open spec fn raw_operation_from_code(code: usize) -> Option<RawOperation> {
    match code {
        0 => Some(RawOperation::ThreadActivate),
        1 => Some(RawOperation::CapTableLink),
        2 => Some(RawOperation::CapTableUnlink),
        3 => Some(RawOperation::CapTableConstruct),
        4 => Some(RawOperation::CapTableDrop),
        5 => Some(RawOperation::CapTableCopy),
        6 => Some(RawOperation::PageTableLink),
        7 => Some(RawOperation::PageTableUnlink),
        8 => Some(RawOperation::PageTableMapFrame),
        9 => Some(RawOperation::PageTableUnmapFrame),
        10 => Some(RawOperation::MemoryRegionRetype),
        11 => Some(RawOperation::MemoryRegionSplit),
        12 => Some(RawOperation::HardwareAccessEnable),
        13 => Some(RawOperation::HardwareFlushPage),
        14 => Some(RawOperation::SyncCall),
        15 => Some(RawOperation::SyncRet),
        16 => Some(RawOperation::Retype2Kernel),
        17 => Some(RawOperation::Retype2User),
        18 => Some(RawOperation::Retype2Untyped),
        _ => None,
    }
}

impl RawOperation {
    /// The code of this operation.
    pub fn as_usize(self) -> (r: usize)
        ensures
            r == raw_operation_code(self),
    {
        match self {
            RawOperation::ThreadActivate => 0,
            RawOperation::CapTableLink => 1,
            RawOperation::CapTableUnlink => 2,
            RawOperation::CapTableConstruct => 3,
            RawOperation::CapTableDrop => 4,
            RawOperation::CapTableCopy => 5,
            RawOperation::PageTableLink => 6,
            RawOperation::PageTableUnlink => 7,
            RawOperation::PageTableMapFrame => 8,
            RawOperation::PageTableUnmapFrame => 9,
            RawOperation::MemoryRegionRetype => 10,
            RawOperation::MemoryRegionSplit => 11,
            RawOperation::HardwareAccessEnable => 12,
            RawOperation::HardwareFlushPage => 13,
            RawOperation::SyncCall => 14,
            RawOperation::SyncRet => 15,
            RawOperation::Retype2Kernel => 16,
            RawOperation::Retype2User => 17,
            RawOperation::Retype2Untyped => 18,
        }
    }

    /// The operation that `code` encodes, if any.
    pub fn try_from_usize(code: usize) -> (r: Option<Self>)
        ensures
            r == raw_operation_from_code(code),
            match r {
                Some(op) => raw_operation_code(op) == code,
                None => code > 18,
            },
    {
        match code {
            0 => Some(RawOperation::ThreadActivate),
            1 => Some(RawOperation::CapTableLink),
            2 => Some(RawOperation::CapTableUnlink),
            3 => Some(RawOperation::CapTableConstruct),
            4 => Some(RawOperation::CapTableDrop),
            5 => Some(RawOperation::CapTableCopy),
            6 => Some(RawOperation::PageTableLink),
            7 => Some(RawOperation::PageTableUnlink),
            8 => Some(RawOperation::PageTableMapFrame),
            9 => Some(RawOperation::PageTableUnmapFrame),
            10 => Some(RawOperation::MemoryRegionRetype),
            11 => Some(RawOperation::MemoryRegionSplit),
            12 => Some(RawOperation::HardwareAccessEnable),
            13 => Some(RawOperation::HardwareFlushPage),
            14 => Some(RawOperation::SyncCall),
            15 => Some(RawOperation::SyncRet),
            16 => Some(RawOperation::Retype2Kernel),
            17 => Some(RawOperation::Retype2User),
            18 => Some(RawOperation::Retype2Untyped),
            _ => None,
        }
    }
}

/// Decoding the code of an operation gives the operation back.
pub proof fn lemma_raw_operation_code_injective(a: RawOperation, b: RawOperation)
    ensures
        raw_operation_code(a) == raw_operation_code(b) ==> a == b,
        raw_operation_code(a) <= 18,
        raw_operation_from_code(raw_operation_code(a)) == Some(a),
{
}

/// The errors that a capability invocation reports.
#[derive(Debug, Copy, Clone, PartialEq, Eq, Structural)]
pub enum CapError {
    ResourceInUse,
    NotFound,
    InvalidOp,
    InvalidArgument,
    PageOffsetOutOfBounds,
    FrameOutsideOfRegion,
    FrameNotUser,
    Internal,
    InvalidFrame,
    MissingRightsToFrame,
    BadFrameType,
    SyncCallLimit,
    SyncRetBottom,
    FrameInUse,
}

/// The code of an error, counted from 1 in declaration order.
pub open spec fn cap_error_code(e: CapError) -> u8 {
    match e {
        CapError::ResourceInUse => 1,
        CapError::NotFound => 2,
        CapError::InvalidOp => 3,
        CapError::InvalidArgument => 4,
        CapError::PageOffsetOutOfBounds => 5,
        CapError::FrameOutsideOfRegion => 6,
        CapError::FrameNotUser => 7,
        CapError::Internal => 8,
        CapError::InvalidFrame => 9,
        CapError::MissingRightsToFrame => 10,
        CapError::BadFrameType => 11,
        CapError::SyncCallLimit => 12,
        CapError::SyncRetBottom => 13,
        CapError::FrameInUse => 14,
    }
}

impl CapError {
    /// The code of this error.
    pub fn as_u8(self) -> (r: u8)
        ensures
            r == cap_error_code(self),
    {
        match self {
            CapError::ResourceInUse => 1,
            CapError::NotFound => 2,
            CapError::InvalidOp => 3,
            CapError::InvalidArgument => 4,
            CapError::PageOffsetOutOfBounds => 5,
            CapError::FrameOutsideOfRegion => 6,
            CapError::FrameNotUser => 7,
            CapError::Internal => 8,
            CapError::InvalidFrame => 9,
            CapError::MissingRightsToFrame => 10,
            CapError::BadFrameType => 11,
            CapError::SyncCallLimit => 12,
            CapError::SyncRetBottom => 13,
            CapError::FrameInUse => 14,
        }
    }

    /// The error that `code` encodes, if any.
    pub fn try_from_u8(code: u8) -> (r: Option<Self>)
        ensures
            match r {
                Some(e) => cap_error_code(e) == code,
                None => code == 0 || code > 14,
            },
    {
        match code {
            1 => Some(CapError::ResourceInUse),
            2 => Some(CapError::NotFound),
            3 => Some(CapError::InvalidOp),
            4 => Some(CapError::InvalidArgument),
            5 => Some(CapError::PageOffsetOutOfBounds),
            6 => Some(CapError::FrameOutsideOfRegion),
            7 => Some(CapError::FrameNotUser),
            8 => Some(CapError::Internal),
            9 => Some(CapError::InvalidFrame),
            10 => Some(CapError::MissingRightsToFrame),
            11 => Some(CapError::BadFrameType),
            12 => Some(CapError::SyncCallLimit),
            13 => Some(CapError::SyncRetBottom),
            14 => Some(CapError::FrameInUse),
            _ => None,
        }
    }

    /// The negative number that a syscall returns for this error.
    pub fn to_errno(self) -> (r: isize)
        ensures
            r == -(cap_error_code(self) as int),
            r < 0,
    {
        let errno: isize = self.as_u8() as isize;
        -errno
    }
}

/// What decoding the syscall return value `result` gives: the value itself
/// when it is not negative, else the error whose code is the low byte of its
/// negation, if any.
pub open spec fn decoded_result(result: isize, r: Result<usize, Option<CapError>>) -> bool {
    match r {
        Ok(v) => result >= 0 && v == result,
        Err(Some(e)) => result < 0 && cap_error_code(e) == (-result) % 256,
        Err(None) => result < 0 && ((-result) % 256 == 0 || (-result) % 256 > 14),
    }
}

/// Errors have distinct codes.
pub proof fn lemma_cap_error_code_injective(a: CapError, b: CapError)
    ensures
        cap_error_code(a) == cap_error_code(b) ==> a == b,
{
}

/// Decoding the value that `to_errno` gives for `e` yields `e`.
pub proof fn lemma_errno_round_trip(e: CapError, r: Result<usize, Option<CapError>>)
    requires
        decoded_result((-(cap_error_code(e) as int)) as isize, r),
    ensures
        r == Err::<usize, Option<CapError>>(Some(e)),
{
    if let Err(Some(e2)) = r {
        lemma_cap_error_code_injective(e, e2);
    }
}

/// Decoding the value a syscall returned: non-negative values are results,
/// negative ones are the errors of `to_errno`.
pub fn decode_syscall_result(result: isize) -> (r: Result<usize, Option<CapError>>)
    ensures
        decoded_result(result, r),
{
    if result >= 0 {
        Ok(result as usize)
    } else {
        let code: u8 = (-(result as i128) % 256) as u8;
        match CapError::try_from_u8(code) {
            Some(e) => Err(Some(e)),
            None => Err(None),
        }
    }
}

/// The kinds of resources a capability may name.
#[derive(Debug, Copy, Clone, PartialEq, Eq, Structural)]
pub enum ResourceType {
    CapabilityTable,
    ThreadControlBlock,
    PageTable,
}

/// The retype state of a frame as seen by userspace.
#[derive(Debug, Copy, Clone, PartialEq, Eq, Structural)]
pub enum FrameType {
    Untyped,
    User,
    Kernel,
}

/// The arguments of a syscall: an operation code and four machine words.
///
/// Where a word that the caller passes is the address of a structure in its
/// memory, the bytes of that structure travel in `payload`.
#[derive(Debug)]
pub struct SyscallArgs {
    op: usize,
    general: (usize, usize, usize, usize),
    payload: Vec<u8>,
}

impl SyscallArgs {
    /// The operation code.
    pub closed spec fn spec_op(&self) -> usize {
        self.op
    }

    /// The four argument words.
    pub closed spec fn spec_args(&self) -> (usize, usize, usize, usize) {
        self.general
    }

    /// The bytes of the structure that the call refers to.
    pub closed spec fn spec_payload(&self) -> Seq<u8> {
        self.payload@
    }

    /// Arguments without a referenced structure.
    pub fn new(op: usize, a: usize, b: usize, c: usize, d: usize) -> (r: Self)
        ensures
            r.spec_op() == op,
            r.spec_args() == (a, b, c, d),
            r.spec_payload() == Seq::<u8>::empty(),
    {
        Self { op, general: (a, b, c, d), payload: Vec::new() }
    }

    /// Arguments that refer to the structure whose bytes are `payload`.
    pub fn with_payload(op: usize, a: usize, b: usize, c: usize, d: usize, payload: Vec<u8>) -> (r:
        Self)
        ensures
            r.spec_op() == op,
            r.spec_args() == (a, b, c, d),
            r.spec_payload() == payload@,
    {
        Self { op, general: (a, b, c, d), payload }
    }

    /// The operation code.
    pub fn op(&self) -> (r: usize)
        ensures
            r == self.spec_op(),
    {
        self.op
    }

    /// The four argument words.
    pub fn args(&self) -> (r: (usize, usize, usize, usize))
        ensures
            r == self.spec_args(),
    {
        self.general
    }

    /// The bytes of the referenced structure.
    pub fn payload(&self) -> (r: &[u8])
        ensures
            r@ == self.spec_payload(),
    {
        self.payload.as_slice()
    }
}

/// Number of 6-bit offsets that a 32-bit capability splits into.
pub const NUM_OFFSETS: usize = 6;

/// `c` shifted right by `i` offsets.
pub open spec fn shift_offsets(c: u32, i: nat) -> u32
    decreases i,
{
    if i == 0 {
        c
    } else {
        shift_offsets(c, (i - 1) as nat) >> 6u32
    }
}

/// The `i`-th 6-bit offset of `c`, counted from the least significant bits.
pub open spec fn cap_offset(c: u32, i: nat) -> u32 {
    shift_offsets(c, i) & 63u32
}

/// The index of the first non-zero offset, or the number of offsets if all
/// are zero.
pub open spec fn first_nonzero(offsets: Seq<u32>, i: nat) -> nat
    decreases 6 - i,
{
    if i >= 6 {
        6
    } else if offsets[i as int] != 0 {
        i
    } else {
        first_nonzero(offsets, i + 1)
    }
}

/// The value built by shifting in `offsets[5]`, `offsets[4]`, ... down to
/// `offsets[k]`, 6 bits at a time, on a 32-bit register.
pub open spec fn fold_offsets(offsets: Seq<u32>, k: nat) -> u32
    decreases 6 - k,
{
    if k >= 6 {
        0
    } else {
        (fold_offsets(offsets, k + 1) << 6u32) | offsets[k as int]
    }
}

pub proof fn lemma_shift_offsets_unfold(c: u32)
    ensures
        shift_offsets(c, 0) == c,
        shift_offsets(c, 1) == c >> 6u32,
        shift_offsets(c, 2) == c >> 12u32,
        shift_offsets(c, 3) == c >> 18u32,
        shift_offsets(c, 4) == c >> 24u32,
        shift_offsets(c, 5) == c >> 30u32,
        shift_offsets(c, 6) == 0,
{
    reveal_with_fuel(shift_offsets, 7);
    assert(c >> 6u32 >> 6u32 == c >> 12u32 && c >> 12u32 >> 6u32 == c >> 18u32 && c >> 18u32
        >> 6u32 == c >> 24u32 && c >> 24u32 >> 6u32 == c >> 30u32 && c >> 30u32 >> 6u32 == 0)
        by (bit_vector);
}

/// Splitting a capability into offsets and folding them back from the first
/// non-zero one gives the capability back when its lowest offset is non-zero
/// (or the capability is 0).
pub proof fn lemma_offsets_round_trip(c: u32)
    requires
        c % 64 != 0 || c == 0,
    ensures
        ({
            let offs = Seq::new(6, |i: int| cap_offset(c, i as nat));
            fold_offsets(offs, first_nonzero(offs, 0)) == c
        }),
{
    let offs = Seq::new(6, |i: int| cap_offset(c, i as nat));
    lemma_shift_offsets_unfold(c);
    reveal_with_fuel(fold_offsets, 7);
    reveal_with_fuel(first_nonzero, 7);
    if c == 0 {
        assert(c & 63u32 == 0 && (c >> 6u32) & 63u32 == 0 && (c >> 12u32) & 63u32 == 0 && (c
            >> 18u32) & 63u32 == 0 && (c >> 24u32) & 63u32 == 0 && (c >> 30u32) & 63u32 == 0)
            by (bit_vector)
            requires
                c == 0,
        ;
        assert(offs[0] == 0 && offs[1] == 0 && offs[2] == 0);
        assert(offs[3] == 0 && offs[4] == 0 && offs[5] == 0);
    } else {
        assert(c & 63u32 != 0) by (bit_vector)
            requires
                c % 64 != 0,
        ;
        assert(offs[0] != 0);
        assert((((((((c >> 30u32) & 63u32) << 6u32 | (c >> 24u32) & 63u32) << 6u32 | (c
            >> 18u32) & 63u32) << 6u32 | (c >> 12u32) & 63u32) << 6u32 | (c >> 6u32) & 63u32)
            << 6u32 | c & 63u32) == c) by (bit_vector);
        assert((0u32 << 6u32) | ((c >> 30u32) & 63u32) == (c >> 30u32) & 63u32) by (bit_vector);
    }
}

/// A capability identifier: the offsets of its 6-bit groups, least
/// significant first, index the levels of a capability trie.
#[derive(Debug, Copy, Clone, Eq, PartialEq, Structural)]
pub struct CapId(u32);

/// Error for an index that does not fit.
#[derive(Debug)]
pub struct OutOfBounds;

impl View for CapId {
    type V = u32;

    closed spec fn view(&self) -> u32 {
        self.0
    }
}

impl CapId {
    /// The capability with identifier `id`.
    pub closed spec fn spec_new(id: u32) -> Self {
        CapId(id)
    }

    /// A capability is determined by its identifier.
    pub proof fn lemma_spec_new(id: u32, c: CapId)
        ensures
            Self::spec_new(id)@ == id,
            c@ == id ==> c == Self::spec_new(id),
    {
    }

    /// The capability with identifier `id`.
    pub fn new(id: u32) -> (r: Self)
        ensures
            r@ == id,
            r == Self::spec_new(id),
    {
        Self(id)
    }

    /// The identifier.
    pub fn get(&self) -> (r: u32)
        ensures
            r == self@,
    {
        self.0
    }

    /// The offsets of the capability, least significant first.
    pub fn offsets(&self) -> (r: [u32; 6])
        ensures
            forall|i: int| 0 <= i < 6 ==> r[i] == cap_offset(self@, i as nat),
            forall|i: int| 0 <= i < 6 ==> r[i] < 64,
    {
        let mut cap = self.get();
        let mut out: [u32; 6] = [0, 0, 0, 0, 0, 0];
        let mut i: usize = 0;
        proof {
            lemma_shift_offsets_unfold(self@);
        }
        while cap > 0
            invariant
                i <= 6,
                cap == shift_offsets(self@, i as nat),
                shift_offsets(self@, 6) == 0,
                forall|j: int| 0 <= j < i ==> out[j] == cap_offset(self@, j as nat),
                forall|j: int| i <= j < 6 ==> out[j] == 0,
            decreases 6 - i,
        {
            if i == 6 {
                assert(false);
            }
            let offset = cap & (SLOT_COUNT - 1);
            out[i] = offset;
            cap = cap >> SLOT_BITS;
            i = i + 1;
        }
        assert forall|j: int| i <= j < 6 implies out[j] == cap_offset(self@, j as nat) by {
            lemma_zero_stays_zero(self@, i as nat, j as nat);
            assert(0u32 & 63u32 == 0) by (bit_vector);
        }
        assert forall|j: int| 0 <= j < 6 implies out[j] < 64 by {
            let x = shift_offsets(self@, j as nat);
            assert(x & 63u32 < 64) by (bit_vector);
        }
        out
    }

    /// The capability whose offsets, folded from the highest down to the
    /// first non-zero one, are `offsets`.
    pub fn from_offsets(offsets: [u32; 6]) -> (r: Self)
        ensures
            r@ == fold_offsets(offsets@, first_nonzero(offsets@, 0)),
            r == Self::spec_new(fold_offsets(offsets@, first_nonzero(offsets@, 0))),
    {
        let mut cap: u32 = 0;
        let mut trailing_zeros: usize = 0;
        while trailing_zeros < NUM_OFFSETS && offsets[trailing_zeros] == 0
            invariant
                trailing_zeros <= 6,
                first_nonzero(offsets@, 0) == first_nonzero(offsets@, trailing_zeros as nat),
            decreases 6 - trailing_zeros,
        {
            trailing_zeros = trailing_zeros + 1;
        }
        let mut k: usize = NUM_OFFSETS;
        while k > trailing_zeros
            invariant
                trailing_zeros <= k <= 6,
                first_nonzero(offsets@, 0) == trailing_zeros,
                cap == fold_offsets(offsets@, k as nat),
            decreases k,
        {
            k = k - 1;
            cap = (cap << SLOT_BITS) | offsets[k];
        }
        Self::new(cap)
    }

    /// The capability whose identifier is `value`, failing above `u32::MAX`.
    pub fn try_from_usize(value: usize) -> (r: Result<Self, OutOfBounds>)
        ensures
            match r {
                Ok(c) => value <= u32::MAX && c@ == value && c == Self::spec_new(value as u32),
                Err(_) => value > u32::MAX,
            },
    {
        if value > 0xFFFF_FFFF {
            Err(OutOfBounds)
        } else {
            Ok(Self(value as u32))
        }
    }

    /// The identifier as a machine word.
    pub fn as_usize(self) -> (r: usize)
        ensures
            r == self@,
    {
        self.0 as usize
    }
}

proof fn lemma_zero_stays_zero(c: u32, i: nat, j: nat)
    requires
        i <= j,
        shift_offsets(c, i) == 0,
    ensures
        shift_offsets(c, j) == 0,
    decreases j - i,
{
    if j > i {
        lemma_zero_stays_zero(c, i, (j - 1) as nat);
        assert(0u32 >> 6u32 == 0) by (bit_vector);
    }
}

} // verus!
