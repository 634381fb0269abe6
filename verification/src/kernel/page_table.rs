//! x86-64 page tables: entries, tables, the physical memory that holds them,
//! and the 4-level walk that reads and creates mappings.
use vstd::prelude::*;

use crate::addr::{table_index, Page, PageTableLevel, PageTableOffset, PhysAddr, PHYS_ADDR_LIMIT, VIRT_SIGN_BIT};
use crate::kernel::bump_allocator::{retypable, BumpAllocator, MAX_FRAMES};
use crate::kernel::frames::RawFrame;
use crate::kernel::retyping::{entry_value, frame_index, into_type_outcome, KernelFrame, RetypeError, RetypeTable, State};

verus! {

/// The bits of an entry that hold the frame address.
pub const FRAME_MASK: u64 = 0x000F_FFFF_FFFF_F000;

/// The bits of an entry that hold flags.
pub const FLAGS_MASK: u64 = 0xFFF0_0000_0000_0FFF;

/// Flag bits of a page-table entry.
#[derive(Debug, Clone, Copy, PartialEq, Eq, Structural)]
pub struct PageTableFlags(u64);

impl View for PageTableFlags {
    type V = u64;

    closed spec fn view(&self) -> u64 {
        self.0
    }
}

/// The entry is present.
pub const PRESENT: u64 = 1;

/// The page is writable.
pub const WRITABLE: u64 = 2;

/// The page is reachable from user mode.
pub const USER_ACCESSIBLE: u64 = 4;

/// The entry maps a huge page instead of a table.
pub const HUGE_PAGE: u64 = 0x80;

/// The page is not executable.
pub const NO_EXECUTE: u64 = 0x8000_0000_0000_0000;

impl PageTableFlags {
    #[verifier::type_invariant]
    spec fn inv(self) -> bool {
        self.0 & FRAME_MASK == 0
    }

    /// No flags.
    pub fn empty() -> (r: Self)
        ensures
            r@ == 0,
    {
        assert(0u64 & FRAME_MASK == 0) by (bit_vector);
        Self(0)
    }

    /// The flags whose bits are `bits`, failing when `bits` holds frame
    /// address bits.
    pub fn from_bits(bits: u64) -> (r: Option<Self>)
        ensures
            match r {
                Some(f) => bits & FRAME_MASK == 0 && f@ == bits,
                None => bits & FRAME_MASK != 0,
            },
    {
        if bits & FRAME_MASK == 0 {
            Some(Self(bits))
        } else {
            None
        }
    }

    /// The flag bits of `bits`; the frame address bits are dropped.
    pub fn from_bits_truncate(bits: u64) -> (r: Self)
        ensures
            r@ == bits & FLAGS_MASK,
    {
        proof {
            lemma_masks(bits, 0, 0);
        }
        Self(bits & FLAGS_MASK)
    }

    /// The bits of the flags.
    pub fn bits(&self) -> (r: u64)
        ensures
            r == self@,
            r & FRAME_MASK == 0,
    {
        proof {
            use_type_invariant(self);
        }
        self.0
    }

    /// The flags of both.
    pub fn union(self, other: Self) -> (r: Self)
        ensures
            r@ == self@ | other@,
    {
        let a = self.bits();
        let b = other.bits();
        assert((a | b) & FRAME_MASK == 0) by (bit_vector)
            requires
                a & FRAME_MASK == 0,
                b & FRAME_MASK == 0,
        ;
        Self(a | b)
    }

    /// Whether every flag of `other` is set.
    pub fn contains(&self, other: Self) -> (r: bool)
        ensures
            r == (self@ & other@ == other@),
    {
        (self.0 & other.0) == other.0
    }

    /// The present flag.
    pub fn present() -> (r: Self)
        ensures
            r@ == PRESENT,
    {
        proof {
            lemma_flag_constants();
        }
        Self(PRESENT)
    }

    /// The writable flag.
    pub fn writable() -> (r: Self)
        ensures
            r@ == WRITABLE,
    {
        proof {
            lemma_flag_constants();
        }
        Self(WRITABLE)
    }

    /// The user-accessible flag.
    pub fn user_accessible() -> (r: Self)
        ensures
            r@ == USER_ACCESSIBLE,
    {
        proof {
            lemma_flag_constants();
        }
        Self(USER_ACCESSIBLE)
    }

    /// The huge-page flag.
    pub fn huge_page() -> (r: Self)
        ensures
            r@ == HUGE_PAGE,
    {
        proof {
            lemma_flag_constants();
        }
        Self(HUGE_PAGE)
    }

    /// The no-execute flag.
    pub fn no_execute() -> (r: Self)
        ensures
            r@ == NO_EXECUTE,
    {
        proof {
            lemma_flag_constants();
        }
        Self(NO_EXECUTE)
    }
}

proof fn lemma_flag_constants()
    ensures
        PRESENT & FRAME_MASK == 0,
        WRITABLE & FRAME_MASK == 0,
        USER_ACCESSIBLE & FRAME_MASK == 0,
        HUGE_PAGE & FRAME_MASK == 0,
        NO_EXECUTE & FRAME_MASK == 0,
        (WRITABLE | USER_ACCESSIBLE | PRESENT) & FRAME_MASK == 0,
{
    assert(1u64 & 0x000F_FFFF_FFFF_F000u64 == 0 && 2u64 & 0x000F_FFFF_FFFF_F000u64 == 0 && 4u64
        & 0x000F_FFFF_FFFF_F000u64 == 0 && 0x80u64 & 0x000F_FFFF_FFFF_F000u64 == 0
        && 0x8000_0000_0000_0000u64 & 0x000F_FFFF_FFFF_F000u64 == 0 && (2u64 | 4u64 | 1u64)
        & 0x000F_FFFF_FFFF_F000u64 == 0) by (bit_vector);
}

/// Facts on the two masks: they split every value, a frame address and flag
/// bits combine without overlap, and a combination is zero only when both
/// parts are.
pub proof fn lemma_masks(v: u64, frame: u64, flags: u64)
    ensures
        v & FLAGS_MASK & FRAME_MASK == 0,
        (v & FRAME_MASK) % 4096 == 0,
        (v & FRAME_MASK) < PHYS_ADDR_LIMIT,
        (v & FLAGS_MASK) | (v & FRAME_MASK) == v,
        v | PRESENT != 0,
        frame % 4096 == 0 && frame < PHYS_ADDR_LIMIT && flags & FRAME_MASK == 0 ==> ((flags
            | frame) & FRAME_MASK == frame && (flags | frame) & FLAGS_MASK == flags && ((flags
            | frame) == 0 <==> (flags == 0 && frame == 0))),
{
    assert(v & FLAGS_MASK & FRAME_MASK == 0) by (bit_vector);
    assert((v & FRAME_MASK) % 4096 == 0) by (bit_vector);
    assert((v & FRAME_MASK) < PHYS_ADDR_LIMIT) by (bit_vector);
    assert((v & FLAGS_MASK) | (v & FRAME_MASK) == v) by (bit_vector);
    assert(v | 1u64 != 0) by (bit_vector);
    assert(frame % 4096 == 0 && frame < PHYS_ADDR_LIMIT && flags & FRAME_MASK == 0 ==> ((flags
        | frame) & FRAME_MASK == frame && (flags | frame) & FLAGS_MASK == flags && ((flags
        | frame) == 0 <==> (flags == 0 && frame == 0)))) by (bit_vector);
}

/// One 64-bit page-table entry: zero when empty, otherwise a frame address
/// and flags.
#[derive(Debug, Clone, Copy)]
pub struct PageTableEntry(u64);

impl View for PageTableEntry {
    type V = u64;

    closed spec fn view(&self) -> u64 {
        self.0
    }
}

/// What an entry holds: `None` when it is zero, else its frame address and
/// flags.
pub open spec fn entry_contents(v: u64) -> Option<(u64, u64)> {
    if v == 0 {
        None
    } else {
        Some((v & FRAME_MASK, v & FLAGS_MASK))
    }
}

impl PageTableEntry {
    /// An empty entry.
    pub fn new() -> (r: Self)
        ensures
            r@ == 0,
    {
        Self(0)
    }

    fn decode(value: u64) -> (r: Option<(RawFrame, PageTableFlags)>)
        ensures
            match (r, entry_contents(value)) {
                (Some((f, fl)), Some((a, b))) => f@ == a && fl@ == b,
                (None, None) => true,
                _ => false,
            },
    {
        if value == 0 {
            return None;
        }
        proof {
            lemma_masks(value, 0, 0);
        }
        let frame = RawFrame::from_start_address(PhysAddr::new(value & FRAME_MASK));
        let flags = match PageTableFlags::from_bits(value & FLAGS_MASK) {
            Some(f) => f,
            None => {
                assert(false);
                PageTableFlags::empty()
            },
        };
        Some((frame, flags))
    }

    /// The frame and flags of the entry, `None` when it is empty.
    pub fn get(&self) -> (r: Option<(RawFrame, PageTableFlags)>)
        ensures
            match (r, entry_contents(self@)) {
                (Some((f, fl)), Some((a, b))) => f@ == a && fl@ == b,
                (None, None) => true,
                _ => false,
            },
    {
        Self::decode(self.0)
    }

    /// The frame of the entry, `None` when it is empty.
    pub fn frame(&self) -> (r: Option<RawFrame>)
        ensures
            match (r, entry_contents(self@)) {
                (Some(f), Some((a, _))) => f@ == a,
                (None, None) => true,
                _ => false,
            },
    {
        match self.get() {
            Some((f, _)) => Some(f),
            None => None,
        }
    }

    /// The flags of the entry, `None` when it is empty.
    pub fn flags(&self) -> (r: Option<PageTableFlags>)
        ensures
            match (r, entry_contents(self@)) {
                (Some(fl), Some((_, b))) => fl@ == b,
                (None, None) => true,
                _ => false,
            },
    {
        match self.get() {
            Some((_, fl)) => Some(fl),
            None => None,
        }
    }

    fn set_bits(&mut self, bits: u64) -> (r: Option<(RawFrame, PageTableFlags)>)
        ensures
            final(self)@ == bits,
            match (r, entry_contents(old(self)@)) {
                (Some((f, fl)), Some((a, b))) => f@ == a && fl@ == b,
                (None, None) => true,
                _ => false,
            },
    {
        let old = self.0;
        self.0 = bits;
        Self::decode(old)
    }

    /// Points the entry at `frame` with `attributes`, and returns what it
    /// held before.
    pub fn set(&mut self, frame: RawFrame, attributes: PageTableFlags) -> (r: Option<
        (RawFrame, PageTableFlags),
    >)
        ensures
            final(self)@ == attributes@ | frame@,
            match (r, entry_contents(old(self)@)) {
                (Some((f, fl)), Some((a, b))) => f@ == a && fl@ == b,
                (None, None) => true,
                _ => false,
            },
    {
        self.set_bits(attributes.bits() | frame.base().as_u64())
    }

    /// Empties the entry, and returns what it held before.
    pub fn reset(&mut self) -> (r: Option<(RawFrame, PageTableFlags)>)
        ensures
            final(self)@ == 0,
            match (r, entry_contents(old(self)@)) {
                (Some((f, fl)), Some((a, b))) => f@ == a && fl@ == b,
                (None, None) => true,
                _ => false,
            },
    {
        self.set_bits(0)
    }

    /// Replaces the flags of the entry, keeping its frame, and returns the
    /// previous flags.
    pub fn set_flags(&mut self, flags: PageTableFlags) -> (r: PageTableFlags)
        ensures
            final(self)@ == (old(self)@ & FRAME_MASK) | flags@,
            r@ == old(self)@ & FLAGS_MASK,
    {
        let old = self.0;
        self.0 = (old & FRAME_MASK) | flags.bits();
        PageTableFlags::from_bits_truncate(old)
    }
}

/// Setting an aligned frame and flags, not both zero, and reading the entry
/// back gives the frame and the flags.
pub proof fn lemma_entry_set_get(frame: u64, flags: u64)
    requires
        frame % 4096 == 0,
        frame < PHYS_ADDR_LIMIT,
        flags & FRAME_MASK == 0,
        !(frame == 0 && flags == 0),
    ensures
        entry_contents(flags | frame) == Some((frame, flags)),
{
    lemma_masks(0, frame, flags);
}

/// A page table of 512 entries.
#[derive(Debug)]
pub struct AnyPageTable {
    entries: Vec<PageTableEntry>,
}

impl View for AnyPageTable {
    type V = Seq<u64>;

    closed spec fn view(&self) -> Seq<u64> {
        self.entries@.map_values(|e: PageTableEntry| e@)
    }
}

/// A table of 512 empty entries.
pub open spec fn empty_table() -> Seq<u64> {
    Seq::new(512, |i: int| 0u64)
}

impl AnyPageTable {
    /// Makes the untyped frame `frame` a new root table: retypes it to
    /// kernel memory and writes into it a table that shares the kernel half
    /// of the root table at `kernel_l4`, its user half empty. Nothing is
    /// written when the frame cannot be retyped.
    pub fn new_l4(
        frame: RawFrame,
        memory: &mut PageTableMemory,
        retype: &mut RetypeTable,
        kernel_l4: u64,
    ) -> (r: Result<KernelFrame, RetypeError>)
        requires
            old(retype).wf(),
            memory_wf(old(memory)@),
        ensures
            final(retype).wf(),
            memory_wf(final(memory)@),
            into_type_outcome(
                old(retype)@,
                final(retype)@,
                frame@,
                State::Kernel,
                match r {
                    Ok(_) => Ok(()),
                    Err(e) => Err(e),
                },
            ),
            match r {
                Ok(f) => f@ == frame@ && final(memory)@ == old(memory)@.insert(
                    frame@,
                    Seq::new(
                        512,
                        |i: int|
                            if i >= 256 {
                                table_at(old(memory)@, kernel_l4)[i]
                            } else {
                                0u64
                            },
                    ),
                ),
                Err(_) => final(memory)@ == old(memory)@,
            },
    {
        let table = memory.clone_kernel_table(kernel_l4);
        let kernel = frame.try_into_kernel(retype)?;
        let ghost m0 = memory@;
        memory.write_table(frame.addr().as_u64(), table);
        proof {
            assert forall|k: u64| #[trigger] memory@.contains_key(k) implies memory@[k].len() == 512 by {
                if k != frame@ {
                    assert(m0.contains_key(k));
                }
            }
        }
        Ok(kernel)
    }

    /// A table of empty entries.
    pub fn new() -> (r: Self)
        ensures
            r@ == empty_table(),
    {
        let mut entries: Vec<PageTableEntry> = Vec::new();
        let mut i: usize = 0;
        while i < 512
            invariant
                i <= 512,
                entries@.len() == i,
                forall|j: int| 0 <= j < i ==> #[trigger] entries@[j]@ == 0,
            decreases 512 - i,
        {
            entries.push(PageTableEntry::new());
            i = i + 1;
        }
        let r = Self { entries };
        assert(r@ =~= empty_table());
        r
    }

    /// The entry at `offset`.
    pub fn get(&self, offset: PageTableOffset) -> (r: &PageTableEntry)
        requires
            self@.len() == 512,
        ensures
            r@ == self@[offset@ as int],
    {
        let i = offset.as_usize();
        &self.entries[i]
    }

    fn update(&mut self, offset: PageTableOffset, entry: PageTableEntry)
        requires
            old(self)@.len() == 512,
        ensures
            final(self)@ == old(self)@.update(offset@ as int, entry@),
    {
        let i = offset.as_usize();
        self.entries.set(i, entry);
        assert(self@ =~= old(self)@.update(offset@ as int, entry@));
    }

    /// Points the entry at `offset` to `frame` with `attributes`, and returns
    /// what it held before.
    pub fn map(&mut self, offset: PageTableOffset, frame: RawFrame, attributes: PageTableFlags) -> (r:
        Option<(RawFrame, PageTableFlags)>)
        requires
            old(self)@.len() == 512,
        ensures
            final(self)@ == old(self)@.update(offset@ as int, attributes@ | frame@),
            match (r, entry_contents(old(self)@[offset@ as int])) {
                (Some((f, fl)), Some((a, b))) => f@ == a && fl@ == b,
                (None, None) => true,
                _ => false,
            },
    {
        let mut entry = *self.get(offset);
        let r = entry.set(frame, attributes);
        self.update(offset, entry);
        r
    }

    /// Empties the entry at `offset`, and returns what it held before.
    pub fn unmap(&mut self, offset: PageTableOffset) -> (r: Option<(RawFrame, PageTableFlags)>)
        requires
            old(self)@.len() == 512,
        ensures
            final(self)@ == old(self)@.update(offset@ as int, 0),
            match (r, entry_contents(old(self)@[offset@ as int])) {
                (Some((f, fl)), Some((a, b))) => f@ == a && fl@ == b,
                (None, None) => true,
                _ => false,
            },
    {
        let mut entry = *self.get(offset);
        let r = entry.reset();
        self.update(offset, entry);
        r
    }

    /// Replaces the flags of the entry at `offset`, and returns the previous
    /// flags.
    pub fn set_flags(&mut self, offset: PageTableOffset, attributes: PageTableFlags) -> (r:
        PageTableFlags)
        requires
            old(self)@.len() == 512,
        ensures
            final(self)@ == old(self)@.update(
                offset@ as int,
                (old(self)@[offset@ as int] & FRAME_MASK) | attributes@,
            ),
            r@ == old(self)@[offset@ as int] & FLAGS_MASK,
    {
        let mut entry = *self.get(offset);
        let r = entry.set_flags(attributes);
        self.update(offset, entry);
        r
    }

    /// A new root table that shares the kernel half (entries 256..512) of
    /// `current` and leaves the user half empty.
    pub fn clone_kernel(current: &AnyPageTable) -> (r: Self)
        requires
            current@.len() == 512,
        ensures
            r@ == Seq::new(512, |i: int| if i >= 256 { current@[i] } else { 0u64 }),
    {
        let mut new = Self::new();
        let mut i: u16 = 256;
        while i < 512
            invariant
                256 <= i <= 512,
                current@.len() == 512,
                new@.len() == 512,
                forall|j: int|
                    0 <= j < 512 ==> #[trigger] new@[j] == if 256 <= j < i {
                        current@[j]
                    } else {
                        0u64
                    },
            decreases 512 - i,
        {
            let offset = match PageTableOffset::new(i) {
                Ok(o) => o,
                Err(_) => {
                    assert(false);
                    return new;
                },
            };
            if let Some((frame, flags)) = current.get(offset).get() {
                proof {
                    lemma_masks(current@[i as int], 0, 0);
                }
                new.map(offset, frame, flags);
            }
            i = i + 1;
        }
        assert(new@ =~= Seq::new(512, |i: int| if i >= 256 { current@[i] } else { 0u64 }));
        new
    }
}

/// The page tables in physical memory, by the address of their frame. A
/// frame that holds no table reads as a table of empty entries.
pub struct PageTableMemory {
    tables: vstd::hash_map::HashMapWithView<u64, AnyPageTable>,
}

/// The table stored at `addr`.
pub open spec fn table_at(m: Map<u64, Seq<u64>>, addr: u64) -> Seq<u64> {
    if m.contains_key(addr) {
        m[addr]
    } else {
        empty_table()
    }
}

/// The translation of `va` by the walk that starts in the table at `table`
/// at `level`: each non-empty entry leads to the table at its frame address,
/// and the entry of level 1 gives the frame and its flags.
pub open spec fn walk(m: Map<u64, Seq<u64>>, table: u64, va: u64, level: u8) -> Option<
    (u64, u64),
>
    decreases level,
{
    let e = table_at(m, table)[table_index(va, level) as int];
    if e == 0 {
        None
    } else if level <= 1 {
        Some((e & FRAME_MASK, e & FLAGS_MASK))
    } else {
        walk(m, e & FRAME_MASK, va, (level - 1) as u8)
    }
}

/// The table that the walk of `va` from `l4` reaches at `level`, if the
/// entries above it are present.
pub open spec fn path_table(m: Map<u64, Seq<u64>>, l4: u64, va: u64, level: u8) -> Option<u64>
    decreases 4 - level,
{
    if level >= 4 {
        Some(l4)
    } else {
        match path_table(m, l4, va, (level + 1) as u8) {
            Some(t) => {
                let e = table_at(m, t)[table_index(va, (level + 1) as u8) as int];
                if e == 0 {
                    None
                } else {
                    Some(e & FRAME_MASK)
                }
            },
            None => None,
        }
    }
}

/// The tables on the walk of `va` are stored in memory and pairwise
/// distinct.
pub open spec fn path_ok(m: Map<u64, Seq<u64>>, l4: u64, va: u64) -> bool {
    &&& forall|l: u8|
        1 <= l <= 4 && (#[trigger] path_table(m, l4, va, l)) is Some ==> m.contains_key(
            path_table(m, l4, va, l)->0,
        )
    &&& forall|l1: u8, l2: u8|
        1 <= l1 < l2 <= 4 && (#[trigger] path_table(m, l4, va, l1)) is Some && (
        #[trigger] path_table(m, l4, va, l2)) is Some ==> path_table(m, l4, va, l1)->0
            != path_table(m, l4, va, l2)->0
}

/// No frame that holds a table can be handed out by the frame allocator.
pub open spec fn tables_typed(m: Map<u64, Seq<u64>>, retype: Seq<u16>) -> bool {
    forall|k: u64|
        #[trigger] m.contains_key(k) && frame_index(k) < retype.len() ==> !retypable(
            retype[frame_index(k)],
        )
}

/// Every stored table has 512 entries.
pub open spec fn memory_wf(m: Map<u64, Seq<u64>>) -> bool {
    forall|k: u64| #[trigger] m.contains_key(k) ==> m[k].len() == 512
}

impl View for PageTableMemory {
    type V = Map<u64, Seq<u64>>;

    closed spec fn view(&self) -> Map<u64, Seq<u64>> {
        self.tables@.map_values(|t: AnyPageTable| t@)
    }
}

impl PageTableMemory {
    /// Memory that holds no table.
    pub fn new() -> (r: Self)
        ensures
            r@ == Map::<u64, Seq<u64>>::empty(),
    {
        broadcast use vstd::std_specs::hash::group_hash_axioms;

        let r = Self { tables: vstd::hash_map::HashMapWithView::new() };
        assert(r@ =~= Map::<u64, Seq<u64>>::empty());
        r
    }

    /// Stores `table` in the frame at `addr`.
    pub fn write_table(&mut self, addr: u64, table: AnyPageTable)
        ensures
            final(self)@ == old(self)@.insert(addr, table@),
    {
        self.tables.insert(addr, table);
        assert(self@ =~= old(self)@.insert(addr, table@));
    }

    /// The entry at `offset` of the table at `addr`.
    pub fn entry(&self, addr: u64, offset: PageTableOffset) -> (r: PageTableEntry)
        requires
            memory_wf(self@),
        ensures
            r@ == table_at(self@, addr)[offset@ as int],
    {
        match self.tables.get(&addr) {
            Some(t) => {
                assert(self@.contains_key(addr));
                assert(self@[addr] == t@);
                *t.get(offset)
            },
            None => {
                let _ = offset.as_usize();
                PageTableEntry::new()
            },
        }
    }

    /// A new root table that shares the kernel half of the table at `addr`
    /// and leaves the user half empty.
    pub fn clone_kernel_table(&self, addr: u64) -> (r: AnyPageTable)
        requires
            memory_wf(self@),
        ensures
            r@ == Seq::new(512, |i: int| if i >= 256 { table_at(self@, addr)[i] } else { 0u64 }),
    {
        match self.tables.get(&addr) {
            Some(t) => {
                assert(self@.contains_key(addr));
                assert(self@[addr] == t@);
                AnyPageTable::clone_kernel(t)
            },
            None => {
                let r = AnyPageTable::new();
                assert(r@ =~= Seq::new(512, |i: int| if i >= 256 { table_at(self@, addr)[i] } else { 0u64 }));
                r
            },
        }
    }

    /// Overwrites the entry at `offset` of the table at `addr`.
    pub fn set_entry(&mut self, addr: u64, offset: PageTableOffset, entry: PageTableEntry)
        requires
            memory_wf(old(self)@),
        ensures
            memory_wf(final(self)@),
            final(self)@ == old(self)@.insert(
                addr,
                table_at(old(self)@, addr).update(offset@ as int, entry@),
            ),
    {
        let mut table = match self.tables.remove(&addr) {
            Some(t) => {
                assert(old(self)@.contains_key(addr));
                assert(old(self)@[addr] == t@);
                t
            },
            None => AnyPageTable::new(),
        };
        let _ = offset.as_usize();
        table.update(offset, entry);
        self.tables.insert(addr, table);
        assert(self@ =~= old(self)@.insert(
            addr,
            table_at(old(self)@, addr).update(offset@ as int, entry@),
        ));
        assert forall|k: u64| #[trigger] self@.contains_key(k) implies self@[k].len() == 512 by {
            if k != addr {
                assert(old(self)@.contains_key(k));
            }
        }
    }
}

/// Why a mapping could not be created.
#[derive(Debug)]
pub enum MapperError {
    FrameAllocationError,
    HugeParentEntry,
    AlreadyMapped(RawFrame),
}

/// An address space, given by the frame of its root (level-4) table.
#[derive(Debug, Copy, Clone)]
pub struct Addrspace {
    l4: RawFrame,
}

impl Addrspace {
    /// The frame of the root table.
    pub closed spec fn spec_l4(&self) -> u64 {
        self.l4@
    }

    /// The address space whose root table is in `l4_frame`.
    pub fn from_frame(l4_frame: RawFrame) -> (r: Self)
        ensures
            r.spec_l4() == l4_frame@,
    {
        Self { l4: l4_frame }
    }

    /// The frame of the root table.
    pub fn l4_frame(&self) -> (r: RawFrame)
        ensures
            r@ == self.spec_l4(),
    {
        self.l4
    }

    /// The frame and flags that `page` maps to, `None` when an entry on its
    /// walk is empty.
    pub fn get(&self, page: Page, mem: &PageTableMemory) -> (r: Option<(RawFrame, PageTableFlags)>)
        requires
            memory_wf(mem@),
        ensures
            match (r, walk(mem@, self.spec_l4(), page@, 4)) {
                (Some((f, fl)), Some((a, b))) => f@ == a && fl@ == b,
                (None, None) => true,
                _ => false,
            },
    {
        proof {
            reveal_with_fuel(walk, 5);
        }
        let va = page.base();
        let table = self.l4.base().as_u64();
        let (frame, _) = match mem.entry(table, va.p4_index()).get() {
            Some(x) => x,
            None => return None,
        };
        let table = frame.base().as_u64();
        let (frame, _) = match mem.entry(table, va.p3_index()).get() {
            Some(x) => x,
            None => return None,
        };
        let table = frame.base().as_u64();
        let (frame, _) = match mem.entry(table, va.p2_index()).get() {
            Some(x) => x,
            None => return None,
        };
        let table = frame.base().as_u64();
        let (frame, flags) = match mem.entry(table, va.p1_index()).get() {
            Some(x) => x,
            None => return None,
        };
        Some((frame, flags))
    }
}

/// Some entry on the walk of `va` above level 1 is a huge-page entry.
pub open spec fn huge_on_walk(m: Map<u64, Seq<u64>>, l4: u64, va: u64) -> bool {
    exists|l: u8|
        2 <= l <= 4 && (#[trigger] path_table(m, l4, va, l)) is Some && ({
            let e = table_at(m, path_table(m, l4, va, l)->0)[table_index(va, l) as int];
            e != 0 && (e & FLAGS_MASK) & HUGE_PAGE == HUGE_PAGE
        })
}

/// The walk from the root is the walk from the table that the path reaches
/// at `level`.
pub proof fn lemma_walk_from_path(m: Map<u64, Seq<u64>>, l4: u64, va: u64, level: u8, t: u64)
    requires
        1 <= level <= 4,
        path_table(m, l4, va, level) == Some(t),
    ensures
        walk(m, l4, va, 4) == walk(m, t, va, level),
    decreases 4 - level,
{
    if level < 4 {
        let up = path_table(m, l4, va, (level + 1) as u8)->0;
        lemma_walk_from_path(m, l4, va, (level + 1) as u8, up);
    }
}

/// Storing a table at `k` keeps the path down to `level` when no table on
/// the path above `level` is at `k`.
pub proof fn lemma_path_insert(
    m: Map<u64, Seq<u64>>,
    k: u64,
    x: Seq<u64>,
    l4: u64,
    va: u64,
    level: u8,
)
    requires
        1 <= level <= 4,
        forall|l: u8|
            level < l <= 4 ==> (#[trigger] path_table(m, l4, va, l)) is Some && path_table(
                m,
                l4,
                va,
                l,
            )->0 != k,
    ensures
        path_table(m.insert(k, x), l4, va, level) == path_table(m, l4, va, level),
    decreases 4 - level,
{
    if level < 4 {
        lemma_path_insert(m, k, x, l4, va, (level + 1) as u8);
        let t = path_table(m, l4, va, (level + 1) as u8)->0;
        assert(table_at(m.insert(k, x), t) == table_at(m, t));
    }
}

/// The tables of the walk of `va` are stored and distinct, and no stored
/// table can be handed out by the frame allocator.
pub open spec fn map_sound(m: Map<u64, Seq<u64>>, retype: Seq<u16>, l4: u64, va: u64) -> bool {
    tables_typed(m, retype) && path_ok(m, l4, va)
}

/// Every table of `m` is still stored in `m2`, and each of its non-empty
/// entries holds there what it held in `m`.
pub open spec fn keeps_entries(m: Map<u64, Seq<u64>>, m2: Map<u64, Seq<u64>>) -> bool {
    forall|t: u64, i: int|
        m.contains_key(t) && 0 <= i < m[t].len() && #[trigger] m[t][i] != 0 ==> m2.contains_key(t)
            && i < m2[t].len() && m2[t][i] == m[t][i]
}

/// Memory that keeps every non-empty entry of `m` translates each address
/// that `m` translates, from any table, as `m` does.
pub proof fn lemma_kept_walk(m: Map<u64, Seq<u64>>, m2: Map<u64, Seq<u64>>, table: u64, va: u64, level: u8)
    requires
        keeps_entries(m, m2),
        memory_wf(m),
        1 <= level,
        walk(m, table, va, level) is Some,
    ensures
        walk(m2, table, va, level) == walk(m, table, va, level),
    decreases level,
{
    let i = table_index(va, level) as int;
    if !m.contains_key(table) {
        assert(table_at(m, table)[i] == 0);
    }
    assert(0 <= i < 512);
    assert(m[table][i] != 0);
    assert(table_at(m2, table)[i] == m[table][i]);
    if level > 1 {
        let e = m[table][i];
        lemma_kept_walk(m, m2, e & FRAME_MASK, va, (level - 1) as u8);
    }
}

/// Keeping the entries is transitive.
pub proof fn lemma_keeps_trans(m0: Map<u64, Seq<u64>>, m1: Map<u64, Seq<u64>>, m2: Map<u64, Seq<u64>>)
    requires
        keeps_entries(m0, m1),
        keeps_entries(m1, m2),
    ensures
        keeps_entries(m0, m2),
{
    assert forall|t: u64, i: int|
        m0.contains_key(t) && 0 <= i < m0[t].len() && #[trigger] m0[t][i] != 0 implies m2.contains_key(t)
            && i < m2[t].len() && m2[t][i] == m0[t][i] by {
        assert(m1[t][i] == m0[t][i]);
    }
}

/// Setting an entry that `m` holds empty keeps what `m` kept.
proof fn lemma_keeps_set_empty(m0: Map<u64, Seq<u64>>, m: Map<u64, Seq<u64>>, t: u64, i: int, v: u64)
    requires
        keeps_entries(m0, m),
        table_at(m, t)[i] == 0,
        0 <= i < 512,
        memory_wf(m),
    ensures
        keeps_entries(m0, m.insert(t, table_at(m, t).update(i, v))),
{
    let m2 = m.insert(t, table_at(m, t).update(i, v));
    assert forall|t2: u64, j: int|
        m0.contains_key(t2) && 0 <= j < m0[t2].len() && #[trigger] m0[t2][j] != 0 implies m2.contains_key(t2)
            && j < m2[t2].len() && m2[t2][j] == m0[t2][j] by {
        assert(m.contains_key(t2) && m[t2][j] == m0[t2][j]);
        if t2 == t {
            assert(j != i);
        }
    }
}

/// Storing a table at a frame that `m` does not use keeps what `m` kept.
proof fn lemma_keeps_insert_fresh(m0: Map<u64, Seq<u64>>, m: Map<u64, Seq<u64>>, k: u64, x: Seq<u64>)
    requires
        keeps_entries(m0, m),
        !m.contains_key(k),
    ensures
        keeps_entries(m0, m.insert(k, x)),
{
    let m2 = m.insert(k, x);
    assert forall|t2: u64, j: int|
        m0.contains_key(t2) && 0 <= j < m0[t2].len() && #[trigger] m0[t2][j] != 0 implies m2.contains_key(t2)
            && j < m2[t2].len() && m2[t2][j] == m0[t2][j] by {
        assert(m.contains_key(t2) && m[t2][j] == m0[t2][j]);
    }
}

/// The tables that the walks of lower-half addresses go through from the
/// root `l4` form a tree: each is stored, and a table is reached at one
/// level only.
pub open spec fn user_tree(m: Map<u64, Seq<u64>>, l4: u64) -> bool {
    &&& m.contains_key(l4)
    &&& forall|va: u64, l: u8|
        va < VIRT_SIGN_BIT && 1 <= l <= 4 && (#[trigger] path_table(m, l4, va, l)) is Some
            ==> m.contains_key(path_table(m, l4, va, l)->0)
    &&& forall|va1: u64, l1: u8, va2: u64, l2: u8|
        va1 < VIRT_SIGN_BIT && va2 < VIRT_SIGN_BIT && 1 <= l1 <= 4 && 1 <= l2 <= 4 && (
        #[trigger] path_table(m, l4, va1, l1)) is Some && (#[trigger] path_table(m, l4, va2, l2))
            is Some && path_table(m, l4, va1, l1)->0 == path_table(m, l4, va2, l2)->0 ==> l1 == l2
}

/// In a tree, the walk of a lower-half address meets stored and distinct
/// tables.
pub proof fn lemma_user_tree_path_ok(m: Map<u64, Seq<u64>>, l4: u64, va: u64)
    requires
        user_tree(m, l4),
        va < VIRT_SIGN_BIT,
    ensures
        path_ok(m, l4, va),
{
    assert forall|l1: u8, l2: u8|
        1 <= l1 < l2 <= 4 && (#[trigger] path_table(m, l4, va, l1)) is Some && (
        #[trigger] path_table(m, l4, va, l2)) is Some implies path_table(m, l4, va, l1)->0
        != path_table(m, l4, va, l2)->0 by {
    }
}

/// A root table whose lower half is empty is a tree on its own.
pub proof fn lemma_empty_lower_half(m: Map<u64, Seq<u64>>, l4: u64)
    requires
        m.contains_key(l4),
        forall|i: int| 0 <= i < 256 ==> #[trigger] m[l4][i] == 0,
    ensures
        user_tree(m, l4),
        forall|va: u64, l: u8|
            va < VIRT_SIGN_BIT && 1 <= l <= 3 ==> #[trigger] path_table(m, l4, va, l) is None,
{
    assert forall|va: u64, l: u8| va < VIRT_SIGN_BIT && 1 <= l <= 3 implies #[trigger] path_table(
        m,
        l4,
        va,
        l,
    ) is None by {
        crate::addr::lemma_lower_half_index(va);
        assert(m[l4][table_index(va, 4) as int] == 0);
        assert(path_table(m, l4, va, 4) == Some(l4));
        assert(path_table(m, l4, va, 3) is None);
        lemma_path_none_below(m, l4, va, 3, l);
    }
}

/// Once the walk breaks off, it stays broken below.
proof fn lemma_path_none_below(m: Map<u64, Seq<u64>>, l4: u64, va: u64, l: u8, k: u8)
    requires
        1 <= k <= l <= 4,
        path_table(m, l4, va, l) is None,
    ensures
        path_table(m, l4, va, k) is None,
    decreases l - k,
{
    if k < l {
        lemma_path_none_below(m, l4, va, l, (k + 1) as u8);
    }
}

/// Where the walks go after storing a new empty table `n` and linking it
/// from the empty entry of the table at `lv` on the walk of `va0`: walks
/// through that entry reach `n` one level lower and stop there, and all
/// other walks are unchanged.
proof fn lemma_link_paths(
    m: Map<u64, Seq<u64>>,
    l4: u64,
    va0: u64,
    lv: u8,
    n: u64,
    v: u64,
    va: u64,
    l: u8,
)
    requires
        user_tree(m, l4),
        memory_wf(m),
        va0 < VIRT_SIGN_BIT,
        va < VIRT_SIGN_BIT,
        2 <= lv <= 4,
        1 <= l <= 4,
        path_table(m, l4, va0, lv) is Some,
        table_at(m, path_table(m, l4, va0, lv)->0)[table_index(va0, lv) as int] == 0,
        !m.contains_key(n),
        v != 0,
        v & FRAME_MASK == n,
    ensures
        ({
            let t = path_table(m, l4, va0, lv)->0;
            let m1 = m.insert(n, empty_table());
            let m2 = m1.insert(t, table_at(m1, t).update(table_index(va0, lv) as int, v));
            let through = l < lv && path_table(m, l4, va, lv) == Some(t) && table_index(va, lv)
                == table_index(va0, lv);
            &&& !through ==> path_table(m2, l4, va, l) == path_table(m, l4, va, l)
            &&& through && l == lv - 1 ==> path_table(m2, l4, va, l) == Some(n)
            &&& through && l < lv - 1 ==> path_table(m2, l4, va, l) is None
        }),
    decreases 4 - l,
{
    let t = path_table(m, l4, va0, lv)->0;
    let idx0 = table_index(va0, lv);
    let m1 = m.insert(n, empty_table());
    let m2 = m1.insert(t, table_at(m1, t).update(idx0 as int, v));
    assert(m.contains_key(t));
    assert(t != n);
    if l < 4 {
        let l1 = (l + 1) as u8;
        lemma_link_paths(m, l4, va0, lv, n, v, va, l1);
        let i = table_index(va, l1);
        let through1 = l1 < lv && path_table(m, l4, va, lv) == Some(t) && table_index(va, lv)
            == idx0;
        if through1 {
            if l1 == lv - 1 {
                assert(path_table(m2, l4, va, l1) == Some(n));
                assert(table_at(m2, n) == empty_table());
                assert(table_at(m2, n)[i as int] == 0);
            }
        } else {
            match path_table(m, l4, va, l1) {
                None => {},
                Some(x) => {
                    assert(m.contains_key(x));
                    assert(x != n);
                    if x == t && i == idx0 {
                        assert(l1 == lv);
                        assert(table_at(m2, t)[idx0 as int] == v);
                    } else {
                        assert(table_at(m2, x)[i as int] == table_at(m, x)[i as int]);
                    }
                },
            }
        }
    }
}

/// Storing a new empty table `n` and linking it from the empty entry of
/// the table at `lv` on the walk of a lower-half address keeps the tree.
pub proof fn lemma_user_tree_link(m: Map<u64, Seq<u64>>, l4: u64, va0: u64, lv: u8, n: u64, v: u64)
    requires
        user_tree(m, l4),
        memory_wf(m),
        va0 < VIRT_SIGN_BIT,
        2 <= lv <= 4,
        path_table(m, l4, va0, lv) is Some,
        table_at(m, path_table(m, l4, va0, lv)->0)[table_index(va0, lv) as int] == 0,
        !m.contains_key(n),
        v != 0,
        v & FRAME_MASK == n,
    ensures
        ({
            let t = path_table(m, l4, va0, lv)->0;
            let m1 = m.insert(n, empty_table());
            user_tree(m1.insert(t, table_at(m1, t).update(table_index(va0, lv) as int, v)), l4)
        }),
{
    let t = path_table(m, l4, va0, lv)->0;
    let idx0 = table_index(va0, lv);
    let m1 = m.insert(n, empty_table());
    let m2 = m1.insert(t, table_at(m1, t).update(idx0 as int, v));
    assert forall|va: u64, l: u8|
        va < VIRT_SIGN_BIT && 1 <= l <= 4 && (#[trigger] path_table(m2, l4, va, l)) is Some
            implies m2.contains_key(path_table(m2, l4, va, l)->0) by {
        lemma_link_paths(m, l4, va0, lv, n, v, va, l);
    }
    assert forall|va1: u64, l1: u8, va2: u64, l2: u8|
        va1 < VIRT_SIGN_BIT && va2 < VIRT_SIGN_BIT && 1 <= l1 <= 4 && 1 <= l2 <= 4 && (
        #[trigger] path_table(m2, l4, va1, l1)) is Some && (#[trigger] path_table(m2, l4, va2, l2))
            is Some && path_table(m2, l4, va1, l1)->0 == path_table(m2, l4, va2, l2)->0 implies l1
        == l2 by {
        lemma_link_paths(m, l4, va0, lv, n, v, va1, l1);
        lemma_link_paths(m, l4, va0, lv, n, v, va2, l2);
        if path_table(m, l4, va1, l1) is Some {
            assert(m.contains_key(path_table(m, l4, va1, l1)->0));
        }
        if path_table(m, l4, va2, l2) is Some {
            assert(m.contains_key(path_table(m, l4, va2, l2)->0));
        }
    }
}

/// Setting an entry of the lowest table on the walk of a lower-half
/// address changes no walk between tables.
proof fn lemma_leaf_paths(m: Map<u64, Seq<u64>>, l4: u64, va0: u64, v: u64, va: u64, l: u8)
    requires
        user_tree(m, l4),
        va0 < VIRT_SIGN_BIT,
        va < VIRT_SIGN_BIT,
        1 <= l <= 4,
        path_table(m, l4, va0, 1) is Some,
    ensures
        ({
            let t = path_table(m, l4, va0, 1)->0;
            let m2 = m.insert(t, table_at(m, t).update(table_index(va0, 1) as int, v));
            path_table(m2, l4, va, l) == path_table(m, l4, va, l)
        }),
    decreases 4 - l,
{
    let t = path_table(m, l4, va0, 1)->0;
    let m2 = m.insert(t, table_at(m, t).update(table_index(va0, 1) as int, v));
    if l < 4 {
        let l1 = (l + 1) as u8;
        lemma_leaf_paths(m, l4, va0, v, va, l1);
        match path_table(m, l4, va, l1) {
            None => {},
            Some(x) => {
                assert(x != t);
                assert(table_at(m2, x) == table_at(m, x));
            },
        }
    }
}

/// Setting an entry of the lowest table on the walk of a lower-half
/// address keeps the tree.
pub proof fn lemma_user_tree_leaf(m: Map<u64, Seq<u64>>, l4: u64, va0: u64, v: u64)
    requires
        user_tree(m, l4),
        va0 < VIRT_SIGN_BIT,
        path_table(m, l4, va0, 1) is Some,
    ensures
        ({
            let t = path_table(m, l4, va0, 1)->0;
            user_tree(m.insert(t, table_at(m, t).update(table_index(va0, 1) as int, v)), l4)
        }),
{
    let t = path_table(m, l4, va0, 1)->0;
    let m2 = m.insert(t, table_at(m, t).update(table_index(va0, 1) as int, v));
    assert forall|va: u64, l: u8|
        va < VIRT_SIGN_BIT && 1 <= l <= 4 && (#[trigger] path_table(m2, l4, va, l)) is Some
            implies m2.contains_key(path_table(m2, l4, va, l)->0) by {
        lemma_leaf_paths(m, l4, va0, v, va, l);
    }
    assert forall|va1: u64, l1: u8, va2: u64, l2: u8|
        va1 < VIRT_SIGN_BIT && va2 < VIRT_SIGN_BIT && 1 <= l1 <= 4 && 1 <= l2 <= 4 && (
        #[trigger] path_table(m2, l4, va1, l1)) is Some && (#[trigger] path_table(m2, l4, va2, l2))
            is Some && path_table(m2, l4, va1, l1)->0 == path_table(m2, l4, va2, l2)->0 implies l1
        == l2 by {
        lemma_leaf_paths(m, l4, va0, v, va1, l1);
        lemma_leaf_paths(m, l4, va0, v, va2, l2);
    }
}

/// The frame of a translation.
pub open spec fn mapped_frame(w: Option<(u64, u64)>) -> Option<u64> {
    match w {
        Some((a, _)) => Some(a),
        None => None,
    }
}

/// The level number of an optional level, 0 for none.
pub open spec fn level_number(level: Option<PageTableLevel>) -> nat {
    match level {
        Some(l) => l@ as nat,
        None => 0,
    }
}

impl Addrspace {
    /// Maps `page` to `frame` with `flags`, creating the missing tables of
    /// its walk with `parent_flags` and frames retyped into kernel memory.
    ///
    /// An existing mapping of the page, or a huge-page entry on its walk, is
    /// an error and leaves everything unchanged. When the walk's tables are
    /// stored and distinct, no stored table can be allocated, and the frame
    /// is aligned and not both it and the flags zero, a successful mapping
    /// makes the walk of the page give back `frame` and `flags`.
    pub fn map_to(
        &self,
        page: Page,
        frame: RawFrame,
        flags: PageTableFlags,
        parent_flags: PageTableFlags,
        frame_allocator: &mut BumpAllocator,
        retype: &mut RetypeTable,
        mem: &mut PageTableMemory,
    ) -> (r: Result<(), MapperError>)
        requires
            memory_wf(old(mem)@),
            old(retype).wf(),
            old(retype)@.len() < MAX_FRAMES,
            old(frame_allocator).spec_index() <= old(retype)@.len(),
        ensures
            memory_wf(final(mem)@),
            final(retype).wf(),
            final(retype)@.len() == old(retype)@.len(),
            final(frame_allocator).spec_index() <= final(retype)@.len(),
            map_sound(old(mem)@, old(retype)@, self.spec_l4(), page@) ==> tables_typed(
                final(mem)@,
                final(retype)@,
            ),
            r is Ok && map_sound(old(mem)@, old(retype)@, self.spec_l4(), page@) && frame@ % 4096
                == 0 && !(frame@ == 0 && flags@ == 0) ==> walk(final(mem)@, self.spec_l4(), page@, 4)
                == Some((frame@, flags@)),
            map_sound(old(mem)@, old(retype)@, self.spec_l4(), page@) ==> match r {
                Err(MapperError::AlreadyMapped(_)) => final(mem)@ == old(mem)@ && final(retype)@
                    == old(retype)@,
                Err(MapperError::HugeParentEntry) => final(mem)@ == old(mem)@ && final(retype)@
                    == old(retype)@,
                _ => true,
            },
            r matches Err(MapperError::AlreadyMapped(f)) ==> (map_sound(
                old(mem)@,
                old(retype)@,
                self.spec_l4(),
                page@,
            ) ==> mapped_frame(walk(old(mem)@, self.spec_l4(), page@, 4)) == Some(f@)),
            (r matches Err(MapperError::HugeParentEntry) && map_sound(
                old(mem)@,
                old(retype)@,
                self.spec_l4(),
                page@,
            )) ==> huge_on_walk(old(mem)@, self.spec_l4(), page@),
            r matches Err(MapperError::FrameAllocationError) ==> final(frame_allocator).spec_index()
                == final(retype)@.len(),
            map_sound(old(mem)@, old(retype)@, self.spec_l4(), page@) ==> keeps_entries(
                old(mem)@,
                final(mem)@,
            ),
            map_sound(old(mem)@, old(retype)@, self.spec_l4(), page@) && page@ < VIRT_SIGN_BIT
                && user_tree(old(mem)@, self.spec_l4()) ==> user_tree(final(mem)@, self.spec_l4()),
    {
        let ghost mem0 = mem@;
        let ghost retype0 = retype@;
        let ghost l4 = self.l4@;
        let ghost va = page@;
        let ghost sound = map_sound(mem0, retype0, l4, va);
        let ghost lawful = sound && frame@ % 4096 == 0 && !(frame@ == 0 && flags@ == 0);
        let ghost tree = sound && va < VIRT_SIGN_BIT && user_tree(mem0, l4);
        assert(mem0 == old(mem)@ && retype0 == old(retype)@);
        let ghost mut allocated = false;
        let _ = frame.base().as_u64();
        let _ = flags.bits();
        let pflags = parent_flags.union(PageTableFlags::present());
        let _ = pflags.bits();
        let mut level: Option<PageTableLevel> = Some(PageTableLevel::top());
        let mut table: u64 = self.l4.base().as_u64();
        let addr = page.base();
        loop
            invariant
                memory_wf(mem@),
                retype.wf(),
                retype@.len() == retype0.len(),
                retype@.len() < MAX_FRAMES,
                frame_allocator.spec_index() <= retype@.len(),
                addr@ == va,
                va == page@,
                l4 == self.spec_l4(),
                table <= u64::MAX,
                frame@ < PHYS_ADDR_LIMIT,
                flags@ & FRAME_MASK == 0,
                pflags@ & FRAME_MASK == 0,
                pflags@ == parent_flags@ | PRESENT,
                mem0 == old(mem)@,
                retype0 == old(retype)@,
                sound == map_sound(mem0, retype0, l4, va),
                lawful == (sound && frame@ % 4096 == 0 && !(frame@ == 0 && flags@ == 0)),
                tree == (sound && va < VIRT_SIGN_BIT && user_tree(mem0, l4)),
                tree ==> user_tree(mem@, l4),
                level_number(level) <= 4,
                !allocated && level is Some ==> mem@ == mem0 && retype@ == retype0,
                !allocated && level is Some ==> path_table(mem0, l4, va, level->0@) == Some(table),
                sound && allocated && level is Some ==> table_at(mem@, table) == empty_table()
                    && mem@.contains_key(table),
                sound ==> tables_typed(mem@, retype@),
                sound ==> keeps_entries(mem0, mem@),
                sound && level is Some ==> ({
                    let lv = level->0@;
                    &&& path_table(mem@, l4, va, lv) == Some(table)
                    &&& forall|l: u8|
                        lv <= l <= 4 ==> (#[trigger] path_table(mem@, l4, va, l)) is Some
                            && mem@.contains_key(path_table(mem@, l4, va, l)->0)
                    &&& forall|l1: u8, l2: u8|
                        lv <= l1 < l2 <= 4 ==> (#[trigger] path_table(mem@, l4, va, l1))->0 != (
                        #[trigger] path_table(mem@, l4, va, l2))->0
                }),
                lawful && level is None ==> walk(mem@, l4, va, 4) == Some((frame@, flags@)),
            ensures
                memory_wf(mem@),
                retype.wf(),
                retype@.len() == retype0.len(),
                frame_allocator.spec_index() <= retype@.len(),
                sound ==> tables_typed(mem@, retype@),
                sound ==> keeps_entries(mem0, mem@),
                tree ==> user_tree(mem@, l4),
                lawful ==> walk(mem@, l4, va, 4) == Some((frame@, flags@)),
            decreases level_number(level),
        {
            let current_level = match level {
                Some(l) => l,
                None => break ,
            };
            level = current_level.lower();
            let offset = addr.page_table_index(current_level);
            let entry = mem.entry(table, offset);
            let ghost lv = current_level@;
            let ghost idx = table_index(va, lv);
            let _ = offset.as_usize();
            match entry.get() {
                Some((f, fl)) => {
                    proof {
                        if sound && allocated {
                            assert(table_at(mem@, table)[idx as int] == 0);
                        }
                        if sound {
                            assert(!allocated);
                            assert(mem@ == mem0);
                            assert(retype@ == retype0);
                            assert(mem@ == old(mem)@);
                            assert(retype@ == old(retype)@);
                        }
                    }
                    if current_level.level() == 1 {
                        proof {
                            if sound {
                                lemma_walk_from_path(mem0, l4, va, 1, table);
                            }
                        }
                        let r = Err(MapperError::AlreadyMapped(f));
                        return r;
                    }
                    if fl.contains(PageTableFlags::huge_page()) {
                        proof {
                            if sound {
                                assert(path_table(mem0, l4, va, lv) is Some);
                            }
                        }
                        return Err(MapperError::HugeParentEntry);
                    }
                    table = f.base().as_u64();
                    proof {
                        let nl = (lv - 1) as u8;
                        if !allocated {
                            assert(path_table(mem0, l4, va, nl) == Some(table));
                        }
                        if sound {
                            assert forall|l: u8| nl <= l <= 4 implies (#[trigger] path_table(
                                mem@,
                                l4,
                                va,
                                l,
                            )) is Some && mem@.contains_key(path_table(mem@, l4, va, l)->0) by {
                                if l == nl {
                                    assert(path_table(mem0, l4, va, nl) is Some);
                                }
                            }
                            assert forall|l1: u8, l2: u8|
                                nl <= l1 < l2 <= 4 implies (#[trigger] path_table(
                                mem@,
                                l4,
                                va,
                                l1,
                            ))->0 != (#[trigger] path_table(mem@, l4, va, l2))->0 by {
                                assert(path_table(mem0, l4, va, l1) is Some);
                                assert(path_table(mem0, l4, va, l2) is Some);
                            }
                        }
                    }
                },
                None => {
                    if current_level.is_bottom() {
                        let mut e = entry;
                        e.set(frame, flags);
                        let ghost before = mem@;
                        mem.set_entry(table, offset, e);
                        proof {
                            if tree {
                                lemma_user_tree_leaf(before, l4, va, e@);
                            }
                            if sound {
                                lemma_keeps_set_empty(mem0, before, table, idx as int, e@);
                                let x = table_at(before, table).update(idx as int, e@);
                                lemma_path_insert(before, table, x, l4, va, 1);
                                lemma_walk_from_path(mem@, l4, va, 1, table);
                                lemma_masks(0, frame@, flags@);
                                assert(table_at(mem@, table)[idx as int] == flags@ | frame@);
                                if lawful {
                                    assert(walk(mem@, table, va, 1) == Some((frame@, flags@)));
                                    assert(walk(mem@, l4, va, 4) == Some((frame@, flags@)));
                                }
                                assert forall|k: u64|
                                    #[trigger] mem@.contains_key(k) && frame_index(k)
                                        < retype@.len() implies !retypable(
                                    retype@[frame_index(k)],
                                ) by {
                                    if k != table {
                                        assert(before.contains_key(k));
                                    }
                                }
                            }
                        }
                    } else {
                        let ghost before = mem@;
                        let ghost rbefore = retype@;
                        let new_frame = match frame_allocator.alloc_kernel_frame(retype) {
                            Some(k) => k.into_raw(),
                            None => return Err(MapperError::FrameAllocationError),
                        };
                        let n = new_frame.base().as_u64();
                        proof {
                            let i = frame_allocator.spec_index();
                            assert(n == i * 4096);
                            assert(n % 4096 == 0) by {
                                vstd::arithmetic::div_mod::lemma_mod_multiples_basic(i as int, 4096);
                            }
                            assert(frame_index(n) == i) by {
                                vstd::arithmetic::div_mod::lemma_div_multiples_vanish(i as int, 4096);
                            }
                            if sound {
                                assert(!before.contains_key(n));
                            }
                        }
                        mem.write_table(n, AnyPageTable::new());
                        let ghost mid = mem@;
                        let mut e = entry;
                        e.set(new_frame, pflags);
                        mem.set_entry(table, offset, e);
                        proof {
                            if sound {
                                lemma_keeps_insert_fresh(mem0, before, n, empty_table());
                                assert(table_at(mid, table)[idx as int] == 0);
                                lemma_keeps_set_empty(mem0, mid, table, idx as int, e@);
                            }
                        }
                        proof {
                            let nl = (lv - 1) as u8;
                            let i = frame_allocator.spec_index();
                            lemma_masks(0, n, pflags@);
                            lemma_masks(parent_flags@, 0, 0);
                            if sound {
                                assert(before.contains_key(table));
                                assert(table != n);
                                lemma_path_insert(before, n, empty_table(), l4, va, lv);
                                let x = table_at(mid, table).update(idx as int, e@);
                                assert forall|l: u8|
                                    lv < l <= 4 implies (#[trigger] path_table(mid, l4, va, l)) is Some
                                    && path_table(mid, l4, va, l)->0 != table by {
                                    lemma_path_insert(before, n, empty_table(), l4, va, l);
                                    assert(path_table(before, l4, va, l)->0 != path_table(
                                        before,
                                        l4,
                                        va,
                                        lv,
                                    )->0);
                                }
                                lemma_path_insert(mid, table, x, l4, va, lv);
                                assert(path_table(mem@, l4, va, lv) == Some(table));
                                assert(table_at(mem@, table)[idx as int] == pflags@ | n);
                                assert((pflags@ | n) & FRAME_MASK == n);
                                assert(pflags@ | n != 0);
                                assert(((nl + 1) as u8) == lv);
                                assert(path_table(mem@, l4, va, nl) == Some(n));
                                assert forall|l: u8| nl <= l <= 4 implies (#[trigger] path_table(
                                    mem@,
                                    l4,
                                    va,
                                    l,
                                )) is Some && mem@.contains_key(path_table(mem@, l4, va, l)->0)
                                    && (l > nl ==> path_table(mem@, l4, va, l) == path_table(
                                    before,
                                    l4,
                                    va,
                                    l,
                                )) by {
                                    if l > nl {
                                        lemma_path_insert(before, n, empty_table(), l4, va, l);
                                        lemma_path_insert(mid, table, x, l4, va, l);
                                    }
                                }
                                assert forall|l1: u8, l2: u8|
                                    nl <= l1 < l2 <= 4 implies (#[trigger] path_table(
                                    mem@,
                                    l4,
                                    va,
                                    l1,
                                ))->0 != (#[trigger] path_table(mem@, l4, va, l2))->0 by {
                                    assert(path_table(mem@, l4, va, l2) == path_table(
                                        before,
                                        l4,
                                        va,
                                        l2,
                                    ));
                                    if l1 > nl {
                                        assert(path_table(mem@, l4, va, l1) == path_table(
                                            before,
                                            l4,
                                            va,
                                            l1,
                                        ));
                                    }
                                }
                                assert forall|k: u64|
                                    #[trigger] mem@.contains_key(k) && frame_index(k)
                                        < retype@.len() implies !retypable(
                                    retype@[frame_index(k)],
                                ) by {
                                    if k != n && k != table {
                                        assert(before.contains_key(k));
                                        if frame_index(k) == i {
                                            assert(!retypable(rbefore[frame_index(k)]));
                                        }
                                    } else if k == table {
                                        assert(before.contains_key(k));
                                        assert(frame_index(k) != i);
                                    }
                                }
                                assert(table_at(mem@, n) == empty_table());
                                if tree {
                                    assert(table_at(before, table)[idx as int] == 0);
                                    lemma_user_tree_link(before, l4, va, lv, n, e@);
                                }
                            }
                        }
                        table = n;
                        proof {
                            allocated = true;
                        }
                    }
                },
            }
        }
        Ok(())
    }
}

} // verus!
