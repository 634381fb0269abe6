//! A capability manager for a component's own capability trie.
//!
//! Capabilities are handed out in the order of a counter, the capability
//! index, whose base-64 digits are those of the capability reversed: the
//! root table fills first, then the tables below it, breadth first. The last
//! slot of each table holds the next capability table.
use vstd::prelude::*;

use super::structures::{CapTable, PhysFrame};
use crate::ops::SlotId;
use crate::raw::{cap_offset, first_nonzero, fold_offsets, CapId, SLOT_BITS};

verus! {

/// The number of offsets of `offsets[0..k]` once the zero offsets at the
/// top are dropped.
pub open spec fn significant(offsets: Seq<u32>, k: nat) -> nat
    decreases k,
{
    if k == 0 {
        0
    } else if offsets[k - 1] != 0 {
        k
    } else {
        significant(offsets, (k - 1) as nat)
    }
}

/// The value built by shifting in `offsets[0]`, `offsets[1]`, ... up to
/// `offsets[k - 1]`, 6 bits at a time, on a 32-bit register: the first
/// offset ends up most significant.
pub open spec fn reverse_fold(offsets: Seq<u32>, k: nat) -> u32
    decreases k,
{
    if k == 0 {
        0
    } else {
        (reverse_fold(offsets, (k - 1) as nat) << 6u32) | offsets[k - 1]
    }
}

/// The offsets of `c`, least significant first.
pub open spec fn offsets_of(c: u32) -> Seq<u32> {
    Seq::new(6, |i: int| cap_offset(c, i as nat))
}

/// `c` with the order of its significant offsets reversed.
pub open spec fn reverse_offsets(c: u32) -> u32 {
    reverse_fold(offsets_of(c), significant(offsets_of(c), 6))
}

/// The capability that index `i` names: its offsets reversed, when its
/// lowest offset is not zero.
pub open spec fn cap_of_index(i: u32) -> Option<u32> {
    if cap_offset(i, 0) == 0 {
        None
    } else {
        Some(reverse_offsets(i))
    }
}

/// The most significant non-zero offset of `c`, if any.
pub open spec fn top_offset(c: u32) -> Option<u32> {
    let s = significant(offsets_of(c), 6);
    if s == 0 {
        None
    } else {
        Some(offsets_of(c)[s - 1])
    }
}

/// The offsets of `c`, written out.
proof fn lemma_digits(c: u32)
    ensures
        offsets_of(c) == seq![
            c & 63u32,
            (c >> 6u32) & 63u32,
            (c >> 12u32) & 63u32,
            (c >> 18u32) & 63u32,
            (c >> 24u32) & 63u32,
            (c >> 30u32) & 63u32,
        ],
{
    crate::raw::lemma_shift_offsets_unfold(c);
    assert(offsets_of(c) =~= seq![
        c & 63u32,
        (c >> 6u32) & 63u32,
        (c >> 12u32) & 63u32,
        (c >> 18u32) & 63u32,
        (c >> 24u32) & 63u32,
        (c >> 30u32) & 63u32,
    ]);
}

/// Reversing the offsets of a capability of at most five offsets whose
/// lowest offset is not zero gives an index of the same kind, and reversing
/// that gives the capability back.
pub proof fn lemma_reverse_round_trip(c: u32)
    requires
        c % 64 != 0,
        c < 0x4000_0000,
    ensures
        reverse_offsets(c) % 64 != 0,
        reverse_offsets(c) < 0x4000_0000,
        reverse_offsets(reverse_offsets(c)) == c,
{
    let r = reverse_offsets(c);
    lemma_digits(c);
    lemma_digits(r);
    reveal_with_fuel(significant, 7);
    reveal_with_fuel(reverse_fold, 7);
    assert(c & 63u32 != 0 && (c >> 30u32) & 63u32 == 0) by (bit_vector)
        requires
            c % 64 != 0,
            c < 0x4000_0000,
    ;
    let d0 = c & 63u32;
    let d1 = (c >> 6u32) & 63u32;
    let d2 = (c >> 12u32) & 63u32;
    let d3 = (c >> 18u32) & 63u32;
    let d4 = (c >> 24u32) & 63u32;
    if d4 != 0 {
        assert(r == ((((((0u32 << 6u32) | d0) << 6u32 | d1) << 6u32 | d2) << 6u32 | d3) << 6u32 | d4));
        assert({
            let r = (((((0u32 << 6u32) | (c & 63u32)) << 6u32 | ((c >> 6u32) & 63u32)) << 6u32 | ((c >> 12u32) & 63u32)) << 6u32 | ((c >> 18u32) & 63u32)) << 6u32 | ((c >> 24u32) & 63u32);
            &&& r % 64 != 0
            &&& r < 0x4000_0000
            &&& (r >> 30u32) & 63u32 == 0
            &&& (r >> 24u32) & 63u32 == c & 63u32
            &&& (((((0u32 << 6u32) | (r & 63u32)) << 6u32 | ((r >> 6u32) & 63u32)) << 6u32 | ((r >> 12u32) & 63u32)) << 6u32 | ((r >> 18u32) & 63u32)) << 6u32 | ((r >> 24u32) & 63u32) == c
        }) by (bit_vector)
            requires
                c % 64 != 0,
                c < 0x4000_0000,
                (c >> 24u32) & 63u32 != 0,
        ;
        assert(offsets_of(r)[0] == (r & 63u32));
        assert(significant(offsets_of(r), 6) == significant(offsets_of(c), 6));
        assert(reverse_offsets(r) == c);
    } else if d3 != 0 {
        assert(r == (((((0u32 << 6u32) | d0) << 6u32 | d1) << 6u32 | d2) << 6u32 | d3));
        assert({
            let r = ((((0u32 << 6u32) | (c & 63u32)) << 6u32 | ((c >> 6u32) & 63u32)) << 6u32 | ((c >> 12u32) & 63u32)) << 6u32 | ((c >> 18u32) & 63u32);
            &&& r % 64 != 0
            &&& r < 0x4000_0000
            &&& (r >> 30u32) & 63u32 == 0
            &&& (r >> 24u32) & 63u32 == 0
            &&& (r >> 18u32) & 63u32 == c & 63u32
            &&& ((((0u32 << 6u32) | (r & 63u32)) << 6u32 | ((r >> 6u32) & 63u32)) << 6u32 | ((r >> 12u32) & 63u32)) << 6u32 | ((r >> 18u32) & 63u32) == c
        }) by (bit_vector)
            requires
                c % 64 != 0,
                c < 0x4000_0000,
                (c >> 24u32) & 63u32 == 0,
                (c >> 18u32) & 63u32 != 0,
        ;
        assert(offsets_of(r)[0] == (r & 63u32));
        assert(significant(offsets_of(r), 6) == significant(offsets_of(c), 6));
        assert(reverse_offsets(r) == c);
    } else if d2 != 0 {
        assert(r == ((((0u32 << 6u32) | d0) << 6u32 | d1) << 6u32 | d2));
        assert({
            let r = (((0u32 << 6u32) | (c & 63u32)) << 6u32 | ((c >> 6u32) & 63u32)) << 6u32 | ((c >> 12u32) & 63u32);
            &&& r % 64 != 0
            &&& r < 0x4000_0000
            &&& (r >> 30u32) & 63u32 == 0
            &&& (r >> 24u32) & 63u32 == 0
            &&& (r >> 18u32) & 63u32 == 0
            &&& (r >> 12u32) & 63u32 == c & 63u32
            &&& (((0u32 << 6u32) | (r & 63u32)) << 6u32 | ((r >> 6u32) & 63u32)) << 6u32 | ((r >> 12u32) & 63u32) == c
        }) by (bit_vector)
            requires
                c % 64 != 0,
                c < 0x4000_0000,
                (c >> 24u32) & 63u32 == 0,
                (c >> 18u32) & 63u32 == 0,
                (c >> 12u32) & 63u32 != 0,
        ;
        assert(offsets_of(r)[0] == (r & 63u32));
        assert(significant(offsets_of(r), 6) == significant(offsets_of(c), 6));
        assert(reverse_offsets(r) == c);
    } else if d1 != 0 {
        assert(r == (((0u32 << 6u32) | d0) << 6u32 | d1));
        assert({
            let r = ((0u32 << 6u32) | (c & 63u32)) << 6u32 | ((c >> 6u32) & 63u32);
            &&& r % 64 != 0
            &&& r < 0x4000_0000
            &&& (r >> 30u32) & 63u32 == 0
            &&& (r >> 24u32) & 63u32 == 0
            &&& (r >> 18u32) & 63u32 == 0
            &&& (r >> 12u32) & 63u32 == 0
            &&& (r >> 6u32) & 63u32 == c & 63u32
            &&& ((0u32 << 6u32) | (r & 63u32)) << 6u32 | ((r >> 6u32) & 63u32) == c
        }) by (bit_vector)
            requires
                c % 64 != 0,
                c < 0x4000_0000,
                (c >> 24u32) & 63u32 == 0,
                (c >> 18u32) & 63u32 == 0,
                (c >> 12u32) & 63u32 == 0,
                (c >> 6u32) & 63u32 != 0,
        ;
        assert(significant(offsets_of(r), 6) == significant(offsets_of(c), 6));
        assert(reverse_offsets(r) == c);
    } else {
        assert(r == ((0u32 << 6u32) | d0));
        assert({
            let r = (0u32 << 6u32) | (c & 63u32);
            &&& r % 64 != 0
            &&& r & 63u32 != 0
            &&& r < 0x4000_0000
            &&& (r >> 30u32) & 63u32 == 0
            &&& (r >> 24u32) & 63u32 == 0
            &&& (r >> 18u32) & 63u32 == 0
            &&& (r >> 12u32) & 63u32 == 0
            &&& (r >> 6u32) & 63u32 == 0
            &&& (0u32 << 6u32) | (r & 63u32) == c
        }) by (bit_vector)
            requires
                c % 64 != 0,
                c < 0x4000_0000,
                (c >> 24u32) & 63u32 == 0,
                (c >> 18u32) & 63u32 == 0,
                (c >> 12u32) & 63u32 == 0,
                (c >> 6u32) & 63u32 == 0,
        ;
        assert(significant(offsets_of(r), 6) == significant(offsets_of(c), 6));
        assert(reverse_offsets(r) == c);
    }
}

/// Converting a capability to its index and back gives the capability,
/// and converting an index to its capability and back gives the index,
/// for values of at most five offsets whose lowest offset is not zero.
pub proof fn lemma_cap_index_round_trip(c: u32)
    requires
        c % 64 != 0,
        c < 0x4000_0000,
    ensures
        cap_of_index(reverse_offsets(c)) == Some(c),
        cap_of_index(c) matches Some(cap) && reverse_offsets(cap) == c,
{
    lemma_reverse_round_trip(c);
    lemma_digits(c);
    lemma_digits(reverse_offsets(c));
    let r = reverse_offsets(c);
    assert(cap_offset(r, 0) == r & 63u32);
    assert(cap_offset(c, 0) == c & 63u32);
    assert(r & 63u32 != 0 && c & 63u32 != 0) by (bit_vector)
        requires
            r % 64 != 0,
            c % 64 != 0,
    ;
}

/// Capabilities handed out at different indices differ: for an index `i`
/// and a later index `j`, at or past where the allocation at `i` leaves
/// the generator, the capabilities that `next_cap` gives are not the same.
/// This holds while the indices have at most five offsets.
pub proof fn lemma_next_caps_distinct(i: u32, j: u32)
    requires
        next_cap(i).1 <= j,
        j + 1 < 0x4000_0000,
    ensures
        next_cap(i).0 != next_cap(j).0,
{
    let k1: u32 = if cap_offset(i, 0) == 0 {
        (i + 1) as u32
    } else {
        i
    };
    let k2: u32 = if cap_offset(j, 0) == 0 {
        (j + 1) as u32
    } else {
        j
    };
    crate::raw::lemma_shift_offsets_unfold(i);
    crate::raw::lemma_shift_offsets_unfold(j);
    crate::raw::lemma_shift_offsets_unfold((i + 1) as u32);
    crate::raw::lemma_shift_offsets_unfold((j + 1) as u32);
    assert(i & 63u32 == 0 ==> (i + 1) as u32 & 63u32 != 0) by (bit_vector);
    assert(j & 63u32 == 0 ==> (j + 1) as u32 & 63u32 != 0) by (bit_vector);
    assert(k1 & 63u32 != 0 ==> k1 % 64 != 0) by (bit_vector);
    assert(k2 & 63u32 != 0 ==> k2 % 64 != 0) by (bit_vector);
    assert(k1 < k2);
    lemma_reverse_round_trip(k1);
    lemma_reverse_round_trip(k2);
}

/// A position in the breadth-first order of capabilities.
#[derive(Debug, Copy, Clone)]
pub struct CapIndex(u32);

/// Error for an index whose lowest offset is zero: it names the same slot
/// as the table above it.
#[derive(Debug)]
pub struct NoCapForIndex;

impl View for CapIndex {
    type V = u32;

    closed spec fn view(&self) -> u32 {
        self.0
    }
}

fn reverse(offsets: [u32; 6]) -> (r: u32)
    ensures
        r == reverse_fold(offsets@, significant(offsets@, 6)),
{
    let mut leading_zeros: usize = 0;
    while leading_zeros < 6 && offsets[5 - leading_zeros] == 0
        invariant
            leading_zeros <= 6,
            significant(offsets@, 6) == significant(offsets@, (6 - leading_zeros) as nat),
        decreases 6 - leading_zeros,
    {
        leading_zeros = leading_zeros + 1;
    }
    let valid_offsets = 6 - leading_zeros;
    assert(significant(offsets@, valid_offsets as nat) == valid_offsets);
    let mut index: u32 = 0;
    let mut k: usize = 0;
    while k < valid_offsets
        invariant
            k <= valid_offsets <= 6,
            index == reverse_fold(offsets@, k as nat),
        decreases valid_offsets - k,
    {
        index = (index << SLOT_BITS) | offsets[k];
        k = k + 1;
    }
    index
}

impl CapIndex {
    /// The first index.
    pub fn new() -> (r: Self)
        ensures
            r@ == 0,
    {
        Self(0)
    }

    /// The index `idx`.
    pub fn from_idx(idx: u32) -> (r: Self)
        ensures
            r@ == idx,
    {
        Self(idx)
    }

    /// The index as a number.
    pub fn as_u32(&self) -> (r: u32)
        ensures
            r == self@,
    {
        self.0
    }

    /// The index of capability `cap`: its offsets reversed.
    pub fn from_cap(cap: CapId) -> (r: Self)
        ensures
            r@ == reverse_offsets(cap@),
    {
        let offsets = cap.offsets();
        assert(offsets@ =~= offsets_of(cap@));
        Self::from_idx(reverse(offsets))
    }

    /// The capability that this index names, failing when the index's lowest
    /// offset is zero.
    pub fn try_into_cap(self) -> (r: Result<CapId, NoCapForIndex>)
        ensures
            match (r, cap_of_index(self@)) {
                (Ok(c), Some(v)) => c@ == v,
                (Err(_), None) => true,
                _ => false,
            },
    {
        let offsets = CapId::new(self.0).offsets();
        assert(offsets@ =~= offsets_of(self@));
        if offsets[0] == 0 {
            return Err(NoCapForIndex);
        }
        Ok(CapId::new(reverse(offsets)))
    }

    /// The next index.
    pub fn add(self, rhs: u32) -> (r: Self)
        requires
            self@ + rhs <= u32::MAX,
        ensures
            r@ == self@ + rhs,
    {
        Self(self.0 + rhs)
    }

    /// The previous index.
    pub fn sub(self, rhs: u32) -> (r: Self)
        requires
            self@ >= rhs,
        ensures
            r@ == self@ - rhs,
    {
        Self(self.0 - rhs)
    }
}

/// What the next capability needs.
#[derive(Debug, Copy, Clone)]
pub enum CapAllocation {
    /// The capability fits an existing table.
    Simple(CapId),
    /// The capability `table_cap` takes the last slot of its table and must
    /// hold a new capability table; `new_cap` is the capability after it.
    RequiresTable { table_cap: CapId, new_cap: CapId },
}

/// Hands out capabilities in index order.
#[derive(Debug)]
pub struct CapGenerator {
    index: CapIndex,
}

/// The capability at index `i` or, when `i` names none, at `i + 1`, with the
/// index after it.
pub open spec fn next_cap(i: u32) -> (u32, int) {
    if cap_offset(i, 0) == 0 {
        (reverse_offsets((i + 1) as u32), i + 2)
    } else {
        (reverse_offsets(i), i + 1)
    }
}

impl CapGenerator {
    /// The index of the next capability to consider.
    pub closed spec fn spec_index(&self) -> u32 {
        self.index@
    }

    /// A generator that starts at index 0.
    pub fn new() -> (r: Self)
        ensures
            r.spec_index() == 0,
    {
        Self { index: CapIndex::new() }
    }

    /// A generator that starts at the index of `cap`.
    pub fn from_starting_cap(cap: CapId) -> (r: Self)
        ensures
            r.spec_index() == reverse_offsets(cap@),
    {
        let index = CapIndex::from_cap(cap);
        Self { index }
    }

    fn next_cap_gen(&mut self) -> (r: CapId)
        requires
            old(self).spec_index() + 2 <= u32::MAX,
        ensures
            r@ == next_cap(old(self).spec_index()).0,
            final(self).spec_index() == next_cap(old(self).spec_index()).1,
    {
        let i0 = self.index.as_u32();
        assert(i0 & 63u32 == 0 ==> (i0 + 1) as u32 & 63u32 != 0) by (bit_vector)
            requires
                i0 + 2 <= u32::MAX,
        ;
        loop
            invariant
                self.index@ == i0 || (self.index@ == i0 + 1 && cap_offset(i0, 0) == 0),
                i0 + 2 <= u32::MAX,
                i0 == old(self).spec_index(),
                cap_offset(i0, 0) == 0 ==> cap_offset((i0 + 1) as u32, 0) != 0,
            decreases i0 + 2 - self.index@,
        {
            if let Ok(cap) = self.index.try_into_cap() {
                self.index = self.index.add(1);
                return cap;
            }
            self.index = self.index.add(1);
        }
    }

    /// The next capability, and whether it has to hold a new capability
    /// table: a capability whose most significant offset is the last slot
    /// of a table does, and is followed by the next capability.
    pub fn get_next(&mut self) -> (r: CapAllocation)
        requires
            old(self).spec_index() + 4 <= u32::MAX,
        ensures
            ({
                let (c1, i1) = next_cap(old(self).spec_index());
                if top_offset(c1) == Some(63u32) {
                    let (c2, i2) = next_cap(i1 as u32);
                    r == CapAllocation::RequiresTable {
                        table_cap: CapId::spec_new(c1),
                        new_cap: CapId::spec_new(c2),
                    } && final(self).spec_index() == i2
                } else {
                    r == CapAllocation::Simple(CapId::spec_new(c1)) && final(self).spec_index()
                        == i1
                }
            }),
    {
        let cap = self.next_cap_gen();
        let offsets = cap.offsets();
        assert(offsets@ =~= offsets_of(cap@));
        let mut k: usize = 6;
        while k > 0 && offsets[k - 1] == 0
            invariant
                k <= 6,
                significant(offsets@, 6) == significant(offsets@, k as nat),
            decreases k,
        {
            k = k - 1;
        }
        proof {
            CapId::lemma_spec_new(cap@, cap);
        }
        if k > 0 && offsets[k - 1] == 63 {
            let table_cap = cap;
            let cap = self.next_cap_gen();
            proof {
                CapId::lemma_spec_new(cap@, cap);
            }
            CapAllocation::RequiresTable { table_cap, new_cap: cap }
        } else {
            CapAllocation::Simple(cap)
        }
    }
}

/// Hands out frames for new capability tables.
pub trait FrameAllocator {
    /// A fresh frame.
    fn alloc_frame(&mut self) -> PhysFrame;
}

/// A capability, with the table and slot that hold it.
#[derive(Debug)]
pub struct CapSlot {
    pub id: CapId,
    pub table: CapTable,
    pub slot: SlotId,
}

/// The index of the capability table that manages the capability at index
/// `idx`: the root for the first 64 indices, else the index just before the
/// start of its group of 64.
pub open spec fn managing_table_index(idx: u32) -> Option<u32> {
    if idx & !63u32 == 0 {
        None
    } else {
        Some(((idx & !63u32) - 1) as u32)
    }
}

/// The table and slot of `cap` in the trie rooted at `root`.
pub open spec fn slot_for(root: CapTable, cap: CapId) -> CapSlot {
    let idx = reverse_offsets(cap@);
    CapSlot {
        id: cap,
        table: match managing_table_index(idx) {
            None => root,
            Some(t) => CapTable { id: CapId::spec_new(reverse_offsets(t)) },
        },
        slot: SlotId::spec_new((idx % 64) as usize),
    }
}

impl CapSlot {
    /// The slot of `cap` in the trie rooted at `root_table`: the capability
    /// of each table is the one just before its group of indices.
    pub fn from_root_and_cap(root_table: CapTable, cap: CapId) -> (r: Self)
        ensures
            r == slot_for(root_table, cap),
            r.slot@ == reverse_offsets(cap@) % 64,
            managing_table_index(reverse_offsets(cap@)) matches Some(t) ==> cap_of_index(t)
                == Some(reverse_offsets(t)),
    {
        let cap_idx = CapIndex::from_cap(cap).as_u32();
        let mask: u32 = !63u32;
        let table = if cap_idx & mask == 0 {
            root_table
        } else {
            assert(((cap_idx & !63u32) - 1) as u32 & 63u32 == 63) by (bit_vector)
                requires
                    cap_idx & !63u32 != 0,
            ;
            let t = CapIndex::from_idx((cap_idx & mask) - 1);
            assert(cap_offset(t@, 0) == 63);
            let table_cap = t.try_into_cap().unwrap();
            proof {
                CapId::lemma_spec_new(table_cap@, table_cap);
            }
            CapTable::new(table_cap)
        };
        let slot = SlotId::new((cap_idx % 64) as usize).unwrap();
        Self { id: cap, table, slot }
    }

    /// The capability.
    pub fn cap(&self) -> (r: CapId)
        ensures
            r == self.id,
    {
        self.id
    }
}

/// `c` with its most significant non-zero offset cleared: the capability
/// of the slot that links the table holding `c`.
pub open spec fn parent_cap(c: u32) -> u32 {
    let offs = offsets_of(c);
    let s = significant(offs, 6);
    let cleared = if s == 0 {
        offs
    } else {
        offs.update(s - 1, 0u32)
    };
    fold_offsets(cleared, first_nonzero(cleared, 0))
}

/// What allocating a capability asks of the kernel before the slot can be
/// used.
#[derive(Debug)]
pub enum AllocationPlan {
    /// The slot is in a table that exists.
    Ready(CapSlot),
    /// A capability table must first be made with `frame` in the last slot
    /// of `table_parent.table`, then `table` linked into `link_parent`;
    /// `slot` is then ready.
    WithTable {
        frame: PhysFrame,
        table_parent: CapSlot,
        link_parent: CapSlot,
        table: CapTable,
        slot: CapSlot,
    },
}

/// A capability manager for a component's own trie, with the allocator of
/// frames for new tables.
#[derive(Debug)]
pub struct SelfCapabilityManager<A: FrameAllocator> {
    root_table: CapTable,
    cap_generator: CapGenerator,
    frame_allocator: A,
}

impl<A: FrameAllocator> SelfCapabilityManager<A> {
    /// The root table.
    pub closed spec fn spec_root(&self) -> CapTable {
        self.root_table
    }

    /// The index of the next capability to consider.
    pub closed spec fn spec_index(&self) -> u32 {
        self.cap_generator.spec_index()
    }

    /// A manager that assumes no capability is set yet.
    pub fn new(root_table: CapTable, allocator: A) -> (r: Self)
        ensures
            r.spec_root() == root_table,
            r.spec_index() == 0,
    {
        Self { root_table, cap_generator: CapGenerator::new(), frame_allocator: allocator }
    }

    /// The root table.
    pub fn root(&self) -> (r: &CapTable)
        ensures
            *r == self.spec_root(),
    {
        &self.root_table
    }

    /// A manager that sets no capability before `start_cap`.
    pub fn new_with_start(root_table: CapTable, start_cap: CapId, allocator: A) -> (r: Self)
        ensures
            r.spec_root() == root_table,
            r.spec_index() == reverse_offsets(start_cap@),
    {
        Self {
            root_table,
            cap_generator: CapGenerator::from_starting_cap(start_cap),
            frame_allocator: allocator,
        }
    }
    /// `allocate_capability` can run: the index is far from its limit, and
    /// a new capability table is not needed or the capability after it
    /// falls in a slot of that table.
    pub open spec fn can_allocate_now(&self) -> bool {
        &&& self.spec_index() + 4 <= u32::MAX
        &&& {
            let (c1, i1) = next_cap(self.spec_index());
            top_offset(c1) == Some(63u32) ==> next_cap(i1 as u32).0 >> 6u32 < 64
        }
    }

    /// Whether `allocate_capability` can run now: the index is far from
    /// its limit, and a new capability table is not needed or the
    /// capability after it falls in a slot of that table.
    pub fn can_allocate(&self) -> (r: bool)
        ensures
            r == self.can_allocate_now(),
    {
        let idx = self.cap_generator.index.as_u32();
        if idx > u32::MAX - 4 {
            return false;
        }
        let mut probe = CapGenerator { index: CapIndex::from_idx(idx) };
        match probe.get_next() {
            CapAllocation::Simple(_) => true,
            CapAllocation::RequiresTable { new_cap, .. } => {
                proof {
                    let (c1, i1) = next_cap(idx);
                    CapId::lemma_spec_new(next_cap(i1 as u32).0, new_cap);
                }
                (new_cap.get() >> 6) < 64
            },
        }
    }

    /// A frame from the manager's frame allocator.
    pub fn alloc_frame(&mut self) -> (r: PhysFrame)
        ensures
            final(self).spec_root() == old(self).spec_root(),
            final(self).spec_index() == old(self).spec_index(),
    {
        self.frame_allocator.alloc_frame()
    }

    /// The next capability's slot, and the capability table to make first
    /// when the capability before it closes a table.
    pub fn allocate_capability(&mut self) -> (r: AllocationPlan)
        requires
            old(self).spec_index() + 4 <= u32::MAX,
            ({
                let (c1, i1) = next_cap(old(self).spec_index());
                top_offset(c1) == Some(63u32) ==> next_cap(i1 as u32).0 >> 6u32 < 64
            }),
        ensures
            final(self).spec_root() == old(self).spec_root(),
            ({
                let root = old(self).spec_root();
                let (c1, i1) = next_cap(old(self).spec_index());
                if top_offset(c1) == Some(63u32) {
                    let (c2, i2) = next_cap(i1 as u32);
                    let table = CapTable { id: CapId::spec_new(c1) };
                    &&& final(self).spec_index() == i2
                    &&& r matches AllocationPlan::WithTable {
                        frame,
                        table_parent,
                        link_parent,
                        table: t,
                        slot,
                    }
                    &&& table_parent == slot_for(root, CapId::spec_new(c1))
                    &&& t == table
                    &&& link_parent == slot_for(root, CapId::spec_new(parent_cap(c2)))
                    &&& slot == (CapSlot {
                        id: CapId::spec_new(c2),
                        table,
                        slot: SlotId::spec_new((c2 >> 6u32) as usize),
                    })
                } else {
                    &&& final(self).spec_index() == i1
                    &&& r == AllocationPlan::Ready(slot_for(root, CapId::spec_new(c1)))
                }
            }),
    {
        let ghost i0 = self.spec_index();
        match self.cap_generator.get_next() {
            CapAllocation::Simple(cap) => {
                AllocationPlan::Ready(CapSlot::from_root_and_cap(self.root_table, cap))
            },
            CapAllocation::RequiresTable { table_cap, new_cap } => {
                proof {
                    let (c1, i1) = next_cap(i0);
                    let (c2, i2) = next_cap(i1 as u32);
                    CapId::lemma_spec_new(c2, new_cap);
                    CapId::lemma_spec_new(c1, table_cap);
                    assert(new_cap@ == c2);
                }
                let frame = self.frame_allocator.alloc_frame();
                let table_parent = CapSlot::from_root_and_cap(self.root_table, table_cap);
                let table = CapTable::new(table_cap);
                let mut offsets = new_cap.offsets();
                assert(offsets@ =~= offsets_of(new_cap@));
                let ghost offs0 = offsets@;
                let mut k: usize = 6;
                while k > 0 && offsets[k - 1] == 0
                    invariant
                        k <= 6,
                        offsets@ == offs0,
                        significant(offs0, 6) == significant(offs0, k as nat),
                    decreases k,
                {
                    k = k - 1;
                }
                if k > 0 {
                    offsets[k - 1] = 0;
                }
                assert(offsets@ =~= (if significant(offs0, 6) == 0 {
                    offs0
                } else {
                    offs0.update(significant(offs0, 6) - 1, 0u32)
                }));
                let parent = CapId::from_offsets(offsets);
                let link_parent = CapSlot::from_root_and_cap(self.root_table, parent);
                let slot = SlotId::new((new_cap.get() >> 6) as usize).unwrap();
                AllocationPlan::WithTable {
                    frame,
                    table_parent,
                    link_parent,
                    table,
                    slot: CapSlot { id: new_cap, table, slot },
                }
            },
        }
    }
}

} // verus!
