//! The physical memory map that the bootloader hands over, and the bump
//! allocator that carves early allocations out of its usable entries.
use vstd::prelude::*;

use crate::addr::{PhysAddr, FRAME_SIZE, PHYS_ADDR_LIMIT};
use crate::kernel::frames::RawFrame;

verus! {

/// The kind of memory that a memory-map entry describes.
#[derive(Debug, Copy, Clone, PartialEq, Eq, Structural)]
pub enum EntryType {
    Usable,
    Reserved,
    AcpiReclaimable,
    AcpiNvs,
    BadMemory,
    BootloaderReclaimable,
    KernelAndModules,
    Framebuffer,
}

/// A region of physical memory: `length` bytes from `base`.
#[derive(Debug, Copy, Clone, PartialEq, Eq, Structural)]
pub struct Entry {
    pub base: u64,
    pub length: u64,
    pub entry_type: EntryType,
}

/// An entry is frame aligned and lies below the physical address limit.
pub open spec fn entry_wf(e: Entry) -> bool {
    &&& e.base % 4096 == 0
    &&& e.length % 4096 == 0
    &&& e.base + e.length <= PHYS_ADDR_LIMIT
}

/// Every entry of the map is well formed.
pub open spec fn map_wf(map: Seq<Entry>) -> bool {
    forall|i: int| 0 <= i < map.len() ==> entry_wf(#[trigger] map[i])
}

/// The index of the first usable entry at or after `from` whose length
/// passes `fits`, or the number of entries if there is none.
pub open spec fn first_fit(map: Seq<Entry>, from: int, need: u64) -> int
    decreases map.len() - from,
{
    if from >= map.len() || from < 0 {
        map.len() as int
    } else if map[from].entry_type == EntryType::Usable && map[from].length >= need && map[from].length > 0 {
        from
    } else {
        first_fit(map, from + 1, need)
    }
}

/// `first_fit` lies in `from..=len`, and no entry before it fits.
pub proof fn lemma_first_fit(map: Seq<Entry>, from: int, need: u64)
    requires
        0 <= from <= map.len(),
    ensures
        from <= first_fit(map, from, need) <= map.len(),
        first_fit(map, from, need) < map.len() ==> ({
            let j = first_fit(map, from, need);
            map[j].entry_type == EntryType::Usable && map[j].length >= need && map[j].length > 0
        }),
        forall|k: int|
            from <= k < first_fit(map, from, need) ==> !(#[trigger] map[k].entry_type
                == EntryType::Usable && map[k].length >= need && map[k].length > 0),
    decreases map.len() - from,
{
    if from < map.len() {
        lemma_first_fit(map, from + 1, need);
    }
}

/// A bump allocator over the usable entries of a memory map: it takes
/// memory from the start of the first entry that fits, and never goes back
/// to an earlier entry.
#[derive(Debug)]
pub struct BumpAllocator {
    memory_map: Vec<Entry>,
    index: usize,
}

impl BumpAllocator {
    /// The entries, as the allocator has shrunk them.
    pub closed spec fn spec_map(&self) -> Seq<Entry> {
        self.memory_map@
    }

    /// The first entry the allocator still considers.
    pub closed spec fn spec_index(&self) -> int {
        self.index as int
    }

    /// An allocator that starts at the first entry.
    pub fn new(memory_map: Vec<Entry>) -> (r: Self)
        ensures
            r.spec_map() == memory_map@,
            r.spec_index() == 0,
    {
        Self { memory_map, index: 0 }
    }

    /// Takes one frame from the first usable, non-empty entry at or after
    /// the current one.
    pub fn alloc_frame(&mut self) -> (r: Option<RawFrame>)
        requires
            map_wf(old(self).spec_map()),
            old(self).spec_index() <= old(self).spec_map().len(),
        ensures
            map_wf(final(self).spec_map()),
            ({
                let j = first_fit(old(self).spec_map(), old(self).spec_index(), 1);
                let e = old(self).spec_map()[j];
                &&& final(self).spec_index() == j
                &&& match r {
                    Some(f) => j < old(self).spec_map().len() && f@ == e.base && final(self).spec_map() == old(self).spec_map().update(
                        j,
                        Entry { base: (e.base + 4096) as u64, length: (e.length - 4096) as u64, ..e },
                    ),
                    None => j == old(self).spec_map().len() && final(self).spec_map() == old(self).spec_map(),
                }
            }),
    {
        proof {
            lemma_first_fit(self.memory_map@, self.index as int, 1);
        }
        loop
            invariant
                map_wf(self.memory_map@),
                self.memory_map@ == old(self).spec_map(),
                old(self).spec_index() <= self.index <= self.memory_map@.len(),
                first_fit(self.memory_map@, old(self).spec_index(), 1) == first_fit(
                    self.memory_map@,
                    self.index as int,
                    1,
                ),
            decreases self.memory_map@.len() - self.index,
        {
            if self.index >= self.memory_map.len() {
                return None;
            }
            let entry = self.memory_map[self.index];
            assert(entry_wf(entry));
            if entry.entry_type == EntryType::Usable && entry.length > 0 {
                let start_address = entry.base;
                let new_entry = Entry {
                    base: entry.base + FRAME_SIZE,
                    length: entry.length - FRAME_SIZE,
                    entry_type: entry.entry_type,
                };
                self.memory_map.set(self.index, new_entry);
                let start_address = PhysAddr::new(start_address);
                proof {
                    assert forall|i: int| 0 <= i < self.memory_map@.len() implies entry_wf(
                        #[trigger] self.memory_map@[i],
                    ) by {
                        if i != self.index {
                            assert(self.memory_map@[i] == old(self).spec_map()[i]);
                        }
                    }
                }
                return Some(RawFrame::from_start_address(start_address));
            }
            self.index = self.index + 1;
        }
    }

    /// Takes `count` contiguous frames from the first usable entry at or
    /// after the current one that holds them, and returns their first
    /// address.
    pub fn alloc_frames(&mut self, count: usize) -> (r: Option<PhysAddr>)
        requires
            map_wf(old(self).spec_map()),
            old(self).spec_index() <= old(self).spec_map().len(),
            count * 4096 <= u64::MAX,
        ensures
            map_wf(final(self).spec_map()),
            ({
                let need = (count * 4096) as u64;
                let j = first_fit(old(self).spec_map(), old(self).spec_index(), need);
                let e = old(self).spec_map()[j];
                &&& final(self).spec_index() == j
                &&& match r {
                    Some(a) => j < old(self).spec_map().len() && a@ == e.base && final(self).spec_map() == old(self).spec_map().update(
                        j,
                        Entry { base: (e.base + need) as u64, length: (e.length - need) as u64, ..e },
                    ),
                    None => j == old(self).spec_map().len() && final(self).spec_map() == old(self).spec_map(),
                }
            }),
    {
        let requested_length = count as u64 * FRAME_SIZE;
        proof {
            lemma_first_fit(self.memory_map@, self.index as int, requested_length);
        }
        loop
            invariant
                map_wf(self.memory_map@),
                self.memory_map@ == old(self).spec_map(),
                old(self).spec_index() <= self.index <= self.memory_map@.len(),
                requested_length == count * 4096,
                first_fit(self.memory_map@, old(self).spec_index(), requested_length) == first_fit(
                    self.memory_map@,
                    self.index as int,
                    requested_length,
                ),
            decreases self.memory_map@.len() - self.index,
        {
            if self.index >= self.memory_map.len() {
                return None;
            }
            let entry = self.memory_map[self.index];
            assert(entry_wf(entry));
            if entry.entry_type == EntryType::Usable && entry.length >= requested_length
                && entry.length > 0 {
                let start_address = entry.base;
                let new_entry = Entry {
                    base: entry.base + requested_length,
                    length: entry.length - requested_length,
                    entry_type: entry.entry_type,
                };
                assert(new_entry.base % 4096 == 0 && new_entry.length % 4096 == 0) by {
                    vstd::arithmetic::div_mod::lemma_mod_multiples_basic(count as int, 4096);
                    vstd::arithmetic::div_mod::lemma_add_mod_noop(
                        entry.base as int,
                        requested_length as int,
                        4096,
                    );
                    vstd::arithmetic::div_mod::lemma_sub_mod_noop(
                        entry.length as int,
                        requested_length as int,
                        4096,
                    );
                }
                self.memory_map.set(self.index, new_entry);
                proof {
                    assert forall|i: int| 0 <= i < self.memory_map@.len() implies entry_wf(
                        #[trigger] self.memory_map@[i],
                    ) by {
                        if i != self.index {
                            assert(self.memory_map@[i] == old(self).spec_map()[i]);
                        }
                    }
                }
                return Some(PhysAddr::new(start_address));
            }
            self.index = self.index + 1;
        }
    }

    /// The entries, as the allocator has shrunk them.
    pub fn into_memory_map(self) -> (r: Vec<Entry>)
        ensures
            r@ == self.spec_map(),
    {
        self.memory_map
    }

    /// The entries, as the allocator has shrunk them.
    pub fn memory_map(&self) -> (r: &[Entry])
        ensures
            r@ == self.spec_map(),
    {
        self.memory_map.as_slice()
    }
}

} // verus!
