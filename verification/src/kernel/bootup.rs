//! Loading the boot process: its program segments, its stack and the map
//! of untyped memory, in an address space of its own.
//!
//! The loader maps each page it needs to a fresh user frame and records
//! the bytes to write into each frame; the caller writes them through the
//! direct map of physical memory.
use vstd::prelude::*;

use core::ops::Range;

use super::bump_allocator::{next_untyped, BumpAllocator, MAX_FRAMES};
use super::exec::Process;
use super::frames::RawFrame;
use super::page_table::{
    empty_table, huge_on_walk, keeps_entries, lemma_empty_lower_half, lemma_kept_walk,
    lemma_keeps_trans, lemma_user_tree_path_ok, map_sound, tables_typed, user_tree, mapped_frame, memory_wf, walk, Addrspace, AnyPageTable, PageTableFlags,
    PageTableMemory,
    NO_EXECUTE, PRESENT, USER_ACCESSIBLE, WRITABLE,
};
use super::retyping::{lemma_untyped_entry, RetypeTable, State};
use crate::addr::{is_canonical, Page, PhysAddr, VirtAddr, VIRT_SIGN_BIT};
use crate::loader::{
    all_planned, lemma_page_window, load_failure, loadable, page_count, page_dest_offset,
    page_source_end, page_source_start, program_parse, range_len, ElfError, Loader, MemFlags,
    Program, SegmentLoadError,
};

verus! {

/// Why a range could not be loaded.
#[derive(Debug, Clone, Copy, PartialEq, Eq, Structural)]
pub enum LoadError {
    InvalidVirtualRange,
    BadMemoryFlags,
    FileRangeLargerThanVirtualRange,
    /// No user frame was left.
    OutOfFrames,
    /// The page could not be mapped.
    Mapping,
}

/// Bytes to write into a frame, from `offset` on; `None` leaves a byte as
/// it is.
#[derive(Debug)]
pub struct PageWrite {
    pub frame: RawFrame,
    pub offset: usize,
    pub bytes: Vec<Option<u8>>,
}

/// The page-table flags for a page of protection `rwx`: present only when
/// no access is asked for, else present, user accessible, writable as
/// asked and not executable unless asked; `None` for a page that would not
/// be readable.
pub open spec fn page_flags(rwx: u8) -> Option<u64> {
    if rwx == 0 {
        Some(PRESENT)
    } else if !(rwx & 1 == 1) {
        None
    } else {
        let f = PRESENT | USER_ACCESSIBLE;
        let f = if rwx & 2 == 2 {
            f | WRITABLE
        } else {
            f
        };
        Some(
            if !(rwx & 4 == 4) {
                f | NO_EXECUTE
            } else {
                f
            },
        )
    }
}

/// The flags of a page follow its protection: a readable page is present
/// and user accessible, writable exactly when writes are asked for, and
/// not executable exactly when execution is not asked for; a protection
/// that asks for something but not reads gets no flags, and an empty one
/// gives a page that is only present.
pub proof fn lemma_page_flags_follow_protection(rwx: u8)
    ensures
        rwx & 1 == 1 ==> (page_flags(rwx) matches Some(f) && f & PRESENT == PRESENT && f
            & USER_ACCESSIBLE == USER_ACCESSIBLE && (f & WRITABLE == WRITABLE <==> rwx & 2 == 2)
            && (f & NO_EXECUTE == NO_EXECUTE <==> !(rwx & 4 == 4))),
        rwx != 0 && !(rwx & 1 == 1) ==> page_flags(rwx) is None,
        rwx == 0 ==> page_flags(rwx) == Some(PRESENT),
{
    assert({
        let a = PRESENT | USER_ACCESSIBLE;
        let b = a | WRITABLE;
        let c = a | NO_EXECUTE;
        let d = b | NO_EXECUTE;
        &&& 0u8 & 1u8 != 1u8
        &&& a & PRESENT == PRESENT && a & USER_ACCESSIBLE == USER_ACCESSIBLE && a & WRITABLE
            != WRITABLE && a & NO_EXECUTE != NO_EXECUTE
        &&& b & PRESENT == PRESENT && b & USER_ACCESSIBLE == USER_ACCESSIBLE && b & WRITABLE
            == WRITABLE && b & NO_EXECUTE != NO_EXECUTE
        &&& c & PRESENT == PRESENT && c & USER_ACCESSIBLE == USER_ACCESSIBLE && c & WRITABLE
            != WRITABLE && c & NO_EXECUTE == NO_EXECUTE
        &&& d & PRESENT == PRESENT && d & USER_ACCESSIBLE == USER_ACCESSIBLE && d & WRITABLE
            == WRITABLE && d & NO_EXECUTE == NO_EXECUTE
    }) by (bit_vector);
    if rwx == 0 {
        assert(!(rwx & 1 == 1));
    }
}

/// The flags of a page always hold the present bit, so they are not zero.
proof fn lemma_page_flags_nonzero(rwx: u8)
    ensures
        page_flags(rwx) matches Some(f) ==> f != 0,
{
    assert(1u64 != 0 && (1u64 | 4u64) != 0 && ((1u64 | 4u64) | 2u64) != 0 && ((1u64 | 4u64)
        | 0x8000_0000_0000_0000u64) != 0 && (((1u64 | 4u64) | 2u64) | 0x8000_0000_0000_0000u64)
        != 0) by (bit_vector);
}

/// Page `p` lies in the upper half of the address space.
pub open spec fn upper_page(p: int) -> bool {
    p * 4096 >= VIRT_SIGN_BIT
}

/// The flags of the tables above a mapped page: the least restrictive, as
/// they serve many pages.
pub open spec fn parent_flags() -> u64 {
    PRESENT | WRITABLE | USER_ACCESSIBLE
}

/// Loads ranges into the address space of the boot process.
pub struct BootstrapLoader {
    address_space: Addrspace,
    fallocator: BumpAllocator,
    retype: RetypeTable,
    tables: PageTableMemory,
    writes: Vec<PageWrite>,
}

impl BootstrapLoader {
    /// The state the loader works on is consistent.
    #[verifier::type_invariant]
    spec fn inv(&self) -> bool {
        &&& self.retype.wf()
        &&& self.retype@.len() < MAX_FRAMES
        &&& self.fallocator.spec_index() <= self.retype@.len()
        &&& memory_wf(self.tables@)
        &&& tables_typed(self.tables@, self.retype@)
        &&& user_tree(self.tables@, self.address_space.spec_l4())
    }

    /// The root table of the address space.
    pub closed spec fn spec_l4(&self) -> u64 {
        self.address_space.spec_l4()
    }

    /// The page tables.
    pub closed spec fn spec_tables(&self) -> Map<u64, Seq<u64>> {
        self.tables@
    }

    /// The retype table.
    pub closed spec fn spec_retype(&self) -> Seq<u16> {
        self.retype@
    }

    /// The frame of the root table.
    pub fn l4_frame(&self) -> (r: RawFrame)
        ensures
            r@ == self.spec_l4(),
    {
        self.address_space.l4_frame()
    }

    /// The index of the next frame the frame allocator tries.
    pub closed spec fn spec_alloc_index(&self) -> u64 {
        self.fallocator.spec_index()
    }

    /// The bytes to write, in order.
    pub closed spec fn spec_writes(&self) -> Seq<PageWrite> {
        self.writes@
    }

    /// A loader into the address space `address_space`, taking frames with
    /// `fallocator`.
    pub fn new(
        address_space: Addrspace,
        fallocator: BumpAllocator,
        retype: RetypeTable,
        tables: PageTableMemory,
    ) -> (r: Self)
        requires
            retype.wf(),
            retype@.len() < MAX_FRAMES,
            fallocator.spec_index() <= retype@.len(),
            memory_wf(tables@),
            tables_typed(tables@, retype@),
            user_tree(tables@, address_space.spec_l4()),
        ensures
            r.spec_l4() == address_space.spec_l4(),
            r.spec_tables() == tables@,
            r.spec_retype() == retype@,
            r.spec_writes() == Seq::<PageWrite>::empty(),
    {
        Self { address_space, fallocator, retype, tables, writes: Vec::new() }
    }

    /// The frame allocator, the retype table, the page tables and the bytes
    /// to write.
    pub fn into_parts(self) -> (r: (BumpAllocator, RetypeTable, PageTableMemory, Vec<PageWrite>))
        ensures
            r.0.spec_index() <= r.1@.len(),
            r.1@.len() < MAX_FRAMES,
            r.1.wf(),
            r.1@ == self.spec_retype(),
            r.2@ == self.spec_tables(),
            memory_wf(r.2@),
            r.3@ == self.spec_writes(),
            tables_typed(r.2@, r.1@),
            user_tree(r.2@, self.spec_l4()),
    {
        proof {
            use_type_invariant(&self);
        }
        (self.fallocator, self.retype, self.tables, self.writes)
    }

    /// Takes the frame allocator, the retype table and the page tables out,
    /// leaving a fresh allocator, an empty retype table and tables that hold
    /// only an empty root.
    fn take_state(&mut self) -> (r: (BumpAllocator, RetypeTable, PageTableMemory))
        ensures
            r.0.spec_index() <= r.1@.len(),
            r.1.wf(),
            r.1@ == old(self).spec_retype(),
            r.1@.len() < MAX_FRAMES,
            r.2@ == old(self).spec_tables(),
            memory_wf(r.2@),
            tables_typed(r.2@, r.1@),
            user_tree(r.2@, old(self).spec_l4()),
            r.0.spec_index() == old(self).spec_alloc_index(),
            final(self).spec_l4() == old(self).spec_l4(),
            final(self).spec_writes() == old(self).spec_writes(),
    {
        proof {
            use_type_invariant(&*self);
        }
        let l4 = self.address_space.l4_frame();
        let mut tables = PageTableMemory::new();
        let root = AnyPageTable::new();
        tables.write_table(l4.base().as_u64(), root);
        proof {
            assert(tables@[l4@] == empty_table());
            lemma_empty_lower_half(tables@, l4@);
            assert forall|k: u64| #[trigger] tables@.contains_key(k) implies tables@[k].len() == 512 by {}
        }
        let mut other = BootstrapLoader {
            address_space: self.address_space,
            fallocator: BumpAllocator::new(),
            retype: RetypeTable::unavailable(0),
            tables,
            writes: Vec::new(),
        };
        core::mem::swap(self, &mut other);
        proof {
            use_type_invariant(&other);
        }
        let BootstrapLoader { address_space: _, fallocator, retype, tables, writes } = other;
        self.writes = writes;
        (fallocator, retype, tables)
    }

    /// Appends `w` to the bytes to write.
    fn record(&mut self, w: PageWrite)
        ensures
            final(self).spec_writes() == old(self).spec_writes().push(w),
            final(self).spec_retype() == old(self).spec_retype(),
            final(self).spec_tables() == old(self).spec_tables(),
            final(self).spec_l4() == old(self).spec_l4(),
    {
        proof {
            use_type_invariant(&*self);
        }
        let mut writes: Vec<PageWrite> = Vec::new();
        core::mem::swap(&mut self.writes, &mut writes);
        writes.push(w);
        core::mem::swap(&mut self.writes, &mut writes);
    }

    /// Puts the state back.
    fn put_state(&mut self, fallocator: BumpAllocator, retype: RetypeTable, tables: PageTableMemory)
        requires
            fallocator.spec_index() <= retype@.len(),
            retype.wf(),
            retype@.len() < MAX_FRAMES,
            memory_wf(tables@),
            tables_typed(tables@, retype@),
            user_tree(tables@, old(self).spec_l4()),
        ensures
            final(self).spec_retype() == retype@,
            final(self).spec_tables() == tables@,
            final(self).spec_alloc_index() == fallocator.spec_index(),
            final(self).spec_l4() == old(self).spec_l4(),
            final(self).spec_writes() == old(self).spec_writes(),
    {
        proof {
            use_type_invariant(&*self);
        }
        let mut writes: Vec<PageWrite> = Vec::new();
        core::mem::swap(&mut self.writes, &mut writes);
        *self = BootstrapLoader { address_space: self.address_space, fallocator, retype, tables, writes };
    }

    fn flags_for(rwx: MemFlags) -> (r: Option<PageTableFlags>)
        ensures
            match page_flags(rwx@) {
                Some(f) => r is Some && r->0@ == f,
                None => r is None,
            },
    {
        if rwx.bits() == 0 {
            return Some(PageTableFlags::present());
        }
        if !rwx.readable() {
            return None;
        }
        let mut pflags = PageTableFlags::present().union(PageTableFlags::user_accessible());
        if rwx.writeable() {
            pflags = pflags.union(PageTableFlags::writable());
        }
        if !rwx.executable() {
            pflags = pflags.union(PageTableFlags::no_execute());
        }
        Some(pflags)
    }

    fn parent() -> (r: PageTableFlags)
        ensures
            r@ == parent_flags(),
    {
        PageTableFlags::present().union(PageTableFlags::writable()).union(
            PageTableFlags::user_accessible(),
        )
    }

    /// Maps `page` to a fresh user frame with the flags for `rwx`, and gives
    /// the frame. A page of the upper half is refused: that half of the root
    /// table is the kernel's, shared with every address space.
    pub fn request_page(&mut self, page: Page, rwx: MemFlags) -> (r: Result<RawFrame, LoadError>)
        ensures
            final(self).spec_l4() == old(self).spec_l4(),
            final(self).spec_writes() == old(self).spec_writes(),
            final(self).spec_retype().len() == old(self).spec_retype().len(),
            page_flags(rwx@) is None <==> r == Err::<RawFrame, _>(LoadError::BadMemoryFlags),
            r == Err::<RawFrame, _>(LoadError::InvalidVirtualRange) <==> (page_flags(rwx@) is Some
                && page@ >= VIRT_SIGN_BIT),
            r is Err && !(r->Err_0 is Mapping) ==> final(self).spec_tables() == old(self).spec_tables()
                && final(self).spec_retype() == old(self).spec_retype(),
            r is Err && !(r->Err_0 is Mapping) && !(r->Err_0 is OutOfFrames)
                ==> final(self).spec_alloc_index() == old(self).spec_alloc_index(),
            r == Err::<RawFrame, _>(LoadError::OutOfFrames) <==> (page_flags(rwx@) is Some
                && page@ < VIRT_SIGN_BIT && next_untyped(
                old(self).spec_retype(),
                old(self).spec_alloc_index() as nat,
            ) >= old(self).spec_retype().len()),
            r is Err ==> r->Err_0 is BadMemoryFlags || r->Err_0 is InvalidVirtualRange
                || r->Err_0 is OutOfFrames || r->Err_0 is Mapping,
            r == Err::<RawFrame, _>(LoadError::Mapping) ==> mapped_frame(
                walk(old(self).spec_tables(), old(self).spec_l4(), page@, 4),
            ) is Some || huge_on_walk(old(self).spec_tables(), old(self).spec_l4(), page@)
                || final(self).spec_alloc_index() == final(self).spec_retype().len(),
            r matches Ok(f) ==> f@ == next_untyped(old(self).spec_retype(), old(self).spec_alloc_index() as nat) * 4096,
            r matches Ok(f) ==> f@ % 4096 == 0 && f@ / 4096 < old(self).spec_retype().len()
                && old(self).spec_retype()[(f@ / 4096) as int] == super::retyping::entry_value(
                State::Untyped,
                0,
            ),
            r matches Ok(f) ==> walk(final(self).spec_tables(), old(self).spec_l4(), page@, 4) == Some(
                (f@, page_flags(rwx@)->0),
            ),
            keeps_entries(old(self).spec_tables(), final(self).spec_tables()),
    {
        proof {
            use_type_invariant(&*self);
        }
        let pflags = match Self::flags_for(rwx) {
            Some(f) => f,
            None => {
                return Err(LoadError::BadMemoryFlags);
            },
        };
        if page.base().as_u64() >= VIRT_SIGN_BIT {
            return Err(LoadError::InvalidVirtualRange);
        }
        let (mut fallocator, mut retype, mut tables) = self.take_state();
        let ghost retype0 = retype@;
        let frame = match fallocator.alloc_user_frame(&mut retype) {
            Some(f) => f.into_raw(),
            None => {
                self.put_state(fallocator, retype, tables);
                return Err(LoadError::OutOfFrames);
            },
        };
        proof {
            let j = fallocator.spec_index() as int;
            assert forall|k: u64| #[trigger] tables@.contains_key(k) && super::retyping::frame_index(k) < retype@.len()
                implies !super::bump_allocator::retypable(retype@[super::retyping::frame_index(k)]) by {
                if super::retyping::frame_index(k) != j {
                    assert(retype@[super::retyping::frame_index(k)] == retype0[super::retyping::frame_index(k)]);
                }
            }
            assert((j * 4096) % 4096 == 0) by {
                vstd::arithmetic::div_mod::lemma_mod_multiples_basic(j, 4096);
            }
            assert((j * 4096) / 4096 == j) by {
                vstd::arithmetic::div_mod::lemma_div_multiples_vanish(j, 4096);
            }
            lemma_user_tree_path_ok(tables@, self.spec_l4(), page@);
        }
        let parent = Self::parent();
        proof {
            lemma_page_flags_nonzero(rwx@);
        }
        let result = self.address_space.map_to(
            page,
            frame,
            pflags,
            parent,
            &mut fallocator,
            &mut retype,
            &mut tables,
        );
        self.put_state(fallocator, retype, tables);
        match result {
            Ok(()) => Ok(frame),
            Err(_) => Err(LoadError::Mapping),
        }
    }

    /// Maps `page` to `frame` with `flags`. A page of the upper half is
    /// refused, as by `request_page`.
    pub fn map_page(&mut self, page: Page, frame: RawFrame, flags: PageTableFlags) -> (r: Result<
        (),
        LoadError,
    >)
        ensures
            final(self).spec_l4() == old(self).spec_l4(),
            final(self).spec_writes() == old(self).spec_writes(),
            final(self).spec_retype().len() == old(self).spec_retype().len(),
            r is Ok && frame@ % 4096 == 0 && flags@ != 0 ==> walk(
                final(self).spec_tables(),
                old(self).spec_l4(),
                page@,
                4,
            ) == Some((frame@, flags@)),
            r == Err::<(), LoadError>(LoadError::InvalidVirtualRange) <==> page@ >= VIRT_SIGN_BIT,
            r is Err ==> r == Err::<(), LoadError>(LoadError::Mapping) || r == Err::<(), LoadError>(
                LoadError::InvalidVirtualRange,
            ),
            keeps_entries(old(self).spec_tables(), final(self).spec_tables()),
            r == Err::<(), LoadError>(LoadError::Mapping) ==> mapped_frame(
                walk(old(self).spec_tables(), old(self).spec_l4(), page@, 4),
            ) is Some || huge_on_walk(old(self).spec_tables(), old(self).spec_l4(), page@)
                || final(self).spec_alloc_index() == final(self).spec_retype().len(),
    {
        proof {
            use_type_invariant(&*self);
        }
        if page.base().as_u64() >= VIRT_SIGN_BIT {
            return Err(LoadError::InvalidVirtualRange);
        }
        let (mut fallocator, mut retype, mut tables) = self.take_state();
        proof {
            lemma_user_tree_path_ok(tables@, self.spec_l4(), page@);
        }
        let parent = Self::parent();
        let result = self.address_space.map_to(
            page,
            frame,
            flags,
            parent,
            &mut fallocator,
            &mut retype,
            &mut tables,
        );
        self.put_state(fallocator, retype, tables);
        match result {
            Ok(()) => Ok(()),
            Err(_) => Err(LoadError::Mapping),
        }
    }
}

impl Loader for BootstrapLoader {
    type Error = LoadError;

    /// Loads each page of `at` in turn into a fresh user frame: the write
    /// recorded for a page holds the source bytes of the part of `at` in
    /// that page, from where that part begins in it.
    fn load_with<F: Fn(usize) -> Option<u8>>(&mut self, at: Range<usize>, source: F, rwx: MemFlags) -> (r:
        Result<(), LoadError>)
        ensures
            final(self).spec_l4() == old(self).spec_l4(),
            final(self).spec_retype().len() == old(self).spec_retype().len(),
            old(self).spec_writes().len() <= final(self).spec_writes().len(),
            forall|k: int| 0 <= k < old(self).spec_writes().len() ==> #[trigger] final(self).spec_writes()[k]
                == old(self).spec_writes()[k],
            forall|k: int| old(self).spec_writes().len() <= k < final(self).spec_writes().len()
                ==> #[trigger] final(self).spec_writes()[k].offset + final(self).spec_writes()[k].bytes@.len() <= 4096,
            r is Ok ==> final(self).spec_writes().len() == old(self).spec_writes().len() + page_count(at),
            r is Ok ==> forall|k: int| 0 <= k < page_count(at) ==> {
                let p = at.start / 4096 + k;
                let w = #[trigger] final(self).spec_writes()[old(self).spec_writes().len() + k];
                &&& w.offset == page_dest_offset(at, p)
                &&& w.bytes@.len() == page_source_end(at, p) - page_source_start(at, p)
                &&& forall|j: int| 0 <= j < w.bytes@.len() ==> call_ensures(
                    source,
                    ((page_source_start(at, p) + j) as usize,),
                    #[trigger] w.bytes@[j],
                )
            },
            page_flags(rwx@) is None && page_count(at) > 0 ==> r is Err,
            page_count(at) == 0 ==> r is Ok,
            r matches Err(LoadError::InvalidVirtualRange) ==> exists|p: int|
                at.start / 4096 <= p < crate::loader::end_page(at) && #[trigger] upper_page(p),
            r is Ok ==> forall|k: int|
                0 <= k < page_count(at) ==> walk(
                    final(self).spec_tables(),
                    old(self).spec_l4(),
                    ((at.start / 4096 + k) * 4096) as u64,
                    4,
                ) == Some(
                    (
                        (#[trigger] final(self).spec_writes()[old(self).spec_writes().len() + k]).frame@,
                        page_flags(rwx@)->0,
                    ),
                ),
            keeps_entries(old(self).spec_tables(), final(self).spec_tables()),
            r matches Err(LoadError::BadMemoryFlags) ==> page_flags(rwx@) is None,
            r matches Err(e) ==> e is InvalidVirtualRange || e is BadMemoryFlags || e is OutOfFrames
                || e is Mapping,
    {
        let ghost n0 = self.writes@.len();
        let ghost writes0 = self.writes@;
        let ghost tables0 = self.spec_tables();
        let at_len: usize = if at.end >= at.start {
            at.end - at.start
        } else {
            0
        };
        let start_page = at.start / 4096;
        let last_page = at.end / 4096 + if at.end % 4096 != 0 {
            1
        } else {
            0
        };
        let mut offset: usize = 0;
        let mut page_index = start_page;
        while page_index < last_page
            invariant
                offset <= at_len,
                at_len == range_len(at),
                start_page == at.start / 4096,
                last_page == crate::loader::end_page(at),
                start_page <= page_index,
                page_index < last_page ==> offset == page_source_start(at, page_index as int),
                page_index >= last_page ==> page_index == start_page || page_index == last_page,
                forall|i: usize| source.requires((i,)),
                last_page <= usize::MAX / 4096 + 1,
                page_flags(rwx@) is None ==> page_index == start_page,
                self.spec_l4() == old(self).spec_l4(),
                self.spec_retype().len() == old(self).spec_retype().len(),
                n0 == old(self).spec_writes().len(),
                writes0 == old(self).spec_writes(),
                self.spec_writes().len() == n0 + (page_index - start_page),
                forall|k: int| 0 <= k < n0 ==> #[trigger] self.spec_writes()[k] == writes0[k],
                tables0 == old(self).spec_tables(),
                keeps_entries(tables0, self.spec_tables()),
                forall|k: int|
                    0 <= k < page_index - start_page ==> walk(
                        self.spec_tables(),
                        self.spec_l4(),
                        ((at.start / 4096 + k) * 4096) as u64,
                        4,
                    ) == Some(((#[trigger] self.spec_writes()[n0 + k]).frame@, page_flags(rwx@)->0)),
                forall|k: int| n0 <= k < self.spec_writes().len()
                    ==> #[trigger] self.spec_writes()[k].offset + self.spec_writes()[k].bytes@.len() <= 4096,
                forall|k: int| 0 <= k < page_index - start_page ==> {
                    let p = at.start / 4096 + k;
                    let w = #[trigger] self.spec_writes()[n0 + k];
                    &&& w.offset == page_dest_offset(at, p)
                    &&& w.bytes@.len() == page_source_end(at, p) - page_source_start(at, p)
                    &&& forall|j: int| 0 <= j < w.bytes@.len() ==> call_ensures(
                        source,
                        ((page_source_start(at, p) + j) as usize,),
                        #[trigger] w.bytes@[j],
                    )
                },
            decreases last_page - page_index,
        {
            proof {
                lemma_page_window(at, page_index as int);
            }
            let page = match Page::from_index(page_index) {
                Ok(p) => p,
                Err(_) => {
                    proof {
                        let p = page_index as int;
                        assert(at.start / 4096 <= p < crate::loader::end_page(at) && upper_page(p));
                    }
                    return Err(LoadError::InvalidVirtualRange);
                },
            };
            let ghost tables_before = self.spec_tables();
            proof {
                use_type_invariant(&*self);
            }
            let frame = match self.request_page(page, rwx) {
                Ok(f) => f,
                Err(e) => {
                    proof {
                        lemma_keeps_trans(tables0, tables_before, self.spec_tables());
                        if e is InvalidVirtualRange {
                            assert(upper_page(page_index as int));
                        }
                    }
                    return Err(e);
                },
            };
            proof {
                lemma_keeps_trans(tables0, tables_before, self.spec_tables());
                assert forall|k: int| 0 <= k < page_index - start_page implies walk(
                    self.spec_tables(),
                    self.spec_l4(),
                    ((at.start / 4096 + k) * 4096) as u64,
                    4,
                ) == Some(((#[trigger] self.spec_writes()[n0 + k]).frame@, page_flags(rwx@)->0)) by {
                    lemma_kept_walk(
                        tables_before,
                        self.spec_tables(),
                        self.spec_l4(),
                        ((at.start / 4096 + k) * 4096) as u64,
                        4,
                    );
                }
            }
            let dest_start = (at.start + offset) % 4096;
            let room = 4096 - dest_start;
            let left = at_len - offset;
            let count = if room < left {
                room
            } else {
                left
            };
            let mut bytes: Vec<Option<u8>> = Vec::new();
            let mut k: usize = 0;
            while k < count
                invariant
                    k <= count,
                    count <= at_len - offset,
                    offset <= at_len,
                    bytes@.len() == k,
                    forall|i: usize| source.requires((i,)),
                    forall|j: int| 0 <= j < k ==> call_ensures(
                        source,
                        ((offset + j) as usize,),
                        #[trigger] bytes@[j],
                    ),
                decreases count - k,
            {
                bytes.push(source(offset + k));
                k = k + 1;
            }
            let ghost before = self.spec_writes();
            let w = PageWrite { frame, offset: dest_start, bytes };
            self.record(w);
            proof {
                assert(self.spec_writes()[n0 + (page_index - start_page)] == w);
                assert forall|kk: int| 0 <= kk < page_index + 1 - start_page implies {
                    let p = at.start / 4096 + kk;
                    let w = #[trigger] self.spec_writes()[n0 + kk];
                    &&& w.offset == page_dest_offset(at, p)
                    &&& w.bytes@.len() == page_source_end(at, p) - page_source_start(at, p)
                    &&& forall|j: int| 0 <= j < w.bytes@.len() ==> call_ensures(
                        source,
                        ((page_source_start(at, p) + j) as usize,),
                        #[trigger] w.bytes@[j],
                    )
                } by {
                    if kk < page_index - start_page {
                        assert(self.spec_writes()[n0 + kk] == before[n0 + kk]);
                    }
                }
                assert forall|kk: int| 0 <= kk < page_index + 1 - start_page implies walk(
                    self.spec_tables(),
                    self.spec_l4(),
                    ((at.start / 4096 + kk) * 4096) as u64,
                    4,
                ) == Some(((#[trigger] self.spec_writes()[n0 + kk]).frame@, page_flags(rwx@)->0)) by {
                    if kk < page_index - start_page {
                        assert(self.spec_writes()[n0 + kk] == before[n0 + kk]);
                    }
                }
            }
            offset = offset + count;
            page_index = page_index + 1;
        }
        Ok(())
    }

    /// Releasing a range is not supported while booting; nothing changes.
    fn unload(&mut self, vrange: Range<usize>)
        ensures
            final(self).spec_l4() == old(self).spec_l4(),
            final(self).spec_tables() == old(self).spec_tables(),
            final(self).spec_retype() == old(self).spec_retype(),
            final(self).spec_writes() == old(self).spec_writes(),
    {
    }
}

/// Why the boot process could not be set up.
#[derive(Debug)]
pub enum BootError {
    /// The program is not a loadable ELF file.
    Elf(ElfError),
    /// No frame was left for the root table.
    NoRootFrame,
    /// The root table's frame could not be typed as kernel memory.
    RootFrame,
    /// A segment could not be loaded.
    Segment(SegmentLoadError<LoadError>),
    /// The stack would start below address 0.
    StackRange,
    /// The stack or the untyped memory could not be mapped.
    Mapping(LoadError),
}

/// Loading a page-aligned range of `n` whole pages goes through exactly
/// those pages, each written whole from its start.
proof fn lemma_aligned_range(r: Range<usize>, n: int)
    requires
        r.start % 4096 == 0,
        n >= 0,
        r.end == r.start + n * 4096,
    ensures
        page_count(r) == n,
        range_len(r) == n * 4096,
        forall|p: int|
            r.start / 4096 <= p < r.start / 4096 + n ==> #[trigger] page_dest_offset(r, p) == 0
                && page_source_end(r, p) - page_source_start(r, p) == 4096,
{
    let s = r.start / 4096;
    vstd::arithmetic::div_mod::lemma_fundamental_div_mod(r.start as int, 4096);
    assert(r.end == (s + n) * 4096) by (nonlinear_arith)
        requires
            r.end == r.start + n * 4096,
            r.start == 4096 * s,
    ;
    vstd::arithmetic::div_mod::lemma_mod_multiples_basic(s + n, 4096);
    vstd::arithmetic::div_mod::lemma_div_multiples_vanish(s + n, 4096);
    assert forall|p: int| s <= p < s + n implies #[trigger] page_dest_offset(r, p) == 0
        && page_source_end(r, p) - page_source_start(r, p) == 4096 by {
        assert(p * 4096 - r.start == (p - s) * 4096 && (p + 1) * 4096 - r.start == (p - s) * 4096
            + 4096 && 0 <= (p - s) * 4096 && (p - s) * 4096 + 4096 <= n * 4096) by (nonlinear_arith)
            requires
                r.start == 4096 * s,
                s <= p < s + n,
        ;
    }
}

/// The stack's protection, read and write, gives page flags.
proof fn lemma_stack_flags()
    ensures
        (0u8 | (1u8 & 7u8)) | (2u8 & 7u8) == 3u8,
        page_flags(3u8) == Some(((PRESENT | USER_ACCESSIBLE) | WRITABLE) | NO_EXECUTE),
{
    assert((0u8 | (1u8 & 7u8)) | (2u8 & 7u8) == 3u8 && 3u8 & 1u8 == 1u8 && 3u8 & 2u8 == 2u8 && 3u8
        & 4u8 != 4u8) by (bit_vector);
}

impl Process {
    /// Sets up the boot process from the ELF file `program` (whose bytes lie
    /// at `address`): its own root table sharing the kernel half of the
    /// table at `kernel_l4`, its segments, `stack_pages` pages of stack just
    /// below `untyped_memory_offset`, and untyped memory from physical
    /// address 0 mapped at `untyped_memory_offset` for
    /// `untyped_memory_length` bytes. Gives the process and the loader with
    /// its state and the bytes to write.
    pub fn load(
        program: &[u8],
        address: usize,
        stack_pages: usize,
        untyped_memory_offset: usize,
        untyped_memory_length: usize,
        retype: RetypeTable,
        tables: PageTableMemory,
        kernel_l4: u64,
    ) -> (r: Result<(Process, BootstrapLoader), BootError>)
        requires
            untyped_memory_offset % 4096 == 0,
            untyped_memory_length % 4096 == 0,
            untyped_memory_offset + untyped_memory_length <= 0x0000_8000_0000_0000,
            untyped_memory_offset + untyped_memory_length <= usize::MAX,
            retype.wf(),
            retype@.len() < MAX_FRAMES,
            memory_wf(tables@),
            tables_typed(tables@, retype@),
        ensures
            r matches Ok((p, l)) ==> p.rsp == untyped_memory_offset && p.l4_table@ == l.spec_l4(),
            match program_parse(program@, address) {
                Err(e) => r matches Err(BootError::Elf(e2)) && e2 == e,
                Ok((h, phdrs)) => {
                    &&& r matches Ok((p, l)) ==> p.entry == h.entry && all_planned::<LoadError>(
                        program@.len(),
                        loadable(phdrs),
                    )
                    &&& r matches Err(BootError::Segment(e)) ==> load_failure::<LoadError>(
                        program@.len(),
                        loadable(phdrs),
                        e,
                    )
                    &&& !(r matches Err(BootError::Elf(_)))
                },
            },
            (r matches Err(BootError::NoRootFrame)) <==> (program_parse(program@, address) is Ok
                && next_untyped(retype@, 0) >= retype@.len()),
            !(r matches Err(BootError::RootFrame)),
            (r matches Err(BootError::StackRange)) <==> (stack_pages * 4096 > untyped_memory_offset
                && !(r matches Err(BootError::Elf(_))) && !(r matches Err(BootError::NoRootFrame))
                && !(r matches Err(BootError::Segment(_)))),
            r matches Err(BootError::Mapping(e)) ==> e is OutOfFrames || e is Mapping,
            r matches Err(BootError::Mapping(e)) ==> stack_pages > 0 || (e is Mapping
                && untyped_memory_length > 0),
            r matches Ok((p, l)) ==> l.spec_writes().len() >= stack_pages && forall|k: int|
                l.spec_writes().len() - stack_pages <= k < l.spec_writes().len() ==> (
                #[trigger] l.spec_writes()[k]).offset == 0 && l.spec_writes()[k].bytes@ == Seq::new(
                    4096,
                    |j: int| Some(0u8),
                ),
            r matches Ok((p, l)) ==> forall|i: int|
                0 <= i < untyped_memory_length / 4096 ==> #[trigger] walk(
                    l.spec_tables(),
                    l.spec_l4(),
                    ((untyped_memory_offset / 4096 + i) * 4096) as u64,
                    4,
                ) == Some(((i * 4096) as u64, PRESENT)),
            r matches Ok((p, l)) ==> forall|k: int|
                0 <= k < stack_pages ==> walk(
                    l.spec_tables(),
                    l.spec_l4(),
                    ((untyped_memory_offset / 4096 - stack_pages + k) * 4096) as u64,
                    4,
                ) == Some(
                    (
                        (#[trigger] l.spec_writes()[l.spec_writes().len() - stack_pages + k]).frame@,
                        ((PRESENT | USER_ACCESSIBLE) | WRITABLE) | NO_EXECUTE,
                    ),
                ),
    {
        let elf = match Program::new(program, address) {
            Ok(p) => p,
            Err(e) => {
                return Err(BootError::Elf(e));
            },
        };
        let mut fallocator = BumpAllocator::new();
        let mut retype = retype;
        let mut tables = tables;
        let l4_frame = match fallocator.alloc_untyped_frame(&retype) {
            Some(f) => f,
            None => {
                return Err(BootError::NoRootFrame);
            },
        };
        proof {
            let idx = super::retyping::frame_index(l4_frame@);
            lemma_untyped_entry(retype@[idx]);
        }
        let ghost tables_in = tables@;
        let ghost retype_in = retype@;
        match AnyPageTable::new_l4(l4_frame, &mut tables, &mut retype, kernel_l4) {
            Ok(_) => {},
            Err(_) => {
                return Err(BootError::RootFrame);
            },
        }
        proof {
            let idx = super::retyping::frame_index(l4_frame@);
            super::retyping::lemma_entry_round_trip(State::Kernel, 1);
            super::retyping::lemma_entry_round_trip(State::Untyped, 0);
            assert forall|k: u64| #[trigger] tables@.contains_key(k) && super::retyping::frame_index(k)
                < retype@.len() implies !super::bump_allocator::retypable(
                retype@[super::retyping::frame_index(k)],
            ) by {
                if k != l4_frame@ {
                    assert(tables_in.contains_key(k));
                    if super::retyping::frame_index(k) != idx {
                        assert(retype@[super::retyping::frame_index(k)] == retype_in[super::retyping::frame_index(k)]);
                    }
                }
            }
            assert forall|j: int| 0 <= j < 256 implies #[trigger] tables@[l4_frame@][j] == 0 by {}
            lemma_empty_lower_half(tables@, l4_frame@);
        }
        let mut loader = BootstrapLoader::new(Addrspace::from_frame(l4_frame), fallocator, retype, tables);
        let process = match elf.load(&mut loader) {
            Ok(p) => p,
            Err(e) => {
                return Err(BootError::Segment(e));
            },
        };
        let stack_top = untyped_memory_offset;
        let stack_size = match stack_pages.checked_mul(4096) {
            Some(s) => s,
            None => {
                return Err(BootError::StackRange);
            },
        };
        let stack_bottom = match stack_top.checked_sub(stack_size) {
            Some(b) => b,
            None => {
                return Err(BootError::StackRange);
            },
        };
        let stack_flags = MemFlags::empty().union(MemFlags::READ).union(MemFlags::WRITE);
        let stack_range = Range { start: stack_bottom, end: stack_top };
        let ghost n0 = loader.spec_writes().len();
        proof {
            lemma_stack_flags();
            lemma_aligned_range(stack_range, stack_pages as int);
        }
        let zero = |i: usize| -> (b: Option<u8>)
            ensures
                b == Some(0u8),
            { Some(0u8) };
        match loader.load_with(stack_range, zero, stack_flags) {
            Ok(()) => {},
            Err(e) => {
                proof {
                    if e is InvalidVirtualRange {
                        let p = choose|p: int|
                            stack_range.start / 4096 <= p < crate::loader::end_page(stack_range)
                                && #[trigger] upper_page(p);
                        assert(p * 4096 < 0x0000_8000_0000_0000) by (nonlinear_arith)
                            requires
                                p < stack_range.start / 4096 + stack_pages,
                                stack_range.start / 4096 * 4096 + stack_pages * 4096
                                    <= untyped_memory_offset,
                                untyped_memory_offset <= 0x0000_8000_0000_0000,
                        ;
                    }
                }
                return Err(BootError::Mapping(e));
            },
        }
        let ghost stack_writes = loader.spec_writes();
        let ghost stack_tables = loader.spec_tables();
        let ghost stack_flags_bits = ((PRESENT | USER_ACCESSIBLE) | WRITABLE) | NO_EXECUTE;
        proof {
            assert(stack_range.start / 4096 == untyped_memory_offset / 4096 - stack_pages) by {
                vstd::arithmetic::div_mod::lemma_fundamental_div_mod(untyped_memory_offset as int, 4096);
                assert(stack_range.start == (untyped_memory_offset / 4096 - stack_pages) * 4096) by (nonlinear_arith)
                    requires
                        stack_range.start == untyped_memory_offset - stack_pages * 4096,
                        untyped_memory_offset == 4096 * (untyped_memory_offset / 4096),
                ;
                vstd::arithmetic::div_mod::lemma_div_multiples_vanish(
                    untyped_memory_offset / 4096 - stack_pages,
                    4096,
                );
            }
        }
        proof {
            let len = stack_writes.len();
            assert forall|k: int| len - stack_pages <= k < len implies (#[trigger] stack_writes[k]).offset
                == 0 && stack_writes[k].bytes@ == Seq::new(4096, |j: int| Some(0u8)) by {
                let kk = k - n0;
                let pg = stack_range.start / 4096 + kk;
                let w = stack_writes[n0 + kk];
                assert(w.offset == page_dest_offset(stack_range, pg));
                assert forall|j: int| 0 <= j < w.bytes@.len() implies #[trigger] w.bytes@[j] == Some(0u8) by {
                    assert(call_ensures(
                        zero,
                        ((page_source_start(stack_range, pg) + j) as usize,),
                        w.bytes@[j],
                    ));
                }
                assert(w.bytes@ =~= Seq::new(4096, |j: int| Some(0u8)));
            }
        }
        let untyped_pages = untyped_memory_length / 4096;
        let untyped_start = untyped_memory_offset / 4096;
        proof {
            vstd::arithmetic::div_mod::lemma_fundamental_div_mod(untyped_memory_length as int, 4096);
            vstd::arithmetic::div_mod::lemma_fundamental_div_mod(untyped_memory_offset as int, 4096);
        }
        let l4 = loader.l4_frame();
        let mut i: usize = 0;
        #[verifier::loop_isolation(false)]
        while i < untyped_pages
            invariant
                loader.spec_l4() == l4@,
                loader.spec_writes() == stack_writes,
                stack_writes.len() >= stack_pages,
                forall|k: int| stack_writes.len() - stack_pages <= k < stack_writes.len() ==> (
                    #[trigger] stack_writes[k]).offset == 0 && stack_writes[k].bytes@ == Seq::new(
                        4096,
                        |j: int| Some(0u8),
                    ),
                untyped_start * 4096 + untyped_pages * 4096 <= 0x0000_8000_0000_0000,
                untyped_start <= untyped_memory_offset,
                untyped_pages <= untyped_memory_length,
                untyped_memory_offset + untyped_memory_length <= usize::MAX,
                i <= untyped_pages,
                program_parse(program@, address) is Ok,
                keeps_entries(stack_tables, loader.spec_tables()),
                forall|k: int|
                    0 <= k < stack_pages ==> walk(
                        loader.spec_tables(),
                        l4@,
                        ((untyped_memory_offset / 4096 - stack_pages + k) * 4096) as u64,
                        4,
                    ) == Some(((#[trigger] stack_writes[n0 + k]).frame@, stack_flags_bits)),
                forall|j: int|
                    0 <= j < i ==> #[trigger] walk(
                        loader.spec_tables(),
                        l4@,
                        ((untyped_start + j) * 4096) as u64,
                        4,
                    ) == Some(((j * 4096) as u64, PRESENT)),
            decreases untyped_pages - i,
        {
            assert((untyped_start + i) * 4096 + 4096 <= untyped_start * 4096 + untyped_pages * 4096
                && i * 4096 <= (untyped_start + i) * 4096) by (nonlinear_arith)
                requires
                    i < untyped_pages,
            ;
            let page = match Page::from_index(untyped_start + i) {
                Ok(p) => p,
                Err(_) => {
                    return Err(BootError::Mapping(LoadError::InvalidVirtualRange));
                },
            };
            let frame = match RawFrame::from_index(i as u64) {
                Ok(f) => f,
                Err(_) => {
                    return Err(BootError::Mapping(LoadError::InvalidVirtualRange));
                },
            };
            let ghost before = loader.spec_tables();
            proof {
                use_type_invariant(&loader);
            }
            let present = PageTableFlags::present();
            match loader.map_page(page, frame, present) {
                Ok(()) => {},
                Err(e) => {
                    return Err(BootError::Mapping(e));
                },
            }
            proof {
                lemma_keeps_trans(stack_tables, before, loader.spec_tables());
                assert forall|k: int| 0 <= k < stack_pages implies walk(
                    loader.spec_tables(),
                    l4@,
                    ((untyped_memory_offset / 4096 - stack_pages + k) * 4096) as u64,
                    4,
                ) == Some(((#[trigger] stack_writes[n0 + k]).frame@, stack_flags_bits)) by {
                    lemma_kept_walk(
                        before,
                        loader.spec_tables(),
                        l4@,
                        ((untyped_memory_offset / 4096 - stack_pages + k) * 4096) as u64,
                        4,
                    );
                }
                assert forall|j: int| 0 <= j < i + 1 implies #[trigger] walk(
                    loader.spec_tables(),
                    l4@,
                    ((untyped_start + j) * 4096) as u64,
                    4,
                ) == Some(((j * 4096) as u64, PRESENT)) by {
                    if j < i {
                        lemma_kept_walk(before, loader.spec_tables(), l4@, ((untyped_start + j) * 4096) as u64, 4);
                    }
                }
            }
            i = i + 1;
        }
        let p = Process {
            entry: process.entry(),
            rsp: untyped_memory_offset as u64,
            l4_table: l4,
        };
        Ok((p, loader))
    }
}

} // verus!
