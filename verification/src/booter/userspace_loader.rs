//! Loading a component from the boot component.
//!
//! Each page of the new component gets a fresh frame. The boot component
//! maps that frame into the component's tables, maps it once more at a
//! window page of its own and fills it through the window. The loader
//! decides which frame, which page-table syscalls and which bytes; the
//! caller makes the syscalls and writes the bytes, one page after the
//! other, in the order recorded.
use vstd::prelude::*;

use core::ops::Range;

use crate::addr::{is_canonical, Frame, Page, PhysAddr, VirtAddr, PHYS_ADDR_LIMIT};
use crate::loader::{
    lemma_page_window, page_count, page_dest_offset, page_source_end, page_source_start, range_len,
    Loader, MemFlags,
};
use crate::ops::paging::{PermissionMask, PERMISSION_EXECUTE, PERMISSION_WRITE};
use crate::userspace::addrspace::{
    action_mapping, map_walk, recorded_depth, unmap_walk, Addrspace, MapperError, Mapping, PageTableAllocator,
    PagingAction,
};
use crate::raw::CapId;
use crate::userspace::cap_management::{AllocationPlan, FrameAllocator, SelfCapabilityManager};
use crate::userspace::structures::{PageTable, PhysFrame};

verus! {

/// The first address of the window page.
pub const WINDOW_ADDRESS: u64 = 0x0000_4000_0000_1000;

/// The rights that a page of protection `rwx` is mapped with in the loaded
/// component: writes and execution as asked.
pub open spec fn user_mask(rwx: u8) -> usize {
    ((if rwx & 2 == 2 {
        PERMISSION_WRITE
    } else {
        0usize
    }) + (if rwx & 4 == 4 {
        PERMISSION_EXECUTE
    } else {
        0usize
    })) as usize
}

/// The rights of a page follow its protection: the write right is given
/// exactly when writes are asked for, the execute right exactly when
/// execution is asked for, and no other right is given.
pub proof fn lemma_user_mask_follows_protection(rwx: u8)
    ensures
        user_mask(rwx) < 4,
        user_mask(rwx) % 2 == 1 <==> rwx & 2 == 2,
        user_mask(rwx) / 2 == 1 <==> rwx & 4 == 4,
{
}

/// The record after clearing the window page, when the walk reaches it.
pub open spec fn after_unmap(ms: Seq<Mapping>, l4: crate::userspace::structures::PageTable, va: u64) -> Seq<Mapping> {
    match unmap_walk(ms, l4, va, 4) {
        Some(Some(i)) => ms.remove(i as int),
        _ => ms,
    }
}

/// The syscall that clears the window page, when it was mapped.
pub open spec fn window_unmap_action(
    ms: Seq<Mapping>,
    l4: crate::userspace::structures::PageTable,
    va: u64,
) -> Option<PagingAction> {
    match unmap_walk(ms, l4, va, 4) {
        Some(Some(i)) => Some(PagingAction::Unmap { table: ms[i as int].from, offset: ms[i as int].offset }),
        _ => None,
    }
}

/// Mapping a page of protection `rwx` at `page` in the component, or the
/// window page at `at`, finds `f` mapped there already, whatever frame was
/// to be mapped.
pub open spec fn mapped_on_the_way(
    target: Seq<Mapping>,
    target_l4: crate::userspace::structures::PageTable,
    page: u64,
    rwx: u8,
    window: Seq<Mapping>,
    window_l4: crate::userspace::structures::PageTable,
    at: u64,
    f: Frame,
) -> bool {
    ||| exists|g: Frame, acts: Seq<PagingAction>|
        map_walk(
            target,
            target_l4,
            page,
            4,
            g,
            PermissionMask::spec_from(user_mask(rwx)),
            PermissionMask::spec_from(3),
            acts,
            Some(f),
        )
    ||| exists|g: Frame, acts: Seq<PagingAction>|
        map_walk(
            window,
            window_l4,
            at,
            4,
            g,
            PermissionMask::spec_from(PERMISSION_WRITE),
            PermissionMask::spec_from(3),
            acts,
            Some(f),
        )
}

/// The physical frame at the address of `frame`, when that address lies
/// in the physical address space.
fn frame_of(frame: PhysFrame) -> (r: Option<Frame>)
    ensures
        match r {
            Some(f) => frame@ < PHYS_ADDR_LIMIT && f@ == frame@,
            None => frame@ >= PHYS_ADDR_LIMIT,
        },
{
    let addr = frame.addr();
    if addr as u64 >= PHYS_ADDR_LIMIT {
        return None;
    }
    Some(Frame::from_start_address(PhysAddr::new(addr as u64)))
}

/// One page of a loaded range: the fresh frame, to be retyped to user
/// memory; the syscalls that map it in the component; the syscalls that
/// move the window onto it; and the bytes to write through the window from
/// `offset` on (`None` leaves a byte as it is).
#[derive(Debug)]
pub struct PageLoad {
    pub frame: Frame,
    pub target: Vec<PagingAction>,
    pub window_unmap: Option<PagingAction>,
    pub window: Vec<PagingAction>,
    pub offset: usize,
    pub bytes: Vec<Option<u8>>,
}

/// Why a page could not be loaded.
#[derive(Debug, Clone, Copy, PartialEq, Eq, Structural)]
pub enum UserLoadError {
    /// The range would not be readable.
    NotReadable,
    /// An address space has no room left in its record of entries.
    RecordFull,
    /// The walk to the window page ends on an entry recorded as a table.
    WindowBlocked,
    /// The frame handed out lies beyond the physical address space.
    BadFrame,
    /// The page is mapped already, to this frame.
    AlreadyMapped(Frame),
    /// A page of the range is not a canonical address.
    InvalidVirtualRange,
}

/// Loads ranges into a component's address space from the boot component,
/// taking frames and page tables from `resources`.
pub struct UserspaceLoader<A: PageTableAllocator + FrameAllocator> {
    self_addrspace: Addrspace,
    other_addrspace: Addrspace,
    resources: A,
    loads: Vec<PageLoad>,
}

impl<A: PageTableAllocator + FrameAllocator> UserspaceLoader<A> {
    /// The root table of the loaded component.
    pub closed spec fn spec_target_l4(&self) -> crate::userspace::structures::PageTable {
        self.other_addrspace.spec_l4()
    }

    /// The entries set in the loaded component's tables.
    pub closed spec fn spec_target(&self) -> Seq<Mapping> {
        self.other_addrspace.spec_mappings()
    }

    /// The root table of the boot component.
    pub closed spec fn spec_window_l4(&self) -> crate::userspace::structures::PageTable {
        self.self_addrspace.spec_l4()
    }

    /// The entries set in the boot component's tables.
    pub closed spec fn spec_window(&self) -> Seq<Mapping> {
        self.self_addrspace.spec_mappings()
    }

    /// The pages loaded so far, in order.
    pub closed spec fn spec_loads(&self) -> Seq<PageLoad> {
        self.loads@
    }

    /// A loader into `other_addrspace`, with the window in
    /// `self_addrspace`.
    pub fn new(self_addrspace: Addrspace, other_addrspace: Addrspace, resources: A) -> (r: Self)
        ensures
            r.spec_target_l4() == other_addrspace.spec_l4(),
            r.spec_target() == other_addrspace.spec_mappings(),
            r.spec_window_l4() == self_addrspace.spec_l4(),
            r.spec_window() == self_addrspace.spec_mappings(),
            r.spec_loads() == Seq::<PageLoad>::empty(),
    {
        Self { self_addrspace, other_addrspace, resources, loads: Vec::new() }
    }

    /// The two address spaces, the resources and the pages to load.
    pub fn into_parts(self) -> (r: (Addrspace, Addrspace, A, Vec<PageLoad>))
        ensures
            r.0.spec_l4() == self.spec_window_l4(),
            r.0.spec_mappings() == self.spec_window(),
            r.1.spec_l4() == self.spec_target_l4(),
            r.1.spec_mappings() == self.spec_target(),
            r.3@ == self.spec_loads(),
    {
        (self.self_addrspace, self.other_addrspace, self.resources, self.loads)
    }

    /// The rights for a page of protection `rwx`.
    fn mask_for(rwx: MemFlags) -> (r: PermissionMask)
        ensures
            r == PermissionMask::spec_from(user_mask(rwx@)),
    {
        let mut bits: usize = 0;
        if rwx.writeable() {
            bits = bits + PERMISSION_WRITE;
        }
        if rwx.executable() {
            bits = bits + PERMISSION_EXECUTE;
        }
        assert(bits & 3 == bits) by (bit_vector)
            requires
                bits <= 3,
        ;
        PermissionMask::from_bits_truncate(bits)
    }

    /// Maps `page` of the component to a fresh frame with the rights for
    /// `rwx`, and moves the window page `at` onto that frame: the frame and
    /// the syscalls, with nothing to write yet.
    pub fn request_page(&mut self, at: Page, page: Page, rwx: MemFlags) -> (r: Result<
        PageLoad,
        UserLoadError,
    >)
        ensures
            final(self).spec_target_l4() == old(self).spec_target_l4(),
            final(self).spec_window_l4() == old(self).spec_window_l4(),
            final(self).spec_loads() == old(self).spec_loads(),
            (rwx@ & 1 != 1) <==> r == Err::<PageLoad, _>(UserLoadError::NotReadable),
            !(r matches Err(UserLoadError::InvalidVirtualRange)),
            rwx@ & 1 == 1 ==> ((old(self).spec_target().len() + 4 - recorded_depth(
                old(self).spec_target(),
                old(self).spec_target_l4(),
                page@,
                4,
            ) > 32 || old(self).spec_window().len() + 4 > 32) <==> r == Err::<PageLoad, _>(
                UserLoadError::RecordFull,
            )),
            rwx@ & 1 == 1 && old(self).spec_target().len() + 4 - recorded_depth(
                old(self).spec_target(),
                old(self).spec_target_l4(),
                page@,
                4,
            ) <= 32 && old(self).spec_window().len() + 4 <= 32 ==> ((unmap_walk(
                old(self).spec_window(),
                old(self).spec_window_l4(),
                at@,
                4,
            ) is None) <==> r == Err::<PageLoad, _>(UserLoadError::WindowBlocked)),
            r is Err && !(r->Err_0 is AlreadyMapped)
                ==> final(self).spec_target() == old(self).spec_target()
                && final(self).spec_window() == old(self).spec_window(),
            r matches Err(UserLoadError::AlreadyMapped(f)) ==> mapped_on_the_way(
                old(self).spec_target(),
                old(self).spec_target_l4(),
                page@,
                rwx@,
                after_unmap(old(self).spec_window(), old(self).spec_window_l4(), at@),
                old(self).spec_window_l4(),
                at@,
                f,
            ),
            r matches Ok(pl) ==> {
                let ms1 = after_unmap(old(self).spec_window(), old(self).spec_window_l4(), at@);
                &&& map_walk(
                    old(self).spec_target(),
                    old(self).spec_target_l4(),
                    page@,
                    4,
                    pl.frame,
                    PermissionMask::spec_from(user_mask(rwx@)),
                    PermissionMask::spec_from(3),
                    pl.target@,
                    None,
                )
                &&& final(self).spec_target() == old(self).spec_target() + pl.target@.map_values(
                    |a: PagingAction| action_mapping(a),
                )
                &&& pl.window_unmap == window_unmap_action(
                    old(self).spec_window(),
                    old(self).spec_window_l4(),
                    at@,
                )
                &&& map_walk(
                    ms1,
                    old(self).spec_window_l4(),
                    at@,
                    4,
                    pl.frame,
                    PermissionMask::spec_from(PERMISSION_WRITE),
                    PermissionMask::spec_from(3),
                    pl.window@,
                    None,
                )
                &&& final(self).spec_window() == ms1 + pl.window@.map_values(
                    |a: PagingAction| action_mapping(a),
                )
                &&& pl.offset == 0
                &&& pl.bytes@.len() == 0
            },
    {
        if !rwx.readable() {
            return Err(UserLoadError::NotReadable);
        }
        if self.other_addrspace.mapping_count() > 32 - self.other_addrspace.room_needed(page)
            || self.self_addrspace.mapping_count() > 28 {
            return Err(UserLoadError::RecordFull);
        }
        if !self.self_addrspace.unmap_reaches(at) {
            return Err(UserLoadError::WindowBlocked);
        }
        let frame = self.resources.alloc_frame();
        self.load_frame(at, page, rwx, frame)
    }

    /// Maps `page` of the component to the fresh frame `frame` with the
    /// rights for `rwx`, and moves the window page `at` onto that frame: the
    /// frame and the syscalls, with nothing to write yet.
    pub fn load_frame(&mut self, at: Page, page: Page, rwx: MemFlags, frame: PhysFrame) -> (r: Result<
        PageLoad,
        UserLoadError,
    >)
        ensures
            final(self).spec_target_l4() == old(self).spec_target_l4(),
            final(self).spec_window_l4() == old(self).spec_window_l4(),
            final(self).spec_loads() == old(self).spec_loads(),
            (rwx@ & 1 != 1) <==> r == Err::<PageLoad, _>(UserLoadError::NotReadable),
            !(r matches Err(UserLoadError::InvalidVirtualRange)),
            rwx@ & 1 == 1 ==> ((old(self).spec_target().len() + 4 - recorded_depth(
                old(self).spec_target(),
                old(self).spec_target_l4(),
                page@,
                4,
            ) > 32 || old(self).spec_window().len() + 4 > 32) <==> r == Err::<PageLoad, _>(
                UserLoadError::RecordFull,
            )),
            rwx@ & 1 == 1 && old(self).spec_target().len() + 4 - recorded_depth(
                old(self).spec_target(),
                old(self).spec_target_l4(),
                page@,
                4,
            ) <= 32 && old(self).spec_window().len() + 4 <= 32 ==> ((unmap_walk(
                old(self).spec_window(),
                old(self).spec_window_l4(),
                at@,
                4,
            ) is None) <==> r == Err::<PageLoad, _>(UserLoadError::WindowBlocked)),
            r is Err && !(r->Err_0 is AlreadyMapped)
                ==> final(self).spec_target() == old(self).spec_target()
                && final(self).spec_window() == old(self).spec_window(),
            r matches Err(UserLoadError::AlreadyMapped(f)) ==> mapped_on_the_way(
                old(self).spec_target(),
                old(self).spec_target_l4(),
                page@,
                rwx@,
                after_unmap(old(self).spec_window(), old(self).spec_window_l4(), at@),
                old(self).spec_window_l4(),
                at@,
                f,
            ),
            r matches Ok(pl) ==> {
                let ms1 = after_unmap(old(self).spec_window(), old(self).spec_window_l4(), at@);
                &&& map_walk(
                    old(self).spec_target(),
                    old(self).spec_target_l4(),
                    page@,
                    4,
                    pl.frame,
                    PermissionMask::spec_from(user_mask(rwx@)),
                    PermissionMask::spec_from(3),
                    pl.target@,
                    None,
                )
                &&& final(self).spec_target() == old(self).spec_target() + pl.target@.map_values(
                    |a: PagingAction| action_mapping(a),
                )
                &&& pl.window_unmap == window_unmap_action(
                    old(self).spec_window(),
                    old(self).spec_window_l4(),
                    at@,
                )
                &&& map_walk(
                    ms1,
                    old(self).spec_window_l4(),
                    at@,
                    4,
                    pl.frame,
                    PermissionMask::spec_from(PERMISSION_WRITE),
                    PermissionMask::spec_from(3),
                    pl.window@,
                    None,
                )
                &&& final(self).spec_window() == ms1 + pl.window@.map_values(
                    |a: PagingAction| action_mapping(a),
                )
                &&& pl.offset == 0
                &&& pl.bytes@.len() == 0
            },
            (rwx@ & 1 == 1 && old(self).spec_target().len() + 4 - recorded_depth(
                old(self).spec_target(),
                old(self).spec_target_l4(),
                page@,
                4,
            ) <= 32 && old(self).spec_window().len() + 4 <= 32 && unmap_walk(
                old(self).spec_window(),
                old(self).spec_window_l4(),
                at@,
                4,
            ) is Some) ==> (frame@ >= PHYS_ADDR_LIMIT <==> r == Err::<PageLoad, _>(
                UserLoadError::BadFrame,
            )),
            (rwx@ & 1 == 1 && old(self).spec_target().len() + 4 - recorded_depth(
                old(self).spec_target(),
                old(self).spec_target_l4(),
                page@,
                4,
            ) <= 32 && old(self).spec_window().len() + 4 <= 32 && unmap_walk(
                old(self).spec_window(),
                old(self).spec_window_l4(),
                at@,
                4,
            ) is Some) && frame@ < PHYS_ADDR_LIMIT && (forall|f: Frame| !mapped_on_the_way(
                old(self).spec_target(),
                old(self).spec_target_l4(),
                page@,
                rwx@,
                after_unmap(old(self).spec_window(), old(self).spec_window_l4(), at@),
                old(self).spec_window_l4(),
                at@,
                f,
            )) ==> r is Ok,
            r matches Ok(pl) ==> pl.frame@ == frame@,
    {
        if !rwx.readable() {
            return Err(UserLoadError::NotReadable);
        }
        if self.other_addrspace.mapping_count() > 32 - self.other_addrspace.room_needed(page)
            || self.self_addrspace.mapping_count() > 28 {
            return Err(UserLoadError::RecordFull);
        }
        if !self.self_addrspace.unmap_reaches(at) {
            return Err(UserLoadError::WindowBlocked);
        }
        let pflags = Self::mask_for(rwx);
        let frame = match frame_of(frame) {
            Some(f) => f,
            None => {
                return Err(UserLoadError::BadFrame);
            },
        };
        let all = PermissionMask::all();
        proof {
            PermissionMask::lemma_spec_from(3, all);
        }
        let ghost t0 = self.other_addrspace.spec_mappings();
        let (target, res, _) = self.other_addrspace.map_to(page, frame, pflags, all, &mut self.resources);
        if let Err(MapperError::AlreadyMapped(f)) = res {
            proof {
                assert(map_walk(t0, self.spec_target_l4(), page@, 4, frame, pflags, all, target@, Some(f)));
                assert(mapped_on_the_way(
                    old(self).spec_target(),
                    old(self).spec_target_l4(),
                    page@,
                    rwx@,
                    after_unmap(old(self).spec_window(), old(self).spec_window_l4(), at@),
                    old(self).spec_window_l4(),
                    at@,
                    f,
                ));
            }
            return Err(UserLoadError::AlreadyMapped(f));
        }
        let ghost w0 = self.self_addrspace.spec_mappings();
        let window_unmap = match self.self_addrspace.unmap(at) {
            Ok((_, action)) => Some(action),
            Err(_) => None,
        };
        let write = PermissionMask::write();
        proof {
            PermissionMask::lemma_spec_from(PERMISSION_WRITE, write);
            assert(self.self_addrspace.spec_mappings().len() <= w0.len());
        }
        let ghost w1 = self.self_addrspace.spec_mappings();
        proof {
            assert(w1 == after_unmap(w0, self.spec_window_l4(), at@));
        }
        let (window, res, _) = self.self_addrspace.map_to(at, frame, write, all, &mut self.resources);
        if let Err(MapperError::AlreadyMapped(f)) = res {
            proof {
                assert(map_walk(w1, self.spec_window_l4(), at@, 4, frame, write, all, window@, Some(f)));
                assert(mapped_on_the_way(
                    old(self).spec_target(),
                    old(self).spec_target_l4(),
                    page@,
                    rwx@,
                    after_unmap(old(self).spec_window(), old(self).spec_window_l4(), at@),
                    old(self).spec_window_l4(),
                    at@,
                    f,
                ));
            }
            return Err(UserLoadError::AlreadyMapped(f));
        }
        Ok(PageLoad { frame, target, window_unmap, window, offset: 0, bytes: Vec::new() })
    }
}

impl<A: PageTableAllocator + FrameAllocator> Loader for UserspaceLoader<A> {
    type Error = UserLoadError;

    /// Loads each page of `at` in turn, the window page being
    /// `WINDOW_ADDRESS`: the load recorded for a page holds the source
    /// bytes of the part of `at` in that page, from where that part begins
    /// in it.
    fn load_with<F: Fn(usize) -> Option<u8>>(&mut self, at: Range<usize>, source: F, rwx: MemFlags) -> (r:
        Result<(), UserLoadError>)
        ensures
            final(self).spec_target_l4() == old(self).spec_target_l4(),
            final(self).spec_window_l4() == old(self).spec_window_l4(),
            old(self).spec_loads().len() <= final(self).spec_loads().len(),
            forall|k: int| 0 <= k < old(self).spec_loads().len() ==> #[trigger] final(self).spec_loads()[k] == old(self).spec_loads()[k],
            forall|k: int| old(self).spec_loads().len() <= k < final(self).spec_loads().len()
                ==> #[trigger] final(self).spec_loads()[k].offset + final(self).spec_loads()[k].bytes@.len() <= 4096,
            r is Ok ==> final(self).spec_loads().len() == old(self).spec_loads().len() + page_count(at),
            r is Ok ==> forall|k: int| 0 <= k < page_count(at) ==> {
                let p = at.start / 4096 + k;
                let w = #[trigger] final(self).spec_loads()[old(self).spec_loads().len() + k];
                &&& w.offset == page_dest_offset(at, p)
                &&& w.bytes@.len() == page_source_end(at, p) - page_source_start(at, p)
                &&& forall|j: int| 0 <= j < w.bytes@.len() ==> call_ensures(
                    source,
                    ((page_source_start(at, p) + j) as usize,),
                    #[trigger] w.bytes@[j],
                )
            },
            rwx@ & 1 != 1 && page_count(at) > 0 ==> r is Err,
            r matches Err(UserLoadError::InvalidVirtualRange) ==> exists|p: int|
                at.start / 4096 <= p < crate::loader::end_page(at) && !#[trigger] is_canonical((p * 4096) as u64),
    {
        let window = Page::from_start_address(VirtAddr::new(WINDOW_ADDRESS));
        let at_len: usize = if at.end >= at.start {
            at.end - at.start
        } else {
            0
        };
        let start_page = at.start / 4096;
        let last_page = at.end / 4096 + if at.end % 4096 != 0 {
            1
        } else {
            0
        };
        let mut offset: usize = 0;
        let mut page_index = start_page;
        let ghost n0 = self.loads@.len();
        let ghost loads0 = self.loads@;
        while page_index < last_page
            invariant
                offset <= at_len,
                at_len == range_len(at),
                start_page == at.start / 4096,
                last_page == crate::loader::end_page(at),
                start_page <= page_index,
                page_index < last_page ==> offset == page_source_start(at, page_index as int),
                page_index >= last_page ==> page_index == start_page || page_index == last_page,
                forall|i: usize| source.requires((i,)),
                last_page <= usize::MAX / 4096 + 1,
                rwx@ & 1 != 1 ==> page_index == start_page,
                self.spec_target_l4() == old(self).spec_target_l4(),
                self.spec_window_l4() == old(self).spec_window_l4(),
                n0 == old(self).spec_loads().len(),
                loads0 == old(self).spec_loads(),
                self.spec_loads().len() == n0 + (page_index - start_page),
                forall|k: int| 0 <= k < n0 ==> #[trigger] self.spec_loads()[k] == loads0[k],
                forall|k: int| n0 <= k < self.spec_loads().len()
                    ==> #[trigger] self.spec_loads()[k].offset + self.spec_loads()[k].bytes@.len() <= 4096,
                forall|k: int| 0 <= k < page_index - start_page ==> {
                    let p = at.start / 4096 + k;
                    let w = #[trigger] self.spec_loads()[n0 + k];
                    &&& w.offset == page_dest_offset(at, p)
                    &&& w.bytes@.len() == page_source_end(at, p) - page_source_start(at, p)
                    &&& forall|j: int| 0 <= j < w.bytes@.len() ==> call_ensures(
                        source,
                        ((page_source_start(at, p) + j) as usize,),
                        #[trigger] w.bytes@[j],
                    )
                },
                window@ == WINDOW_ADDRESS,
            decreases last_page - page_index,
        {
            proof {
                lemma_page_window(at, page_index as int);
            }
            let page = match Page::from_index(page_index) {
                Ok(p) => p,
                Err(_) => {
                    proof {
                        let p = page_index as int;
                        assert(at.start / 4096 <= p < crate::loader::end_page(at) && !is_canonical((p * 4096) as u64));
                    }
                    return Err(UserLoadError::InvalidVirtualRange);
                },
            };
            let mut load = self.request_page(window, page, rwx)?;
            let dest_start = (at.start + offset) % 4096;
            let room = 4096 - dest_start;
            let left = at_len - offset;
            let count = if room < left {
                room
            } else {
                left
            };
            let mut bytes: Vec<Option<u8>> = Vec::new();
            let mut k: usize = 0;
            while k < count
                invariant
                    k <= count,
                    count <= at_len - offset,
                    offset <= at_len,
                    bytes@.len() == k,
                    forall|i: usize| source.requires((i,)),
                    forall|j: int| 0 <= j < k ==> call_ensures(
                        source,
                        ((offset + j) as usize,),
                        #[trigger] bytes@[j],
                    ),
                decreases count - k,
            {
                bytes.push(source(offset + k));
                k = k + 1;
            }
            load.offset = dest_start;
            load.bytes = bytes;
            let ghost before = self.spec_loads();
            self.loads.push(load);
            proof {
                assert forall|kk: int| 0 <= kk < page_index + 1 - start_page implies {
                    let p = at.start / 4096 + kk;
                    let w = #[trigger] self.spec_loads()[n0 + kk];
                    &&& w.offset == page_dest_offset(at, p)
                    &&& w.bytes@.len() == page_source_end(at, p) - page_source_start(at, p)
                    &&& forall|j: int| 0 <= j < w.bytes@.len() ==> call_ensures(
                        source,
                        ((page_source_start(at, p) + j) as usize,),
                        #[trigger] w.bytes@[j],
                    )
                } by {
                    if kk < page_index - start_page {
                        assert(self.spec_loads()[n0 + kk] == before[n0 + kk]);
                    }
                }
            }
            offset = offset + count;
            page_index = page_index + 1;
        }
        Ok(())
    }

    /// Releasing a range is not supported by the boot component; nothing
    /// changes.
    fn unload(&mut self, vrange: Range<usize>)
        ensures
            final(self).spec_target_l4() == old(self).spec_target_l4(),
            final(self).spec_target() == old(self).spec_target(),
            final(self).spec_window_l4() == old(self).spec_window_l4(),
            final(self).spec_window() == old(self).spec_window(),
            final(self).spec_loads() == old(self).spec_loads(),
    {
    }
}

/// A page table to make before anything links it: the capability `plan`
/// gives its slot, where a page table of level `level` is made over
/// `frame`.
#[derive(Debug)]
pub struct TableRequest {
    pub plan: AllocationPlan,
    pub frame: PhysFrame,
    pub level: u8,
}

/// The capability that an allocation plan makes ready.
pub open spec fn plan_cap(plan: AllocationPlan) -> CapId {
    match plan {
        AllocationPlan::Ready(slot) => slot.id,
        AllocationPlan::WithTable { slot, .. } => slot.id,
    }
}

/// Page tables for the loaded component, each in a capability of the boot
/// component's own trie over a frame of its allocator. Once the trie has no
/// capability left to give, the allocator is exhausted: the table it hands
/// out is the capability 0 and nothing it asked for may be used.
pub struct PageTableAlloc<F: FrameAllocator> {
    capability_manager: SelfCapabilityManager<F>,
    requests: Vec<TableRequest>,
    exhausted: bool,
}

impl<F: FrameAllocator> PageTableAlloc<F> {
    /// The capability manager.
    pub closed spec fn spec_manager(&self) -> SelfCapabilityManager<F> {
        self.capability_manager
    }

    /// The page tables to make, in order.
    pub closed spec fn spec_requests(&self) -> Seq<TableRequest> {
        self.requests@
    }

    /// Whether a table could not be given.
    pub closed spec fn spec_exhausted(&self) -> bool {
        self.exhausted
    }

    /// An allocator that takes capabilities from `capability_manager`.
    pub fn new(capability_manager: SelfCapabilityManager<F>) -> (r: Self)
        ensures
            r.spec_manager() == capability_manager,
            r.spec_requests() == Seq::<TableRequest>::empty(),
            !r.spec_exhausted(),
    {
        Self { capability_manager, requests: Vec::new(), exhausted: false }
    }

    /// The capability manager, the page tables to make and whether a table
    /// could not be given.
    pub fn into_parts(self) -> (r: (SelfCapabilityManager<F>, Vec<TableRequest>, bool))
        ensures
            r.0 == self.spec_manager(),
            r.1@ == self.spec_requests(),
            r.2 == self.spec_exhausted(),
    {
        (self.capability_manager, self.requests, self.exhausted)
    }
}

impl<F: FrameAllocator> PageTableAllocator for PageTableAlloc<F> {
    /// A frame, then a capability for the table: the table is the
    /// capability that the plan makes ready.
    fn allocate_table(&mut self, level: crate::addr::PageTableLevel) -> (r: PageTable)
        ensures
            final(self).spec_manager().spec_root() == old(self).spec_manager().spec_root(),
            old(self).spec_manager().can_allocate_now() ==> {
                &&& final(self).spec_requests().len() == old(self).spec_requests().len() + 1
                &&& final(self).spec_requests().take(old(self).spec_requests().len() as int)
                    == old(self).spec_requests()
                &&& r.id == plan_cap(final(self).spec_requests().last().plan)
                &&& final(self).spec_requests().last().level == level@
                &&& final(self).spec_exhausted() == old(self).spec_exhausted()
            },
            !old(self).spec_manager().can_allocate_now() ==> {
                &&& final(self).spec_requests() == old(self).spec_requests()
                &&& final(self).spec_exhausted()
                &&& r.id@ == 0
            },
    {
        let frame = self.capability_manager.alloc_frame();
        if !self.capability_manager.can_allocate() {
            self.exhausted = true;
            return PageTable::new(CapId::new(0));
        }
        let plan = self.capability_manager.allocate_capability();
        let id = match &plan {
            AllocationPlan::Ready(slot) => slot.id,
            AllocationPlan::WithTable { slot, .. } => slot.id,
        };
        self.requests.push(TableRequest { plan, frame, level: level.level() });
        PageTable::new(id)
    }
}

impl<F: FrameAllocator> FrameAllocator for PageTableAlloc<F> {
    /// A frame from the capability manager's allocator.
    fn alloc_frame(&mut self) -> (r: PhysFrame) {
        self.capability_manager.alloc_frame()
    }
}

} // verus!
