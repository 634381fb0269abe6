//! Frame allocation in the boot component: a bump allocator over the frames
//! above those the kernel handed out, and a bitmap of the untyped frames.
use vstd::prelude::*;

use crate::addr::{Frame, PhysAddr, PHYS_ADDR_LIMIT};
use crate::userspace::paging::{read_entry, RetypeState, RetypeTable};

pub mod userspace_loader;

verus! {

/// Hands out consecutive frames, starting at a given one.
#[derive(Debug)]
pub struct FrameBumper {
    next: Frame,
}

impl FrameBumper {
    /// The address of the next frame to hand out.
    pub closed spec fn spec_next(&self) -> u64 {
        self.next@
    }

    /// A bumper whose first frame is `start`.
    pub fn new(start: Frame) -> (r: Self)
        ensures
            r.spec_next() == start@,
    {
        Self { next: start }
    }

    /// The frame that `next` hands out next.
    pub fn peek(&self) -> (r: Frame)
        ensures
            r@ == self.spec_next(),
    {
        self.next
    }

    /// The next frame; the one after it follows.
    pub fn next(&mut self) -> (r: Frame)
        requires
            old(self).spec_next() % 4096 == 0,
            old(self).spec_next() + 4096 < PHYS_ADDR_LIMIT,
        ensures
            r@ == old(self).spec_next(),
            final(self).spec_next() == old(self).spec_next() + 4096,
    {
        let frame = self.next;
        let base = frame.base().as_u64();
        self.next = Frame::from_start_address(PhysAddr::new(base + 0x1000));
        frame
    }
}

/// A sequence of bits, from `bitvec::vec::BitVec`.
#[verifier::external_body]
pub struct FrameBitmap {
    bits: bitvec::vec::BitVec<usize, bitvec::order::Lsb0>,
}

/// The bits of a bitmap, by index.
pub uninterp spec fn bitmap_bits(b: FrameBitmap) -> Seq<bool>;

impl FrameBitmap {
    /// `len` cleared bits, from `BitVec::repeat`.
    #[verifier::external_body]
    pub fn zeroed(len: usize) -> (r: Self)
        requires
            len <= usize::MAX / 8,
        ensures
            bitmap_bits(r) == Seq::new(len as nat, |i: int| false),
    {
        Self { bits: bitvec::vec::BitVec::repeat(false, len) }
    }

    /// The number of bits, from `BitVec::len`.
    #[verifier::external_body]
    pub fn len(&self) -> (r: usize)
        ensures
            r == bitmap_bits(*self).len(),
    {
        self.bits.len()
    }

    /// The bit at `index`, read through `BitSlice`'s indexing.
    #[verifier::external_body]
    pub fn get(&self, index: usize) -> (r: bool)
        requires
            index < bitmap_bits(*self).len(),
        ensures
            r == bitmap_bits(*self)[index as int],
    {
        self.bits[index]
    }

    /// Writes `value` at `index`, with `BitSlice::set`.
    #[verifier::external_body]
    pub fn set(&mut self, index: usize, value: bool)
        requires
            index < bitmap_bits(*old(self)).len(),
        ensures
            bitmap_bits(*final(self)) == bitmap_bits(*old(self)).update(index as int, value),
    {
        self.bits.set(index, value)
    }

    /// The index of the first set bit, from `BitSlice::first_one`.
    #[verifier::external_body]
    pub fn first_one(&self) -> (r: Option<usize>)
        ensures
            r is None ==> forall|j: int| 0 <= j < bitmap_bits(*self).len() ==> !bitmap_bits(*self)[j],
            r matches Some(i) ==> i < bitmap_bits(*self).len() && bitmap_bits(*self)[i as int],
            r matches Some(i) ==> forall|j: int| 0 <= j < i ==> !bitmap_bits(*self)[j],
    {
        self.bits.first_one()
    }
}

/// A frame index beyond the bitmap.
#[derive(Debug)]
pub struct OutOfRange;

/// Hands out untyped frames, one bit per frame: set while the frame is
/// free.
pub struct BitmapAllocator {
    unused_frames: FrameBitmap,
}

/// The bits for `entries` in a bitmap of `len` bits: set for the untyped
/// frames, cleared beyond the table.
pub open spec fn initial_bits(entries: Seq<u16>, len: nat) -> Seq<bool> {
    Seq::new(
        len,
        |i: int| i < entries.len() && read_entry(entries[i]).state == RetypeState::Untyped,
    )
}

impl BitmapAllocator {
    /// Which frames are free, by frame index.
    pub closed spec fn free(&self) -> Seq<bool> {
        bitmap_bits(self.unused_frames)
    }

    /// An allocator of `len` frames that holds the untyped frames of
    /// `memory_map` as free.
    pub fn new(len: usize, memory_map: &RetypeTable) -> (r: Self)
        requires
            len <= usize::MAX / 8,
            memory_map.table@.len() <= 0x100_0000_0000,
        ensures
            r.free() == initial_bits(memory_map.table@.map_values(|e: crate::userspace::paging::RetypeEntry| e.0), len as nat),
    {
        let ghost entries = memory_map.table@.map_values(|e: crate::userspace::paging::RetypeEntry| e.0);
        let mut unused_frames = FrameBitmap::zeroed(len);
        let states = memory_map.iter();
        let mut i: usize = 0;
        while i < len
            invariant
                i <= len,
                len <= usize::MAX / 8,
                states@.len() == memory_map.table@.len(),
                entries == memory_map.table@.map_values(|e: crate::userspace::paging::RetypeEntry| e.0),
                forall|k: int| 0 <= k < states@.len() ==> (#[trigger] states@[k]).0 == read_entry(memory_map.table@[k].0),
                bitmap_bits(unused_frames).len() == len,
                forall|k: int| 0 <= k < i ==> bitmap_bits(unused_frames)[k] == initial_bits(entries, len as nat)[k],
                forall|k: int| i <= k < len ==> !bitmap_bits(unused_frames)[k],
            decreases len - i,
        {
            let free = i < states.len() && states[i].0.state == RetypeState::Untyped;
            unused_frames.set(i, free);
            i = i + 1;
        }
        assert(bitmap_bits(unused_frames) =~= initial_bits(entries, len as nat));
        Self { unused_frames }
    }

    /// The first free frame, now taken; `None` when no frame is free.
    pub fn allocate(&mut self) -> (r: Option<Frame>)
        requires
            old(self).free().len() <= 0x100_0000_0000,
        ensures
            r is None ==> forall|j: int| 0 <= j < old(self).free().len() ==> !old(self).free()[j],
            r is None ==> final(self).free() == old(self).free(),
            r matches Some(f) ==> ({
                let i = f@ / 4096;
                &&& f@ % 4096 == 0
                &&& 0 <= i < old(self).free().len()
                &&& old(self).free()[i as int]
                &&& forall|j: int| 0 <= j < i ==> !old(self).free()[j]
                &&& final(self).free() == old(self).free().update(i as int, false)
            }),
    {
        let index = match self.unused_frames.first_one() {
            Some(i) => i,
            None => {
                return None;
            },
        };
        self.unused_frames.set(index, false);
        match Frame::from_index(index as u64) {
            Ok(f) => Some(f),
            Err(_) => None,
        }
    }

    /// Marks `frame` free again, failing for a frame beyond the bitmap.
    pub fn dealloc(&mut self, frame: Frame) -> (r: Result<(), OutOfRange>)
        ensures
            frame@ / 4096 >= old(self).free().len() ==> r is Err && final(self).free() == old(self).free(),
            frame@ / 4096 < old(self).free().len() ==> r is Ok && final(self).free() == old(self).free().update((frame@ / 4096) as int, true),
    {
        let index = frame.base().as_u64() / 4096;
        if index >= self.unused_frames.len() as u64 {
            return Err(OutOfRange);
        }
        self.unused_frames.set(index as usize, true);
        Ok(())
    }
}

} // verus!
