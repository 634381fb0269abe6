//! The read-only view of the kernel's retype table that userspace receives.
use vstd::prelude::*;

use crate::addr::Frame;

verus! {

/// The type of a frame, as userspace reads it.
#[derive(Debug, PartialEq, Eq, Copy, Clone, Structural)]
pub enum RetypeState {
    Unavailable,
    Untyped,
    User,
    Kernel,
}

/// The state and reference count of one frame.
#[derive(Debug, Copy, Clone, PartialEq, Eq, Structural)]
pub struct ReadEntry {
    pub state: RetypeState,
    pub ref_count: u16,
}

/// Error for a state code above 3.
#[derive(Debug)]
pub struct Invalid;

/// The state that the two top bits of an entry name.
pub open spec fn retype_state_of(code: u16) -> RetypeState {
    if code == 0 {
        RetypeState::Unavailable
    } else if code == 1 {
        RetypeState::Untyped
    } else if code == 2 {
        RetypeState::User
    } else {
        RetypeState::Kernel
    }
}

/// What a 16-bit entry records: the state in its two top bits and the
/// reference count in the others.
pub open spec fn read_entry(v: u16) -> ReadEntry {
    ReadEntry { state: retype_state_of(v / 16384), ref_count: v % 16384 }
}

impl RetypeState {
    /// The state with code `value`, failing above 3.
    pub fn try_from(value: u8) -> (r: Result<Self, Invalid>)
        ensures
            match r {
                Ok(s) => value <= 3 && s == retype_state_of(value as u16),
                Err(_) => value > 3,
            },
    {
        match value {
            0 => Ok(Self::Unavailable),
            1 => Ok(Self::Untyped),
            2 => Ok(Self::User),
            3 => Ok(Self::Kernel),
            _ => Err(Invalid),
        }
    }
}

/// One 16-bit retype entry.
#[derive(Debug, Copy, Clone)]
pub struct RetypeEntry(pub u16);

impl RetypeEntry {
    /// The largest reference count an entry records.
    pub const MAX_REF_COUNT: u16 = 16383;

    /// The state and count that the packed `value` records.
    pub fn value_into(value: u16) -> (r: ReadEntry)
        ensures
            r == read_entry(value),
    {
        assert(value & 16383u16 == value % 16384) by (bit_vector);
        assert(value >> 14u16 == value / 16384) by (bit_vector);
        let ref_count = value & 16383u16;
        let state = match RetypeState::try_from((value >> 14u16) as u8) {
            Ok(state) => state,
            Err(_) => {
                assert(false);
                RetypeState::Kernel
            },
        };
        ReadEntry { state, ref_count }
    }

    /// The state and count of this entry.
    pub fn get(&self) -> (r: ReadEntry)
        ensures
            r == read_entry(self.0),
    {
        Self::value_into(self.0)
    }
}

/// The retype entries of all frames, by frame index.
#[derive(Debug)]
pub struct RetypeTable {
    pub table: Vec<RetypeEntry>,
}

impl RetypeTable {
    /// What the entry of frame `frame` records, with the frame itself;
    /// `None` beyond the table.
    pub fn get(&self, frame: usize) -> (r: Option<(ReadEntry, Frame)>)
        requires
            self.table@.len() <= 0x100_0000_0000,
        ensures
            match r {
                Some((e, f)) => frame < self.table@.len() && e == read_entry(
                    self.table@[frame as int].0,
                ) && f@ == frame * 4096,
                None => frame >= self.table@.len(),
            },
    {
        if frame >= self.table.len() {
            return None;
        }
        let state = self.table[frame].get();
        let frame = match Frame::from_index(frame as u64) {
            Ok(f) => f,
            Err(_) => {
                assert(false);
                return None;
            },
        };
        Some((state, frame))
    }

    /// What every entry records, with its frame, in frame order.
    pub fn iter(&self) -> (r: Vec<(ReadEntry, Frame)>)
        requires
            self.table@.len() <= 0x100_0000_0000,
        ensures
            r@.len() == self.table@.len(),
            forall|i: int|
                0 <= i < r@.len() ==> (#[trigger] r@[i]).0 == read_entry(self.table@[i].0)
                    && r@[i].1@ == i * 4096,
    {
        let mut out: Vec<(ReadEntry, Frame)> = Vec::new();
        let mut index: usize = 0;
        let length = self.table.len();
        while index < length
            invariant
                length == self.table@.len(),
                self.table@.len() <= 0x100_0000_0000,
                index <= length,
                out@.len() == index,
                forall|i: int|
                    0 <= i < index ==> (#[trigger] out@[i]).0 == read_entry(self.table@[i].0)
                        && out@[i].1@ == i * 4096,
            decreases length - index,
        {
            match self.get(index) {
                Some(item) => out.push(item),
                None => {
                    assert(false);
                },
            }
            index = index + 1;
        }
        out
    }
}

} // verus!
