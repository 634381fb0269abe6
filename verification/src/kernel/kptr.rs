//! Counted references to kernel objects.
//!
//! Every kernel object takes a whole frame, typed as kernel memory in the
//! retype table; the reference count of that frame counts the references
//! to the object.
use vstd::prelude::*;

use core::marker::PhantomData;

use super::frames::RawFrame;
use super::retyping::{
    entry_count, entry_state, frame_index, into_type_outcome, KernelFrame,
    RetypeError, RetypeTable, State, MAX_REF_COUNT,
};

verus! {

/// A counted reference to the kernel object of type `T` in a frame.
pub struct KPtr<T> {
    frame: KernelFrame,
    _object: PhantomData<T>,
}

impl<T> KPtr<T> {
    /// The frame of the object.
    pub closed spec fn spec_frame(&self) -> u64 {
        self.frame@
    }

    /// A reference to a new object in `frame`, which is retyped from untyped
    /// into kernel memory with one reference.
    pub fn new(frame: RawFrame, table: &mut RetypeTable) -> (r: Result<Self, RetypeError>)
        requires
            old(table).wf(),
        ensures
            final(table).wf(),
            into_type_outcome(
                old(table)@,
                final(table)@,
                frame@,
                State::Kernel,
                match r {
                    Ok(_) => Ok(()),
                    Err(e) => Err(e),
                },
            ),
            r matches Ok(p) ==> p.spec_frame() == frame@,
    {
        match frame.try_into_kernel(table) {
            Ok(f) => Ok(Self { frame: f, _object: PhantomData }),
            Err(e) => Err(e),
        }
    }

    /// The frame of the object.
    pub fn frame(&self) -> (r: RawFrame)
        ensures
            r@ == self.spec_frame(),
    {
        self.frame.frame()
    }

    /// Another reference to the object, failing at the largest count.
    pub fn try_clone(&self, table: &mut RetypeTable) -> (r: Option<Self>)
        requires
            old(table).wf(),
            frame_index(self.spec_frame()) < old(table)@.len(),
            entry_state(old(table)@[frame_index(self.spec_frame())]) == State::Kernel,
        ensures
            final(table).wf(),
            match r {
                Some(p) => p.spec_frame() == self.spec_frame() && entry_count(
                    old(table)@[frame_index(self.spec_frame())],
                ) < MAX_REF_COUNT && final(table)@ == old(table)@.update(
                    frame_index(self.spec_frame()),
                    (old(table)@[frame_index(self.spec_frame())] + 1) as u16,
                ),
                None => entry_count(old(table)@[frame_index(self.spec_frame())]) == MAX_REF_COUNT
                    && final(table)@ == old(table)@,
            },
    {
        match self.frame.try_clone(table) {
            Some(f) => Some(Self { frame: f, _object: PhantomData }),
            None => None,
        }
    }

    /// Gives this reference up; whether it was the last one, in which case
    /// the object is to be taken out of its frame.
    pub fn try_into_inner(self, table: &mut RetypeTable) -> (r: bool)
        requires
            old(table).wf(),
            frame_index(self.spec_frame()) < old(table)@.len(),
            entry_count(old(table)@[frame_index(self.spec_frame())]) > 0,
        ensures
            final(table).wf(),
            r == (entry_count(old(table)@[frame_index(self.spec_frame())]) == 1),
            final(table)@ == old(table)@.update(
                frame_index(self.spec_frame()),
                (old(table)@[frame_index(self.spec_frame())] - 1) as u16,
            ),
    {
        let count = self.frame.drop(table);
        count == 1
    }

    /// The frame of the object, keeping this reference counted.
    pub fn into_raw(self) -> (r: RawFrame)
        ensures
            r@ == self.spec_frame(),
    {
        self.frame.into_raw()
    }
}

} // verus!
