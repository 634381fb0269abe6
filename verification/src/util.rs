//! Descriptions of memory that syscalls hand over: an address and a length,
//! read by the receiving side.
use vstd::prelude::*;

use core::marker::PhantomData;

verus! {

/// An address of a `T` that carries no provenance, as a syscall passes it.
pub struct OrphanPtr<T> {
    addr: usize,
    _phantom: PhantomData<T>,
}

impl<T> OrphanPtr<T> {
    /// The address.
    pub closed spec fn spec_addr(&self) -> usize {
        self.addr
    }

    /// The pointer to `addr`.
    pub fn new(addr: usize) -> (r: Self)
        ensures
            r.spec_addr() == addr,
    {
        Self { addr, _phantom: PhantomData }
    }

    /// The address.
    pub fn addr(&self) -> (r: usize)
        ensures
            r == self.spec_addr(),
    {
        self.addr
    }
}

/// A read-only run of `length` values of `T` from `ptr`.
pub struct CSlice<T> {
    ptr: OrphanPtr<T>,
    length: usize,
}

impl<T> CSlice<T> {
    /// The address of the first value.
    pub closed spec fn spec_ptr(&self) -> usize {
        self.ptr.spec_addr()
    }

    /// The number of values.
    pub closed spec fn spec_len(&self) -> usize {
        self.length
    }

    /// The run of `length` values at `ptr`.
    pub fn from_raw_parts(ptr: usize, length: usize) -> (r: Self)
        ensures
            r.spec_ptr() == ptr,
            r.spec_len() == length,
    {
        Self { ptr: OrphanPtr::new(ptr), length }
    }

    /// The address of the first value.
    pub fn ptr(&self) -> (r: usize)
        ensures
            r == self.spec_ptr(),
    {
        self.ptr.addr()
    }

    /// The number of values.
    pub fn len(&self) -> (r: usize)
        ensures
            r == self.spec_len(),
    {
        self.length
    }
}

/// A writable run of `length` values of `T` from `ptr`.
pub struct CSliceMut<T> {
    ptr: usize,
    length: usize,
    _cont: PhantomData<T>,
}

impl<T> CSliceMut<T> {
    /// The address of the first value.
    pub closed spec fn spec_ptr(&self) -> usize {
        self.ptr
    }

    /// The number of values.
    pub closed spec fn spec_len(&self) -> usize {
        self.length
    }

    /// The run of the `length` values of a slice at `ptr`.
    pub fn from_slice(ptr: usize, length: usize) -> (r: Self)
        ensures
            r.spec_ptr() == ptr,
            r.spec_len() == length,
    {
        Self { ptr, length, _cont: PhantomData }
    }

    /// The address of the first value.
    pub fn ptr(&self) -> (r: usize)
        ensures
            r == self.spec_ptr(),
    {
        self.ptr
    }

    /// The number of values.
    pub fn len(&self) -> (r: usize)
        ensures
            r == self.spec_len(),
    {
        self.length
    }
}

} // verus!
