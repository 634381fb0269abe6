//! Cells for values shared with interrupt handlers: a cell whose value is
//! replaced as a whole, and a cell whose value is computed on first use.
//!
//! Access is exclusive here (`&mut`), which is what the spin lock of the
//! cell guarantees for the duration of each operation.
use vstd::prelude::*;

verus! {

/// A cell whose value is read and replaced as a whole.
#[derive(Debug)]
pub struct AtomicCell<T> {
    value: T,
}

impl<T> View for AtomicCell<T> {
    type V = T;

    closed spec fn view(&self) -> T {
        self.value
    }
}

impl<T> AtomicCell<T> {
    /// A cell holding `value`.
    pub fn new(value: T) -> (r: Self)
        ensures
            r@ == value,
    {
        Self { value }
    }

    /// Stores `value`.
    pub fn set(&mut self, value: T)
        ensures
            final(self)@ == value,
    {
        self.value = value;
    }

    /// Stores `value` and returns the value held before.
    pub fn replace(&mut self, value: T) -> (r: T)
        ensures
            r == old(self)@,
            final(self)@ == value,
    {
        let mut held = value;
        core::mem::swap(&mut self.value, &mut held);
        held
    }
}

impl<T: Copy> AtomicCell<T> {
    /// The value held.
    pub fn get(&self) -> (r: T)
        ensures
            r == self@,
    {
        self.value
    }
}

impl<T: Clone> AtomicCell<T> {
    /// A clone of the value held.
    pub fn get_cloned(&self) -> (r: T)
        ensures
            cloned::<T>(self@, r),
    {
        self.value.clone()
    }
}

/// A cell whose value is computed by `F` on first use.
pub struct AtomicLazyCell<T, F> {
    value: Option<T>,
    fun: Option<F>,
}

impl<T, F: FnOnce() -> T> AtomicLazyCell<T, F> {
    /// The value, once computed.
    pub closed spec fn spec_value(&self) -> Option<T> {
        self.value
    }

    /// The function that computes the value, until it has run.
    pub closed spec fn spec_fun(&self) -> Option<F> {
        self.fun
    }

    /// A cell that computes its value with `fun` on first use.
    pub fn new(fun: F) -> (r: Self)
        ensures
            r.spec_value() is None,
            r.spec_fun() == Some(fun),
    {
        Self { value: None, fun: Some(fun) }
    }

    fn force(&mut self)
        requires
            old(self).spec_value() is Some || (old(self).spec_fun() matches Some(f)
                && call_requires(f, ())),
        ensures
            final(self).spec_value() is Some,
            old(self).spec_value() is Some ==> final(self).spec_value() == old(self).spec_value(),
            old(self).spec_value() is None ==> (old(self).spec_fun() matches Some(f) && call_ensures(
                f,
                (),
                final(self).spec_value()->0,
            ) && final(self).spec_fun() is None),
    {
        if self.value.is_none() {
            let fun = self.fun.take();
            match fun {
                Some(f) => {
                    self.value = Some(f());
                },
                None => {},
            }
        }
    }

    /// The value, computed by the function on the first call: later calls
    /// give the same value.
    pub fn get(&mut self) -> (r: &T)
        requires
            old(self).spec_value() is Some || (old(self).spec_fun() matches Some(f)
                && call_requires(f, ())),
        ensures
            final(self).spec_value() == Some(*r),
            old(self).spec_value() matches Some(v) ==> *r == v,
            old(self).spec_value() is None ==> (old(self).spec_fun() matches Some(f) && call_ensures(
                f,
                (),
                *r,
            )),
    {
        self.force();
        self.value.as_ref().unwrap()
    }

    /// A mutable reference to the value, computed by the function if it has
    /// not been yet; what is written through it is the cell's value after.
    pub fn get_mut(&mut self) -> (r: &mut T)
        requires
            old(self).spec_value() is Some || (old(self).spec_fun() matches Some(f)
                && call_requires(f, ())),
        ensures
            old(self).spec_value() matches Some(v) ==> *r == v,
            old(self).spec_value() is None ==> (old(self).spec_fun() matches Some(f) && call_ensures(
                f,
                (),
                *r,
            )),
            final(self).spec_value() == Some(*final(r)),
    {
        self.force();
        self.value.as_mut().unwrap()
    }
}

} // verus!
