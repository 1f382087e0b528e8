//! A value with a version: one writer, readers that copy.

use vstd::prelude::*;

verus! {

/// A versioned value. The version counts the writes and wraps around.
#[derive(Debug)]
pub struct Slot<T> {
    inner: T,
    version: u64,
}

impl<T> Slot<T> {
    pub closed spec fn value(&self) -> T {
        self.inner
    }

    pub closed spec fn writes(&self) -> u64 {
        self.version
    }

    pub fn new(value: T) -> (r: Self)
        ensures
            r.value() == value,
            r.writes() == 0,
    {
        Slot { inner: value, version: 0 }
    }

    /// A copy of the value.
    pub fn read(&self) -> (r: T) where T: Clone
        ensures
            cloned(self.value(), r),
    {
        self.inner.clone()
    }

    /// Change the value in place and count the write.
    pub fn write(&mut self, f: impl FnOnce(&mut T))
        requires
            forall|v: &mut T| *v == old(self).value() ==> call_requires(f, (v,)),
        ensures
            exists|v: &mut T|
                *v == old(self).value() && *final(v) == final(self).value()
                    && #[trigger] call_ensures(f, (v,), ()),
            final(self).writes() == old(self).writes().wrapping_add(1),
    {
        f(&mut self.inner);
        self.version = self.version.wrapping_add(1);
    }

    /// How often the value was written.
    pub fn version(&self) -> (r: u64)
        ensures
            r == self.writes(),
    {
        self.version
    }
}

impl<T: Default> Default for Slot<T> {
    fn default() -> (r: Self)
        ensures
            call_ensures(T::default, (), r.value()),
            r.writes() == 0,
    {
        Slot { inner: T::default(), version: 0 }
    }
}

} // verus!
