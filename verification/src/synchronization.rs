//! Exclusive access to a value that several parts of a kernel share.

use vstd::prelude::*;

verus! {

/// A lock round a value.
pub trait Mutex {
    /// The type of the value that the lock guards.
    type Data;

    /// The value that the lock guards.
    spec fn data(&self) -> Self::Data;

    /// Takes the lock, runs `func` on the guarded value with no one else at
    /// it, gives the lock back and returns what `func` returned.
    ///
    /// `func` has to accept the value as it stands. What it makes of the
    /// value is what the lock guards afterwards.
    fn lock<R, F: FnOnce(&mut Self::Data) -> R>(&mut self, func: F) -> (out: R)
        requires
            forall|data: &mut Self::Data| *data == old(self).data() ==> func.requires((data,)),
        ensures
            exists|data: &mut Self::Data|
                {
                    &&& *data == old(self).data()
                    &&& *final(data) == final(self).data()
                    &&& func.ensures((data,), out)
                },
    ;
}

/// A lock that excludes no one. It serves on a single core that nothing
/// interrupts, where no one else can be at the value, and it keeps the place
/// of a real lock: its users go through [`Mutex`] and need not change when
/// one comes.
pub struct NullLock<T> {
    data: T,
}

impl<T> NullLock<T> {
    /// A lock round `value`.
    pub fn new(value: T) -> (lock: Self)
        ensures
            lock.data() == value,
    {
        NullLock { data: value }
    }
}

impl<T> Mutex for NullLock<T> {
    type Data = T;

    closed spec fn data(&self) -> T {
        self.data
    }

    fn lock<R, F: FnOnce(&mut T) -> R>(&mut self, func: F) -> (out: R) {
        func(&mut self.data)
    }
}

} // verus!
