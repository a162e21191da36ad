//! The overlay of a register bank on the address space.

use vstd::prelude::*;
use core::marker::PhantomData;

verus! {

/// A bank of memory-mapped registers, known by the address of its first
/// byte. `T` names the bank's layout and holds no data.
///
/// The overlay owns no memory and checks nothing. Whoever makes one vouches
/// that a bank laid out as `T` is mapped at that address, and that nothing
/// else drives it.
pub struct MMIODerefWrapper<T> {
    start_addr: usize,
    phantom: PhantomData<T>,
}

impl<T> MMIODerefWrapper<T> {
    /// The address of the bank's first byte.
    pub closed spec fn base(&self) -> usize {
        self.start_addr
    }

    /// The overlay of the bank that starts at `start_addr`.
    pub fn new(start_addr: usize) -> (bank: Self)
        ensures
            bank.base() == start_addr,
    {
        MMIODerefWrapper { start_addr, phantom: PhantomData }
    }

    /// The address of the bank's first byte.
    pub fn start_addr(&self) -> (addr: usize)
        ensures
            addr == self.base(),
    {
        self.start_addr
    }

    /// The address of the register that lies `offset` bytes into the bank.
    pub fn at(&self, offset: usize) -> (addr: usize)
        requires
            self.base() + offset <= usize::MAX,
        ensures
            addr == self.base() + offset,
    {
        self.start_addr + offset
    }
}

} // verus!
