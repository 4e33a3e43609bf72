//! A memory device: a fixed-size byte array mapped at a configurable base
//! address.  This is the minimal implementation of [`Addressable`].
//!
//! The declared interval is `[base, base + size)` and the array is
//! indexed by `address - base`, so a memory behaves the same at any base
//! address, not only at zero.

use vstd::prelude::*;

use crate::device::Addressable;

verus! {

/// Number of bytes a memory device holds.
pub const MEMORY_SIZE: usize = 0x7fff;

/// A byte-array device of `MEMORY_SIZE` bytes starting at `address`.
pub struct RandomAccessMemory {
    /// Base of the mapped interval.
    pub address: u16,
    /// Backing store; always exactly `MEMORY_SIZE` bytes.
    pub data: Vec<u8>,
}

impl RandomAccessMemory {
    /// A memory of `MEMORY_SIZE` zero bytes mapped at `address`.
    ///
    /// The base must leave the whole interval inside the 16-bit address
    /// space: `address + MEMORY_SIZE <= 0xFFFF`.
    pub fn new(address: u16) -> (r: RandomAccessMemory)
        requires
            address <= 0x8000,
        ensures
            r.inv(),
            r.base() == address,
            r.limit() == address + MEMORY_SIZE,
            forall|a: u16| r.base() <= a < r.limit() ==> r.byte_at(a) == 0,
    {
        let mut data: Vec<u8> = Vec::new();
        let mut i: usize = 0;
        while i < MEMORY_SIZE
            invariant
                i <= MEMORY_SIZE,
                data@.len() == i,
                forall|j: int| 0 <= j < i ==> data@[j] == 0,
            decreases MEMORY_SIZE - i,
        {
            data.push(0);
            i = i + 1;
        }
        RandomAccessMemory { address, data }
    }
}

impl Addressable for RandomAccessMemory {
    open spec fn base(&self) -> u16 {
        self.address
    }

    open spec fn limit(&self) -> u16 {
        (self.address + MEMORY_SIZE) as u16
    }

    open spec fn byte_at(&self, address: u16) -> u8 {
        self.data@[address - self.address]
    }

    open spec fn inv(&self) -> bool {
        self.data@.len() == MEMORY_SIZE && self.address <= 0x8000
    }

    fn get_address_space(&self) -> (r: (u16, u16)) {
        (self.address, self.address + (MEMORY_SIZE as u16))
    }

    fn read(&self, address: u16) -> (r: u8) {
        self.data[(address - self.address) as usize]
    }

    fn write(&mut self, address: u16, data: u8) {
        let i: usize = (address - self.address) as usize;
        self.data[i] = data;
    }
}

} // verus!
