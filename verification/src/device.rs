//! The capability contract for anything that can be mapped into the 16-bit
//! address space: a device declares one half-open address interval
//! `[base, limit)` and answers byte reads and writes inside it.

use vstd::prelude::*;

verus! {

/// A device that the bus can map into the address space.
///
/// The specification side models a device by its declared interval
/// (`base`, `limit`), the byte it holds at each in-range address
/// (`byte_at`), and a well-formedness condition (`inv`).  The interval must
/// be stable for the device's lifetime: `write` is the only mutator and it
/// preserves `base` and `limit`.
///
/// `read` and `write` may only be invoked for in-range addresses; the bus
/// filters by range before dispatching.
pub trait Addressable: Sized {
    /// First address the device responds to.
    spec fn base(&self) -> u16;

    /// One past the last address the device responds to.
    spec fn limit(&self) -> u16;

    /// The byte stored for an in-range address.
    spec fn byte_at(&self, address: u16) -> u8;

    /// Well-formedness of the device's internal state.
    spec fn inv(&self) -> bool;

    /// The declared `[base, limit)` interval.
    fn get_address_space(&self) -> (r: (u16, u16))
        requires
            self.inv(),
        ensures
            r.0 == self.base(),
            r.1 == self.limit(),
    ;

    /// The byte at an in-range address.
    fn read(&self, address: u16) -> (r: u8)
        requires
            self.inv(),
            self.base() <= address < self.limit(),
        ensures
            r == self.byte_at(address),
    ;

    /// Store a byte at an in-range address; every other address keeps its
    /// byte, and the declared interval does not move.
    fn write(&mut self, address: u16, data: u8)
        requires
            old(self).inv(),
            old(self).base() <= address < old(self).limit(),
        ensures
            final(self).inv(),
            final(self).base() == old(self).base(),
            final(self).limit() == old(self).limit(),
            final(self).byte_at(address) == data,
            forall|a: u16|
                old(self).base() <= a < old(self).limit() && a != address
                    ==> final(self).byte_at(a) == old(self).byte_at(a),
    ;
}

} // verus!
