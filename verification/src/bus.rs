//! The bus owns an ordered collection of addressable devices and routes
//! every byte read or write to the first device whose declared interval
//! contains the address.
//!
//! Device intervals should not overlap; the bus does not enforce this, and
//! if they do, dispatch uses first-match-in-registration-order.  A write to
//! an address no device claims is a no-op that the caller can report (the
//! returned flag says whether a device accepted it); a read from such an
//! address returns the defined unmapped value `0xFF` rather than falling
//! back to an arbitrary device.

use vstd::prelude::*;

use crate::device::Addressable;

verus! {

/// Index of the first device in `devs`, at position `i` or after, whose
/// declared interval contains `address`; `devs.len()` if none does.
pub open spec fn route_from<D: Addressable>(devs: Seq<D>, address: u16, i: int) -> int
    decreases devs.len() - i,
{
    if i < 0 || i >= devs.len() {
        devs.len() as int
    } else if devs[i].base() <= address < devs[i].limit() {
        i
    } else {
        route_from(devs, address, i + 1)
    }
}

/// The routing index lies in `[i, len]`; when it is below `len` it names a
/// device containing `address`, and no device between `i` and it does.
proof fn lemma_route_from_properties<D: Addressable>(devs: Seq<D>, address: u16, i: int)
    requires
        0 <= i <= devs.len(),
    ensures
        i <= route_from(devs, address, i) <= devs.len(),
        route_from(devs, address, i) < devs.len() ==> devs[route_from(devs, address, i)].base()
            <= address < devs[route_from(devs, address, i)].limit(),
        forall|j: int|
            i <= j < route_from(devs, address, i) ==> !((#[trigger] devs[j]).base() <= address
                < devs[j].limit()),
    decreases devs.len() - i,
{
    if i < devs.len() && !(devs[i].base() <= address < devs[i].limit()) {
        lemma_route_from_properties(devs, address, i + 1);
    }
}

/// If no device before `k` contains `address` and the device at `k` does
/// (or `k` is the end), the routing index from `i` is exactly `k`.
proof fn lemma_route_from_value<D: Addressable>(devs: Seq<D>, address: u16, i: int, k: int)
    requires
        0 <= i <= k <= devs.len(),
        forall|j: int| i <= j < k ==> !((#[trigger] devs[j]).base() <= address < devs[j].limit()),
        k < devs.len() ==> devs[k].base() <= address < devs[k].limit(),
    ensures
        route_from(devs, address, i) == k,
    decreases k - i,
{
    if i < k {
        lemma_route_from_value(devs, address, i + 1, k);
    }
}

/// Routing depends only on the devices' declared intervals.
proof fn lemma_route_from_congruence<D: Addressable>(d1: Seq<D>, d2: Seq<D>, address: u16, i: int)
    requires
        d1.len() == d2.len(),
        forall|j: int|
            0 <= j < d1.len() ==> d1[j].base() == d2[j].base() && d1[j].limit() == d2[j].limit(),
        0 <= i <= d1.len(),
    ensures
        route_from(d1, address, i) == route_from(d2, address, i),
    decreases d1.len() - i,
{
    if i < d1.len() {
        lemma_route_from_congruence(d1, d2, address, i + 1);
    }
}

/// The address-space dispatcher: an ordered collection of devices.
pub struct Bus<D: Addressable> {
    /// Attached devices, in registration order.
    pub devices: Vec<D>,
}

impl<D: Addressable> Bus<D> {
    /// Every attached device is well-formed.
    pub open spec fn inv(&self) -> bool {
        forall|i: int| 0 <= i < self.devices@.len() ==> self.devices@[i].inv()
    }

    /// Index of the device that dispatch picks for `address`
    /// (`devices.len()` if none contains it).
    pub open spec fn route(&self, address: u16) -> int {
        route_from(self.devices@, address, 0)
    }

    /// Whether some device's interval contains `address`.
    pub open spec fn mapped(&self, address: u16) -> bool {
        self.route(address) < self.devices@.len()
    }

    /// The byte the routed device holds at `address` (meaningful only when
    /// `mapped(address)`).
    pub open spec fn byte_at(&self, address: u16) -> u8 {
        self.devices@[self.route(address)].byte_at(address)
    }

    /// What a read observes: the routed device's byte, or `0xFF` when no
    /// device claims the address.
    pub open spec fn read_value(&self, address: u16) -> u8 {
        if self.mapped(address) {
            self.byte_at(address)
        } else {
            0xFF
        }
    }

    /// How a bus after `write(address, data)` relates to the bus before:
    /// the routing map is unchanged, the routed cell now holds `data`,
    /// every other address reads as before, and an unrouted write changes
    /// nothing at all.
    pub open spec fn write_effect(
        pre: Bus<D>,
        post: Bus<D>,
        address: u16,
        data: u8,
        routed: bool,
    ) -> bool {
        &&& post.inv()
        &&& routed == pre.mapped(address)
        &&& post.devices@.len() == pre.devices@.len()
        &&& forall|a: u16| post.mapped(a) == pre.mapped(a)
        &&& forall|a: u16| a != address ==> post.read_value(a) == pre.read_value(a)
        &&& pre.mapped(address) ==> post.read_value(address) == data
        &&& !pre.mapped(address) ==> post == pre
    }

    /// A bus over exactly one device.
    pub fn new(memory: D) -> (r: Bus<D>)
        requires
            memory.inv(),
        ensures
            r.inv(),
            r.devices@.len() == 1,
            r.devices@[0] == memory,
    {
        let mut devices: Vec<D> = Vec::new();
        devices.push(memory);
        Bus { devices }
    }

    /// The byte at `address`: scans devices in order and reads from the
    /// first whose interval contains the address; `0xFF` if none does.
    pub fn read(&self, address: u16) -> (r: u8)
        requires
            self.inv(),
        ensures
            r == self.read_value(address),
    {
        let n: usize = self.devices.len();
        let mut k: usize = 0;
        while k < n
            invariant
                self.inv(),
                n == self.devices@.len(),
                k <= n,
                forall|j: int|
                    0 <= j < k ==> !((#[trigger] self.devices@[j]).base() <= address
                        < self.devices@[j].limit()),
            decreases n - k,
        {
            let device = &self.devices[k];
            let space: (u16, u16) = device.get_address_space();
            if space.0 <= address && address < space.1 {
                proof {
                    lemma_route_from_value(self.devices@, address, 0, k as int);
                }
                return device.read(address);
            }
            k = k + 1;
        }
        proof {
            lemma_route_from_value(self.devices@, address, 0, n as int);
        }
        0xFF
    }

    /// Store `data` at `address` through the first device whose interval
    /// contains the address.  Returns whether a device accepted the write,
    /// so the caller can report an unrouted address; an unrouted write
    /// never crashes and changes nothing.
    pub fn write(&mut self, address: u16, data: u8) -> (routed: bool)
        requires
            old(self).inv(),
        ensures
            Bus::write_effect(*old(self), *final(self), address, data, routed),
    {
        let ghost pre: Bus<D> = *self;
        let n: usize = self.devices.len();
        let mut k: usize = 0;
        while k < n
            invariant
                pre == *old(self),
                *self == pre,
                self.inv(),
                n == self.devices@.len(),
                k <= n,
                forall|j: int|
                    0 <= j < k ==> !((#[trigger] self.devices@[j]).base() <= address
                        < self.devices@[j].limit()),
            decreases n - k,
        {
            let space: (u16, u16) = self.devices[k].get_address_space();
            if space.0 <= address && address < space.1 {
                proof {
                    lemma_route_from_value(pre.devices@, address, 0, k as int);
                }
                let device = &mut self.devices[k];
                device.write(address, data);
                proof {
                    lemma_write_updates_routed_cell(pre, *self, address, data, k as int);
                }
                return true;
            }
            k = k + 1;
        }
        proof {
            lemma_route_from_value(pre.devices@, address, 0, n as int);
        }
        false
    }
}

/// Writing through the routed device realises `write_effect`: routing is
/// interval-based and intervals are stable, so every other cell keeps its
/// byte.
proof fn lemma_write_updates_routed_cell<D: Addressable>(
    pre: Bus<D>,
    post: Bus<D>,
    address: u16,
    data: u8,
    k: int,
)
    requires
        pre.inv(),
        0 <= k < pre.devices@.len(),
        pre.route(address) == k,
        post.devices@.len() == pre.devices@.len(),
        forall|j: int| 0 <= j < pre.devices@.len() && j != k ==> post.devices@[j] == pre.devices@[j],
        post.devices@[k].inv(),
        post.devices@[k].base() == pre.devices@[k].base(),
        post.devices@[k].limit() == pre.devices@[k].limit(),
        post.devices@[k].byte_at(address) == data,
        forall|a: u16|
            pre.devices@[k].base() <= a < pre.devices@[k].limit() && a != address
                ==> post.devices@[k].byte_at(a) == pre.devices@[k].byte_at(a),
    ensures
        Bus::write_effect(pre, post, address, data, true),
{
    assert forall|a: u16| post.route(a) == pre.route(a) by {
        lemma_route_from_congruence(post.devices@, pre.devices@, a, 0);
    }
    lemma_route_from_properties(pre.devices@, address, 0);
    assert forall|a: u16| a != address implies post.read_value(a) == pre.read_value(a) by {
        lemma_route_from_properties(pre.devices@, a, 0);
    }
}

/// For every mapped address `a` and byte value `v`: after `write(a, v)`
/// succeeds on a bus, a `read(a)` on the resulting bus returns `v`.
pub proof fn lemma_write_read_round_trip<D: Addressable>(
    pre: Bus<D>,
    post: Bus<D>,
    address: u16,
    data: u8,
    routed: bool,
)
    requires
        pre.inv(),
        pre.mapped(address),
        Bus::write_effect(pre, post, address, data, routed),
    ensures
        routed,
        post.read_value(address) == data,
{
}

} // verus!
