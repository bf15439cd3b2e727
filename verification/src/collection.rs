//! An ordered set of device records, unique by the full field set.

use vstd::prelude::*;

use crate::device::{Device, DeviceView};

verus! {

/// The deduplicated collection that a successful detection returns.
/// Records keep the order in which they were first inserted, so the same
/// inputs always yield the same iteration order.
pub struct DeviceCollection {
    devices: Vec<Device>,
}

impl View for DeviceCollection {
    type V = Seq<DeviceView>;

    closed spec fn view(&self) -> Seq<DeviceView> {
        self.devices@.map_values(|d: Device| d@)
    }
}

impl DeviceCollection {
    /// The empty collection.
    pub fn new() -> (r: DeviceCollection)
        ensures
            r@ == Seq::<DeviceView>::empty(),
    {
        let r = DeviceCollection { devices: Vec::new() };
        proof {
            assert(r@ =~= Seq::<DeviceView>::empty());
        }
        r
    }

    /// How many records the collection holds.
    pub fn len(&self) -> (n: usize)
        ensures
            n == self@.len(),
    {
        self.devices.len()
    }

    /// The record at a position, in the collection's stable order.
    pub fn get(&self, i: usize) -> (d: &Device)
        requires
            i < self@.len(),
        ensures
            d@ == self@[i as int],
    {
        &self.devices[i]
    }

    /// Whether a record with exactly these fields is already present.
    pub fn contains_device(&self, d: &Device) -> (r: bool)
        ensures
            r == self@.contains(d@),
    {
        let n = self.devices.len();
        let mut i: usize = 0;
        while i < n
            invariant
                n == self.devices@.len(),
                i <= n,
                forall|j: int| 0 <= j < i ==> self@[j] != d@,
            decreases n - i,
        {
            if self.devices[i].eq(d) {
                assert(self@[i as int] == d@);
                return true;
            }
            i += 1;
        }
        false
    }

    /// Adds a record unless an equal one is already present.
    pub fn insert(&mut self, d: Device)
        ensures
            final(self)@ == (if old(self)@.contains(d@) {
                old(self)@
            } else {
                old(self)@.push(d@)
            }),
    {
        if !self.contains_device(&d) {
            let ghost before = self@;
            let ghost dv = d@;
            self.devices.push(d);
            proof {
                assert(self@ =~= before.push(dv));
            }
        }
    }
}

} // verus!
