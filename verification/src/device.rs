//! The device bus: a registry of pluggable peripherals, fixed at startup
//! and owned by it for the whole run, with a diagnostic dump of all device
//! state for after a run halts.
//!
//! The instruction set as it stands maps no operation onto a device, so the
//! execution engine never consults the bus; it lives beside the machine and
//! is dumped once the run has stopped.

use vstd::prelude::*;

verus! {

/// A peripheral.  The device set is closed at build time; the one concrete
/// device is an unbounded last-in-first-out scratch store.
pub enum Device {
    Stack(Vec<u16>),
}

/// The words a device currently stores.
pub open spec fn device_words(d: Device) -> Seq<u16> {
    match d {
        Device::Stack(s) => s@,
    }
}

/// The registry of devices.  Devices are registered only before a run
/// starts and never removed.
pub struct DeviceManager {
    pub devices: Vec<Device>,
}

impl DeviceManager {
    /// An empty registry.
    pub fn new() -> (dm: DeviceManager)
        ensures
            dm.devices@.len() == 0,
    {
        DeviceManager { devices: Vec::new() }
    }

    /// Register one more device; the ones already registered are kept as
    /// they are.
    pub fn add(&mut self, d: Device)
        ensures
            final(self).devices@ == old(self).devices@.push(d),
    {
        self.devices.push(d);
    }

    /// The diagnostic dump: the stored words of every registered device, in
    /// registration order, for the caller to render.
    pub fn debug_dump(&self) -> (dump: Vec<Vec<u16>>)
        ensures
            dump@.len() == self.devices@.len(),
            forall|i: int| 0 <= i < dump@.len() ==> dump@[i]@ == device_words(self.devices@[i]),
    {
        let mut dump: Vec<Vec<u16>> = Vec::new();
        let mut i: usize = 0;
        while i < self.devices.len()
            invariant
                i <= self.devices@.len(),
                dump@.len() == i,
                forall|j: int| 0 <= j < i ==> dump@[j]@ == device_words(self.devices@[j]),
            decreases self.devices@.len() - i,
        {
            let words = match &self.devices[i] {
                Device::Stack(s) => copy_words(s),
            };
            dump.push(words);
            i = i + 1;
        }
        dump
    }
}

/// A fresh vector holding the same words.
fn copy_words(v: &Vec<u16>) -> (out: Vec<u16>)
    ensures
        out@ == v@,
{
    let mut out: Vec<u16> = Vec::new();
    let mut i: usize = 0;
    while i < v.len()
        invariant
            i <= v@.len(),
            out@ == v@.take(i as int),
        decreases v@.len() - i,
    {
        let ghost before = out@;
        out.push(v[i]);
        proof {
            assert(out@ =~= v@.take(i + 1));
        }
        i = i + 1;
    }
    proof {
        assert(v@.take(v@.len() as int) =~= v@);
    }
    out
}

} // verus!
