//! In-memory implementations of the transport traits, for driving the
//! controller deterministically without a radio.
//!
//! A [`SimulatedDesk`] is scripted with the position samples and clock
//! readings it will hand out, and records every write it is handed; a
//! [`SimulatedCentral`] is scripted with the peripheral snapshots its
//! polls will see.  Both are verified against the same trait contracts a
//! production adapter must honour.

use vstd::prelude::*;

use crate::device::Central;
use crate::device::CentralModel;
use crate::device::DeskModel;
use crate::device::Device;
use crate::device::ScanError;
use crate::device::TransportError;
use crate::codec::encode_height;
use crate::codec::MAX_HEIGHT;
use crate::codec::MIN_HEIGHT;
use crate::ids::AttributeId;
use crate::ids::DeviceAddr;
use vstd::slice::slice_to_vec;

verus! {

/// An in-memory desk: scripted reads, recorded writes.
pub struct SimulatedDesk {
    addr: DeviceAddr,
    name: Option<String>,
    attrs_ok: bool,
    attrs: Vec<AttributeId>,
    connect_ok: bool,
    subscribe_ok: bool,
    subscribed: Vec<AttributeId>,
    samples: Vec<Option<u16>>,
    writes: Vec<(AttributeId, Vec<u8>)>,
    times: Vec<u64>,
}

/// The view of an optional advertised name.
pub open spec fn spec_name_view(name: Option<String>) -> Option<Seq<char>> {
    match name {
        Some(n) => Some(n@),
        None => None,
    }
}

/// The view of a recorded write.
pub open spec fn spec_write_view(w: (AttributeId, Vec<u8>)) -> (AttributeId, Seq<u8>) {
    (w.0, w.1@)
}

impl SimulatedDesk {
    /// Script a desk: its identity, whether each transport step will
    /// succeed, and the samples and clock readings it will hand out.
    pub fn new(
        addr: DeviceAddr,
        name: Option<String>,
        attrs_ok: bool,
        attrs: Vec<AttributeId>,
        connect_ok: bool,
        subscribe_ok: bool,
        samples: Vec<Option<u16>>,
        times: Vec<u64>,
    ) -> (desk: SimulatedDesk)
        ensures
            desk.model() == (DeskModel {
                addr,
                name: spec_name_view(name),
                attrs_ok,
                attrs: attrs@,
                connect_ok,
                subscribe_ok,
                subscribed: Seq::<AttributeId>::empty(),
                samples: samples@,
                writes: Seq::<(AttributeId, Seq<u8>)>::empty(),
                times: times@,
            }),
    {
        let desk = SimulatedDesk {
            addr,
            name,
            attrs_ok,
            attrs,
            connect_ok,
            subscribe_ok,
            subscribed: Vec::new(),
            samples,
            writes: Vec::new(),
            times,
        };
        proof {
            assert(desk.model().writes =~= Seq::<(AttributeId, Seq<u8>)>::empty());
            assert(desk.model().subscribed =~= Seq::<AttributeId>::empty());
        }
        desk
    }

    /// The writes this desk has been handed, oldest first.
    pub fn write_log(&self) -> (log: &Vec<(AttributeId, Vec<u8>)>)
        ensures
            log@.len() == self.model().writes.len(),
            forall|i: int|
                0 <= i < log@.len() ==> spec_write_view(#[trigger] log@[i]) == self.model().writes[i],
    {
        &self.writes
    }

    /// How many scripted samples are still pending.
    pub fn samples_left(&self) -> (n: usize)
        ensures
            n == self.model().samples.len(),
    {
        self.samples.len()
    }

    /// The attributes whose notifications have been subscribed to.
    pub fn subscriptions(&self) -> (subs: &Vec<AttributeId>)
        ensures
            subs@ == self.model().subscribed,
    {
        &self.subscribed
    }
}

/// Copy a list of attribute identifiers.
fn copy_attrs(attrs: &Vec<AttributeId>) -> (out: Vec<AttributeId>)
    ensures
        out@ == attrs@,
{
    let mut out: Vec<AttributeId> = Vec::new();
    let mut i: usize = 0;
    while i < attrs.len()
        invariant
            i <= attrs@.len(),
            out@ == attrs@.take(i as int),
        decreases attrs@.len() - i,
    {
        out.push(attrs[i]);
        proof {
            assert(out@ =~= attrs@.take(i + 1));
        }
        i = i + 1;
    }
    proof {
        assert(attrs@.take(attrs@.len() as int) =~= attrs@);
    }
    out
}

impl Device for SimulatedDesk {
    closed spec fn model(&self) -> DeskModel {
        DeskModel {
            addr: self.addr,
            name: spec_name_view(self.name),
            attrs_ok: self.attrs_ok,
            attrs: self.attrs@,
            connect_ok: self.connect_ok,
            subscribe_ok: self.subscribe_ok,
            subscribed: self.subscribed@,
            samples: self.samples@,
            writes: self.writes@.map_values(|w: (AttributeId, Vec<u8>)| spec_write_view(w)),
            times: self.times@,
        }
    }

    fn address(&self) -> (addr: DeviceAddr) {
        self.addr
    }

    fn local_name(&self) -> (name: Option<String>) {
        match &self.name {
            Some(n) => Some(n.clone()),
            None => None,
        }
    }

    fn connect(&mut self) -> (ok: bool) {
        self.connect_ok
    }

    fn discover_attributes(&mut self) -> (attrs: Option<Vec<AttributeId>>) {
        if self.attrs_ok {
            Some(copy_attrs(&self.attrs))
        } else {
            None
        }
    }

    fn subscribe(&mut self, attr: &AttributeId) -> (ok: bool) {
        if self.subscribe_ok {
            self.subscribed.push(*attr);
            true
        } else {
            false
        }
    }

    fn write_value(&mut self, attr: &AttributeId, payload: &[u8]) -> (r: Result<
        (),
        TransportError,
    >) {
        let ghost before = self.model();
        let entry = (*attr, slice_to_vec(payload));
        self.writes.push(entry);
        proof {
            assert(self.model().writes =~= before.writes.push((*attr, payload@)));
        }
        Ok(())
    }

    fn read_value(&mut self, attr: &AttributeId) -> (r: Option<Vec<u8>>) {
        let ghost before = self.model();
        if self.samples.len() == 0 {
            return None;
        }
        let sample = self.samples.remove(0);
        proof {
            assert(self.model().samples =~= before.samples.skip(1));
        }
        match sample {
            Some(h) => {
                if MIN_HEIGHT <= h && h <= MAX_HEIGHT {
                    Some(encode_height(h))
                } else {
                    None
                }
            },
            None => None,
        }
    }

    fn now_millis(&mut self) -> (t: u64) {
        let ghost before = self.model();
        if self.times.len() == 0 {
            return 0;
        }
        let t = self.times.remove(0);
        proof {
            assert(self.model().times =~= before.times.skip(1));
        }
        t
    }
}

/// An in-memory radio: a scripted scan result and scripted snapshots of
/// the peripherals each poll will see.
pub struct SimulatedCentral {
    scan: Result<(), ScanError>,
    snapshots: Vec<Vec<SimulatedDesk>>,
    sleeps: Vec<u64>,
}

impl SimulatedCentral {
    /// Script a radio.
    pub fn new(scan: Result<(), ScanError>, snapshots: Vec<Vec<SimulatedDesk>>) -> (central:
        SimulatedCentral)
        ensures
            central.model() == (CentralModel {
                scan,
                snapshots: snapshots@.map_values(
                    |snap: Vec<SimulatedDesk>|
                        snap@.map_values(|d: SimulatedDesk| d.model()),
                ),
                sleeps: Seq::<u64>::empty(),
            }),
    {
        let central = SimulatedCentral { scan, snapshots, sleeps: Vec::new() };
        proof {
            assert(central.model().sleeps =~= Seq::<u64>::empty());
        }
        central
    }

    /// The sleeps taken so far, in milliseconds, oldest first.
    pub fn sleep_log(&self) -> (log: &Vec<u64>)
        ensures
            log@ == self.model().sleeps,
    {
        &self.sleeps
    }

    /// How many scripted snapshots are still pending.
    pub fn snapshots_left(&self) -> (n: usize)
        ensures
            n == self.model().snapshots.len(),
    {
        self.snapshots.len()
    }
}

impl Central for SimulatedCentral {
    type Dev = SimulatedDesk;

    closed spec fn model(&self) -> CentralModel {
        CentralModel {
            scan: self.scan,
            snapshots: self.snapshots@.map_values(
                |snap: Vec<SimulatedDesk>| snap@.map_values(|d: SimulatedDesk| d.model()),
            ),
            sleeps: self.sleeps@,
        }
    }

    fn start_scan(&mut self) -> (r: Result<(), ScanError>) {
        self.scan
    }

    fn peripherals(&mut self) -> (devices: Vec<Self::Dev>) {
        let ghost before = self.model();
        if self.snapshots.len() == 0 {
            let empty: Vec<SimulatedDesk> = Vec::new();
            return empty;
        }
        let snap = self.snapshots.remove(0);
        proof {
            assert(self.model().snapshots =~= before.snapshots.skip(1));
            assert(snap@.map_values(|d: SimulatedDesk| d.model()) == before.snapshots[0]);
        }
        snap
    }

    fn sleep_ms(&mut self, ms: u64) {
        self.sleeps.push(ms);
    }
}

} // verus!
