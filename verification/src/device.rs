//! The transport capability the controller drives a desk through.
//!
//! [`Device`] is one connected (or connectable) remote device; [`Central`]
//! is the local radio that scans for such devices.  Both traits carry an
//! abstract model: the device's stable address and advertised name, the
//! attributes it exposes, the position samples its reads will yield, the
//! log of command writes it has accepted, and the clock readings its
//! handle's clock will give.  Every contract in the crate is stated over
//! these models, and [`crate::sim`] implements them in memory, with every
//! method verified against the same contracts a production transport
//! adapter must honour.

use vstd::prelude::*;

use crate::codec::spec_decoded_height;
use crate::codec::valid_height;
use crate::ids::spec_position_id;
use crate::ids::AttributeId;
use crate::ids::DeviceAddr;
use crate::text::spec_contains;

verus! {

/// A write to the transport was not accepted.
#[derive(Clone, Copy, PartialEq, Eq, Structural, Debug)]
pub struct TransportError;

/// Why a scan could not be started.
#[derive(Clone, Copy, PartialEq, Eq, Structural, Debug)]
pub enum ScanError {
    /// The transport reported an authorization problem.
    PermissionDenied,
    /// Any other failure to start scanning.
    Other,
}

/// Abstract state of one remote device.
///
/// `samples` holds the decoded heights that successive position reads will
/// yield, `None` standing for a failed read; `writes` is the log of writes
/// the device has been handed, newest last; `times` holds the readings the
/// handle's clock will give, in milliseconds.
pub struct DeskModel {
    /// Stable hardware address.
    pub addr: DeviceAddr,
    /// Advertised human-readable name, if the device advertises one.
    pub name: Option<Seq<char>>,
    /// Whether attribute enumeration will succeed.
    pub attrs_ok: bool,
    /// The attributes the device exposes, in enumeration order.
    pub attrs: Seq<AttributeId>,
    /// Whether a connection attempt will succeed.
    pub connect_ok: bool,
    /// Whether a notification subscription will succeed.
    pub subscribe_ok: bool,
    /// Attributes whose change notifications have been subscribed to.
    pub subscribed: Seq<AttributeId>,
    /// Upcoming position reads: a decoded height, or `None` for a failure.
    pub samples: Seq<Option<u16>>,
    /// Writes accepted so far: target attribute and payload, oldest first.
    pub writes: Seq<(AttributeId, Seq<u8>)>,
    /// Upcoming readings of the handle's monotonic clock.
    pub times: Seq<u64>,
}

/// One remote device, as the controller sees it.
///
/// The desk controller is generic over this trait: the production
/// implementation adapts a real wireless transport, and
/// [`crate::sim::SimulatedDesk`] is a verified in-memory one.  The clock
/// is part of the handle so that control-loop timing is injectable.
pub trait Device: Sized {
    /// The abstract state this device is in.  The default is an inert
    /// placeholder: implementations inside the crate supply their own and
    /// prove every method against it, while adapters outside the verified
    /// world need none.
    open spec fn model(&self) -> DeskModel {
        DeskModel {
            addr: DeviceAddr { value: 0 },
            name: None,
            attrs_ok: false,
            attrs: Seq::empty(),
            connect_ok: false,
            subscribe_ok: false,
            subscribed: Seq::empty(),
            samples: Seq::empty(),
            writes: Seq::empty(),
            times: Seq::empty(),
        }
    }

    /// The device's stable hardware address.
    fn address(&self) -> (addr: DeviceAddr)
        ensures
            addr == self.model().addr,
    ;

    /// The device's advertised name, if any.
    fn local_name(&self) -> (name: Option<String>)
        ensures
            match name {
                Some(n) => self.model().name == Some(n@),
                None => self.model().name is None,
            },
    ;

    /// Establish the connection.  Nothing else about the device changes.
    fn connect(&mut self) -> (ok: bool)
        ensures
            final(self).model() == old(self).model(),
            ok == old(self).model().connect_ok,
    ;

    /// Enumerate the remote attributes, or report that enumeration failed.
    fn discover_attributes(&mut self) -> (attrs: Option<Vec<AttributeId>>)
        ensures
            final(self).model() == old(self).model(),
            match attrs {
                Some(v) => old(self).model().attrs_ok && v@ == old(self).model().attrs,
                None => !old(self).model().attrs_ok,
            },
    ;

    /// Subscribe to change notifications of one attribute.
    fn subscribe(&mut self, attr: &AttributeId) -> (ok: bool)
        ensures
            ok == old(self).model().subscribe_ok,
            ok ==> final(self).model() == (DeskModel {
                subscribed: old(self).model().subscribed.push(*attr),
                ..old(self).model()
            }),
            !ok ==> final(self).model() == old(self).model(),
    ;

    /// Hand the device a write of `payload` to `attr`.  The write is
    /// logged whether or not the transport accepts it; nothing is promised
    /// about acceptance.
    fn write_value(&mut self, attr: &AttributeId, payload: &[u8]) -> (r: Result<
        (),
        TransportError,
    >)
        ensures
            final(self).model() == (DeskModel {
                writes: old(self).model().writes.push((*attr, payload@)),
                ..old(self).model()
            }),
    ;

    /// Read the position attribute once.  A pending valid sample comes
    /// back as its 4-byte report; a pending failure, an out-of-range
    /// sample or an exhausted device yields `None`.
    fn read_value(&mut self, attr: &AttributeId) -> (r: Option<Vec<u8>>)
        requires
            *attr == spec_position_id(),
        ensures
            ({
                let m = old(self).model();
                if m.samples.len() == 0 {
                    final(self).model() == m && r is None
                } else {
                    final(self).model() == (DeskModel { samples: m.samples.skip(1), ..m })
                        && match m.samples[0] {
                        Some(h) => {
                            if valid_height(h) {
                                r matches Some(bytes) && bytes@.len() == 4 && spec_decoded_height(
                                    bytes@,
                                ) == h
                            } else {
                                r is None
                            }
                        },
                        None => r is None,
                    }
                }
            }),
    ;

    /// Read the handle's monotonic clock, in milliseconds.
    fn now_millis(&mut self) -> (t: u64)
        ensures
            ({
                let m = old(self).model();
                if m.times.len() == 0 {
                    final(self).model() == m && t == 0
                } else {
                    final(self).model() == (DeskModel { times: m.times.skip(1), ..m }) && t
                        == m.times[0]
                }
            }),
    ;
}

/// Abstract state of the local radio: the result the next scan start will
/// report, the peripheral lists that successive polls will see, and the
/// log of sleeps taken between polls.
pub struct CentralModel {
    /// What starting a scan will report.
    pub scan: Result<(), ScanError>,
    /// Upcoming snapshots of the visible peripherals, one per poll.
    pub snapshots: Seq<Seq<DeskModel>>,
    /// Sleeps taken so far, in milliseconds, oldest first.
    pub sleeps: Seq<u64>,
}

/// The local radio: scans for advertising devices and lists what is
/// currently visible.
pub trait Central: Sized {
    /// The kind of device handle this radio hands out.
    type Dev: Device;

    /// The abstract state this radio is in.  As with
    /// [`Device::model`], the default is an inert placeholder.
    open spec fn model(&self) -> CentralModel {
        CentralModel { scan: Err(ScanError::Other), snapshots: Seq::empty(), sleeps: Seq::empty() }
    }

    /// Start scanning for advertising devices.
    fn start_scan(&mut self) -> (r: Result<(), ScanError>)
        ensures
            final(self).model() == old(self).model(),
            r == old(self).model().scan,
    ;

    /// List the peripherals visible right now, consuming one snapshot.
    /// With no snapshot left, nothing is visible.
    fn peripherals(&mut self) -> (devices: Vec<Self::Dev>)
        ensures
            ({
                let m = old(self).model();
                if m.snapshots.len() == 0 {
                    final(self).model() == m && devices@.len() == 0
                } else {
                    final(self).model() == (CentralModel { snapshots: m.snapshots.skip(1), ..m })
                        && devices@.len() == m.snapshots[0].len() && forall|i: int|
                        0 <= i < devices@.len() ==> (#[trigger] devices@[i].model())
                            == m.snapshots[0][i]
                }
            }),
    ;

    /// Sleep for `ms` milliseconds between polls.
    fn sleep_ms(&mut self, ms: u64)
        ensures
            final(self).model() == (CentralModel {
                sleeps: old(self).model().sleeps.push(ms),
                ..old(self).model()
            }),
    ;
}

/// How discovery picks a device: by exact hardware address, or by a
/// case-sensitive substring of its advertised name.
pub enum DeviceMatcher {
    /// Match the device with exactly this hardware address.
    Address(DeviceAddr),
    /// Match any device whose advertised name contains this text.
    Name(String),
}

/// Whether a device in state `m` is the one `matcher` asks for.
pub open spec fn spec_matches(m: DeskModel, matcher: DeviceMatcher) -> bool {
    match matcher {
        DeviceMatcher::Address(a) => m.addr == a,
        DeviceMatcher::Name(n) => m.name matches Some(t) && spec_contains(t, n@),
    }
}

/// Test a device against a matcher.
pub fn device_matches<D: Device>(dev: &D, matcher: &DeviceMatcher) -> (r: bool)
    ensures
        r == spec_matches(dev.model(), *matcher),
{
    match matcher {
        DeviceMatcher::Address(a) => {
            let addr = dev.address();
            addr == *a
        },
        DeviceMatcher::Name(n) => {
            match dev.local_name() {
                Some(name) => crate::text::contains_substring(name.as_str(), n.as_str()),
                None => false,
            }
        },
    }
}

} // verus!
