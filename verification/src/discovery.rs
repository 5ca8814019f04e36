//! Bounded-retry device discovery and the two entry points that compose
//! discovery, connection and attribute resolution into a ready controller.
//!
//! A single scan snapshot is unreliable, so discovery polls the radio's
//! peripheral list repeatedly, sleeping between polls, up to a fixed
//! budget of attempts.  Exhausting the budget is a normal "not found"
//! outcome, not an exception.

use vstd::prelude::*;

use crate::controller::spec_resolution_error;
use crate::controller::spec_resolution_ok;
use crate::controller::Idasen;
use crate::device::spec_matches;
use crate::device::Central;
use crate::device::CentralModel;
use crate::device::DeskModel;
use crate::device::Device;
use crate::device::DeviceMatcher;
use crate::device::ScanError;
use crate::error::Error;
use crate::ids::parse_device_addr;
use crate::ids::spec_addr_value;
use crate::ids::spec_position_id;
use crate::ids::valid_addr_text;
use crate::ids::DeviceAddr;

verus! {

/// How many polling cycles discovery is budgeted.
pub const DISCOVERY_ATTEMPTS: u64 = 240;

/// How long discovery sleeps between polling cycles, in milliseconds.
pub const DISCOVERY_POLL_MS: u64 = 50;

/// Some device in the snapshot satisfies the matcher.
pub open spec fn snapshot_has_match(snap: Seq<DeskModel>, matcher: DeviceMatcher) -> bool {
    exists|i: int| 0 <= i < snap.len() && spec_matches(#[trigger] snap[i], matcher)
}

/// `dm` is the first device in the snapshot that satisfies the matcher.
pub open spec fn first_match_in(snap: Seq<DeskModel>, matcher: DeviceMatcher, dm: DeskModel) -> bool {
    exists|i: int|
        {
            &&& 0 <= i < snap.len()
            &&& dm == #[trigger] snap[i]
            &&& spec_matches(snap[i], matcher)
            &&& forall|ii: int| 0 <= ii < i ==> !spec_matches(#[trigger] snap[ii], matcher)
        }
}

/// The contract of one bounded-retry search, relating the radio model
/// before (`m`) and after (`f`) to what was found:
///
/// - "not found" means no snapshot within the attempt budget held a
///   match; every budgeted snapshot was consumed and every attempt ended
///   with one poll-interval sleep;
/// - a found device is the first match of the first matching snapshot;
///   the snapshots up to and including that one were consumed and only
///   the failed attempts before it slept.
pub open spec fn spec_find_contract(
    m: CentralModel,
    f: CentralModel,
    matcher: DeviceMatcher,
    max_attempts: u64,
    interval: u64,
    found: Option<DeskModel>,
) -> bool {
    let n = if max_attempts as int <= m.snapshots.len() {
        max_attempts as int
    } else {
        m.snapshots.len() as int
    };
    match found {
        None => {
            &&& forall|j: int| 0 <= j < n ==> !snapshot_has_match(#[trigger] m.snapshots[j], matcher)
            &&& f == (CentralModel {
                snapshots: m.snapshots.skip(n),
                sleeps: m.sleeps + Seq::new(max_attempts as nat, |x: int| interval),
                ..m
            })
        },
        Some(dm) => exists|j: int|
            {
                &&& 0 <= j < n
                &&& forall|jj: int|
                    0 <= jj < j ==> !snapshot_has_match(#[trigger] m.snapshots[jj], matcher)
                &&& first_match_in(#[trigger] m.snapshots[j], matcher, dm)
                &&& f == (CentralModel {
                    snapshots: m.snapshots.skip(j + 1),
                    sleeps: m.sleeps + Seq::new(j as nat, |x: int| interval),
                    ..m
                })
            },
    }
}

/// Index of the first device of one snapshot that satisfies the matcher.
fn index_of_match<D: Device>(devices: &Vec<D>, matcher: &DeviceMatcher) -> (found: Option<usize>)
    ensures
        match found {
            Some(i) => {
                &&& 0 <= i < devices@.len()
                &&& spec_matches(devices@[i as int].model(), *matcher)
                &&& forall|ii: int|
                    0 <= ii < i ==> !spec_matches((#[trigger] devices@[ii]).model(), *matcher)
            },
            None => forall|i: int|
                0 <= i < devices@.len() ==> !spec_matches((#[trigger] devices@[i]).model(), *matcher),
        },
{
    let mut i: usize = 0;
    while i < devices.len()
        invariant
            i <= devices@.len(),
            forall|ii: int|
                0 <= ii < i ==> !spec_matches((#[trigger] devices@[ii]).model(), *matcher),
        decreases devices@.len() - i,
    {
        if crate::device::device_matches(&devices[i], matcher) {
            return Some(i);
        }
        i = i + 1;
    }
    None
}

/// Search the radio's peripheral list for a matching device, polling up
/// to `max_attempts` times and sleeping `interval` milliseconds after
/// every attempt that found nothing.
pub fn find_desk<C: Central>(
    central: &mut C,
    matcher: &DeviceMatcher,
    max_attempts: u64,
    interval: u64,
) -> (found: Option<C::Dev>)
    ensures
        ({
            let fm = match found {
                Some(dev) => Some(dev.model()),
                None => None::<DeskModel>,
            };
            spec_find_contract(
                old(central).model(),
                final(central).model(),
                *matcher,
                max_attempts,
                interval,
                fm,
            )
        }),
{
    let ghost m0 = old(central).model();
    let mut attempt: u64 = 0;
    proof {
        assert(m0.snapshots.skip(0) =~= m0.snapshots);
        assert(m0.sleeps + Seq::new(0nat, |x: int| interval) =~= m0.sleeps);
    }
    while attempt < max_attempts
        invariant
            m0 == old(central).model(),
            attempt <= max_attempts,
            central.model() == (CentralModel {
                snapshots: m0.snapshots.skip(
                    if attempt as int <= m0.snapshots.len() {
                        attempt as int
                    } else {
                        m0.snapshots.len() as int
                    },
                ),
                sleeps: m0.sleeps + Seq::new(attempt as nat, |x: int| interval),
                ..m0
            }),
            forall|j: int|
                0 <= j < attempt && j < m0.snapshots.len() ==> !snapshot_has_match(
                    #[trigger] m0.snapshots[j],
                    *matcher,
                ),
        decreases max_attempts - attempt,
    {
        let ghost consumed = if attempt as int <= m0.snapshots.len() {
            attempt as int
        } else {
            m0.snapshots.len() as int
        };
        let ghost mc = central.model();
        let mut devices = central.peripherals();
        let ghost devs = devices@;
        proof {
            if consumed < m0.snapshots.len() {
                assert(m0.snapshots.skip(consumed).skip(1) =~= m0.snapshots.skip(consumed + 1));
                assert(m0.snapshots.skip(consumed)[0] == m0.snapshots[consumed]);
            }
        }
        match index_of_match(&devices, matcher) {
            Some(i) => {
                let dev = devices.remove(i);
                proof {
                    let j = consumed;
                    let snap = m0.snapshots[j];
                    assert(mc.snapshots.len() > 0);
                    assert(j < m0.snapshots.len());
                    assert(dev.model() == (devs[i as int]).model());
                    assert(devs[i as int].model() == snap[i as int]);
                    assert forall|ii: int| 0 <= ii < i implies !spec_matches(
                        #[trigger] snap[ii],
                        *matcher,
                    ) by {
                        assert((devs[ii]).model() == snap[ii]);
                    }
                    assert(first_match_in(snap, *matcher, dev.model()));
                }
                return Some(dev);
            },
            None => {},
        }
        proof {
            if consumed < m0.snapshots.len() {
                assert forall|i: int| 0 <= i < m0.snapshots[consumed].len() implies !spec_matches(
                    #[trigger] m0.snapshots[consumed][i],
                    *matcher,
                ) by {
                    assert((devs[i]).model() == m0.snapshots[consumed][i]);
                }
                assert(!snapshot_has_match(m0.snapshots[consumed], *matcher));
            }
        }
        attempt = attempt + 1;
        central.sleep_ms(interval);
        proof {
            assert(central.model().sleeps =~= m0.sleeps + Seq::new(attempt as nat, |x: int| interval));
        }
    }
    None
}

/// `matcher` is the matcher that a request for `mac` builds: an exact
/// address match when an address was given, otherwise any advertised name
/// containing "Desk".
pub open spec fn matcher_denotes(matcher: DeviceMatcher, mac: Option<DeviceAddr>) -> bool {
    match mac {
        Some(a) => matcher == DeviceMatcher::Address(a),
        None => matcher matches DeviceMatcher::Name(n) && n@ == "Desk"@,
    }
}

/// Scan, search within the discovery budget, and connect to the match.
pub fn get_desk<C: Central>(central: &mut C, mac: Option<DeviceAddr>) -> (r: Result<C::Dev, Error>)
    ensures
        ({
            let m = old(central).model();
            let f = final(central).model();
            match r {
                Ok(dev) => {
                    &&& m.scan is Ok
                    &&& dev.model().connect_ok
                    &&& exists|matcher: DeviceMatcher|
                        #[trigger] matcher_denotes(matcher, mac) && spec_find_contract(
                            m,
                            f,
                            matcher,
                            DISCOVERY_ATTEMPTS,
                            DISCOVERY_POLL_MS,
                            Some(dev.model()),
                        )
                },
                Err(e) => {
                    ||| (e == Error::PermissionDenied && m.scan == Err::<(), ScanError>(
                        ScanError::PermissionDenied,
                    ) && f == m)
                    ||| (e == Error::ScanFailed && m.scan == Err::<(), ScanError>(ScanError::Other)
                        && f == m)
                    ||| (e == Error::CannotFindDevice && m.scan is Ok && exists|
                    matcher: DeviceMatcher,
                    |
                        #[trigger] matcher_denotes(matcher, mac) && spec_find_contract(
                            m,
                            f,
                            matcher,
                            DISCOVERY_ATTEMPTS,
                            DISCOVERY_POLL_MS,
                            None::<DeskModel>,
                        ))
                    ||| (e == Error::ConnectionFailed && m.scan is Ok && exists|
                    matcher: DeviceMatcher,
                    dm: DeskModel,
                    |
                        #[trigger] matcher_denotes(matcher, mac) && !dm.connect_ok
                            && #[trigger] spec_find_contract(
                            m,
                            f,
                            matcher,
                            DISCOVERY_ATTEMPTS,
                            DISCOVERY_POLL_MS,
                            Some(dm),
                        ))
                },
            }
        }),
{
    match central.start_scan() {
        Ok(_) => {},
        Err(ScanError::PermissionDenied) => {
            return Err(Error::PermissionDenied);
        },
        Err(ScanError::Other) => {
            return Err(Error::ScanFailed);
        },
    }
    let matcher = match mac {
        Some(a) => DeviceMatcher::Address(a),
        None => DeviceMatcher::Name("Desk".to_owned()),
    };
    let ghost gm = matcher;
    proof {
        assert(matcher_denotes(gm, mac));
    }
    let mut desk = match find_desk(central, &matcher, DISCOVERY_ATTEMPTS, DISCOVERY_POLL_MS) {
        Some(desk) => desk,
        None => {
            return Err(Error::CannotFindDevice);
        },
    };
    if !desk.connect() {
        return Err(Error::ConnectionFailed);
    }
    Ok(desk)
}

/// The contract of building a controller from scratch: scan, search,
/// connect and resolve, with each step's failure reported as its own
/// error and the radio model advanced exactly as the search demands.
pub open spec fn spec_instance_contract<T: Device>(
    m: CentralModel,
    f: CentralModel,
    mac: Option<DeviceAddr>,
    r: Result<Idasen<T>, Error>,
) -> bool {
    match r {
        Ok(c) => {
            &&& c.wf()
            &&& m.scan is Ok
            &&& exists|matcher: DeviceMatcher, dm: DeskModel|
                {
                    &&& #[trigger] matcher_denotes(matcher, mac)
                    &&& #[trigger] spec_find_contract(
                        m,
                        f,
                        matcher,
                        DISCOVERY_ATTEMPTS,
                        DISCOVERY_POLL_MS,
                        Some(dm),
                    )
                    &&& dm.connect_ok
                    &&& spec_resolution_ok(dm)
                    &&& c.spec_mac_addr() == dm.addr
                    &&& c.model() == (DeskModel {
                        subscribed: dm.subscribed.push(spec_position_id()),
                        ..dm
                    })
                }
        },
        Err(e) => {
            ||| (e == Error::PermissionDenied && m.scan == Err::<(), ScanError>(
                ScanError::PermissionDenied,
            ) && f == m)
            ||| (e == Error::ScanFailed && m.scan == Err::<(), ScanError>(ScanError::Other) && f
                == m)
            ||| (e == Error::CannotFindDevice && m.scan is Ok && exists|matcher: DeviceMatcher|
                #[trigger] matcher_denotes(matcher, mac) && spec_find_contract(
                    m,
                    f,
                    matcher,
                    DISCOVERY_ATTEMPTS,
                    DISCOVERY_POLL_MS,
                    None::<DeskModel>,
                ))
            ||| (m.scan is Ok && exists|matcher: DeviceMatcher, dm: DeskModel|
                {
                    &&& #[trigger] matcher_denotes(matcher, mac)
                    &&& #[trigger] spec_find_contract(
                        m,
                        f,
                        matcher,
                        DISCOVERY_ATTEMPTS,
                        DISCOVERY_POLL_MS,
                        Some(dm),
                    )
                    &&& ((e == Error::ConnectionFailed && !dm.connect_ok) || (dm.connect_ok
                        && spec_resolution_error(dm, e)))
                })
        },
    }
}

/// Discover the desk by its advertised name, connect, and build the
/// controller.
pub fn get_instance<C: Central>(central: &mut C) -> (r: Result<Idasen<C::Dev>, Error>)
    ensures
        spec_instance_contract(
            old(central).model(),
            final(central).model(),
            None::<DeviceAddr>,
            r,
        ),
{
    let desk = match get_desk(central, None) {
        Ok(desk) => desk,
        Err(e) => {
            return Err(e);
        },
    };
    match Idasen::new(desk) {
        Ok(c) => Ok(c),
        Err(e) => Err(e),
    }
}

/// Discover the desk by its hardware address, connect, and build the
/// controller.  A malformed address is rejected before any I/O.
pub fn get_instance_by_mac<C: Central>(central: &mut C, mac: &str) -> (r: Result<
    Idasen<C::Dev>,
    Error,
>)
    ensures
        ({
            if !valid_addr_text(mac@) {
                &&& r == Err::<Idasen<C::Dev>, Error>(Error::MacAddrParseFailed)
                &&& final(central).model() == old(central).model()
            } else {
                spec_instance_contract(
                    old(central).model(),
                    final(central).model(),
                    Some(DeviceAddr { value: spec_addr_value(mac@) }),
                    r,
                )
            }
        }),
{
    let addr = match parse_device_addr(mac) {
        Some(addr) => addr,
        None => {
            return Err(Error::MacAddrParseFailed);
        },
    };
    let desk = match get_desk(central, Some(addr)) {
        Ok(desk) => desk,
        Err(e) => {
            return Err(e);
        },
    };
    match Idasen::new(desk) {
        Ok(c) => Ok(c),
        Err(e) => Err(e),
    }
}

} // verus!
