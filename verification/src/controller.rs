//! The desk controller: attribute resolution, motor primitives, the height
//! query, and the closed-loop move-to-target operation.
//!
//! The controller owns a connected [`Device`] and the two resolved
//! attribute identifiers.  Its contracts are stated over the device's
//! abstract model: which writes are handed to the control attribute, which
//! position samples are consumed, and exactly when each operation
//! succeeds.

use vstd::prelude::*;

use crate::codec::bytes_to_tenth_millimeters;
use crate::codec::encode_command;
use crate::codec::spec_opcode;
use crate::codec::valid_height;
use crate::codec::MotorCommand;
use crate::codec::MAX_HEIGHT;
use crate::codec::MIN_HEIGHT;
use crate::device::DeskModel;
use crate::device::Device;
use crate::device::TransportError;
use crate::error::Error;
use crate::ids::spec_control_id;
use crate::ids::spec_position_id;
use crate::ids::AttributeId;

verus! {

/// Where move-to-target progress reports go: an incremental distance tick
/// and the freshly read height, purely observational.  The production
/// implementation renders a progress bar; [`SilentProgress`] discards
/// everything.
pub trait ProgressSink {
    /// The move begins, with this total distance to cover.
    fn begin(&mut self, total: u64);

    /// The desk covered about this distance since the last report.
    fn inc(&mut self, delta: u64);

    /// The desk is at this height, in tenth-millimeters.
    fn set_position(&mut self, height: u16);

    /// The move is over.
    fn finish(&mut self);
}

/// A progress sink that discards every report.
pub struct SilentProgress;

impl ProgressSink for SilentProgress {
    fn begin(&mut self, _total: u64) {
    }

    fn inc(&mut self, _delta: u64) {
    }

    fn set_position(&mut self, _height: u16) {
    }

    fn finish(&mut self) {
    }
}

/// Cap on the reported speed estimate, in tenth-millimeters per second.
pub const SPEED_CAP: u64 = 32767;

/// The speed estimate for a desk that covered `moved` tenth-millimeters in
/// `elapsed_ms` milliseconds: normalized to tenth-millimeters per second
/// and saturated at [`SPEED_CAP`].  Zero elapsed time with any movement
/// counts as immeasurably fast.
pub open spec fn spec_speed(moved: u16, elapsed_ms: u64) -> u64 {
    if elapsed_ms == 0 {
        if moved == 0 {
            0
        } else {
            SPEED_CAP
        }
    } else {
        if moved * 1000 / (elapsed_ms as int) > SPEED_CAP {
            SPEED_CAP
        } else {
            (moved * 1000 / (elapsed_ms as int)) as u64
        }
    }
}

/// Estimate the desk's speed from one movement sample.
pub fn estimate_speed(moved: u16, elapsed_ms: u64) -> (speed: u64)
    ensures
        speed == spec_speed(moved, elapsed_ms),
{
    if elapsed_ms == 0 {
        if moved == 0 {
            0
        } else {
            SPEED_CAP
        }
    } else {
        let q = (moved as u64) * 1000 / elapsed_ms;
        if q > SPEED_CAP {
            SPEED_CAP
        } else {
            q
        }
    }
}

/// Distance between the target and the current height.
pub open spec fn spec_remaining(target: u16, current: u16) -> u16 {
    if target > current {
        (target - current) as u16
    } else {
        (current - target) as u16
    }
}

/// The distance under which the loop brakes every iteration: half a
/// second of travel at the estimated speed, with a floor of five
/// millimeters.
pub open spec fn spec_brake_distance(speed: u64) -> u64 {
    if speed / 2 > 50 {
        speed / 2
    } else {
        50
    }
}

/// A position sample that a control decision can be based on: a
/// successful read of a height the desk can actually be at.
pub open spec fn sample_valid(sample: Option<u16>) -> bool {
    sample matches Some(h) && valid_height(h)
}

/// Whether the control loop, entered with these upcoming samples, runs to
/// success.  Each iteration reads a fresh sample and then takes its
/// trailing re-read; it ends in success when the remaining distance is a
/// millimeter or less (an exact hit included), and in failure as soon as
/// any read fails.  Braking never ends the loop, so convergence depends
/// only on the target and the samples.
pub open spec fn spec_converges(target: u16, samples: Seq<Option<u16>>) -> bool
    decreases samples.len(),
{
    if samples.len() == 0 || !sample_valid(samples[0]) {
        false
    } else if samples.len() < 2 || !sample_valid(samples[1]) {
        false
    } else if spec_remaining(target, samples[0]->0) <= 10 {
        true
    } else {
        spec_converges(target, samples.skip(2))
    }
}

/// The clock reading the next call will give: the head of the script, or
/// zero on an exhausted clock.
pub open spec fn spec_head_time(times: Seq<u64>) -> u64 {
    if times.len() == 0 {
        0
    } else {
        times[0]
    }
}

/// The clock script after one reading.
pub open spec fn spec_tail_time(times: Seq<u64>) -> Seq<u64> {
    if times.len() == 0 {
        times
    } else {
        times.skip(1)
    }
}

/// The motor commands one loop iteration issues after reading `current`:
/// a halt when within a millimeter (an exact hit included); otherwise
/// the direction toward the target; and one more halt whenever the
/// remaining distance is inside the braking distance.
pub open spec fn spec_step_commands(target: u16, current: u16, speed: u64) -> Seq<MotorCommand> {
    let remaining = spec_remaining(target, current);
    let first = if remaining <= 10 {
        seq![MotorCommand::Halt]
    } else if target > current {
        seq![MotorCommand::Raise]
    } else {
        seq![MotorCommand::Lower]
    };
    if (remaining as u64) < spec_brake_distance(speed) {
        first.push(MotorCommand::Halt)
    } else {
        first
    }
}

/// Phasing of one iteration's commands: outside both stop conditions the
/// iteration issues exactly the directional command; inside the braking
/// distance it issues the direction and then a halt; within a millimeter
/// of the target (an exact hit included) it halts, and brakes again.
pub proof fn lemma_step_phasing(target: u16, current: u16, speed: u64)
    ensures
        ({
            let remaining = spec_remaining(target, current);
            let dir = if target > current {
                MotorCommand::Raise
            } else {
                MotorCommand::Lower
            };
            &&& (remaining > 10 && (remaining as u64) >= spec_brake_distance(speed)
                ==> spec_step_commands(target, current, speed) =~= seq![dir])
            &&& (remaining > 10 && (remaining as u64) < spec_brake_distance(speed)
                ==> spec_step_commands(target, current, speed) =~= seq![dir, MotorCommand::Halt])
            &&& (remaining <= 10 ==> spec_step_commands(target, current, speed) =~= seq![
                MotorCommand::Halt,
                MotorCommand::Halt,
            ])
        }),
{
}

/// Every motor command the control loop issues from a given state on.
/// `last` is the height of the previous read and `last_t` its clock
/// reading; each iteration reads one fresh sample and one clock value,
/// decides with [`spec_step_commands`], and then takes its trailing
/// re-read and clock refresh.  The sequence ends on arrival within a
/// millimeter (an exact hit included, after its halt) or at the first
/// failed read.
pub open spec fn spec_loop_commands(
    target: u16,
    last: u16,
    last_t: u64,
    samples: Seq<Option<u16>>,
    times: Seq<u64>,
) -> Seq<MotorCommand>
    decreases samples.len(),
{
    if samples.len() == 0 || !sample_valid(samples[0]) {
        seq![]
    } else {
        let current = samples[0]->0;
        let now = spec_head_time(times);
        let elapsed = if now >= last_t {
            (now - last_t) as u64
        } else {
            0u64
        };
        let speed = spec_speed(spec_remaining(last, current), elapsed);
        let cmds = spec_step_commands(target, current, speed);
        let times1 = spec_tail_time(times);
        if samples.len() < 2 || !sample_valid(samples[1]) {
            cmds
        } else if spec_remaining(target, current) <= 10 {
            cmds
        } else {
            cmds + spec_loop_commands(
                target,
                samples[1]->0,
                spec_head_time(times1),
                samples.skip(2),
                spec_tail_time(times1),
            )
        }
    }
}

/// Converging leaves the desk halted: a loop that runs to success issues
/// at least one command, and its last command is a halt.  Together with
/// the exact write-log clause of [`spec_move_contract`], a successful
/// move either issued no motor write at all (the entry read was already
/// on target) or ended with a halt written.
pub proof fn lemma_converging_loop_ends_halted(
    target: u16,
    last: u16,
    last_t: u64,
    samples: Seq<Option<u16>>,
    times: Seq<u64>,
)
    requires
        spec_converges(target, samples),
    ensures
        spec_loop_commands(target, last, last_t, samples, times).len() > 0,
        spec_loop_commands(target, last, last_t, samples, times).last() == MotorCommand::Halt,
    decreases samples.len(),
{
    let current = samples[0]->0;
    let now = spec_head_time(times);
    let elapsed = if now >= last_t {
        (now - last_t) as u64
    } else {
        0u64
    };
    let speed = spec_speed(spec_remaining(last, current), elapsed);
    lemma_step_phasing(target, current, speed);
    if spec_remaining(target, current) <= 10 {
    } else {
        let times1 = spec_tail_time(times);
        let rest = spec_loop_commands(
            target,
            samples[1]->0,
            spec_head_time(times1),
            samples.skip(2),
            spec_tail_time(times1),
        );
        lemma_converging_loop_ends_halted(
            target,
            samples[1]->0,
            spec_head_time(times1),
            samples.skip(2),
            spec_tail_time(times1),
        );
        let cmds = spec_step_commands(target, current, speed);
        assert((cmds + rest).last() == rest.last());
    }
}

/// A motor command as the write it puts on the wire.
pub open spec fn spec_command_write(c: MotorCommand) -> (AttributeId, Seq<u8>) {
    (spec_control_id(), spec_opcode(c))
}

/// A command sequence as the writes it puts on the wire.
pub open spec fn spec_writes_of(cmds: Seq<MotorCommand>) -> Seq<(AttributeId, Seq<u8>)> {
    cmds.map_values(|c: MotorCommand| spec_command_write(c))
}

/// How many samples the loop consumes from this script on: one for the
/// fresh read of each iteration, one for its trailing re-read, stopping
/// with the iteration that arrives or with the first failed read.  A
/// read of an exhausted script consumes nothing.
pub open spec fn spec_loop_samples_used(target: u16, samples: Seq<Option<u16>>) -> int
    decreases samples.len(),
{
    if samples.len() == 0 {
        0
    } else if !sample_valid(samples[0]) {
        1
    } else if samples.len() < 2 {
        1
    } else if !sample_valid(samples[1]) {
        2
    } else if spec_remaining(target, samples[0]->0) <= 10 {
        2
    } else {
        2 + spec_loop_samples_used(target, samples.skip(2))
    }
}

/// How many clock readings the loop takes from this sample script on:
/// one after each successful fresh read, one after each successful
/// trailing re-read.
pub open spec fn spec_loop_times_used(target: u16, samples: Seq<Option<u16>>) -> int
    decreases samples.len(),
{
    if samples.len() == 0 || !sample_valid(samples[0]) {
        0
    } else if samples.len() < 2 || !sample_valid(samples[1]) {
        1
    } else if spec_remaining(target, samples[0]->0) <= 10 {
        2
    } else {
        2 + spec_loop_times_used(target, samples.skip(2))
    }
}

/// How many samples a whole move consumes: the entry read, then the
/// loop — unless the entry read fails or already reports the target.
pub open spec fn spec_move_samples_used(target: u16, samples: Seq<Option<u16>>) -> int {
    if samples.len() == 0 {
        0
    } else if !sample_valid(samples[0]) {
        1
    } else if samples[0]->0 == target {
        1
    } else {
        1 + spec_loop_samples_used(target, samples.skip(1))
    }
}

/// How many clock readings a whole move takes: one on entering the loop,
/// then the loop's own.
pub open spec fn spec_move_times_used(target: u16, samples: Seq<Option<u16>>) -> int {
    if samples.len() == 0 || !sample_valid(samples[0]) || samples[0]->0 == target {
        0
    } else {
        1 + spec_loop_times_used(target, samples.skip(1))
    }
}

/// A clock script after `n` attempted readings: a reading of an
/// exhausted clock consumes nothing.
pub open spec fn spec_consume_times(times: Seq<u64>, n: int) -> Seq<u64> {
    if n <= times.len() {
        times.skip(n)
    } else {
        times.skip(times.len() as int)
    }
}

/// A write a control loop may issue: one of the three motor opcodes, to
/// the control attribute.
pub open spec fn motor_write(w: (AttributeId, Seq<u8>)) -> bool {
    w.0 == spec_control_id() && (w.1 == spec_opcode(MotorCommand::Raise) || w.1 == spec_opcode(
        MotorCommand::Lower,
    ) || w.1 == spec_opcode(MotorCommand::Halt))
}

/// `f` extends `o` with motor writes only.
pub open spec fn motor_writes_appended(
    o: Seq<(AttributeId, Seq<u8>)>,
    f: Seq<(AttributeId, Seq<u8>)>,
) -> bool {
    &&& o.len() <= f.len()
    &&& forall|i: int| 0 <= i < o.len() ==> #[trigger] f[i] == o[i]
    &&& forall|i: int| o.len() <= i < f.len() ==> motor_write(#[trigger] f[i])
}

/// Every sample that reads successfully reports a height at or above the
/// target: the desk never stands below where it is asked to go.
pub open spec fn samples_at_or_above(samples: Seq<Option<u16>>, target: u16) -> bool {
    forall|i: int|
        0 <= i < samples.len() ==> ((#[trigger] samples[i]) matches Some(h) ==> h >= target)
}

/// Every sample that reads successfully reports a height at or below the
/// target.
pub open spec fn samples_at_or_below(samples: Seq<Option<u16>>, target: u16) -> bool {
    forall|i: int|
        0 <= i < samples.len() ==> ((#[trigger] samples[i]) matches Some(h) ==> h <= target)
}

/// The fields a move never touches: everything but the samples consumed,
/// the writes issued and the clock readings taken.
pub open spec fn same_identity(o: DeskModel, f: DeskModel) -> bool {
    f == (DeskModel { samples: f.samples, writes: f.writes, times: f.times, ..o })
}

/// The contract of a move to `target`, relating the device model before
/// (`o`) and after (`f`) to the result:
///
/// - the move is rejected with `PositionNotInRange` exactly when the
///   target is out of range, and then with no device I/O at all;
/// - an entry read that already reports the target ends the move at once,
///   with no motor write and nothing else consumed;
/// - otherwise the move succeeds exactly when the entry read succeeds and
///   the loop converges on the remaining samples, and any failure is a
///   failed position read;
/// - the device only ever receives motor opcodes on the control
///   attribute, and none before the entry read has succeeded; once that
///   read succeeds off the target, the write log grows by exactly the
///   commands [`spec_loop_commands`] decides from the samples and the
///   clock — in particular an in-loop read at or within a millimeter of
///   the target halts the desk;
/// - exactly [`spec_move_samples_used`] samples and
///   [`spec_move_times_used`] clock readings are consumed, whatever else
///   (such as a progress sink) surrounds the loop;
/// - a desk that never reports a height below (above) the target is
///   never told to raise (lower).
pub open spec fn spec_move_contract(
    o: DeskModel,
    f: DeskModel,
    target: u16,
    r: Result<(), Error>,
) -> bool {
    &&& same_identity(o, f)
    &&& motor_writes_appended(o.writes, f.writes)
    &&& (r == Err::<(), Error>(Error::PositionNotInRange) <==> !valid_height(target))
    &&& if !valid_height(target) {
        r == Err::<(), Error>(Error::PositionNotInRange) && f == o
    } else {
        &&& (r is Ok <==> o.samples.len() >= 1 && sample_valid(o.samples[0]) && (o.samples[0]->0
            == target || spec_converges(target, o.samples.skip(1))))
        &&& (r is Err ==> r == Err::<(), Error>(Error::CannotReadPosition))
        &&& ((o.samples.len() == 0 || !sample_valid(o.samples[0])) ==> f.writes == o.writes)
        &&& (o.samples.len() >= 1 && o.samples[0] == Some(target) ==> r is Ok && f.writes
            == o.writes && f.samples == o.samples.skip(1) && f.times == o.times)
        &&& 0 <= spec_move_samples_used(target, o.samples) <= o.samples.len()
        &&& f.samples == o.samples.skip(spec_move_samples_used(target, o.samples))
        &&& 0 <= spec_move_times_used(target, o.samples)
        &&& f.times == spec_consume_times(o.times, spec_move_times_used(target, o.samples))
        &&& (o.samples.len() >= 1 && sample_valid(o.samples[0]) && o.samples[0]->0 != target
            ==> f.writes == o.writes + spec_writes_of(
            spec_loop_commands(
                target,
                o.samples[0]->0,
                spec_head_time(o.times),
                o.samples.skip(1),
                spec_tail_time(o.times),
            ),
        ))
        &&& (samples_at_or_above(o.samples, target) ==> forall|i: int|
            o.writes.len() <= i < f.writes.len() ==> (#[trigger] f.writes[i]).1 != spec_opcode(
                MotorCommand::Raise,
            ))
        &&& (samples_at_or_below(o.samples, target) ==> forall|i: int|
            o.writes.len() <= i < f.writes.len() ==> (#[trigger] f.writes[i]).1 != spec_opcode(
                MotorCommand::Lower,
            ))
    }
}

/// Halting is idempotent on the wire: whatever has been written before,
/// two consecutive halts append two writes whose encoded payloads are
/// identical, both to the control attribute.  This is the write log that
/// two consecutive calls of [`Idasen::stop`] leave behind.
pub proof fn lemma_halt_idempotent(w: Seq<(AttributeId, Seq<u8>)>)
    ensures
        ({
            let w2 = w.push((spec_control_id(), spec_opcode(MotorCommand::Halt))).push(
                (spec_control_id(), spec_opcode(MotorCommand::Halt)),
            );
            &&& w2.len() == w.len() + 2
            &&& w2[w.len() as int] == w2[w.len() as int + 1]
            &&& motor_write(w2[w.len() as int])
        }),
{
}

/// A device on which attribute resolution succeeds: enumeration works,
/// both required attributes are present, and the position subscription is
/// accepted.
pub open spec fn spec_resolution_ok(m: DeskModel) -> bool {
    &&& m.attrs_ok
    &&& m.attrs.contains(spec_control_id())
    &&& m.attrs.contains(spec_position_id())
    &&& m.subscribe_ok
}

/// The error attribute resolution reports on a device in state `m`: the
/// first failing step of enumeration, control lookup, position lookup and
/// subscription, each with its own kind.
pub open spec fn spec_resolution_error(m: DeskModel, e: Error) -> bool {
    if !m.attrs_ok {
        e == Error::CharacteristicsDiscoveryFailed
    } else if !m.attrs.contains(spec_control_id()) {
        e matches Error::CharacteristicsNotFound(w) && w@ == "Control"@
    } else if !m.attrs.contains(spec_position_id()) {
        e matches Error::CharacteristicsNotFound(w) && w@ == "Position"@
    } else {
        !m.subscribe_ok && e == Error::CannotSubscribePosition
    }
}

/// The stateful desk controller: owns the connected device handle and the
/// two resolved attribute identifiers for its lifetime.  Only
/// constructible once both attributes have resolved; reconnecting takes a
/// fresh discovery pass.
pub struct Idasen<T: Device> {
    /// The device's stable hardware address, copied out at construction
    /// for external identification.
    pub mac_addr: crate::ids::DeviceAddr,
    desk: T,
    control_characteristic: AttributeId,
    position_characteristic: AttributeId,
}

/// Search a list of attribute identifiers for one identifier.
fn find_attribute(attrs: &Vec<AttributeId>, id: AttributeId) -> (found: bool)
    ensures
        found == attrs@.contains(id),
{
    let mut i: usize = 0;
    while i < attrs.len()
        invariant
            i <= attrs@.len(),
            forall|j: int| 0 <= j < i ==> #[trigger] attrs@[j] != id,
        decreases attrs@.len() - i,
    {
        if attrs[i] == id {
            return true;
        }
        i = i + 1;
    }
    false
}

/// Resolve the two required attributes on a freshly connected device and
/// subscribe to position change notifications.
///
/// Enumerates the remote attributes exactly once; a missing attribute or
/// a failed subscription is terminal and leaves the device untouched — in
/// particular, no read and no write is attempted on failure.
pub fn resolve_attributes<T: Device>(desk: &mut T) -> (r: Result<(AttributeId, AttributeId), Error>)
    ensures
        ({
            let m = old(desk).model();
            match r {
                Ok(ids) => {
                    &&& ids.0 == spec_control_id()
                    &&& ids.1 == spec_position_id()
                    &&& spec_resolution_ok(m)
                    &&& final(desk).model() == (DeskModel {
                        subscribed: m.subscribed.push(spec_position_id()),
                        ..m
                    })
                },
                Err(e) => {
                    &&& final(desk).model() == m
                    &&& spec_resolution_error(m, e)
                },
            }
        }),
{
    let attrs = match desk.discover_attributes() {
        Some(attrs) => attrs,
        None => {
            return Err(Error::CharacteristicsDiscoveryFailed);
        },
    };
    let control = crate::ids::control_id();
    let position = crate::ids::position_id();
    if !find_attribute(&attrs, control) {
        return Err(Error::CharacteristicsNotFound("Control".to_owned()));
    }
    if !find_attribute(&attrs, position) {
        return Err(Error::CharacteristicsNotFound("Position".to_owned()));
    }
    if !desk.subscribe(&position) {
        return Err(Error::CannotSubscribePosition);
    }
    Ok((control, position))
}

impl<T: Device> Idasen<T> {
    /// The controller is wired up correctly: it drives the control
    /// attribute, reads the position attribute, and carries its device's
    /// address.
    pub closed spec fn wf(&self) -> bool {
        &&& self.control_characteristic == spec_control_id()
        &&& self.position_characteristic == spec_position_id()
        &&& self.mac_addr == self.desk.model().addr
    }

    /// The abstract state of the controlled device.
    pub closed spec fn model(&self) -> DeskModel {
        self.desk.model()
    }

    /// The hardware address the controller carries.
    pub closed spec fn spec_mac_addr(&self) -> crate::ids::DeviceAddr {
        self.mac_addr
    }

    /// Borrow the device handle, to observe it from outside.
    pub fn device(&self) -> (dev: &T)
        ensures
            dev.model() == self.model(),
    {
        &self.desk
    }

    /// Take ownership of a connected device: resolve its attributes,
    /// subscribe to position notifications, and build the controller.
    /// Construction is all-or-nothing; on failure the device handle is
    /// released.
    pub fn new(desk: T) -> (r: Result<Idasen<T>, Error>)
        ensures
            ({
                let m = desk.model();
                match r {
                    Ok(c) => {
                        &&& c.wf()
                        &&& c.spec_mac_addr() == m.addr
                        &&& spec_resolution_ok(m)
                        &&& c.model() == (DeskModel {
                            subscribed: m.subscribed.push(spec_position_id()),
                            ..m
                        })
                    },
                    Err(e) => spec_resolution_error(m, e),
                }
            }),
    {
        let mut desk = desk;
        let mac_addr = desk.address();
        match resolve_attributes(&mut desk) {
            Ok(ids) => Ok(
                Idasen {
                    mac_addr,
                    desk,
                    control_characteristic: ids.0,
                    position_characteristic: ids.1,
                },
            ),
            Err(e) => Err(e),
        }
    }

    /// Read the desk's height once, in tenth-millimeters.
    ///
    /// Any failed or malformed read folds into `CannotReadPosition`.
    pub fn position(&mut self) -> (r: Result<u16, Error>)
        requires
            old(self).wf(),
        ensures
            final(self).wf(),
            ({
                let m = old(self).model();
                if m.samples.len() == 0 {
                    final(self).model() == m && r == Err::<u16, Error>(Error::CannotReadPosition)
                } else {
                    final(self).model() == (DeskModel { samples: m.samples.skip(1), ..m })
                        && match m.samples[0] {
                        Some(h) => {
                            if valid_height(h) {
                                r == Ok::<u16, Error>(h)
                            } else {
                                r == Err::<u16, Error>(Error::CannotReadPosition)
                            }
                        },
                        None => r == Err::<u16, Error>(Error::CannotReadPosition),
                    }
                }
            }),
    {
        let response = self.desk.read_value(&self.position_characteristic);
        match response {
            Some(value) => Ok(bytes_to_tenth_millimeters(value.as_slice())),
            None => Err(Error::CannotReadPosition),
        }
    }

    /// Start raising the desk: one fire-and-forget write of the raise
    /// opcode to the control attribute.
    pub fn up(&mut self) -> (r: Result<(), TransportError>)
        requires
            old(self).wf(),
        ensures
            final(self).wf(),
            final(self).model() == (DeskModel {
                writes: old(self).model().writes.push(
                    (spec_control_id(), spec_opcode(MotorCommand::Raise)),
                ),
                ..old(self).model()
            }),
    {
        let code = encode_command(MotorCommand::Raise);
        self.desk.write_value(&self.control_characteristic, code.as_slice())
    }

    /// Start lowering the desk: one fire-and-forget write of the lower
    /// opcode to the control attribute.
    pub fn down(&mut self) -> (r: Result<(), TransportError>)
        requires
            old(self).wf(),
        ensures
            final(self).wf(),
            final(self).model() == (DeskModel {
                writes: old(self).model().writes.push(
                    (spec_control_id(), spec_opcode(MotorCommand::Lower)),
                ),
                ..old(self).model()
            }),
    {
        let code = encode_command(MotorCommand::Lower);
        self.desk.write_value(&self.control_characteristic, code.as_slice())
    }

    /// Stop the desk: one fire-and-forget write of the halt opcode to the
    /// control attribute.  The payload is the same on every call, so
    /// repeating it is safe.
    pub fn stop(&mut self) -> (r: Result<(), TransportError>)
        requires
            old(self).wf(),
        ensures
            final(self).wf(),
            final(self).model() == (DeskModel {
                writes: old(self).model().writes.push(
                    (spec_control_id(), spec_opcode(MotorCommand::Halt)),
                ),
                ..old(self).model()
            }),
    {
        let code = encode_command(MotorCommand::Halt);
        self.desk.write_value(&self.control_characteristic, code.as_slice())
    }

    /// Move the desk to `target_position`, correcting for overshoot,
    /// without progress reports.
    pub fn move_to(&mut self, target_position: u16) -> (r: Result<(), Error>)
        requires
            old(self).wf(),
        ensures
            final(self).wf(),
            spec_move_contract(old(self).model(), final(self).model(), target_position, r),
    {
        let mut sink = SilentProgress;
        self.move_to_target(target_position, &mut sink)
    }

    /// Move the desk to `target_position`, reporting progress to `sink`.
    ///
    /// An extra position read sizes the progress report before the move
    /// itself begins; an out-of-range target is still rejected before any
    /// I/O.
    pub fn move_to_with_progress<S: ProgressSink>(
        &mut self,
        target_position: u16,
        sink: &mut S,
    ) -> (r: Result<(), Error>)
        requires
            old(self).wf(),
        ensures
            final(self).wf(),
            ({
                let m = old(self).model();
                if !valid_height(target_position) {
                    r == Err::<(), Error>(Error::PositionNotInRange) && final(self).model() == m
                } else if m.samples.len() == 0 {
                    r == Err::<(), Error>(Error::CannotReadPosition) && final(self).model() == m
                } else if !sample_valid(m.samples[0]) {
                    r == Err::<(), Error>(Error::CannotReadPosition) && final(self).model() == (
                    DeskModel { samples: m.samples.skip(1), ..m })
                } else {
                    spec_move_contract(
                        DeskModel { samples: m.samples.skip(1), ..m },
                        final(self).model(),
                        target_position,
                        r,
                    )
                }
            }),
    {
        if target_position < MIN_HEIGHT || target_position > MAX_HEIGHT {
            return Err(Error::PositionNotInRange);
        }
        let current = match self.position() {
            Ok(h) => h,
            Err(e) => {
                return Err(e);
            },
        };
        let total: u64 = if target_position > current {
            (target_position - current) as u64
        } else {
            (current - target_position) as u64
        };
        sink.begin(total);
        self.move_to_target(target_position, sink)
    }

    /// The closed control loop behind both public move operations.
    #[verifier::rlimit(100)]
    fn move_to_target<S: ProgressSink>(&mut self, target_position: u16, progress: &mut S) -> (r:
        Result<(), Error>)
        requires
            old(self).wf(),
        ensures
            final(self).wf(),
            spec_move_contract(old(self).model(), final(self).model(), target_position, r),
    {
        let ghost o = old(self).model();
        if target_position < MIN_HEIGHT || target_position > MAX_HEIGHT {
            proof {
                assert(o.samples.skip(0) =~= o.samples);
                assert(o.times.skip(0) =~= o.times);
            }
            return Err(Error::PositionNotInRange);
        }
        let mut last_position = match self.position() {
            Ok(h) => h,
            Err(e) => {
                proof {
                    assert(o.samples.skip(0) =~= o.samples);
                    assert(o.times.skip(0) =~= o.times);
                    if o.samples.len() > 0 {
                        assert(self.model().samples == o.samples.skip(1));
                    }
                }
                return Err(e);
            },
        };
        if last_position == target_position {
            proof {
                assert(self.model().samples == o.samples.skip(1));
                assert(o.times.skip(0) =~= o.times);
            }
            return Ok(());
        }
        let mut last_read_at = self.desk.now_millis();
        let ghost entry_tail = o.samples.skip(1);
        let mut position_reached = false;
        let ghost mut k: int = 1;
        let ghost mut ta: int = 1;
        let ghost mut t: int = if o.times.len() > 0 {
            1int
        } else {
            0int
        };
        let ghost total = spec_loop_commands(
            target_position,
            o.samples[0]->0,
            spec_head_time(o.times),
            o.samples.skip(1),
            spec_tail_time(o.times),
        );
        let ghost mut done: Seq<MotorCommand> = seq![];
        proof {
            assert(self.model().samples =~= o.samples.skip(k));
            assert(self.model().times =~= o.times.skip(t));
            assert(self.model().times =~= spec_tail_time(o.times));
            assert(o.writes + spec_writes_of(done) =~= o.writes);
            assert(done + total =~= total);
        }
        while !position_reached
            invariant
                self.wf(),
                o == old(self).model(),
                entry_tail == o.samples.skip(1),
                valid_height(target_position),
                1 <= k <= o.samples.len(),
                1 <= ta,
                0 <= t <= o.times.len(),
                t == (if ta <= o.times.len() {
                    ta
                } else {
                    o.times.len() as int
                }),
                self.model().samples == o.samples.skip(k),
                self.model().times == o.times.skip(t),
                same_identity(o, self.model()),
                motor_writes_appended(o.writes, self.model().writes),
                sample_valid(o.samples[0]),
                o.samples[0]->0 != target_position,
                !position_reached ==> (spec_converges(target_position, entry_tail)
                    <==> spec_converges(target_position, self.model().samples)),
                position_reached ==> spec_converges(target_position, entry_tail),
                !position_reached ==> spec_move_samples_used(target_position, o.samples) == k
                    + spec_loop_samples_used(target_position, self.model().samples),
                position_reached ==> spec_move_samples_used(target_position, o.samples) == k,
                !position_reached ==> spec_move_times_used(target_position, o.samples) == ta
                    + spec_loop_times_used(target_position, self.model().samples),
                position_reached ==> spec_move_times_used(target_position, o.samples) == ta,
                samples_at_or_above(o.samples, target_position) ==> forall|i: int|
                    o.writes.len() <= i < self.model().writes.len() ==> (#[trigger] self.model()
                        .writes[i]).1 != spec_opcode(MotorCommand::Raise),
                samples_at_or_below(o.samples, target_position) ==> forall|i: int|
                    o.writes.len() <= i < self.model().writes.len() ==> (#[trigger] self.model()
                        .writes[i]).1 != spec_opcode(MotorCommand::Lower),
                total == spec_loop_commands(
                    target_position,
                    o.samples[0]->0,
                    spec_head_time(o.times),
                    entry_tail,
                    spec_tail_time(o.times),
                ),
                self.model().writes == o.writes + spec_writes_of(done),
                !position_reached ==> total == done + spec_loop_commands(
                    target_position,
                    last_position,
                    last_read_at,
                    self.model().samples,
                    self.model().times,
                ),
                position_reached ==> total == done,
            decreases o.samples.len() - k,
        {
            let ghost head = self.model();
            let ghost cur_spec = spec_loop_commands(
                target_position,
                last_position,
                last_read_at,
                head.samples,
                head.times,
            );
            let ghost cur_su = spec_loop_samples_used(target_position, head.samples);
            let ghost cur_tu = spec_loop_times_used(target_position, head.samples);
            let current = match self.position() {
                Ok(h) => h,
                Err(e) => {
                    proof {
                        assert(!spec_converges(target_position, head.samples));
                        if head.samples.len() > 0 {
                            assert(self.model().samples =~= o.samples.skip(k + 1));
                            assert(cur_su == 1);
                        } else {
                            assert(cur_su == 0);
                        }
                        assert(cur_tu == 0);
                        assert(cur_spec =~= Seq::<MotorCommand>::empty());
                        assert(total =~= done);
                        assert(spec_consume_times(
                            o.times,
                            spec_move_times_used(target_position, o.samples),
                        ) =~= self.model().times);
                    }
                    return Err(e);
                },
            };
            proof {
                assert(head.samples[0] == Some(current));
                assert(o.samples[k] == Some(current));
                assert(self.model().samples =~= o.samples.skip(k + 1));
                k = k + 1;
            }
            let now = self.desk.now_millis();
            proof {
                ta = ta + 1;
                if o.times.len() - t > 0 {
                    assert(self.model().times =~= o.times.skip(t + 1));
                    t = t + 1;
                }
            }
            let elapsed: u64 = if now >= last_read_at {
                now - last_read_at
            } else {
                0
            };
            let moved: u16 = if last_position >= current {
                last_position - current
            } else {
                current - last_position
            };
            let speed = estimate_speed(moved, elapsed);
            progress.inc(speed);
            progress.set_position(current);
            let remaining: u16 = if target_position >= current {
                target_position - current
            } else {
                current - target_position
            };
            let going_up = target_position > current;
            proof {
                assert(remaining == spec_remaining(target_position, current));
                assert(spec_remaining(last_position, current) == moved);
                assert(spec_head_time(head.times) == now);
            }
            let ghost step = spec_step_commands(target_position, current, speed);
            if remaining <= 10 {
                // A millimeter or less is close enough: stop here.
                position_reached = true;
                let _ = self.stop();
            } else if going_up {
                let _ = self.up();
            } else {
                let _ = self.down();
            }
            // Within braking distance, stop every iteration so the desk
            // brakes instead of coasting past the target.
            let brake_distance = speed / 2;
            let brake_distance = if brake_distance > 50 {
                brake_distance
            } else {
                50
            };
            if (remaining as u64) < brake_distance {
                let _ = self.stop();
            }
            proof {
                assert(brake_distance == spec_brake_distance(speed));
                if remaining <= 10 {
                    assert((remaining as u64) < spec_brake_distance(speed));
                }
                assert(self.model().writes =~= o.writes + spec_writes_of(done + step));
                done = done + step;
            }
            // Refresh the reference sample so the next speed estimate is
            // not corrupted by a direction change.
            let ghost before_tail = self.model();
            last_position = match self.position() {
                Ok(h) => h,
                Err(e) => {
                    proof {
                        assert(!spec_converges(target_position, head.samples));
                        assert(before_tail.samples =~= head.samples.skip(1));
                        if before_tail.samples.len() > 0 {
                            assert(self.model().samples =~= o.samples.skip(k + 1));
                            assert(cur_su == 2);
                        } else {
                            assert(cur_su == 1);
                        }
                        assert(cur_tu == 1);
                        assert(cur_spec =~= step);
                        assert(total =~= done);
                        assert(spec_consume_times(
                            o.times,
                            spec_move_times_used(target_position, o.samples),
                        ) =~= self.model().times);
                    }
                    return Err(e);
                },
            };
            proof {
                assert(self.model().samples =~= o.samples.skip(k + 1));
                k = k + 1;
                assert(before_tail.samples =~= head.samples.skip(1));
                assert(head.samples.skip(2) =~= self.model().samples);
                assert(head.samples[1] == Some(last_position));
                if position_reached {
                    assert(spec_converges(target_position, head.samples));
                    assert(cur_spec =~= step);
                    assert(total =~= done);
                    assert(cur_su == 2);
                    assert(cur_tu == 2);
                }
            }
            last_read_at = self.desk.now_millis();
            proof {
                ta = ta + 1;
                if o.times.len() - t > 0 {
                    assert(self.model().times =~= o.times.skip(t + 1));
                    t = t + 1;
                }
                if !position_reached {
                    assert(self.model().times =~= spec_tail_time(spec_tail_time(head.times)));
                    assert(last_read_at == spec_head_time(spec_tail_time(head.times)));
                    let next_spec = spec_loop_commands(
                        target_position,
                        last_position,
                        last_read_at,
                        self.model().samples,
                        self.model().times,
                    );
                    assert(cur_spec =~= step + next_spec);
                    assert(total =~= done + next_spec);
                    assert(cur_su == 2 + spec_loop_samples_used(
                        target_position,
                        self.model().samples,
                    ));
                    assert(cur_tu == 2 + spec_loop_times_used(
                        target_position,
                        self.model().samples,
                    ));
                }
            }
        }
        proof {
            assert(spec_consume_times(
                o.times,
                spec_move_times_used(target_position, o.samples),
            ) =~= self.model().times);
        }
        progress.finish();
        Ok(())
    }
}

} // verus!
