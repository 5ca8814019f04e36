use idasen::control_id;
use idasen::position_id;
use idasen::sim::SimulatedDesk;
use idasen::AttributeId;
use idasen::DeviceAddr;
use idasen::Error;
use idasen::Idasen;
use idasen::ProgressSink;

const UP_CODE: [u8; 2] = [0x47, 0x00];
const DOWN_CODE: [u8; 2] = [0x46, 0x00];
const STOP_CODE: [u8; 2] = [0xff, 0x00];

fn desk_with(samples: Vec<Option<u16>>, times: Vec<u64>) -> SimulatedDesk {
    SimulatedDesk::new(
        DeviceAddr { value: 0xEC0209DF8ED8 },
        Some("IKEA Desk".to_string()),
        true,
        vec![control_id(), position_id()],
        true,
        true,
        samples,
        times,
    )
}

fn controller_with(samples: Vec<Option<u16>>, times: Vec<u64>) -> Idasen<SimulatedDesk> {
    Idasen::new(desk_with(samples, times)).expect("resolution succeeds")
}

fn payloads(controller: &Idasen<SimulatedDesk>) -> Vec<(AttributeId, Vec<u8>)> {
    controller.device().write_log().clone()
}

#[test]
fn resolution_fails_without_position_attribute() {
    let desk = SimulatedDesk::new(
        DeviceAddr { value: 1 },
        Some("IKEA Desk".to_string()),
        true,
        vec![control_id()], // position attribute absent
        true,
        true,
        vec![Some(7000)],
        vec![],
    );
    let r = Idasen::new(desk);
    assert_eq!(r.err().unwrap(), Error::CharacteristicsNotFound("Position".to_string()));
}

#[test]
fn resolution_leaves_the_device_untouched_on_failure() {
    let mut desk = SimulatedDesk::new(
        DeviceAddr { value: 1 },
        None,
        true,
        vec![control_id()], // position attribute absent
        true,
        true,
        vec![Some(7000)],
        vec![],
    );
    let r = idasen::controller::resolve_attributes(&mut desk);
    assert_eq!(r.err().unwrap(), Error::CharacteristicsNotFound("Position".to_string()));
    // No read, no write, no subscription was attempted.
    assert_eq!(desk.write_log().len(), 0);
    assert_eq!(desk.samples_left(), 1);
    assert_eq!(desk.subscriptions().len(), 0);
}

#[test]
fn resolution_fails_without_control_attribute() {
    let desk = SimulatedDesk::new(
        DeviceAddr { value: 1 },
        None,
        true,
        vec![position_id()],
        true,
        true,
        vec![],
        vec![],
    );
    let r = Idasen::new(desk);
    assert_eq!(r.err().unwrap(), Error::CharacteristicsNotFound("Control".to_string()));
}

#[test]
fn resolution_fails_when_enumeration_fails() {
    let desk = SimulatedDesk::new(
        DeviceAddr { value: 1 },
        None,
        false, // enumeration fails
        vec![control_id(), position_id()],
        true,
        true,
        vec![],
        vec![],
    );
    let r = Idasen::new(desk);
    assert_eq!(r.err().unwrap(), Error::CharacteristicsDiscoveryFailed);
}

#[test]
fn resolution_fails_when_subscription_fails() {
    let desk = SimulatedDesk::new(
        DeviceAddr { value: 1 },
        None,
        true,
        vec![control_id(), position_id()],
        true,
        false, // subscription refused
        vec![],
        vec![],
    );
    let r = Idasen::new(desk);
    assert_eq!(r.err().unwrap(), Error::CannotSubscribePosition);
}

#[test]
fn successful_construction_subscribes_to_position() {
    let controller = controller_with(vec![], vec![]);
    assert_eq!(controller.mac_addr, DeviceAddr { value: 0xEC0209DF8ED8 });
    assert_eq!(controller.device().subscriptions(), &vec![position_id()]);
}

#[test]
fn position_decodes_one_sample() {
    let mut controller = controller_with(vec![Some(7305)], vec![]);
    assert_eq!(controller.position().unwrap(), 7305);
}

#[test]
fn position_folds_read_failure_into_one_error() {
    let mut controller = controller_with(vec![None], vec![]);
    assert_eq!(controller.position().err().unwrap(), Error::CannotReadPosition);
    // An exhausted device reads as a failure too.
    let mut controller = controller_with(vec![], vec![]);
    assert_eq!(controller.position().err().unwrap(), Error::CannotReadPosition);
}

#[test]
fn motor_primitives_write_their_opcodes() {
    let mut controller = controller_with(vec![], vec![]);
    controller.up().unwrap();
    controller.down().unwrap();
    controller.stop().unwrap();
    let log = payloads(&controller);
    assert_eq!(log.len(), 3);
    assert_eq!(log[0], (control_id(), UP_CODE.to_vec()));
    assert_eq!(log[1], (control_id(), DOWN_CODE.to_vec()));
    assert_eq!(log[2], (control_id(), STOP_CODE.to_vec()));
}

#[test]
fn halting_twice_writes_the_same_payload_twice() {
    let mut controller = controller_with(vec![], vec![]);
    assert!(controller.stop().is_ok());
    assert!(controller.stop().is_ok());
    let log = payloads(&controller);
    assert_eq!(log.len(), 2);
    assert_eq!(log[0], log[1]);
    assert_eq!(log[0], (control_id(), STOP_CODE.to_vec()));
}

#[test]
fn move_to_current_height_issues_no_motor_write() {
    // The entry read already reports the target: success after one read.
    let mut controller = controller_with(vec![Some(7000)], vec![]);
    assert!(controller.move_to(7000).is_ok());
    assert_eq!(payloads(&controller).len(), 0);
    assert_eq!(controller.device().samples_left(), 0);
}

#[test]
fn loop_read_on_target_halts_before_returning() {
    // The desk drifts exactly onto the target mid-loop: that is arrival
    // within a millimeter, so the controller halts it before succeeding.
    let mut controller = controller_with(
        vec![Some(7010), Some(7000), Some(7000)],
        vec![0, 600],
    );
    assert!(controller.move_to(7000).is_ok());
    let log = payloads(&controller);
    assert_eq!(log.len(), 2);
    assert_eq!(log[0], (control_id(), STOP_CODE.to_vec()));
    assert_eq!(log[1], (control_id(), STOP_CODE.to_vec()));
    assert_eq!(controller.device().samples_left(), 0);
}

#[test]
fn move_to_rejects_out_of_range_targets_without_io() {
    let mut controller = controller_with(vec![Some(7000)], vec![0]);
    assert_eq!(controller.move_to(6199).err().unwrap(), Error::PositionNotInRange);
    assert_eq!(controller.move_to(12701).err().unwrap(), Error::PositionNotInRange);
    assert_eq!(controller.move_to(0).err().unwrap(), Error::PositionNotInRange);
    // No read and no write happened.
    assert_eq!(payloads(&controller).len(), 0);
    assert_eq!(controller.device().samples_left(), 1);
}

#[test]
fn move_to_aborts_when_a_read_fails_mid_loop() {
    let mut controller = controller_with(
        vec![Some(8000), Some(7900), None],
        vec![0, 600],
    );
    assert_eq!(controller.move_to(6500).err().unwrap(), Error::CannotReadPosition);
    // The one completed decision lowered the desk; the failed read aborted.
    let log = payloads(&controller);
    assert_eq!(log.len(), 1);
    assert_eq!(log[0], (control_id(), DOWN_CODE.to_vec()));
}

#[test]
fn monotonic_descent_lowers_then_brakes_then_halts() {
    // The desk sinks from 10000 toward 6500 at 500 tenth-mm/s: every read
    // comes 600 ms and 300 tenth-mm after the previous one, then the desk
    // settles once braked.
    let samples = vec![
        Some(10000), // entry reference read
        Some(9700),  // iteration 1: remaining 3200, lower
        Some(9400),
        Some(9100),  // iteration 2: remaining 2600, lower
        Some(8800),
        Some(8500),  // iteration 3: remaining 2000, lower
        Some(8200),
        Some(7900),  // iteration 4: remaining 1400, lower
        Some(7600),
        Some(7300),  // iteration 5: remaining 800, lower
        Some(7000),
        Some(6700),  // iteration 6: remaining 200 < 250, lower and brake
        Some(6550),
        Some(6505),  // iteration 7: remaining 5 <= 10, halt
        Some(6502),
    ];
    let times: Vec<u64> = (0..15).map(|i| 600 * i).collect();
    let mut controller = controller_with(samples, times);
    assert!(controller.move_to(6500).is_ok());
    let log = payloads(&controller);
    let expected: Vec<(AttributeId, Vec<u8>)> = vec![
        (control_id(), DOWN_CODE.to_vec()), // iteration 1
        (control_id(), DOWN_CODE.to_vec()), // iteration 2
        (control_id(), DOWN_CODE.to_vec()), // iteration 3
        (control_id(), DOWN_CODE.to_vec()), // iteration 4
        (control_id(), DOWN_CODE.to_vec()), // iteration 5
        (control_id(), DOWN_CODE.to_vec()), // iteration 6
        (control_id(), STOP_CODE.to_vec()), // iteration 6 brake
        (control_id(), STOP_CODE.to_vec()), // iteration 7 stop
        (control_id(), STOP_CODE.to_vec()), // iteration 7 brake
    ];
    assert_eq!(log, expected);
    // The desk was never told to raise in this monotonic scenario.
    assert!(log.iter().all(|w| w.1 != UP_CODE.to_vec()));
    assert_eq!(controller.device().samples_left(), 0);
}

#[test]
fn ascent_mirrors_descent() {
    let samples = vec![
        Some(7000), // entry
        Some(7300), // iteration 1: remaining 200 < 250: raise and brake
        Some(7450),
        Some(7495), // iteration 2: remaining 5: halt
        Some(7498),
    ];
    let times: Vec<u64> = (0..5).map(|i| 600 * i).collect();
    let mut controller = controller_with(samples, times);
    assert!(controller.move_to(7500).is_ok());
    let log = payloads(&controller);
    let expected: Vec<(AttributeId, Vec<u8>)> = vec![
        (control_id(), UP_CODE.to_vec()),
        (control_id(), STOP_CODE.to_vec()),
        (control_id(), STOP_CODE.to_vec()),
        (control_id(), STOP_CODE.to_vec()),
    ];
    assert_eq!(log, expected);
}

#[test]
fn exact_hit_after_travel_ends_with_halt() {
    // The desk travels and then a read reports the target exactly: the
    // last write must be a halt, never a bare directional command.
    let mut controller = controller_with(
        vec![Some(10000), Some(9000), Some(8000), Some(6500), Some(6500)],
        vec![0, 600, 1200, 1800],
    );
    assert!(controller.move_to(6500).is_ok());
    let log = payloads(&controller);
    assert_eq!(log.len(), 3);
    assert_eq!(log[0], (control_id(), DOWN_CODE.to_vec()));
    assert_eq!(log[1], (control_id(), STOP_CODE.to_vec()));
    assert_eq!(log[2], (control_id(), STOP_CODE.to_vec()));
}

#[test]
fn move_to_accepts_the_range_boundaries() {
    let mut controller = controller_with(
        vec![Some(6205), Some(6204), Some(6203)],
        vec![0, 600],
    );
    assert!(controller.move_to(6200).is_ok());
    let log = payloads(&controller);
    assert_eq!(log.len(), 2);
    assert_eq!(log[0], (control_id(), STOP_CODE.to_vec()));
    assert_eq!(log[1], (control_id(), STOP_CODE.to_vec()));

    let mut controller = controller_with(vec![Some(12700), Some(12700)], vec![0]);
    assert!(controller.move_to(12700).is_ok());
    assert_eq!(payloads(&controller).len(), 0);
}

struct RecordingSink {
    events: Vec<String>,
}

impl ProgressSink for RecordingSink {
    fn begin(&mut self, total: u64) {
        self.events.push(format!("begin {}", total));
    }

    fn inc(&mut self, delta: u64) {
        self.events.push(format!("inc {}", delta));
    }

    fn set_position(&mut self, height: u16) {
        self.events.push(format!("at {}", height));
    }

    fn finish(&mut self) {
        self.events.push("finish".to_string());
    }
}

#[test]
fn progress_reports_cover_the_move() {
    let mut controller = controller_with(
        vec![Some(7000), Some(7000), Some(6995), Some(6993)],
        vec![0, 600],
    );
    let mut sink = RecordingSink { events: vec![] };
    assert!(controller.move_to_with_progress(6990, &mut sink).is_ok());
    // Sizing read, then one iteration that stops at once: the estimated
    // speed is 5 * 1000 / 600 = 8 tenth-mm/s.
    assert_eq!(
        sink.events,
        vec![
            "begin 10".to_string(),
            "inc 8".to_string(),
            "at 6995".to_string(),
            "finish".to_string(),
        ]
    );
    let log = payloads(&controller);
    assert_eq!(log.len(), 2);
    assert_eq!(log[0], (control_id(), STOP_CODE.to_vec()));
    assert_eq!(log[1], (control_id(), STOP_CODE.to_vec()));
}

#[test]
fn progress_path_still_rejects_out_of_range_targets() {
    let mut controller = controller_with(vec![Some(7000)], vec![0]);
    let mut sink = RecordingSink { events: vec![] };
    assert_eq!(
        controller.move_to_with_progress(600, &mut sink).err().unwrap(),
        Error::PositionNotInRange
    );
    assert!(sink.events.is_empty());
    assert_eq!(controller.device().samples_left(), 1);
}
