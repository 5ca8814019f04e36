use idasen::control_id;
use idasen::find_desk;
use idasen::get_desk;
use idasen::get_instance;
use idasen::get_instance_by_mac;
use idasen::position_id;
use idasen::sim::SimulatedCentral;
use idasen::sim::SimulatedDesk;
use idasen::Device;
use idasen::DeviceAddr;
use idasen::DeviceMatcher;
use idasen::Error;
use idasen::ScanError;

fn plain_desk(value: u64, name: Option<&str>) -> SimulatedDesk {
    SimulatedDesk::new(
        DeviceAddr { value },
        name.map(|n| n.to_string()),
        true,
        vec![control_id(), position_id()],
        true,
        true,
        vec![],
        vec![],
    )
}

#[test]
fn never_matching_search_exhausts_every_attempt() {
    let snapshots = vec![
        vec![plain_desk(1, Some("Lamp")), plain_desk(2, None)],
        vec![plain_desk(3, Some("desk lamp"))], // case-sensitive: no match
        vec![],
    ];
    let mut central = SimulatedCentral::new(Ok(()), snapshots);
    let found = find_desk(&mut central, &DeviceMatcher::Name("Desk".to_string()), 5, 50);
    assert!(found.is_none());
    // All five polling cycles ran, each followed by one sleep.
    assert_eq!(central.sleep_log(), &vec![50, 50, 50, 50, 50]);
    assert_eq!(central.snapshots_left(), 0);
}

#[test]
fn search_stops_at_its_attempt_budget() {
    let snapshots = vec![
        vec![plain_desk(1, Some("Lamp"))],
        vec![],
        vec![plain_desk(2, Some("Desk out of budget"))],
    ];
    let mut central = SimulatedCentral::new(Ok(()), snapshots);
    let found = find_desk(&mut central, &DeviceMatcher::Name("Desk".to_string()), 2, 50);
    // The matching snapshot lies beyond the two budgeted attempts.
    assert!(found.is_none());
    assert_eq!(central.sleep_log(), &vec![50, 50]);
    assert_eq!(central.snapshots_left(), 1);
}

#[test]
fn name_match_returns_first_matching_device() {
    let snapshots = vec![
        vec![plain_desk(1, Some("Lamp"))],
        vec![
            plain_desk(2, None),
            plain_desk(3, Some("IKEA Desk 8e:d8")),
            plain_desk(4, Some("Desk too")),
        ],
        vec![plain_desk(5, Some("Desk late"))],
    ];
    let mut central = SimulatedCentral::new(Ok(()), snapshots);
    let found = find_desk(&mut central, &DeviceMatcher::Name("Desk".to_string()), 240, 50);
    let desk = found.expect("second snapshot holds a matching desk");
    assert_eq!(desk.address(), DeviceAddr { value: 3 });
    // Only the attempt before the match slept; the matching snapshot and
    // the ones before it were consumed.
    assert_eq!(central.sleep_log(), &vec![50]);
    assert_eq!(central.snapshots_left(), 1);
}

#[test]
fn address_match_ignores_names() {
    let snapshots = vec![vec![
        plain_desk(7, Some("Desk one")),
        plain_desk(8, Some("Desk two")),
    ]];
    let mut central = SimulatedCentral::new(Ok(()), snapshots);
    let matcher = DeviceMatcher::Address(DeviceAddr { value: 8 });
    let found = find_desk(&mut central, &matcher, 240, 50);
    assert_eq!(found.expect("address matches").address(), DeviceAddr { value: 8 });
}

#[test]
fn scan_permission_problem_is_distinguished() {
    let mut central = SimulatedCentral::new(Err(ScanError::PermissionDenied), vec![]);
    let r = get_desk(&mut central, None);
    assert_eq!(r.err().unwrap(), Error::PermissionDenied);

    let mut central = SimulatedCentral::new(Err(ScanError::Other), vec![]);
    let r = get_desk(&mut central, None);
    assert_eq!(r.err().unwrap(), Error::ScanFailed);
}

#[test]
fn exhausted_search_reports_cannot_find() {
    let mut central = SimulatedCentral::new(Ok(()), vec![vec![plain_desk(1, Some("Lamp"))]]);
    let r = get_desk(&mut central, None);
    assert_eq!(r.err().unwrap(), Error::CannotFindDevice);
}

#[test]
fn failed_connect_reports_connection_failed() {
    let desk = SimulatedDesk::new(
        DeviceAddr { value: 9 },
        Some("Desk 9".to_string()),
        true,
        vec![control_id(), position_id()],
        false, // connect fails
        true,
        vec![],
        vec![],
    );
    let mut central = SimulatedCentral::new(Ok(()), vec![vec![desk]]);
    let r = get_desk(&mut central, None);
    assert_eq!(r.err().unwrap(), Error::ConnectionFailed);
}

#[test]
fn get_instance_builds_a_controller() {
    let mut central = SimulatedCentral::new(
        Ok(()),
        vec![vec![plain_desk(0xEC0209DF8ED8, Some("IKEA Desk"))]],
    );
    let controller = get_instance(&mut central).expect("everything succeeds");
    assert_eq!(controller.mac_addr, DeviceAddr { value: 0xEC0209DF8ED8 });
    assert_eq!(controller.device().subscriptions(), &vec![position_id()]);
}

#[test]
fn get_instance_by_mac_matches_exactly() {
    let mut central = SimulatedCentral::new(
        Ok(()),
        vec![vec![
            plain_desk(0x0A0B0C0D0E0F, Some("Desk other")),
            plain_desk(0xEC0209DF8ED8, None),
        ]],
    );
    let controller =
        get_instance_by_mac(&mut central, "EC:02:09:DF:8E:D8").expect("address is present");
    assert_eq!(controller.mac_addr, DeviceAddr { value: 0xEC0209DF8ED8 });
}

#[test]
fn get_instance_by_mac_rejects_malformed_address_before_io() {
    let mut central = SimulatedCentral::new(Ok(()), vec![]);
    let r = get_instance_by_mac(&mut central, "not-an-address");
    assert_eq!(r.err().unwrap(), Error::MacAddrParseFailed);
    assert_eq!(central.sleep_log(), &vec![]);
}
