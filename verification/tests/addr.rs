use idasen::parse_device_addr;
use idasen::DeviceAddr;

#[test]
fn parse_uppercase_address() {
    let addr = parse_device_addr("AA:BB:CC:DD:EE:FF").unwrap();
    assert_eq!(addr, DeviceAddr { value: 0xAABBCCDDEEFF });
}

#[test]
fn parse_lowercase_address() {
    let addr = parse_device_addr("ec:02:09:df:8e:d8").unwrap();
    assert_eq!(addr, DeviceAddr { value: 0xEC0209DF8ED8 });
}

#[test]
fn parse_mixed_case_address() {
    let addr = parse_device_addr("0a:1B:2c:3D:4e:5F").unwrap();
    assert_eq!(addr, DeviceAddr { value: 0x0A1B2C3D4E5F });
}

#[test]
fn parse_rejects_wrong_length() {
    assert!(parse_device_addr("AA:BB:CC:DD:EE").is_none());
    assert!(parse_device_addr("AA:BB:CC:DD:EE:FF:00").is_none());
    assert!(parse_device_addr("").is_none());
}

#[test]
fn parse_rejects_bad_digits() {
    assert!(parse_device_addr("GG:BB:CC:DD:EE:FF").is_none());
    assert!(parse_device_addr("AA:BB:CC:DD:EE:F!").is_none());
}

#[test]
fn parse_rejects_bad_separators() {
    assert!(parse_device_addr("AA-BB-CC-DD-EE-FF").is_none());
    assert!(parse_device_addr("AA:BB:CC:DD:EE FF").is_none());
}

#[test]
fn parse_rejects_short_octets() {
    // Each octet must be written with exactly two digits.
    assert!(parse_device_addr("A:BB:CC:DD:EE:FFF").is_none());
}
