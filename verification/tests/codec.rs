use idasen::bytes_to_tenth_millimeters;
use idasen::encode_command;
use idasen::encode_height;
use idasen::MotorCommand;
use idasen::MAX_HEIGHT;
use idasen::MIN_HEIGHT;

#[test]
fn decode_max_height() {
    assert_eq!(bytes_to_tenth_millimeters(&[0x64, 0x19, 0x00, 0x00]), MAX_HEIGHT);
}

#[test]
fn decode_min_height() {
    assert_eq!(bytes_to_tenth_millimeters(&[0x00, 0x00, 0x00, 0x00]), MIN_HEIGHT);
}

#[test]
fn decode_mid_heights() {
    assert_eq!(bytes_to_tenth_millimeters(&[0x51, 0x04, 0x00, 0x00]), 7305);
    assert_eq!(bytes_to_tenth_millimeters(&[0x08, 0x08, 0x00, 0x00]), 8256);
    assert_eq!(bytes_to_tenth_millimeters(&[0x64, 0x18, 0x00, 0x00]), 12444);
}

#[test]
fn decode_ignores_reserved_bytes() {
    assert_eq!(bytes_to_tenth_millimeters(&[0x51, 0x04, 0x7f, 0xee]), 7305);
}

#[test]
fn encode_raise_opcode() {
    assert_eq!(encode_command(MotorCommand::Raise), vec![0x47, 0x00]);
}

#[test]
fn encode_lower_opcode() {
    assert_eq!(encode_command(MotorCommand::Lower), vec![0x46, 0x00]);
}

#[test]
fn encode_halt_opcode() {
    assert_eq!(encode_command(MotorCommand::Halt), vec![0xff, 0x00]);
}

#[test]
fn encode_height_is_little_endian_offset() {
    assert_eq!(encode_height(8256), vec![0x08, 0x08, 0x00, 0x00]);
    assert_eq!(encode_height(MIN_HEIGHT), vec![0x00, 0x00, 0x00, 0x00]);
    assert_eq!(encode_height(MAX_HEIGHT), vec![0x64, 0x19, 0x00, 0x00]);
}

#[test]
fn height_round_trip() {
    let heights = [6200u16, 6500, 7305, 10000, 12444, 12700];
    for h in heights {
        assert_eq!(bytes_to_tenth_millimeters(&encode_height(h)), h);
    }
}
