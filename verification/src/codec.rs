//! Wire codec for the desk: decoding position reports and encoding motor
//! commands.
//!
//! A position report is a 4-byte buffer whose first two bytes carry a
//! little-endian raw offset; the decoded height is that offset plus
//! [`MIN_HEIGHT`], in tenth-millimeters.  A motor command is a fixed 2-byte
//! opcode written to the control attribute.

use vstd::prelude::*;

verus! {

/// Lowest height the desk can physically reach, in tenth-millimeters.
pub const MIN_HEIGHT: u16 = 6200;

/// Greatest height the desk can physically reach, in tenth-millimeters.
pub const MAX_HEIGHT: u16 = 12700;

/// A height the desk can actually report or be asked to reach.
pub open spec fn valid_height(h: u16) -> bool {
    MIN_HEIGHT <= h <= MAX_HEIGHT
}

/// Raw little-endian offset carried in the first two bytes of a position
/// report.
pub open spec fn spec_raw_offset(bytes: Seq<u8>) -> int {
    bytes[1] * 256 + bytes[0]
}

/// Height encoded by a position report: the raw offset plus the fixed
/// minimum height.
pub open spec fn spec_decoded_height(bytes: Seq<u8>) -> int {
    spec_raw_offset(bytes) + MIN_HEIGHT
}

/// Decode a position report into a height in tenth-millimeters.
///
/// The first two bytes are read as a little-endian unsigned offset and the
/// minimum height is added; the remaining bytes are reserved and ignored.
pub fn bytes_to_tenth_millimeters(bytes: &[u8]) -> (height: u16)
    requires
        bytes@.len() >= 2,
        spec_decoded_height(bytes@) <= u16::MAX,
    ensures
        height == spec_decoded_height(bytes@),
{
    let raw: u32 = (bytes[1] as u32) * 256 + (bytes[0] as u32);
    (raw + MIN_HEIGHT as u32) as u16
}

/// One of the three motor commands the desk understands.
#[derive(Clone, Copy, PartialEq, Eq, Structural, Debug)]
pub enum MotorCommand {
    Raise,
    Lower,
    Halt,
}

/// The 2-byte opcode that a motor command puts on the wire.
pub open spec fn spec_opcode(cmd: MotorCommand) -> Seq<u8> {
    match cmd {
        MotorCommand::Raise => seq![0x47u8, 0x00u8],
        MotorCommand::Lower => seq![0x46u8, 0x00u8],
        MotorCommand::Halt => seq![0xffu8, 0x00u8],
    }
}

/// Encode a motor command as its 2-byte wire opcode.
pub fn encode_command(cmd: MotorCommand) -> (code: Vec<u8>)
    ensures
        code@ == spec_opcode(cmd),
{
    let mut code: Vec<u8> = Vec::new();
    match cmd {
        MotorCommand::Raise => {
            code.push(0x47);
            code.push(0x00);
        },
        MotorCommand::Lower => {
            code.push(0x46);
            code.push(0x00);
        },
        MotorCommand::Halt => {
            code.push(0xff);
            code.push(0x00);
        },
    }
    proof {
        assert(code@ =~= spec_opcode(cmd));
    }
    code
}

/// Encode a height as the 4-byte position report a desk at that height
/// sends: little-endian raw offset, then two reserved zero bytes.
pub fn encode_height(height: u16) -> (bytes: Vec<u8>)
    requires
        valid_height(height),
    ensures
        bytes@.len() == 4,
        spec_decoded_height(bytes@) == height,
        bytes@[2] == 0u8,
        bytes@[3] == 0u8,
{
    let raw: u16 = height - MIN_HEIGHT;
    let mut bytes: Vec<u8> = Vec::new();
    bytes.push((raw % 256) as u8);
    bytes.push((raw / 256) as u8);
    bytes.push(0);
    bytes.push(0);
    bytes
}

} // verus!
