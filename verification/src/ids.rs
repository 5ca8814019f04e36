//! Identifiers for devices and their attributes.
//!
//! A [`DeviceAddr`] is the stable 48-bit hardware address of a device,
//! parsed from the usual colon-separated hexadecimal text form.  An
//! [`AttributeId`] is the fixed 128-bit identifier of a remote attribute;
//! the two identifiers the desk is driven through are compile-time
//! constants under a vendor-specific base.

use vstd::prelude::*;

verus! {

/// The stable hardware address of a device: a 48-bit value, held in the
/// order the textual form writes it (leftmost octet most significant).
#[derive(Clone, Copy, PartialEq, Eq, Structural, Debug, Hash)]
pub struct DeviceAddr {
    pub value: u64,
}

/// The fixed 128-bit identifier of a remote attribute, split into its high
/// and low 64 bits (big-endian with respect to the textual form).
#[derive(Clone, Copy, PartialEq, Eq, Structural, Debug, Hash)]
pub struct AttributeId {
    pub hi: u64,
    pub lo: u64,
}

/// High half of the control attribute identifier,
/// 99fa0002-338a-1024-8a49-009c0215f78a.
pub const CONTROL_ID_HI: u64 = 0x99fa0002_338a1024;

/// Low half of the control attribute identifier.
pub const CONTROL_ID_LO: u64 = 0x8a49009c_0215f78a;

/// High half of the position attribute identifier,
/// 99fa0021-338a-1024-8a49-009c0215f78a.
pub const POSITION_ID_HI: u64 = 0x99fa0021_338a1024;

/// Low half of the position attribute identifier.
pub const POSITION_ID_LO: u64 = 0x8a49009c_0215f78a;

/// Identifier of the attribute that motor commands are written to.
pub open spec fn spec_control_id() -> AttributeId {
    AttributeId { hi: CONTROL_ID_HI, lo: CONTROL_ID_LO }
}

/// Identifier of the attribute that position reports are read from.
pub open spec fn spec_position_id() -> AttributeId {
    AttributeId { hi: POSITION_ID_HI, lo: POSITION_ID_LO }
}

/// The control attribute identifier as a value.
pub fn control_id() -> (id: AttributeId)
    ensures
        id == spec_control_id(),
{
    AttributeId { hi: CONTROL_ID_HI, lo: CONTROL_ID_LO }
}

/// The position attribute identifier as a value.
pub fn position_id() -> (id: AttributeId)
    ensures
        id == spec_position_id(),
{
    AttributeId { hi: POSITION_ID_HI, lo: POSITION_ID_LO }
}

/// A hexadecimal digit, in either case.
pub open spec fn is_hex_digit(c: char) -> bool {
    (48 <= c as u32 && c as u32 <= 57)  // '0' ..= '9'
    || (97 <= c as u32 && c as u32 <= 102)  // 'a' ..= 'f'
    || (65 <= c as u32 && c as u32 <= 70)  // 'A' ..= 'F'
}

/// Numeric value of a hexadecimal digit.
pub open spec fn spec_hex_value(c: char) -> u32 {
    if 48 <= c as u32 && c as u32 <= 57 {
        (c as u32 - 48) as u32
    } else if 97 <= c as u32 && c as u32 <= 102 {
        (c as u32 - 87) as u32
    } else {
        (c as u32 - 55) as u32
    }
}

/// The octet at position `k` of a textual hardware address is two
/// hexadecimal digits.
pub open spec fn octet_ok(s: Seq<char>, k: int) -> bool {
    is_hex_digit(s[3 * k]) && is_hex_digit(s[3 * k + 1])
}

/// The separator after octet `k` of a textual hardware address is a colon.
pub open spec fn separator_ok(s: Seq<char>, k: int) -> bool {
    s[3 * k + 2] == ':'
}

/// A well-formed textual hardware address: six hexadecimal octets
/// separated by colons, seventeen characters in all.
pub open spec fn valid_addr_text(s: Seq<char>) -> bool {
    &&& s.len() == 17
    &&& forall|k: int| 0 <= k < 6 ==> #[trigger] octet_ok(s, k)
    &&& forall|k: int| 0 <= k < 5 ==> #[trigger] separator_ok(s, k)
}

/// The octet written at position `k` of a textual hardware address.
pub open spec fn spec_addr_octet(s: Seq<char>, k: int) -> u32 {
    (spec_hex_value(s[3 * k]) * 16 + spec_hex_value(s[3 * k + 1])) as u32
}

/// The 48-bit value a well-formed textual hardware address denotes.
pub open spec fn spec_addr_value(s: Seq<char>) -> u64 {
    (spec_addr_octet(s, 0) as u64 * 0x10000000000 + spec_addr_octet(s, 1) as u64 * 0x100000000
        + spec_addr_octet(s, 2) as u64 * 0x1000000 + spec_addr_octet(s, 3) as u64 * 0x10000
        + spec_addr_octet(s, 4) as u64 * 0x100 + spec_addr_octet(s, 5) as u64) as u64
}

/// Numeric value of one hexadecimal digit character, or `None` when the
/// character is no such digit.
fn hex_value(c: char) -> (v: Option<u32>)
    ensures
        match v {
            Some(x) => is_hex_digit(c) && x == spec_hex_value(c) && x <= 15,
            None => !is_hex_digit(c),
        },
{
    let u = c as u32;
    if 48 <= u && u <= 57 {
        Some(u - 48)
    } else if 97 <= u && u <= 102 {
        Some(u - 87)
    } else if 65 <= u && u <= 70 {
        Some(u - 55)
    } else {
        None
    }
}

/// Parse the two hexadecimal digits of octet `k` of a textual hardware
/// address.
fn parse_octet(s: &str, k: usize) -> (r: Option<u32>)
    requires
        s@.len() == 17,
        k < 6,
    ensures
        match r {
            Some(v) => octet_ok(s@, k as int) && v == spec_addr_octet(s@, k as int) && v <= 255,
            None => !octet_ok(s@, k as int),
        },
{
    let hi = hex_value(s.get_char(3 * k));
    let lo = hex_value(s.get_char(3 * k + 1));
    match (hi, lo) {
        (Some(h), Some(l)) => Some(h * 16 + l),
        _ => None,
    }
}

/// Parse a textual hardware address.
///
/// Exactly the canonical seventeen-character colon-separated form is
/// accepted, deliberately: tolerant variants (one-digit or sign-prefixed
/// octets) are rejected, as is anything else, before any device I/O
/// could happen.
pub fn parse_device_addr(s: &str) -> (r: Option<DeviceAddr>)
    ensures
        match r {
            Some(addr) => valid_addr_text(s@) && addr.value == spec_addr_value(s@),
            None => !valid_addr_text(s@),
        },
{
    if s.unicode_len() != 17 {
        return None;
    }
    let o0 = match parse_octet(s, 0) {
        Some(v) => v,
        None => {
            return None;
        },
    };
    let o1 = match parse_octet(s, 1) {
        Some(v) => v,
        None => {
            return None;
        },
    };
    let o2 = match parse_octet(s, 2) {
        Some(v) => v,
        None => {
            return None;
        },
    };
    let o3 = match parse_octet(s, 3) {
        Some(v) => v,
        None => {
            return None;
        },
    };
    let o4 = match parse_octet(s, 4) {
        Some(v) => v,
        None => {
            return None;
        },
    };
    let o5 = match parse_octet(s, 5) {
        Some(v) => v,
        None => {
            return None;
        },
    };
    if s.get_char(2) != ':' || s.get_char(5) != ':' || s.get_char(8) != ':' || s.get_char(11)
        != ':' || s.get_char(14) != ':' {
        proof {
            assert(!valid_addr_text(s@)) by {
                if valid_addr_text(s@) {
                    assert(separator_ok(s@, 0));
                    assert(separator_ok(s@, 1));
                    assert(separator_ok(s@, 2));
                    assert(separator_ok(s@, 3));
                    assert(separator_ok(s@, 4));
                }
            }
        }
        return None;
    }
    let value: u64 = o0 as u64 * 0x10000000000 + o1 as u64 * 0x100000000 + o2 as u64 * 0x1000000
        + o3 as u64 * 0x10000 + o4 as u64 * 0x100 + o5 as u64;
    proof {
        assert(separator_ok(s@, 0));
        assert(separator_ok(s@, 1));
        assert(separator_ok(s@, 2));
        assert(separator_ok(s@, 3));
        assert(separator_ok(s@, 4));
    }
    Some(DeviceAddr { value })
}

} // verus!
