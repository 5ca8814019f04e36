//! The errors an operation on the desk can end with.

use vstd::prelude::*;

verus! {

/// Why an operation on the desk failed.  Every fallible step reports its
/// own kind and aborts only the operation that raised it.
#[derive(Debug, PartialEq, Eq)]
pub enum Error {
    /// Discovery exhausted its retry budget without a match.
    CannotFindDevice,
    /// The transport could not connect to a device that was found.
    ConnectionFailed,
    /// A scan for devices could not be started.
    ScanFailed,
    /// A scan could not be started because authorization was refused.
    PermissionDenied,
    /// Attribute enumeration failed after the connection was made.
    CharacteristicsDiscoveryFailed,
    /// A required attribute was absent; the text names which one.
    CharacteristicsNotFound(String),
    /// The requested target lies outside the desk's height envelope.
    PositionNotInRange,
    /// Subscribing to position change notifications failed.
    CannotSubscribePosition,
    /// A position read failed.
    CannotReadPosition,
    /// A textual hardware address could not be parsed.
    MacAddrParseFailed,
}

} // verus!
