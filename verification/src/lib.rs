//! Controller for a motorized standing desk driven over a short-range
//! wireless link.
//!
//! The crate discovers an advertising desk with a bounded retry loop,
//! resolves the two attributes it is driven through, and moves it to a
//! requested height with a position-feedback control loop that estimates
//! speed from consecutive samples and brakes before the target.  All
//! transport I/O goes through the [`device::Device`] and
//! [`device::Central`] traits; [`sim`] provides in-memory implementations
//! for deterministic use without a radio.

pub mod codec;
pub mod controller;
pub mod device;
pub mod discovery;
pub mod error;
pub mod ids;
pub mod sim;
pub mod text;

pub use codec::bytes_to_tenth_millimeters;
pub use codec::encode_command;
pub use codec::encode_height;
pub use codec::MotorCommand;
pub use codec::MAX_HEIGHT;
pub use codec::MIN_HEIGHT;
pub use controller::Idasen;
pub use controller::ProgressSink;
pub use controller::SilentProgress;
pub use device::Central;
pub use device::Device;
pub use device::DeviceMatcher;
pub use device::ScanError;
pub use device::TransportError;
pub use discovery::find_desk;
pub use discovery::get_desk;
pub use discovery::get_instance;
pub use discovery::get_instance_by_mac;
pub use error::Error;
pub use ids::control_id;
pub use ids::parse_device_addr;
pub use ids::position_id;
pub use ids::AttributeId;
pub use ids::DeviceAddr;
pub use text::contains_substring;
