//! The host's side: the channels to the devices, and what is said on them.

use vstd::prelude::*;

pub mod hid;
pub mod serial;
pub mod dash;
pub mod upload;
pub mod handbrake;
pub mod pedals;
pub mod probe;

verus! {

/// The USB vendor of all devices.
pub const PITH_VID: u16 = 0x303A;

/// The display unit.
pub const PID_DDU: u16 = 0x4002;

/// The handbrake.
pub const PID_HANDBRAKE: u16 = 0x8001;

/// A pedal; pedals are told apart by their serial numbers.
pub const PID_PEDALS: u16 = 0x8002;

/// The display unit, by an older name.
pub const PITH_PID: u16 = PID_DDU;

/// Every kind of device.
pub const DEVICE_PIDS: [(u16, &'static str); 3] = [
    (PID_DDU, "DDU"),
    (PID_HANDBRAKE, "Handbrake"),
    (PID_PEDALS, "Pedals"),
];

} // verus!
