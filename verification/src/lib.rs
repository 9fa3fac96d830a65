//! The logic of sim-racing gear: a dashboard unit with two panels and rev lights, a
//! load-cell handbrake, a motor pedal, and the host that talks to them.
//!
//! The modules hold what is read, decided and written: telemetry frames, packets, command
//! lines, registers, layouts, calibrations and updates. Sockets, buses, panels and the
//! floating-point control of the pedal stand around the library and hand it plain values.

// Shared by every device.
pub mod text;
pub mod le;
pub mod order;
pub mod json;
pub mod link;
pub mod store;
pub mod serial_number;

// Telemetry, and what is made of it.
pub mod simhub;
pub mod registry;
pub mod format;
pub mod shift;
pub mod relatives;

// The network link.
pub mod net;
pub mod wifi;

// The devices.
pub mod bios;
pub mod ddu;
pub mod dash;
pub mod handbrake;
pub mod pedals;

// The host.
pub mod device;
pub mod flash;
