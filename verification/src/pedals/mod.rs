//! The active pedal: its configuration, the drive behind it, and the channel
//! that tunes it.

pub mod modbus;
pub mod servo_jss57p;
pub mod protocol;
pub mod effects;
pub mod control;
pub mod servo;
pub mod ota;
pub mod led;
pub mod ads1256;
pub mod board;
pub mod runtime;
pub mod status;
