//! The handbrake: a load cell behind a calibration, and the text protocol that
//! tunes it.

pub mod calibration;
pub mod proto;
pub mod autozero;
pub mod hx711;
pub mod runtime;
pub mod status;
