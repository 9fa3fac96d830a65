//! The plain display unit: its state, its commands, its button box, and its panels.

pub mod state;
pub mod framebuf;
pub mod hid;
pub mod touch;
pub mod display;
pub mod usb;
