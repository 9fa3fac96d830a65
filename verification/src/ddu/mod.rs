//! The display unit: what the dashboard pushes to it, its rev lights, its screens
//! and its touch panels.

pub mod pins;

pub mod state;
pub mod car;
pub mod strip;
pub mod draw;
pub mod config;
pub mod race;
pub mod sim;
pub mod sleep;
