//! The pins of the pedal control board.

use vstd::prelude::*;

verus! {

// The load-cell converter.
pub const ADC_DRDY: i32 = 15;

/// Shared with the emergency stop.
pub const ADC_RST: i32 = 6;

pub const ADC_SCK: i32 = 16;

pub const ADC_MISO: i32 = 18;

pub const ADC_MOSI: i32 = 17;

pub const ADC_CS: i32 = 7;

// Step and direction, not used with a drive on the serial port.
pub const STEPPER_DIR: i32 = 37;

pub const STEPPER_STEP: i32 = 38;

// An optional analog output.
pub const MCP4725_SDA: i32 = 5;

/// Shared with the brake resistor.
pub const MCP4725_SCL: i32 = 4;

// Free on this revision: the pedal type is set by software.
pub const PEDAL_ASSIGN_CFG1: i32 = 1;

pub const PEDAL_ASSIGN_CFG2: i32 = 2;

pub const BUZZER: i32 = 21;

// The drive's serial port.
pub const ISV57_TX: i32 = 10;

pub const ISV57_RX: i32 = 9;

pub const PAIRING_BUTTON: i32 = 33;

// The drive's alarm and in-position outputs, active low.
pub const DRIVE_ALM: i32 = 34;

pub const DRIVE_PEND: i32 = 35;

// The console.
pub const UART0_TX: i32 = 43;

pub const UART0_RX: i32 = 44;

/// One WS2812 pixel.
pub const STATUS_LED: i32 = 12;

/// Shared with the analog output.
pub const BRAKE_RESISTOR: i32 = 4;

pub const SERVO_POWER_ENABLE: i32 = 3;

/// Shared with the converter's reset.
pub const EMERGENCY_STOP: i32 = 6;

} // verus!
