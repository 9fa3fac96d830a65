//! The load-cell converter of the pedal board: what is written to it and how its
//! reading is put together.

use vstd::prelude::*;
use crate::handbrake::hx711::sign_extend24;
use crate::le::signed;

verus! {

pub const CMD_WAKEUP: u8 = 0x00;

pub const CMD_RDATA: u8 = 0x01;

pub const CMD_SDATAC: u8 = 0x0F;

pub const CMD_RREG: u8 = 0x10;

pub const CMD_WREG: u8 = 0x50;

pub const CMD_SELFCAL: u8 = 0xF0;

pub const CMD_SYNC: u8 = 0xFC;

pub const REG_MUX: u8 = 0x01;

pub const REG_ADCON: u8 = 0x02;

pub const REG_DRATE: u8 = 0x03;

/// The code of a gain of 64.
pub const ADC_GAIN_CODE: u8 = 6;

/// The gain of that code.
pub const ADC_PGA: i32 = 64;

/// The samples at power-up from which the offset is estimated.
pub const BIAS_ESTIMATION_SAMPLES: u32 = 1000;

/// The code of 2000 samples per second.
pub const ADC_DRATE_2000SPS: u8 = 0xB0;

/// The positive and the negative input.
pub const ADC_CHANNEL_P: u8 = 0;

pub const ADC_CHANNEL_N: u8 = 1;

/// The bytes that write a register.
pub fn write_register(reg: u8, value: u8) -> (b: [u8; 3])
    requires
        reg < 16,
    ensures
        b@ == seq![(CMD_WREG + reg) as u8, 0u8, value],
{
    let b: [u8; 3] = [CMD_WREG + reg, 0, value];
    proof {
        assert(b@ =~= seq![(CMD_WREG + reg) as u8, 0u8, value]);
    }
    b
}

/// The bytes that ask for a register.
pub fn read_register(reg: u8) -> (b: [u8; 2])
    requires
        reg < 16,
    ensures
        b@ == seq![(CMD_RREG + reg) as u8, 0u8],
{
    let b: [u8; 2] = [CMD_RREG + reg, 0];
    proof {
        assert(b@ =~= seq![(CMD_RREG + reg) as u8, 0u8]);
    }
    b
}

/// The control register with its gain, the low three bits, replaced.
pub fn with_gain(adcon: u8, gain: u8) -> (r: u8)
    requires
        gain < 8,
    ensures
        r == adcon - adcon % 8 + gain,
{
    adcon - adcon % 8 + gain
}

/// The multiplexer register of a differential pair.
pub fn mux(p: u8, n: u8) -> (r: u8)
    ensures
        r == p % 16 * 16 + n % 16,
{
    p % 16 * 16 + n % 16
}

/// A conversion, from its three bytes, the highest first.
pub fn reading(bytes: [u8; 3]) -> (r: i32)
    ensures
        r == signed(bytes@[0] * 0x1_0000 + bytes@[1] * 0x100 + bytes@[2], 0x80_0000),
{
    sign_extend24(bytes[0] as u32 * 0x1_0000 + bytes[1] as u32 * 0x100 + bytes[2] as u32)
}

} // verus!
