//! The register map of the JSS57P drive, and writes that stay off the registers
//! it must not be written to.

use vstd::prelude::*;
use crate::pedals::modbus;
use crate::pedals::modbus::{read_reply, request, ModbusError, FC_READ, FC_WRITE};

verus! {

pub const REG_DRIVE_MODEL: u16 = 0;
pub const REG_LOOP_MODE: u16 = 1;
pub const REG_MOTOR_TYPE: u16 = 2;
pub const REG_CURRENT_LOOP_KP: u16 = 3;
pub const REG_CURRENT_LOOP_KI: u16 = 4;
pub const REG_POSITION_LOOP_KP: u16 = 5;
pub const REG_SPEED_LOOP_KP: u16 = 6;
pub const REG_SPEED_LOOP_KI: u16 = 7;
pub const REG_MICROSTEPS_PER_REV: u16 = 8;
pub const REG_ENCODER_RESOLUTION: u16 = 9;
pub const REG_TRACKING_ERROR_ALARM: u16 = 10;
pub const REG_OPEN_LOOP_HOLD_CURRENT: u16 = 11;
pub const REG_CLOSED_LOOP_PEAK_CURRENT: u16 = 12;
pub const REG_PULSE_FILTER_TIME: u16 = 13;
pub const REG_ENABLE_POLARITY: u16 = 14;
pub const REG_ALARM_OUTPUT_POLARITY: u16 = 15;
pub const REG_PULSE_INPUT_MODE: u16 = 16;
pub const REG_PULSE_ACTIVE_EDGE: u16 = 17;
pub const REG_PEND_FUNCTION: u16 = 18;
pub const REG_PEND_POLARITY: u16 = 19;
pub const REG_ACCEL_LO: u16 = 20;
pub const REG_ACCEL_HI: u16 = 21;
pub const REG_DECEL_LO: u16 = 22;
pub const REG_DECEL_HI: u16 = 23;
pub const REG_MAX_SPEED_LO: u16 = 24;
pub const REG_MAX_SPEED_HI: u16 = 25;
pub const REG_TARGET_PULSES_LO: u16 = 26;
pub const REG_TARGET_PULSES_HI: u16 = 27;
pub const REG_MOTION_COMMAND: u16 = 28;
pub const REG_POSITION_MODE: u16 = 29;
pub const REG_ABS_POSITION_LO: u16 = 30;
pub const REG_ABS_POSITION_HI: u16 = 31;
pub const REG_MOTION_STATE: u16 = 32;
pub const REG_SAVE_TO_EEPROM: u16 = 33;
pub const REG_FACTORY_RESET: u16 = 34;

/// What the drive-model register of this drive reads.
pub const IDENTITY_DRIVE_MODEL: u16 = 57;

/// The microsteps per revolution of a drive as it comes.
pub const DEFAULT_MICROSTEPS_PER_REV: u16 = 400;

pub const MOTION_CMD_IDLE: u16 = 0;
pub const MOTION_CMD_POSITION_MOVE: u16 = 1;
pub const MOTION_CMD_VELOCITY_RUN: u16 = 2;
pub const MOTION_CMD_DECEL_STOP: u16 = 3;
pub const MOTION_CMD_HARD_STOP: u16 = 4;

/// How many registers the map has.
pub const REGISTERS: u16 = 35;

pub const DISCOVERY_BAUD_CANDIDATES: [u32; 5] = [9600, 19200, 38400, 57600, 115200];
pub const DISCOVERY_SLAVE_ID_MIN: u8 = 1;
pub const DISCOVERY_SLAVE_ID_MAX: u8 = 31;

/// The factory value of each register; `None` for those that have none.
pub open spec fn factory_value(addr: int) -> Option<u16> {
    if addr == 0 {
        Some(57)
    } else if addr == 1 || addr == 14 || addr == 32 {
        Some(1)
    } else if addr == 5 {
        Some(300)
    } else if addr == 6 {
        Some(400)
    } else if addr == 7 {
        Some(80)
    } else if addr == 8 {
        Some(DEFAULT_MICROSTEPS_PER_REV)
    } else if addr == 9 {
        Some(4000)
    } else if addr == 10 {
        Some(1000)
    } else if addr == 11 {
        Some(30)
    } else if addr == 12 || addr == 13 {
        Some(60)
    } else if addr == 20 || addr == 22 {
        Some(6400)
    } else if addr == 24 {
        Some(1600)
    } else if addr == 26 {
        Some(3200)
    } else if addr == 2 || 15 <= addr <= 19 || addr == 21 || addr == 23 || addr == 25 || 27 <= addr
        <= 29 {
        Some(0)
    } else {
        None
    }
}

/// The factory values of all registers, in the order of their addresses.
pub fn defaults() -> (r: Vec<Option<u16>>)
    ensures
        r@ == Seq::new(REGISTERS as nat, |k: int| factory_value(k)),
{
    let mut out: Vec<Option<u16>> = Vec::new();
    let mut k: u16 = 0;
    while k < REGISTERS
        invariant
            k <= REGISTERS,
            out@.len() == k,
            forall|j: int| 0 <= j < k ==> #[trigger] out@[j] == factory_value(j),
        decreases REGISTERS - k,
    {
        out.push(default_of(k));
        k += 1;
    }
    proof {
        assert(out@ =~= Seq::new(REGISTERS as nat, |j: int| factory_value(j)));
    }
    out
}

/// The factory value of a register.
pub fn default_of(addr: u16) -> (r: Option<u16>)
    ensures
        r == factory_value(addr as int),
{
    match addr {
        0 => Some(57),
        1 | 14 | 32 => Some(1),
        5 => Some(300),
        6 => Some(400),
        7 => Some(80),
        8 => Some(DEFAULT_MICROSTEPS_PER_REV),
        9 => Some(4000),
        10 => Some(1000),
        11 => Some(30),
        12 | 13 => Some(60),
        20 | 22 => Some(6400),
        24 => Some(1600),
        26 => Some(3200),
        2 | 15 | 16 | 17 | 18 | 19 | 21 | 23 | 25 | 27 | 28 | 29 => Some(0),
        _ => None,
    }
}

/// Why a write is not even encoded.
#[derive(Clone, Copy, Debug, PartialEq, Eq, Structural)]
pub enum GuardError {
    /// A register that must never be written.
    Forbidden(u16),
    /// A register that can only be read.
    ReadOnly(u16),
}

/// What the guard says of a write to `addr`.
pub open spec fn guard(addr: u16) -> Result<(), GuardError> {
    if addr == REG_MOTOR_TYPE || addr == REG_FACTORY_RESET {
        Err(GuardError::Forbidden(addr))
    } else if addr == REG_DRIVE_MODEL || addr == REG_CURRENT_LOOP_KP || addr == REG_CURRENT_LOOP_KI
        || addr == REG_ABS_POSITION_LO || addr == REG_ABS_POSITION_HI || addr == REG_MOTION_STATE {
        Err(GuardError::ReadOnly(addr))
    } else {
        Ok(())
    }
}

/// Checks whether a register may be written.
pub fn guard_write(addr: u16) -> (r: Result<(), GuardError>)
    ensures
        r == guard(addr),
{
    if addr == REG_MOTOR_TYPE || addr == REG_FACTORY_RESET {
        Err(GuardError::Forbidden(addr))
    } else if addr == REG_DRIVE_MODEL || addr == REG_CURRENT_LOOP_KP || addr == REG_CURRENT_LOOP_KI
        || addr == REG_ABS_POSITION_LO || addr == REG_ABS_POSITION_HI || addr == REG_MOTION_STATE {
        Err(GuardError::ReadOnly(addr))
    } else {
        Ok(())
    }
}

/// The request that writes a register, unless the guard refuses it.
pub fn encode_write_register(slave: u8, addr: u16, value: u16) -> (r: Result<Vec<u8>, GuardError>)
    ensures
        match r {
            Ok(f) => guard(addr) is Ok && f@ == request(
                slave,
                FC_WRITE,
                addr as int,
                value as int,
            ),
            Err(e) => guard(addr) == Err::<(), GuardError>(e),
        },
{
    match guard_write(addr) {
        Ok(_) => Ok(modbus::encode_write_single(slave, addr, value)),
        Err(e) => Err(e),
    }
}

/// The request that reads a register.
pub fn encode_read_register(slave: u8, addr: u16) -> (f: Vec<u8>)
    ensures
        f@ == request(slave, FC_READ, addr as int, 1),
{
    modbus::encode_read_holding(slave, addr, 1)
}

/// The request that reads every register.
pub fn encode_bulk_read(slave: u8) -> (f: Vec<u8>)
    ensures
        f@ == request(slave, FC_READ, 0, REGISTERS as int),
{
    modbus::encode_read_holding(slave, 0, REGISTERS)
}

/// The request that reads the drive model.
pub fn encode_identity_probe(slave: u8) -> (f: Vec<u8>)
    ensures
        f@ == request(slave, FC_READ, REG_DRIVE_MODEL as int, 1),
{
    modbus::encode_read_holding(slave, REG_DRIVE_MODEL, 1)
}

/// The reply carries the one register that this drive identifies itself with.
pub open spec fn identifies(frame: Seq<u8>) -> bool {
    read_reply(frame) == Ok::<Seq<u16>, ModbusError>(seq![IDENTITY_DRIVE_MODEL])
}

/// Whether a reply identifies this drive.
pub fn is_identity_response(frame: &[u8]) -> (r: bool)
    ensures
        r == identifies(frame@),
{
    match modbus::decode_read_holding_response(frame) {
        Ok(v) => {
            let same = v.len() == 1 && v[0] == IDENTITY_DRIVE_MODEL;
            proof {
                if same {
                    assert(v@ =~= seq![IDENTITY_DRIVE_MODEL]);
                } else if v@ == seq![IDENTITY_DRIVE_MODEL] {
                    assert(v@.len() == 1 && v@[0] == IDENTITY_DRIVE_MODEL);
                }
            }
            same
        },
        Err(_) => false,
    }
}

/// The registers that are never written: the motor type and the factory reset, which
/// are forbidden, and those that can only be read, the drive model, the two gains of
/// the current loop, the two halves of the position and the state of motion. Every
/// other one may be written.
pub proof fn guarded_registers(addr: u16)
    ensures
        addr == 2 || addr == 34 <==> guard(addr) == Err::<(), GuardError>(
            GuardError::Forbidden(addr),
        ),
        addr == 0 || addr == 3 || addr == 4 || addr == 30 || addr == 31 || addr == 32 <==> guard(
            addr,
        ) == Err::<(), GuardError>(GuardError::ReadOnly(addr)),
        addr != 2 && addr != 34 && addr != 0 && addr != 3 && addr != 4 && addr != 30 && addr != 31
            && addr != 32 <==> guard(addr) is Ok,
{
}

/// The values that the registers of a new drive read.
pub proof fn factory_values()
    ensures
        factory_value(0) == Some(57u16),
        factory_value(1) == Some(1u16),
        factory_value(5) == Some(300u16) && factory_value(6) == Some(400u16) && factory_value(7)
            == Some(80u16),
        factory_value(8) == Some(400u16) && factory_value(9) == Some(4000u16),
        factory_value(10) == Some(1000u16) && factory_value(11) == Some(30u16),
        factory_value(12) == Some(60u16) && factory_value(13) == Some(60u16),
        factory_value(14) == Some(1u16) && factory_value(32) == Some(1u16),
        factory_value(20) == Some(6400u16) && factory_value(22) == Some(6400u16),
        factory_value(24) == Some(1600u16) && factory_value(26) == Some(3200u16),
        forall|k: int|
            k == 3 || k == 4 || k == 30 || k == 31 || k == 33 || k == 34 ==> (
            #[trigger] factory_value(k)) is None,
        forall|k: int|
            k == 2 || 15 <= k <= 19 || k == 21 || k == 23 || k == 25 || 27 <= k <= 29 ==> (
            #[trigger] factory_value(k)) == Some(0u16),
{
}

/// A drive is identified by the reply that carries its one model number, 57, and by
/// no other number of registers or number.
pub proof fn identity_is_the_model(slave: u8, values: Seq<u16>)
    requires
        values.len() <= 127,
    ensures
        identifies(modbus::read_response(slave, values)) <==> values.len() == 1 && values[0] == 57,
{
    modbus::read_reply_round_trip(slave, values);
    if values.len() == 1 && values[0] == 57 {
        assert(values =~= seq![57u16]);
    }
}

} // verus!
