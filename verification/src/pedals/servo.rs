//! The drive as the pedal talks to it: which requests may go out. Motion is
//! refused until the drive has identified itself and has been armed.

use vstd::prelude::*;
use crate::handbrake::calibration::pattern;
use crate::pedals::modbus;
use crate::pedals::modbus::{ack, read_reply, request, ModbusError, FC_WRITE};
use crate::pedals::servo_jss57p::{
    encode_write_register, guard, identifies, is_identity_response, GuardError, MOTION_CMD_HARD_STOP,
    MOTION_CMD_POSITION_MOVE, REG_MOTION_COMMAND, REG_PULSE_FILTER_TIME, REG_TARGET_PULSES_HI,
    REG_TARGET_PULSES_LO,
};

verus! {

/// Why a request is not sent, or its reply refused.
#[derive(Clone, Copy, Debug, PartialEq, Eq, Structural)]
pub enum ServoError {
    NotArmed,
    Guard(GuardError),
    Modbus(ModbusError),
}

/// The interlock in front of the drive.
#[derive(Clone, Copy, Debug, PartialEq, Eq, Structural)]
pub struct Servo {
    pub slave: u8,
    /// Motion may be commanded.
    pub armed: bool,
    /// The drive has identified itself.
    pub identified: bool,
}

/// A register write.
#[derive(Clone, Copy, Debug, PartialEq, Eq, Structural)]
pub struct RegWrite {
    pub addr: u16,
    pub value: u16,
}

impl Servo {
    /// What a write to `addr` is answered before it is sent.
    pub open spec fn admits(self, addr: u16) -> Result<(), ServoError> {
        if !self.armed && addr != REG_PULSE_FILTER_TIME {
            Err(ServoError::NotArmed)
        } else {
            match guard(addr) {
                Ok(_) => Ok(()),
                Err(e) => Err(ServoError::Guard(e)),
            }
        }
    }

    pub fn new(slave: u8) -> (r: Servo)
        ensures
            r == (Servo { slave, armed: false, identified: false }),
    {
        Servo { slave, armed: false, identified: false }
    }

    pub fn is_armed(&self) -> (r: bool)
        ensures
            r == self.armed,
    {
        self.armed
    }

    pub fn is_identified(&self) -> (r: bool)
        ensures
            r == self.identified,
    {
        self.identified
    }

    /// Arms the drive, if it has identified itself. Returns whether it is armed.
    pub fn arm(&mut self) -> (r: bool)
        ensures
            *final(self) == after_event(*old(self), LockEvent::Arm),
            r == final(self).armed,
    {
        if self.identified {
            self.armed = true;
        }
        self.armed
    }

    pub fn disarm(&mut self)
        ensures
            *final(self) == after_event(*old(self), LockEvent::Disarm),
    {
        self.armed = false;
    }

    /// Takes the reply to an identity probe.
    pub fn probed(&mut self, reply: &[u8]) -> (r: bool)
        ensures
            r == identifies(reply@),
            *final(self) == after_event(*old(self), LockEvent::Probed(r)),
    {
        self.identified = is_identity_response(reply);
        self.identified
    }

    /// The first register of a read reply.
    pub fn register_of(reply: &[u8]) -> (r: Option<u16>)
        ensures
            r == match read_reply(reply@) {
                Ok(v) => if v.len() > 0 {
                    Some(v[0])
                } else {
                    None
                },
                Err(_) => None,
            },
    {
        match modbus::decode_read_holding_response(reply) {
            Ok(v) => if v.len() > 0 {
                Some(v[0])
            } else {
                None
            },
            Err(_) => None,
        }
    }

    /// The request that writes a register, where the interlock admits it. A drive that
    /// is not armed takes a write of the filter time only.
    pub fn write_register(&self, addr: u16, value: u16) -> (r: Result<Vec<u8>, ServoError>)
        ensures
            match r {
                Ok(f) => self.admits(addr) is Ok && f@ == request(
                    self.slave,
                    FC_WRITE,
                    addr as int,
                    value as int,
                ),
                Err(e) => self.admits(addr) == Err::<(), ServoError>(e),
            },
    {
        if !self.armed && addr != REG_PULSE_FILTER_TIME {
            return Err(ServoError::NotArmed);
        }
        match encode_write_register(self.slave, addr, value) {
            Ok(f) => Ok(f),
            Err(e) => Err(ServoError::Guard(e)),
        }
    }

    /// What the reply to a write says.
    pub fn written(reply: &[u8], addr: u16, value: u16) -> (r: Result<(), ServoError>)
        ensures
            r == match ack(reply@, FC_WRITE, addr as int, value as int) {
                Ok(_) => Ok(()),
                Err(e) => Err(ServoError::Modbus(e)),
            },
    {
        match modbus::decode_write_single_ack(reply, addr, value) {
            Ok(_) => Ok(()),
            Err(e) => Err(ServoError::Modbus(e)),
        }
    }

    /// The writes that send the drive to a position, in the order they go out: the
    /// two halves of the target, then the command to move.
    pub fn send_target(&self, target_pulses: i32) -> (r: Result<[RegWrite; 3], ServoError>)
        ensures
            match r {
                Ok(w) => self.armed && w@ == target_writes(target_pulses as int),
                Err(e) => !self.armed && e == ServoError::NotArmed,
            },
    {
        if !self.armed {
            return Err(ServoError::NotArmed);
        }
        let u: i64 = if target_pulses < 0 {
            target_pulses as i64 + 0x1_0000_0000
        } else {
            target_pulses as i64
        };
        let w: [RegWrite; 3] = [
            RegWrite { addr: REG_TARGET_PULSES_LO, value: (u % 0x1_0000) as u16 },
            RegWrite { addr: REG_TARGET_PULSES_HI, value: (u / 0x1_0000) as u16 },
            RegWrite { addr: REG_MOTION_COMMAND, value: MOTION_CMD_POSITION_MOVE },
        ];
        proof {
            assert(w@ =~= target_writes(target_pulses as int));
        }
        Ok(w)
    }

    /// The request that stops the drive at once. It needs no arming.
    pub fn hard_stop(&self) -> (f: Vec<u8>)
        ensures
            f@ == request(
                self.slave,
                FC_WRITE,
                REG_MOTION_COMMAND as int,
                MOTION_CMD_HARD_STOP as int,
            ),
    {
        match encode_write_register(self.slave, REG_MOTION_COMMAND, MOTION_CMD_HARD_STOP) {
            Ok(f) => f,
            Err(_) => Vec::new(),
        }
    }
}

/// The writes that send the drive to a position.
pub open spec fn target_writes(target: int) -> Seq<RegWrite> {
    seq![
        RegWrite { addr: REG_TARGET_PULSES_LO, value: (pattern(target) % 0x1_0000) as u16 },
        RegWrite { addr: REG_TARGET_PULSES_HI, value: (pattern(target) / 0x1_0000) as u16 },
        RegWrite { addr: REG_MOTION_COMMAND, value: MOTION_CMD_POSITION_MOVE },
    ]
}

/// A drive that is not armed is sent no write but that of the filter time, and no
/// drive is ever sent a write to a guarded register.
pub proof fn interlock_holds(s: Servo, addr: u16)
    ensures
        s.admits(addr) is Ok ==> guard(addr) is Ok && (s.armed || addr == REG_PULSE_FILTER_TIME),
        !s.armed ==> s.admits(REG_MOTION_COMMAND) == Err::<(), ServoError>(ServoError::NotArmed),
{
}

/// What happens to the interlock.
pub enum LockEvent {
    Arm,
    Disarm,
    /// A reply to the identity probe came in; it did or did not identify the drive.
    Probed(bool),
}

/// The interlock after an event.
pub open spec fn after_event(s: Servo, e: LockEvent) -> Servo {
    match e {
        LockEvent::Arm => Servo { armed: s.armed || s.identified, ..s },
        LockEvent::Disarm => Servo { armed: false, ..s },
        LockEvent::Probed(ok) => Servo { identified: ok, ..s },
    }
}

/// The interlock after a run of events.
pub open spec fn after_events(s: Servo, events: Seq<LockEvent>) -> Servo
    decreases events.len(),
{
    if events.len() == 0 {
        s
    } else {
        after_event(after_events(s, events.drop_last()), events.last())
    }
}

/// A drive is never armed unless it has identified itself before, whatever else
/// happens.
pub proof fn arming_needs_identity(s: Servo, events: Seq<LockEvent>)
    requires
        !s.armed,
        !s.identified,
        forall|k: int| 0 <= k < events.len() ==> #[trigger] events[k] != LockEvent::Probed(true),
    ensures
        !after_events(s, events).armed,
        !after_events(s, events).identified,
    decreases events.len(),
{
    if events.len() > 0 {
        let before = events.drop_last();
        assert forall|k: int| 0 <= k < before.len() implies #[trigger] before[k]
            != LockEvent::Probed(true) by {
            assert(before[k] == events[k]);
        }
        arming_needs_identity(s, before);
        assert(events[events.len() - 1] == events.last());
    }
}

/// The two halves of a target make up that target, and the interlock of an armed drive
/// admits all three writes.
pub proof fn target_is_whole(s: Servo, target: i32)
    requires
        s.armed,
    ensures
        target_writes(target as int)[0].value + 0x1_0000 * target_writes(target as int)[1].value
            == pattern(target as int),
        forall|k: int|
            0 <= k < 3 ==> s.admits((#[trigger] target_writes(target as int)[k]).addr) is Ok,
{
    let w = target_writes(target as int);
    assert forall|k: int| 0 <= k < 3 implies s.admits((#[trigger] w[k]).addr) is Ok by {
        assert(k == 0 || k == 1 || k == 2);
    }
}

/// A move is three writes in this order: the low half of the target to register 26,
/// the high half to 27, and the command to move, 1, to 28. A negative target goes out
/// as its 32-bit pattern.
pub proof fn moves_are_three_writes(target: i32)
    ensures
        ({
            let w = target_writes(target as int);
            &&& w.len() == 3
            &&& w[0].addr == 26 && w[1].addr == 27 && w[2].addr == 28
            &&& w[2].value == 1
            &&& target >= 0 ==> w[0].value + 0x1_0000 * w[1].value == target
            &&& target < 0 ==> w[0].value + 0x1_0000 * w[1].value == target + 0x1_0000_0000
        }),
{
}

/// Without arming only the filter time, register 13, is admitted; with it every
/// register that the guard lets through.
pub proof fn arming_opens_the_registers(s: Servo, addr: u16)
    ensures
        !s.armed && addr != 13 ==> s.admits(addr) == Err::<(), ServoError>(ServoError::NotArmed),
        s.admits(13) is Ok,
        s.armed ==> (s.admits(addr) is Ok <==> addr != 2 && addr != 34 && addr != 0 && addr != 3
            && addr != 4 && addr != 30 && addr != 31 && addr != 32),
        s.armed && (addr == 2 || addr == 34) ==> s.admits(addr) == Err::<(), ServoError>(
            ServoError::Guard(GuardError::Forbidden(addr)),
        ),
{
}

/// What each event does to the interlock: arming takes only where the drive is
/// identified, disarming always, and the reply to a probe decides the identity alone.
pub proof fn events_move_the_interlock(s: Servo, ok: bool)
    ensures
        s.identified ==> after_event(s, LockEvent::Arm).armed,
        !s.identified ==> after_event(s, LockEvent::Arm) == s,
        !after_event(s, LockEvent::Disarm).armed,
        after_event(s, LockEvent::Disarm).identified == s.identified,
        after_event(s, LockEvent::Probed(ok)).identified == ok,
        after_event(s, LockEvent::Probed(ok)).armed == s.armed,
        after_event(s, LockEvent::Arm).slave == s.slave,
{
}

} // verus!
