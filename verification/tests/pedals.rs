use pith::pedals::effects::EdgeTrigger;
use pith::pedals::modbus;
use pith::pedals::modbus::{
    crc16, decode_read_holding_response, decode_write_multiple_ack, decode_write_single_ack,
    encode_read_holding, encode_write_multiple, encode_write_single, ModbusError,
};
use pith::pedals::servo_jss57p::{
    defaults, encode_bulk_read, encode_identity_probe, encode_write_register,
    is_identity_response, GuardError, MOTION_CMD_POSITION_MOVE, REG_ABS_POSITION_LO,
    REG_DRIVE_MODEL, REG_FACTORY_RESET, REG_MOTION_COMMAND, REG_MOTION_STATE, REG_MOTOR_TYPE,
    REG_PULSE_FILTER_TIME, REG_TARGET_PULSES_LO,
};

#[test]
fn edge_trigger_fires_once_per_activation() {
    let mut e = EdgeTrigger::default();
    assert!(!e.update(false));
    assert!(e.update(true)); // rising edge
    assert!(!e.update(true)); // still active, no re-fire
    assert!(!e.update(false));
    assert!(e.update(true)); // fires again on the next rising edge
}

#[test]
fn crc16_matches_manual_read_example() {
    // "01 03 00 0A 00 02 E4 09" — read 2 registers at 0x000A.
    assert_eq!(crc16(&[0x01, 0x03, 0x00, 0x0A, 0x00, 0x02]), 0x09E4);
}

#[test]
fn encode_read_holding_matches_manual_example() {
    assert_eq!(
        encode_read_holding(0x01, 0x000A, 0x0002),
        vec![0x01, 0x03, 0x00, 0x0A, 0x00, 0x02, 0xE4, 0x09]
    );
}

#[test]
fn decode_read_holding_response_matches_manual_example() {
    // "01 03 04 00 01 0C 80 AF 53"
    let frame = [0x01, 0x03, 0x04, 0x00, 0x01, 0x0C, 0x80, 0xAF, 0x53];
    assert_eq!(
        decode_read_holding_response(&frame).unwrap(),
        vec![0x0001, 0x0C80]
    );
}

#[test]
fn encode_write_single_matches_manual_example() {
    // "01 06 00 22 00 64 28 2B" — write 100 (0x0064) to reg 0x0022.
    assert_eq!(
        encode_write_single(0x01, 0x0022, 0x0064),
        vec![0x01, 0x06, 0x00, 0x22, 0x00, 0x64, 0x28, 0x2B]
    );
}

#[test]
fn decode_write_single_ack_matches_manual_example() {
    let frame = [0x01, 0x06, 0x00, 0x22, 0x00, 0x64, 0x28, 0x2B];
    assert!(decode_write_single_ack(&frame, 0x0022, 0x0064).is_ok());
}

#[test]
fn encode_write_multiple_matches_manual_example() {
    // "01 10 00 34 00 02 04 00 00 0C 80 F5 E8" — "set total number of
    // pulses to 3200" (0x0C80) across registers 0x0034/0x0035.
    assert_eq!(
        encode_write_multiple(0x01, 0x0034, &[0x0000, 0x0C80]),
        vec![0x01, 0x10, 0x00, 0x34, 0x00, 0x02, 0x04, 0x00, 0x00, 0x0C, 0x80, 0xF5, 0xE8]
    );
}

#[test]
fn decode_write_multiple_ack_matches_manual_example() {
    // "01 10 00 23 00 02 B0 02"
    let frame = [0x01, 0x10, 0x00, 0x23, 0x00, 0x02, 0xB0, 0x02];
    assert!(decode_write_multiple_ack(&frame, 0x0023, 0x0002).is_ok());
}

#[test]
fn exception_response_is_detected() {
    // ADDR=01 CMD=83H (03H|80H) exception=02H (illegal address) + CRC.
    let body = [0x01u8, 0x83, 0x02];
    let crc = crc16(&body);
    let mut frame = body.to_vec();
    frame.push((crc & 0xFF) as u8);
    frame.push((crc >> 8) as u8);
    assert_eq!(
        decode_read_holding_response(&frame),
        Err(ModbusError::Exception {
            function: 0x83,
            code: 0x02
        })
    );
}

#[test]
fn bad_crc_is_rejected() {
    let mut frame = encode_read_holding(1, 0, 1);
    *frame.last_mut().unwrap() ^= 0xFF;
    assert_eq!(
        decode_read_holding_response(&frame),
        Err(ModbusError::BadCrc)
    );
}

#[test]
fn guard_blocks_forbidden_and_readonly_registers() {
    assert!(matches!(
        encode_write_register(1, REG_MOTOR_TYPE, 0),
        Err(GuardError::Forbidden(REG_MOTOR_TYPE))
    ));
    assert!(matches!(
        encode_write_register(1, REG_FACTORY_RESET, 1),
        Err(GuardError::Forbidden(REG_FACTORY_RESET))
    ));
    assert!(matches!(
        encode_write_register(1, REG_DRIVE_MODEL, 57),
        Err(GuardError::ReadOnly(REG_DRIVE_MODEL))
    ));
    assert!(matches!(
        encode_write_register(1, REG_ABS_POSITION_LO, 0),
        Err(GuardError::ReadOnly(REG_ABS_POSITION_LO))
    ));
    assert!(matches!(
        encode_write_register(1, REG_MOTION_STATE, 0),
        Err(GuardError::ReadOnly(REG_MOTION_STATE))
    ));
}

#[test]
fn guard_allows_the_designated_write_test_register() {
    assert!(encode_write_register(1, REG_PULSE_FILTER_TIME, 60).is_ok());
}

#[test]
fn guard_allows_motion_command_and_target_registers() {
    assert!(encode_write_register(1, REG_MOTION_COMMAND, MOTION_CMD_POSITION_MOVE).is_ok());
    assert!(encode_write_register(1, REG_TARGET_PULSES_LO, 400).is_ok());
}

#[test]
fn identity_probe_reads_register_zero() {
    assert_eq!(
        encode_identity_probe(1),
        modbus::encode_read_holding(1, 0, 1)
    );
}

#[test]
fn bulk_read_covers_all_35_registers() {
    assert_eq!(encode_bulk_read(1), modbus::encode_read_holding(1, 0, 35));
}

#[test]
fn identity_response_recognizes_drive_model_57() {
    // 57 decimal == 0x0039.
    let mut resp = vec![0x01, 0x03, 0x02, 0x00, 0x39];
    let crc = modbus::crc16(&resp);
    resp.push((crc & 0xFF) as u8);
    resp.push((crc >> 8) as u8);
    assert!(is_identity_response(&resp));
}

#[test]
fn identity_response_rejects_wrong_model() {
    let mut resp = vec![0x01, 0x03, 0x02, 0x00, 0x01];
    let crc = modbus::crc16(&resp);
    resp.push((crc & 0xFF) as u8);
    resp.push((crc >> 8) as u8);
    assert!(!is_identity_response(&resp));
}

#[test]
fn defaults_table_has_one_entry_per_register() {
    assert_eq!(defaults().len(), (REG_FACTORY_RESET + 1) as usize);
}
