use async_modbus::request::{ReadHoldings, ReadInputs, WriteHolding, WriteHoldings};

#[test]
fn test_write_holding_register() {
    let msg = WriteHolding::new(0x01, 0x1001, 0x03E8);
    assert_eq!(msg.to_bytes(), [0x01, 0x06, 0x10, 0x01, 0x03, 0xE8, 0xDC, 0x74]);
}

#[test]
fn test_read_holding_registers() {
    let msg = ReadHoldings::new(0x01, 0x1001, 1000);
    assert_eq!(msg.to_bytes(), [0x01, 0x03, 0x10, 0x01, 0x03, 0xE8, 0x10, 0x74]);
}

#[test]
fn write_holding_other_value() {
    let msg = WriteHolding::new(0x01, 0x10BC, 12345);
    assert_eq!(msg.to_bytes(), [0x01, 0x06, 0x10, 0xBC, 0x30, 0x39, 0x98, 0xFC]);
}

#[test]
fn read_inputs_layout() {
    let msg = ReadInputs::new(0x11, 0x0008, 1);
    let bytes = msg.to_bytes();
    assert_eq!(&bytes[..6], &[0x11, 0x04, 0x00, 0x08, 0x00, 0x01]);
    let c = async_modbus::crc(&bytes[..6]);
    assert_eq!(&bytes[6..], &[(c & 0xff) as u8, (c >> 8) as u8]);
    assert_eq!(ReadInputs::frame_len(), 8);
}

#[test]
fn write_holdings_layout() {
    let msg = WriteHoldings::new(0x01, 0x0006, [59u16, 0x1234]);
    let bytes = msg.to_bytes();
    assert_eq!(bytes.len(), WriteHoldings::<2>::frame_len());
    assert_eq!(bytes.len(), 13);
    assert_eq!(&bytes[..11], &[0x01, 0x10, 0x00, 0x06, 0x00, 0x02, 0x04, 0x00, 59, 0x12, 0x34]);
    assert!(msg.validate_crc().is_ok());
    assert_eq!(msg.address(), 1);
    assert_eq!(msg.function(), 0x10);
}

#[test]
fn write_holdings_largest_frame() {
    let msg = WriteHoldings::new(0x01, 0x0000, [0xABCDu16; 127]);
    assert_eq!(msg.n_registers, 127);
    assert_eq!(msg.data_bytes, 254);
    assert_eq!(msg.to_bytes().len(), 9 + 254);
    assert!(msg.validate_crc().is_ok());
}

#[test]
fn constructed_requests_pass_crc_check() {
    assert!(WriteHolding::new(7, 1, 2).validate_crc().is_ok());
    assert!(ReadHoldings::new(7, 1, 2).validate_crc().is_ok());
    assert!(ReadInputs::new(7, 1, 2).validate_crc().is_ok());
    assert!(WriteHoldings::new(7, 1, [2u16]).validate_crc().is_ok());
}

#[test]
fn single_byte_change_fails_crc_check() {
    let bytes = WriteHolding::new(0x01, 0x1001, 0x03E8).to_bytes();
    for i in 0..bytes.len() {
        let mut changed = bytes.clone();
        changed[i] ^= 0x01;
        assert!(WriteHolding::from_bytes(&changed).validate_crc().is_err());
    }
    let bytes = WriteHoldings::new(0x01, 0x0002, [1u16, 2, 3]).to_bytes();
    for i in 0..bytes.len() {
        let mut changed = bytes.clone();
        changed[i] = changed[i].wrapping_add(0x80);
        assert!(WriteHoldings::<3>::from_bytes(&changed).validate_crc().is_err());
    }
}

#[test]
fn from_bytes_round_trip() {
    let msg = ReadHoldings::new(0x05, 0xBEEF, 3);
    let back = ReadHoldings::from_bytes(&msg.to_bytes());
    assert_eq!(back.address(), 0x05);
    assert_eq!(back.function(), 0x03);
    assert_eq!(back.starting_register, 0xBEEF);
    assert_eq!(back.n_registers, 3);
    assert_eq!(back.calculate_crc(), msg.calculate_crc());
}
