#[test]
fn crc() {
    assert_eq!(async_modbus::crc(&[0x00, 0x06, 0x00, 0x00, 0x00, 0x17]), 0x15c8);
}

#[test]
fn crc_of_empty_input() {
    assert_eq!(async_modbus::crc(&[]), 0xffff);
}

#[test]
fn crc_same_input_same_result() {
    let data = [0x01u8, 0x03, 0x10, 0x01, 0x03, 0xE8];
    assert_eq!(async_modbus::crc(&data), async_modbus::crc(&data));
    assert_eq!(async_modbus::crc(&data), 0x7410);
}
