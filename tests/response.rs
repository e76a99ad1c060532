use async_modbus::response::{self, Response};
use async_modbus::{request, CrcError, ValidationError};

#[test]
fn read_holdings_accepted() {
    let req = request::ReadHoldings::new(1, 4, 2);
    let resp = response::ReadHoldings::new(1, [10u16, 11]);
    assert_eq!(resp.to_bytes(), {
        let mut v = vec![0x01, 0x03, 0x04, 0x00, 0x0A, 0x00, 0x0B];
        let c = async_modbus::crc(&v);
        v.push((c & 0xff) as u8);
        v.push((c >> 8) as u8);
        v
    });
    assert_eq!(resp.into_data(&req), Ok([10, 11]));
}

#[test]
fn wrong_address_is_unexpected() {
    let req = request::ReadHoldings::new(1, 4, 2);
    let resp = response::ReadHoldings::new(2, [10u16, 11]);
    assert_eq!(resp.into_data(&req), Err(ValidationError::UnexpectedResponse));
}

#[test]
fn wrong_function_is_unexpected() {
    let req = request::ReadInputs::new(1, 4, 2);
    let resp = response::ReadHoldings::new(1, [10u16, 11]);
    let bytes = resp.to_bytes();
    let as_inputs = response::ReadInputs::<2>::from_bytes(&bytes);
    assert!(as_inputs.validate_crc().is_ok());
    assert_eq!(as_inputs.into_data(&req), Err(ValidationError::UnexpectedResponse));
}

#[test]
fn wrong_byte_count_is_unexpected() {
    let req = request::ReadHoldings::new(1, 4, 3);
    let resp = response::ReadHoldings::new(1, [10u16, 11]);
    assert_eq!(resp.into_data(&req), Err(ValidationError::UnexpectedResponse));
}

#[test]
fn bad_crc_is_reported_before_fields() {
    let req = request::WriteHolding::new(1, 4, 104);
    let mut bytes = response::WriteHolding::new(9, 4, 104).to_bytes();
    bytes[7] ^= 0xff;
    let resp = response::WriteHolding::from_bytes(&bytes);
    assert_eq!(resp.into_data(&req), Err(ValidationError::Crc(CrcError)));
}

#[test]
fn write_holding_echo() {
    let req = request::WriteHolding::new(1, 4, 104);
    assert_eq!(response::WriteHolding::new(1, 4, 104).into_data(&req), Ok(()));
    assert_eq!(
        response::WriteHolding::new(1, 4, 105).into_data(&req),
        Err(ValidationError::UnexpectedResponse)
    );
    assert_eq!(
        response::WriteHolding::new(1, 5, 104).into_data(&req),
        Err(ValidationError::UnexpectedResponse)
    );
}

#[test]
fn write_holdings_echo() {
    let req = request::WriteHoldings::new(1, 6, [59u16, 60]);
    assert_eq!(response::WriteHoldings::new(1, 6, 2).into_data(&req), Ok(()));
    assert_eq!(
        response::WriteHoldings::new(1, 6, 1).into_data(&req),
        Err(ValidationError::UnexpectedResponse)
    );
    assert_eq!(
        response::WriteHoldings::new(1, 7, 2).into_data(&req),
        Err(ValidationError::UnexpectedResponse)
    );
}

#[test]
fn exception_reply_is_unexpected() {
    let req = request::ReadHoldings::new(1, 4, 1);
    let mut bytes = vec![0x01, 0x83, 0x02, 0x00, 0x00];
    let c = async_modbus::crc(&bytes[..5]);
    bytes.push((c & 0xff) as u8);
    bytes.push((c >> 8) as u8);
    let resp = response::ReadHoldings::<1>::from_bytes(&bytes[..7]);
    assert_eq!(resp.into_data(&req), Err(ValidationError::UnexpectedResponse));
}

#[test]
fn error_messages() {
    assert_eq!(CrcError.message(), "CRC validation failed");
    assert_eq!(ValidationError::UnexpectedResponse.message(), "unexpected response");
    assert_eq!(ValidationError::Crc(CrcError).message(), "CRC validation failed");
}
