//! Errors of a transaction and of response validation.
use vstd::prelude::*;

verus! {

/// Errors that can occur when talking to a Modbus server.
#[derive(Debug)]
pub enum Error<Io> {
    /// IO error.
    Io(Io),
    /// Unexpected end of file when reading.
    UnexpectedEof,
    /// Invalid CRC checksum.
    Crc(CrcError),
    /// Unexpected response from the Modbus server.
    UnexpectedResponse,
}

/// Error indicating a CRC validation failure.
#[derive(Debug, Clone, Copy, PartialEq, Eq)]
pub struct CrcError;

/// Errors that can occur when validating a Modbus response.
#[derive(Debug, Clone, Copy, PartialEq, Eq)]
pub enum ValidationError {
    /// CRC validation failed.
    Crc(CrcError),
    /// The response did not match the request.
    UnexpectedResponse,
}

impl CrcError {
    /// A short description of the error.
    pub fn message(&self) -> (r: String)
        ensures
            r@ == "CRC validation failed"@,
    {
        String::from_str("CRC validation failed")
    }
}

impl ValidationError {
    /// A short description of the error.
    pub fn message(&self) -> (r: String)
        ensures
            *self is Crc ==> r@ == "CRC validation failed"@,
            *self is UnexpectedResponse ==> r@ == "unexpected response"@,
    {
        match self {
            ValidationError::Crc(e) => e.message(),
            ValidationError::UnexpectedResponse => String::from_str("unexpected response"),
        }
    }
}

impl<E> From<ValidationError> for Error<E> {
    fn from(e: ValidationError) -> Self {
        match e {
            ValidationError::Crc(crc) => Error::Crc(crc),
            ValidationError::UnexpectedResponse => Error::UnexpectedResponse,
        }
    }
}

impl<E> vstd::std_specs::convert::FromSpecImpl<ValidationError> for Error<E> {
    open spec fn obeys_from_spec() -> bool {
        true
    }

    open spec fn from_spec(e: ValidationError) -> Self {
        match e {
            ValidationError::Crc(crc) => Error::Crc(crc),
            ValidationError::UnexpectedResponse => Error::UnexpectedResponse,
        }
    }
}

impl<E> From<CrcError> for Error<E> {
    fn from(e: CrcError) -> Self {
        Error::Crc(e)
    }
}

impl<E> vstd::std_specs::convert::FromSpecImpl<CrcError> for Error<E> {
    open spec fn obeys_from_spec() -> bool {
        true
    }

    open spec fn from_spec(e: CrcError) -> Self {
        Error::Crc(e)
    }
}

impl From<CrcError> for ValidationError {
    fn from(e: CrcError) -> Self {
        ValidationError::Crc(e)
    }
}

impl vstd::std_specs::convert::FromSpecImpl<CrcError> for ValidationError {
    open spec fn obeys_from_spec() -> bool {
        true
    }

    open spec fn from_spec(e: CrcError) -> Self {
        ValidationError::Crc(e)
    }
}

} // verus!
