//! Master-side codec for the Modbus RTU serial protocol: request frames,
//! CRC-16 checksums and validation of responses against their requests.

mod error;
pub mod client;
pub mod request;
pub mod response;
pub mod util;

pub use error::{CrcError, Error, ValidationError};
pub use util::crc;
