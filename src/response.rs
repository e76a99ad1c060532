//! Modbus response frames and their validation against requests.
//!
//! `from_bytes` reads a frame without any validation, not even of its
//! checksum: `Response::into_data` does that.
use vstd::prelude::*;

use crate::request;
use crate::util::{
    be16, crc, crc_of, crc_ok, le16, lemma_be16_round_trip, lemma_16_injective, lemma_crc_ok_frame,
    lemma_regs_be_injective, lemma_regs_be_len, push_be16, push_le16, push_regs, read_be16, read_le16,
    read_regs, regs_be,
};
use crate::{CrcError, ValidationError};

verus! {

/// Write single holding register response
pub struct WriteHolding {
    /// Device address.
    pub addr: u8,
    /// Function code.
    pub function: u8,
    /// Register written.
    pub register: u16,
    /// Value written.
    pub value: u16,
    /// Stored checksum.
    pub crc: u16,
}

impl WriteHolding {
    /// The frame without its checksum.
    pub open spec fn body(&self) -> Seq<u8> {
        seq![self.addr, self.function] + be16(self.register) + be16(self.value)
    }

    /// The frame on the wire.
    pub open spec fn bytes(&self) -> Seq<u8> {
        self.body() + le16(self.crc)
    }

    /// Create a new write single holding register response
    pub fn new(addr: u8, register: u16, value: u16) -> (r: Self)
        ensures
            r.addr == addr,
            r.function == 0x06,
            r.register == register,
            r.value == value,
            r.crc == crc_of(r.body()),
            crc_ok(r.bytes()),
    {
        let mut message = WriteHolding { addr, function: 0x06, register, value, crc: 0 };
        message.crc = message.calculate_crc();
        proof {
            lemma_crc_ok_frame(message.body(), message.crc);
        }
        message
    }

    /// Length of the frame in bytes.
    pub fn frame_len() -> (r: usize)
        ensures
            r == 8,
    {
        8
    }

    fn body_bytes(&self) -> (r: Vec<u8>)
        ensures
            r@ == self.body(),
    {
        let mut out: Vec<u8> = Vec::new();
        out.push(self.addr);
        out.push(self.function);
        push_be16(&mut out, self.register);
        push_be16(&mut out, self.value);
        assert(out@ =~= self.body());
        out
    }

    /// The bytes of the frame, checksum last.
    pub fn to_bytes(&self) -> (r: Vec<u8>)
        ensures
            r@ == self.bytes(),
    {
        let mut out = self.body_bytes();
        push_le16(&mut out, self.crc);
        out
    }

    /// Reads a frame from its bytes, without any validation.
    pub fn from_bytes(b: &[u8]) -> (r: Self)
        requires
            b@.len() == 8,
        ensures
            r.bytes() == b@,
    {
        let r = WriteHolding {
            addr: b[0],
            function: b[1],
            register: read_be16(b, 2),
            value: read_be16(b, 4),
            crc: read_le16(b, 6),
        };
        proof {
            lemma_be16_round_trip(0, b@[2], b@[3]);
            lemma_be16_round_trip(0, b@[4], b@[5]);
            lemma_be16_round_trip(0, b@[6], b@[7]);
            assert(be16(r.register) =~= b@.subrange(2, 4));
            assert(be16(r.value) =~= b@.subrange(4, 6));
            assert(le16(r.crc) =~= b@.subrange(6, 8));
            assert(r.bytes() =~= b@);
        }
        r
    }

    /// Calculate the CRC for this message
    pub fn calculate_crc(&self) -> (r: u16)
        ensures
            r == crc_of(self.body()),
    {
        let body = self.body_bytes();
        crc(body.as_slice())
    }

    /// Check if the CRC is valid
    pub fn validate_crc(&self) -> (r: Result<(), CrcError>)
        ensures
            r is Ok <==> crc_ok(self.bytes()),
            r is Ok <==> self.crc == crc_of(self.body()),
    {
        proof {
            lemma_crc_ok_frame(self.body(), self.crc);
        }
        if self.crc == self.calculate_crc() {
            Ok(())
        } else {
            Err(CrcError)
        }
    }

    /// Get the device address
    pub fn address(&self) -> (r: u8)
        ensures
            r == self.addr,
    {
        self.addr
    }

    /// Get the function code
    pub fn function(&self) -> (r: u8)
        ensures
            r == self.function,
    {
        self.function
    }
}
/// Write multiple holding registers response
pub struct WriteHoldings {
    /// Device address.
    pub addr: u8,
    /// Function code.
    pub function: u8,
    /// First starting_register written.
    pub starting_register: u16,
    /// Number of registers written.
    pub n_registers: u16,
    /// Stored checksum.
    pub crc: u16,
}

impl WriteHoldings {
    /// The frame without its checksum.
    pub open spec fn body(&self) -> Seq<u8> {
        seq![self.addr, self.function] + be16(self.starting_register) + be16(self.n_registers)
    }

    /// The frame on the wire.
    pub open spec fn bytes(&self) -> Seq<u8> {
        self.body() + le16(self.crc)
    }

    /// Create a new write multiple holding registers response
    pub fn new(addr: u8, starting_register: u16, n_registers: u16) -> (r: Self)
        ensures
            r.addr == addr,
            r.function == 0x10,
            r.starting_register == starting_register,
            r.n_registers == n_registers,
            r.crc == crc_of(r.body()),
            crc_ok(r.bytes()),
    {
        let mut message = WriteHoldings { addr, function: 0x10, starting_register, n_registers, crc: 0 };
        message.crc = message.calculate_crc();
        proof {
            lemma_crc_ok_frame(message.body(), message.crc);
        }
        message
    }

    /// Length of the frame in bytes.
    pub fn frame_len() -> (r: usize)
        ensures
            r == 8,
    {
        8
    }

    fn body_bytes(&self) -> (r: Vec<u8>)
        ensures
            r@ == self.body(),
    {
        let mut out: Vec<u8> = Vec::new();
        out.push(self.addr);
        out.push(self.function);
        push_be16(&mut out, self.starting_register);
        push_be16(&mut out, self.n_registers);
        assert(out@ =~= self.body());
        out
    }

    /// The bytes of the frame, checksum last.
    pub fn to_bytes(&self) -> (r: Vec<u8>)
        ensures
            r@ == self.bytes(),
    {
        let mut out = self.body_bytes();
        push_le16(&mut out, self.crc);
        out
    }

    /// Reads a frame from its bytes, without any validation.
    pub fn from_bytes(b: &[u8]) -> (r: Self)
        requires
            b@.len() == 8,
        ensures
            r.bytes() == b@,
    {
        let r = WriteHoldings {
            addr: b[0],
            function: b[1],
            starting_register: read_be16(b, 2),
            n_registers: read_be16(b, 4),
            crc: read_le16(b, 6),
        };
        proof {
            lemma_be16_round_trip(0, b@[2], b@[3]);
            lemma_be16_round_trip(0, b@[4], b@[5]);
            lemma_be16_round_trip(0, b@[6], b@[7]);
            assert(be16(r.starting_register) =~= b@.subrange(2, 4));
            assert(be16(r.n_registers) =~= b@.subrange(4, 6));
            assert(le16(r.crc) =~= b@.subrange(6, 8));
            assert(r.bytes() =~= b@);
        }
        r
    }

    /// Calculate the CRC for this message
    pub fn calculate_crc(&self) -> (r: u16)
        ensures
            r == crc_of(self.body()),
    {
        let body = self.body_bytes();
        crc(body.as_slice())
    }

    /// Check if the CRC is valid
    pub fn validate_crc(&self) -> (r: Result<(), CrcError>)
        ensures
            r is Ok <==> crc_ok(self.bytes()),
            r is Ok <==> self.crc == crc_of(self.body()),
    {
        proof {
            lemma_crc_ok_frame(self.body(), self.crc);
        }
        if self.crc == self.calculate_crc() {
            Ok(())
        } else {
            Err(CrcError)
        }
    }

    /// Get the device address
    pub fn address(&self) -> (r: u8)
        ensures
            r == self.addr,
    {
        self.addr
    }

    /// Get the function code
    pub fn function(&self) -> (r: u8)
        ensures
            r == self.function,
    {
        self.function
    }
}

/// Read holding registers response
pub struct ReadHoldings<const N: usize> {
    /// Device address.
    pub addr: u8,
    /// Function code.
    pub function: u8,
    /// Number of data bytes that follow.
    pub data_bytes: u8,
    /// Register values, in register order.
    pub data: [u16; N],
    /// Stored checksum.
    pub crc: u16,
}

impl<const N: usize> ReadHoldings<N> {
    /// The frame without its checksum.
    pub open spec fn body(&self) -> Seq<u8> {
        seq![self.addr, self.function, self.data_bytes] + regs_be(self.data@)
    }

    /// The frame on the wire.
    pub open spec fn bytes(&self) -> Seq<u8> {
        self.body() + le16(self.crc)
    }

    /// Create a new read holding registers response
    pub fn new(addr: u8, data: [u16; N]) -> (r: Self)
        requires
            N <= 127,
        ensures
            r.addr == addr,
            r.function == 0x03,
            r.data_bytes == 2 * N,
            r.data@ == data@,
            r.crc == crc_of(r.body()),
            crc_ok(r.bytes()),
    {
        let mut message = ReadHoldings { addr, function: 0x03, data_bytes: (N as u8) * 2, data, crc: 0 };
        message.crc = message.calculate_crc();
        proof {
            lemma_crc_ok_frame(message.body(), message.crc);
        }
        message
    }

    /// Length of the frame in bytes.
    pub fn frame_len() -> (r: usize)
        requires
            5 + 2 * N <= usize::MAX,
        ensures
            r == 5 + 2 * N,
    {
        5 + 2 * N
    }

    fn body_bytes(&self) -> (r: Vec<u8>)
        ensures
            r@ == self.body(),
    {
        let mut out: Vec<u8> = Vec::new();
        out.push(self.addr);
        out.push(self.function);
        out.push(self.data_bytes);
        push_regs(&mut out, &self.data);
        assert(out@ =~= self.body());
        out
    }

    /// The bytes of the frame, checksum last.
    pub fn to_bytes(&self) -> (r: Vec<u8>)
        ensures
            r@ == self.bytes(),
    {
        let mut out = self.body_bytes();
        push_le16(&mut out, self.crc);
        out
    }

    /// Reads a frame from its bytes, without any validation.
    pub fn from_bytes(b: &[u8]) -> (r: Self)
        requires
            b@.len() == 5 + 2 * N,
        ensures
            r.bytes() == b@,
    {
        let data: [u16; N] = read_regs(b, 3);
        let r = ReadHoldings { addr: b[0], function: b[1], data_bytes: b[2], data, crc: read_le16(b, 3 + 2 * N) };
        proof {
            let n = 3 + 2 * N;
            lemma_be16_round_trip(0, b@[n], b@[n + 1]);
            assert(le16(r.crc) =~= b@.subrange(n, n + 2));
            assert(r.bytes() =~= b@);
        }
        r
    }

    /// Calculate the CRC for this message
    pub fn calculate_crc(&self) -> (r: u16)
        ensures
            r == crc_of(self.body()),
    {
        let body = self.body_bytes();
        crc(body.as_slice())
    }

    /// Check if the CRC is valid
    pub fn validate_crc(&self) -> (r: Result<(), CrcError>)
        ensures
            r is Ok <==> crc_ok(self.bytes()),
            r is Ok <==> self.crc == crc_of(self.body()),
    {
        proof {
            lemma_crc_ok_frame(self.body(), self.crc);
        }
        if self.crc == self.calculate_crc() {
            Ok(())
        } else {
            Err(CrcError)
        }
    }

    /// Get the device address
    pub fn address(&self) -> (r: u8)
        ensures
            r == self.addr,
    {
        self.addr
    }

    /// Get the function code
    pub fn function(&self) -> (r: u8)
        ensures
            r == self.function,
    {
        self.function
    }
}

impl<const N: usize> Response<request::ReadHoldings> for ReadHoldings<N> {
    type Data = [u16; N];

    open spec fn outcome(&self, req: &request::ReadHoldings) -> Result<[u16; N], ValidationError> {
        if !crc_ok(self.bytes()) {
            Err(ValidationError::Crc(CrcError))
        } else if self.addr == req.addr && self.function == req.function && self.data_bytes == 2
            * req.n_registers {
            Ok(self.data)
        } else {
            Err(ValidationError::UnexpectedResponse)
        }
    }

    fn into_data(self, req: &request::ReadHoldings) -> (r: Result<[u16; N], ValidationError>) {
        if let Err(e) = self.validate_crc() {
            return Err(ValidationError::Crc(e));
        }
        if self.address() == req.address() && self.function() == req.function() && self.data_bytes
            as u32 == 2 * (req.n_registers as u32) {
            Ok(self.data)
        } else {
            Err(ValidationError::UnexpectedResponse)
        }
    }
}

/// Read input registers response
pub struct ReadInputs<const N: usize> {
    /// Device address.
    pub addr: u8,
    /// Function code.
    pub function: u8,
    /// Number of data bytes that follow.
    pub data_bytes: u8,
    /// Register values, in register order.
    pub data: [u16; N],
    /// Stored checksum.
    pub crc: u16,
}

impl<const N: usize> ReadInputs<N> {
    /// The frame without its checksum.
    pub open spec fn body(&self) -> Seq<u8> {
        seq![self.addr, self.function, self.data_bytes] + regs_be(self.data@)
    }

    /// The frame on the wire.
    pub open spec fn bytes(&self) -> Seq<u8> {
        self.body() + le16(self.crc)
    }

    /// Create a new read input registers response
    pub fn new(addr: u8, data: [u16; N]) -> (r: Self)
        requires
            N <= 127,
        ensures
            r.addr == addr,
            r.function == 0x04,
            r.data_bytes == 2 * N,
            r.data@ == data@,
            r.crc == crc_of(r.body()),
            crc_ok(r.bytes()),
    {
        let mut message = ReadInputs { addr, function: 0x04, data_bytes: (N as u8) * 2, data, crc: 0 };
        message.crc = message.calculate_crc();
        proof {
            lemma_crc_ok_frame(message.body(), message.crc);
        }
        message
    }

    /// Length of the frame in bytes.
    pub fn frame_len() -> (r: usize)
        requires
            5 + 2 * N <= usize::MAX,
        ensures
            r == 5 + 2 * N,
    {
        5 + 2 * N
    }

    fn body_bytes(&self) -> (r: Vec<u8>)
        ensures
            r@ == self.body(),
    {
        let mut out: Vec<u8> = Vec::new();
        out.push(self.addr);
        out.push(self.function);
        out.push(self.data_bytes);
        push_regs(&mut out, &self.data);
        assert(out@ =~= self.body());
        out
    }

    /// The bytes of the frame, checksum last.
    pub fn to_bytes(&self) -> (r: Vec<u8>)
        ensures
            r@ == self.bytes(),
    {
        let mut out = self.body_bytes();
        push_le16(&mut out, self.crc);
        out
    }

    /// Reads a frame from its bytes, without any validation.
    pub fn from_bytes(b: &[u8]) -> (r: Self)
        requires
            b@.len() == 5 + 2 * N,
        ensures
            r.bytes() == b@,
    {
        let data: [u16; N] = read_regs(b, 3);
        let r = ReadInputs { addr: b[0], function: b[1], data_bytes: b[2], data, crc: read_le16(b, 3 + 2 * N) };
        proof {
            let n = 3 + 2 * N;
            lemma_be16_round_trip(0, b@[n], b@[n + 1]);
            assert(le16(r.crc) =~= b@.subrange(n, n + 2));
            assert(r.bytes() =~= b@);
        }
        r
    }

    /// Calculate the CRC for this message
    pub fn calculate_crc(&self) -> (r: u16)
        ensures
            r == crc_of(self.body()),
    {
        let body = self.body_bytes();
        crc(body.as_slice())
    }

    /// Check if the CRC is valid
    pub fn validate_crc(&self) -> (r: Result<(), CrcError>)
        ensures
            r is Ok <==> crc_ok(self.bytes()),
            r is Ok <==> self.crc == crc_of(self.body()),
    {
        proof {
            lemma_crc_ok_frame(self.body(), self.crc);
        }
        if self.crc == self.calculate_crc() {
            Ok(())
        } else {
            Err(CrcError)
        }
    }

    /// Get the device address
    pub fn address(&self) -> (r: u8)
        ensures
            r == self.addr,
    {
        self.addr
    }

    /// Get the function code
    pub fn function(&self) -> (r: u8)
        ensures
            r == self.function,
    {
        self.function
    }
}

impl<const N: usize> Response<request::ReadInputs> for ReadInputs<N> {
    type Data = [u16; N];

    open spec fn outcome(&self, req: &request::ReadInputs) -> Result<[u16; N], ValidationError> {
        if !crc_ok(self.bytes()) {
            Err(ValidationError::Crc(CrcError))
        } else if self.addr == req.addr && self.function == req.function && self.data_bytes == 2
            * req.n_registers {
            Ok(self.data)
        } else {
            Err(ValidationError::UnexpectedResponse)
        }
    }

    fn into_data(self, req: &request::ReadInputs) -> (r: Result<[u16; N], ValidationError>) {
        if let Err(e) = self.validate_crc() {
            return Err(ValidationError::Crc(e));
        }
        if self.address() == req.address() && self.function() == req.function() && self.data_bytes
            as u32 == 2 * (req.n_registers as u32) {
            Ok(self.data)
        } else {
            Err(ValidationError::UnexpectedResponse)
        }
    }
}

impl WriteHolding {
    /// Two frames with the same bytes are the same frame.
    pub proof fn lemma_bytes_injective(x: Self, y: Self)
        requires
            x.bytes() == y.bytes(),
        ensures
            x == y,
    {
        assert(x.bytes().subrange(2, 4) =~= be16(x.register));
        assert(y.bytes().subrange(2, 4) =~= be16(y.register));
        assert(x.bytes().subrange(4, 6) =~= be16(x.value));
        assert(y.bytes().subrange(4, 6) =~= be16(y.value));
        assert(x.bytes().subrange(6, 8) =~= le16(x.crc));
        assert(y.bytes().subrange(6, 8) =~= le16(y.crc));
        assert(x.bytes()[0] == x.addr && x.bytes()[1] == x.function);
        assert(y.bytes()[0] == y.addr && y.bytes()[1] == y.function);
        lemma_16_injective(x.register, y.register);
        lemma_16_injective(x.value, y.value);
        lemma_16_injective(x.crc, y.crc);
    }
}

impl WriteHoldings {
    /// Two frames with the same bytes are the same frame.
    pub proof fn lemma_bytes_injective(x: Self, y: Self)
        requires
            x.bytes() == y.bytes(),
        ensures
            x == y,
    {
        assert(x.bytes().subrange(2, 4) =~= be16(x.starting_register));
        assert(y.bytes().subrange(2, 4) =~= be16(y.starting_register));
        assert(x.bytes().subrange(4, 6) =~= be16(x.n_registers));
        assert(y.bytes().subrange(4, 6) =~= be16(y.n_registers));
        assert(x.bytes().subrange(6, 8) =~= le16(x.crc));
        assert(y.bytes().subrange(6, 8) =~= le16(y.crc));
        assert(x.bytes()[0] == x.addr && x.bytes()[1] == x.function);
        assert(y.bytes()[0] == y.addr && y.bytes()[1] == y.function);
        lemma_16_injective(x.starting_register, y.starting_register);
        lemma_16_injective(x.n_registers, y.n_registers);
        lemma_16_injective(x.crc, y.crc);
    }
}

impl<const N: usize> ReadHoldings<N> {
    /// Two frames with the same bytes are the same frame.
    pub proof fn lemma_bytes_injective(x: Self, y: Self)
        requires
            x.bytes() == y.bytes(),
        ensures
            x == y,
    {
        let n = 3 + 2 * N;
        lemma_regs_be_len(x.data@);
        lemma_regs_be_len(y.data@);
        assert(x.bytes().subrange(3, n) =~= regs_be(x.data@));
        assert(y.bytes().subrange(3, n) =~= regs_be(y.data@));
        assert(x.bytes().subrange(n, n + 2) =~= le16(x.crc));
        assert(y.bytes().subrange(n, n + 2) =~= le16(y.crc));
        assert(x.bytes()[0] == x.addr && x.bytes()[1] == x.function && x.bytes()[2] == x.data_bytes);
        assert(y.bytes()[0] == y.addr && y.bytes()[1] == y.function && y.bytes()[2] == y.data_bytes);
        lemma_regs_be_injective(x.data@, y.data@);
        assert(x.data =~= y.data);
        lemma_16_injective(x.crc, y.crc);
    }
}

impl<const N: usize> ReadInputs<N> {
    /// Two frames with the same bytes are the same frame.
    pub proof fn lemma_bytes_injective(x: Self, y: Self)
        requires
            x.bytes() == y.bytes(),
        ensures
            x == y,
    {
        let n = 3 + 2 * N;
        lemma_regs_be_len(x.data@);
        lemma_regs_be_len(y.data@);
        assert(x.bytes().subrange(3, n) =~= regs_be(x.data@));
        assert(y.bytes().subrange(3, n) =~= regs_be(y.data@));
        assert(x.bytes().subrange(n, n + 2) =~= le16(x.crc));
        assert(y.bytes().subrange(n, n + 2) =~= le16(y.crc));
        assert(x.bytes()[0] == x.addr && x.bytes()[1] == x.function && x.bytes()[2] == x.data_bytes);
        assert(y.bytes()[0] == y.addr && y.bytes()[1] == y.function && y.bytes()[2] == y.data_bytes);
        lemma_regs_be_injective(x.data@, y.data@);
        assert(x.data =~= y.data);
        lemma_16_injective(x.crc, y.crc);
    }
}

/// Trait for Modbus response messages that can be validated against requests.
pub trait Response<Request>: Sized {
    /// The type of data extracted from the response.
    type Data;

    /// What validating this response against `request` gives.
    spec fn outcome(&self, request: &Request) -> Result<Self::Data, ValidationError>;

    /// Validate the response against the given request.
    fn into_data(self, request: &Request) -> (r: Result<Self::Data, ValidationError>)
        ensures
            r == self.outcome(request),
    ;
}

impl Response<request::WriteHolding> for WriteHolding {
    type Data = ();

    open spec fn outcome(&self, req: &request::WriteHolding) -> Result<(), ValidationError> {
        if !crc_ok(self.bytes()) {
            Err(ValidationError::Crc(CrcError))
        } else if self.addr == req.addr && self.function == req.function && self.register
            == req.register && self.value == req.value {
            Ok(())
        } else {
            Err(ValidationError::UnexpectedResponse)
        }
    }

    fn into_data(self, req: &request::WriteHolding) -> (r: Result<(), ValidationError>) {
        if let Err(e) = self.validate_crc() {
            return Err(ValidationError::Crc(e));
        }
        if self.address() == req.address() && self.function() == req.function() && self.register
            == req.register && self.value == req.value {
            Ok(())
        } else {
            Err(ValidationError::UnexpectedResponse)
        }
    }
}

impl<const N: usize> Response<request::WriteHoldings<N>> for WriteHoldings {
    type Data = ();

    open spec fn outcome(&self, req: &request::WriteHoldings<N>) -> Result<(), ValidationError> {
        if !crc_ok(self.bytes()) {
            Err(ValidationError::Crc(CrcError))
        } else if self.addr == req.addr && self.function == req.function && self.starting_register
            == req.starting_register && self.n_registers == req.n_registers {
            Ok(())
        } else {
            Err(ValidationError::UnexpectedResponse)
        }
    }

    fn into_data(self, req: &request::WriteHoldings<N>) -> (r: Result<(), ValidationError>) {
        if let Err(e) = self.validate_crc() {
            return Err(ValidationError::Crc(e));
        }
        if self.address() == req.address() && self.function() == req.function()
            && self.starting_register == req.starting_register && self.n_registers
            == req.n_registers {
            Ok(())
        } else {
            Err(ValidationError::UnexpectedResponse)
        }
    }
}

/// A write single holding register response whose checksum verifies but whose address or function code
/// differs from the request's is rejected as an unexpected response.
pub proof fn lemma_write_holding_mismatch_rejected(resp: WriteHolding, req: request::WriteHolding)
    requires
        crc_ok(resp.bytes()),
        resp.addr != req.addr || resp.function != req.function,
    ensures
        resp.outcome(&req) == Err::<(), ValidationError>(ValidationError::UnexpectedResponse),
{
}

/// A write multiple holding registers response whose checksum verifies but whose address or function code
/// differs from the request's is rejected as an unexpected response.
pub proof fn lemma_write_holdings_mismatch_rejected<const N: usize>(resp: WriteHoldings, req: request::WriteHoldings<N>)
    requires
        crc_ok(resp.bytes()),
        resp.addr != req.addr || resp.function != req.function,
    ensures
        resp.outcome(&req) == Err::<(), ValidationError>(ValidationError::UnexpectedResponse),
{
}

/// A read holding registers response whose checksum verifies but whose address or function code
/// differs from the request's is rejected as an unexpected response.
pub proof fn lemma_read_holdings_mismatch_rejected<const N: usize>(resp: ReadHoldings<N>, req: request::ReadHoldings)
    requires
        crc_ok(resp.bytes()),
        resp.addr != req.addr || resp.function != req.function,
    ensures
        resp.outcome(&req) == Err::<[u16; N], ValidationError>(ValidationError::UnexpectedResponse),
{
}

/// A read input registers response whose checksum verifies but whose address or function code
/// differs from the request's is rejected as an unexpected response.
pub proof fn lemma_read_inputs_mismatch_rejected<const N: usize>(resp: ReadInputs<N>, req: request::ReadInputs)
    requires
        crc_ok(resp.bytes()),
        resp.addr != req.addr || resp.function != req.function,
    ensures
        resp.outcome(&req) == Err::<[u16; N], ValidationError>(ValidationError::UnexpectedResponse),
{
}

} // verus!
