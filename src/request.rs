//! Modbus request frames. `to_bytes` gives the bytes to send.
use vstd::prelude::*;

use crate::util::{
    be16, crc, crc_of, crc_ok, le16, lemma_be16_round_trip, lemma_crc_ok_frame, push_be16,
    push_le16, push_regs, read_be16, read_le16, read_regs, regs_be,
};
use crate::CrcError;

verus! {

/// Write single holding register request
pub struct WriteHolding {
    /// Device address.
    pub addr: u8,
    /// Function code.
    pub function: u8,
    /// Register to write.
    pub register: u16,
    /// Value to write.
    pub value: u16,
    /// Stored checksum.
    pub crc: u16,
}

impl WriteHolding {
    /// The frame without its checksum.
    pub open spec fn body(&self) -> Seq<u8> {
        seq![self.addr, self.function] + be16(self.register) + be16(self.value)
    }

    /// The frame on the wire.
    pub open spec fn bytes(&self) -> Seq<u8> {
        self.body() + le16(self.crc)
    }

    /// Create a new write holding register request
    pub fn new(addr: u8, register: u16, value: u16) -> (r: Self)
        ensures
            r.addr == addr,
            r.function == 0x06,
            r.register == register,
            r.value == value,
            r.crc == crc_of(r.body()),
            crc_ok(r.bytes()),
    {
        let mut message = WriteHolding { addr, function: 0x06, register, value, crc: 0 };
        message.crc = message.calculate_crc();
        proof {
            lemma_crc_ok_frame(message.body(), message.crc);
        }
        message
    }

    /// Length of the frame in bytes.
    pub fn frame_len() -> (r: usize)
        ensures
            r == 8,
    {
        8
    }

    fn body_bytes(&self) -> (r: Vec<u8>)
        ensures
            r@ == self.body(),
    {
        let mut out: Vec<u8> = Vec::new();
        out.push(self.addr);
        out.push(self.function);
        push_be16(&mut out, self.register);
        push_be16(&mut out, self.value);
        assert(out@ =~= self.body());
        out
    }

    /// The bytes of the frame, checksum last.
    pub fn to_bytes(&self) -> (r: Vec<u8>)
        ensures
            r@ == self.bytes(),
    {
        let mut out = self.body_bytes();
        push_le16(&mut out, self.crc);
        out
    }

    /// Reads a frame from its bytes, without any validation.
    pub fn from_bytes(b: &[u8]) -> (r: Self)
        requires
            b@.len() == 8,
        ensures
            r.bytes() == b@,
    {
        let r = WriteHolding {
            addr: b[0],
            function: b[1],
            register: read_be16(b, 2),
            value: read_be16(b, 4),
            crc: read_le16(b, 6),
        };
        proof {
            lemma_be16_round_trip(0, b@[2], b@[3]);
            lemma_be16_round_trip(0, b@[4], b@[5]);
            lemma_be16_round_trip(0, b@[6], b@[7]);
            assert(be16(r.register) =~= b@.subrange(2, 4));
            assert(be16(r.value) =~= b@.subrange(4, 6));
            assert(le16(r.crc) =~= b@.subrange(6, 8));
            assert(r.bytes() =~= b@);
        }
        r
    }

    /// Calculate the CRC for this message
    pub fn calculate_crc(&self) -> (r: u16)
        ensures
            r == crc_of(self.body()),
    {
        let body = self.body_bytes();
        crc(body.as_slice())
    }

    /// Check if the CRC is valid
    pub fn validate_crc(&self) -> (r: Result<(), CrcError>)
        ensures
            r is Ok <==> crc_ok(self.bytes()),
            r is Ok <==> self.crc == crc_of(self.body()),
    {
        proof {
            lemma_crc_ok_frame(self.body(), self.crc);
        }
        if self.crc == self.calculate_crc() {
            Ok(())
        } else {
            Err(CrcError)
        }
    }

    /// Get the device address
    pub fn address(&self) -> (r: u8)
        ensures
            r == self.addr,
    {
        self.addr
    }

    /// Get the function code
    pub fn function(&self) -> (r: u8)
        ensures
            r == self.function,
    {
        self.function
    }
}
/// Read holding registers request
pub struct ReadHoldings {
    /// Device address.
    pub addr: u8,
    /// Function code.
    pub function: u8,
    /// First starting_register to read.
    pub starting_register: u16,
    /// Number of registers to read.
    pub n_registers: u16,
    /// Stored checksum.
    pub crc: u16,
}

impl ReadHoldings {
    /// The frame without its checksum.
    pub open spec fn body(&self) -> Seq<u8> {
        seq![self.addr, self.function] + be16(self.starting_register) + be16(self.n_registers)
    }

    /// The frame on the wire.
    pub open spec fn bytes(&self) -> Seq<u8> {
        self.body() + le16(self.crc)
    }

    /// Create a new read holding registers request
    pub fn new(addr: u8, starting_register: u16, n_registers: u16) -> (r: Self)
        ensures
            r.addr == addr,
            r.function == 0x03,
            r.starting_register == starting_register,
            r.n_registers == n_registers,
            r.crc == crc_of(r.body()),
            crc_ok(r.bytes()),
    {
        let mut message = ReadHoldings { addr, function: 0x03, starting_register, n_registers, crc: 0 };
        message.crc = message.calculate_crc();
        proof {
            lemma_crc_ok_frame(message.body(), message.crc);
        }
        message
    }

    /// Length of the frame in bytes.
    pub fn frame_len() -> (r: usize)
        ensures
            r == 8,
    {
        8
    }

    fn body_bytes(&self) -> (r: Vec<u8>)
        ensures
            r@ == self.body(),
    {
        let mut out: Vec<u8> = Vec::new();
        out.push(self.addr);
        out.push(self.function);
        push_be16(&mut out, self.starting_register);
        push_be16(&mut out, self.n_registers);
        assert(out@ =~= self.body());
        out
    }

    /// The bytes of the frame, checksum last.
    pub fn to_bytes(&self) -> (r: Vec<u8>)
        ensures
            r@ == self.bytes(),
    {
        let mut out = self.body_bytes();
        push_le16(&mut out, self.crc);
        out
    }

    /// Reads a frame from its bytes, without any validation.
    pub fn from_bytes(b: &[u8]) -> (r: Self)
        requires
            b@.len() == 8,
        ensures
            r.bytes() == b@,
    {
        let r = ReadHoldings {
            addr: b[0],
            function: b[1],
            starting_register: read_be16(b, 2),
            n_registers: read_be16(b, 4),
            crc: read_le16(b, 6),
        };
        proof {
            lemma_be16_round_trip(0, b@[2], b@[3]);
            lemma_be16_round_trip(0, b@[4], b@[5]);
            lemma_be16_round_trip(0, b@[6], b@[7]);
            assert(be16(r.starting_register) =~= b@.subrange(2, 4));
            assert(be16(r.n_registers) =~= b@.subrange(4, 6));
            assert(le16(r.crc) =~= b@.subrange(6, 8));
            assert(r.bytes() =~= b@);
        }
        r
    }

    /// Calculate the CRC for this message
    pub fn calculate_crc(&self) -> (r: u16)
        ensures
            r == crc_of(self.body()),
    {
        let body = self.body_bytes();
        crc(body.as_slice())
    }

    /// Check if the CRC is valid
    pub fn validate_crc(&self) -> (r: Result<(), CrcError>)
        ensures
            r is Ok <==> crc_ok(self.bytes()),
            r is Ok <==> self.crc == crc_of(self.body()),
    {
        proof {
            lemma_crc_ok_frame(self.body(), self.crc);
        }
        if self.crc == self.calculate_crc() {
            Ok(())
        } else {
            Err(CrcError)
        }
    }

    /// Get the device address
    pub fn address(&self) -> (r: u8)
        ensures
            r == self.addr,
    {
        self.addr
    }

    /// Get the function code
    pub fn function(&self) -> (r: u8)
        ensures
            r == self.function,
    {
        self.function
    }
}
/// Read input registers request
pub struct ReadInputs {
    /// Device address.
    pub addr: u8,
    /// Function code.
    pub function: u8,
    /// First starting_register to read.
    pub starting_register: u16,
    /// Number of registers to read.
    pub n_registers: u16,
    /// Stored checksum.
    pub crc: u16,
}

impl ReadInputs {
    /// The frame without its checksum.
    pub open spec fn body(&self) -> Seq<u8> {
        seq![self.addr, self.function] + be16(self.starting_register) + be16(self.n_registers)
    }

    /// The frame on the wire.
    pub open spec fn bytes(&self) -> Seq<u8> {
        self.body() + le16(self.crc)
    }

    /// Create a new read input registers request
    pub fn new(addr: u8, starting_register: u16, n_registers: u16) -> (r: Self)
        ensures
            r.addr == addr,
            r.function == 0x04,
            r.starting_register == starting_register,
            r.n_registers == n_registers,
            r.crc == crc_of(r.body()),
            crc_ok(r.bytes()),
    {
        let mut message = ReadInputs { addr, function: 0x04, starting_register, n_registers, crc: 0 };
        message.crc = message.calculate_crc();
        proof {
            lemma_crc_ok_frame(message.body(), message.crc);
        }
        message
    }

    /// Length of the frame in bytes.
    pub fn frame_len() -> (r: usize)
        ensures
            r == 8,
    {
        8
    }

    fn body_bytes(&self) -> (r: Vec<u8>)
        ensures
            r@ == self.body(),
    {
        let mut out: Vec<u8> = Vec::new();
        out.push(self.addr);
        out.push(self.function);
        push_be16(&mut out, self.starting_register);
        push_be16(&mut out, self.n_registers);
        assert(out@ =~= self.body());
        out
    }

    /// The bytes of the frame, checksum last.
    pub fn to_bytes(&self) -> (r: Vec<u8>)
        ensures
            r@ == self.bytes(),
    {
        let mut out = self.body_bytes();
        push_le16(&mut out, self.crc);
        out
    }

    /// Reads a frame from its bytes, without any validation.
    pub fn from_bytes(b: &[u8]) -> (r: Self)
        requires
            b@.len() == 8,
        ensures
            r.bytes() == b@,
    {
        let r = ReadInputs {
            addr: b[0],
            function: b[1],
            starting_register: read_be16(b, 2),
            n_registers: read_be16(b, 4),
            crc: read_le16(b, 6),
        };
        proof {
            lemma_be16_round_trip(0, b@[2], b@[3]);
            lemma_be16_round_trip(0, b@[4], b@[5]);
            lemma_be16_round_trip(0, b@[6], b@[7]);
            assert(be16(r.starting_register) =~= b@.subrange(2, 4));
            assert(be16(r.n_registers) =~= b@.subrange(4, 6));
            assert(le16(r.crc) =~= b@.subrange(6, 8));
            assert(r.bytes() =~= b@);
        }
        r
    }

    /// Calculate the CRC for this message
    pub fn calculate_crc(&self) -> (r: u16)
        ensures
            r == crc_of(self.body()),
    {
        let body = self.body_bytes();
        crc(body.as_slice())
    }

    /// Check if the CRC is valid
    pub fn validate_crc(&self) -> (r: Result<(), CrcError>)
        ensures
            r is Ok <==> crc_ok(self.bytes()),
            r is Ok <==> self.crc == crc_of(self.body()),
    {
        proof {
            lemma_crc_ok_frame(self.body(), self.crc);
        }
        if self.crc == self.calculate_crc() {
            Ok(())
        } else {
            Err(CrcError)
        }
    }

    /// Get the device address
    pub fn address(&self) -> (r: u8)
        ensures
            r == self.addr,
    {
        self.addr
    }

    /// Get the function code
    pub fn function(&self) -> (r: u8)
        ensures
            r == self.function,
    {
        self.function
    }
}

/// Largest number of registers that one write multiple holding registers
/// request carries.
pub const MAX_WRITE_REGISTERS: usize = 127;

/// Write multiple holding registers request
pub struct WriteHoldings<const N: usize> {
    /// Device address.
    pub addr: u8,
    /// Function code.
    pub function: u8,
    /// First register to write.
    pub starting_register: u16,
    /// Number of registers to write.
    pub n_registers: u16,
    /// Number of data bytes that follow.
    pub data_bytes: u8,
    /// Values to write, in register order.
    pub data: [u16; N],
    /// Stored checksum.
    pub crc: u16,
}

impl<const N: usize> WriteHoldings<N> {
    /// The frame without its checksum.
    pub open spec fn body(&self) -> Seq<u8> {
        seq![self.addr, self.function] + be16(self.starting_register) + be16(self.n_registers)
            + seq![self.data_bytes] + regs_be(self.data@)
    }

    /// The frame on the wire.
    pub open spec fn bytes(&self) -> Seq<u8> {
        self.body() + le16(self.crc)
    }

    /// Create a new write multiple holding registers request
    pub fn new(addr: u8, starting_register: u16, data: [u16; N]) -> (r: Self)
        requires
            N <= MAX_WRITE_REGISTERS,
        ensures
            r.addr == addr,
            r.function == 0x10,
            r.starting_register == starting_register,
            r.n_registers == N,
            r.data_bytes == 2 * N,
            r.data@ == data@,
            r.crc == crc_of(r.body()),
            crc_ok(r.bytes()),
    {
        let mut message = WriteHoldings {
            addr,
            function: 0x10,
            starting_register,
            n_registers: N as u16,
            data_bytes: (N as u8) * 2,
            data,
            crc: 0,
        };
        message.crc = message.calculate_crc();
        proof {
            lemma_crc_ok_frame(message.body(), message.crc);
        }
        message
    }

    /// Length of the frame in bytes.
    pub fn frame_len() -> (r: usize)
        requires
            9 + 2 * N <= usize::MAX,
        ensures
            r == 9 + 2 * N,
    {
        9 + 2 * N
    }

    fn body_bytes(&self) -> (r: Vec<u8>)
        ensures
            r@ == self.body(),
    {
        let mut out: Vec<u8> = Vec::new();
        out.push(self.addr);
        out.push(self.function);
        push_be16(&mut out, self.starting_register);
        push_be16(&mut out, self.n_registers);
        out.push(self.data_bytes);
        push_regs(&mut out, &self.data);
        assert(out@ =~= self.body());
        out
    }

    /// The bytes of the frame, checksum last.
    pub fn to_bytes(&self) -> (r: Vec<u8>)
        ensures
            r@ == self.bytes(),
    {
        let mut out = self.body_bytes();
        push_le16(&mut out, self.crc);
        out
    }

    /// Reads a frame from its bytes, without any validation.
    pub fn from_bytes(b: &[u8]) -> (r: Self)
        requires
            b@.len() == 9 + 2 * N,
        ensures
            r.bytes() == b@,
    {
        let data: [u16; N] = read_regs(b, 7);
        let r = WriteHoldings {
            addr: b[0],
            function: b[1],
            starting_register: read_be16(b, 2),
            n_registers: read_be16(b, 4),
            data_bytes: b[6],
            data,
            crc: read_le16(b, 7 + 2 * N),
        };
        proof {
            let n = 7 + 2 * N;
            lemma_be16_round_trip(0, b@[2], b@[3]);
            lemma_be16_round_trip(0, b@[4], b@[5]);
            lemma_be16_round_trip(0, b@[n], b@[n + 1]);
            assert(be16(r.starting_register) =~= b@.subrange(2, 4));
            assert(be16(r.n_registers) =~= b@.subrange(4, 6));
            assert(le16(r.crc) =~= b@.subrange(n, n + 2));
            assert(r.bytes() =~= b@);
        }
        r
    }

    /// Calculate the CRC for this message
    pub fn calculate_crc(&self) -> (r: u16)
        ensures
            r == crc_of(self.body()),
    {
        let body = self.body_bytes();
        crc(body.as_slice())
    }

    /// Check if the CRC is valid
    pub fn validate_crc(&self) -> (r: Result<(), CrcError>)
        ensures
            r is Ok <==> crc_ok(self.bytes()),
            r is Ok <==> self.crc == crc_of(self.body()),
    {
        proof {
            lemma_crc_ok_frame(self.body(), self.crc);
        }
        if self.crc == self.calculate_crc() {
            Ok(())
        } else {
            Err(CrcError)
        }
    }

    /// Get the device address
    pub fn address(&self) -> (r: u8)
        ensures
            r == self.addr,
    {
        self.addr
    }

    /// Get the function code
    pub fn function(&self) -> (r: u8)
        ensures
            r == self.function,
    {
        self.function
    }
}

} // verus!
