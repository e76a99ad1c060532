use async_modbus::client::{
    read_holdings_reply, read_inputs_reply, write_holding_reply, write_holdings_reply,
};
use async_modbus::{request, response, Error};

/// A device that answers well-formed requests from its register banks.
struct Device {
    holdings: [u16; 16],
    inputs: [u16; 16],
}

impl Device {
    fn new() -> Self {
        Device {
            holdings: std::array::from_fn(|i| i as u16),
            inputs: std::array::from_fn(|i| 0xa000 + i as u16),
        }
    }

    fn answer(&mut self, frame: &[u8]) -> Vec<u8> {
        assert_eq!(async_modbus::crc(&frame[..frame.len() - 2]).to_le_bytes(), frame[frame.len() - 2..]);
        let addr = frame[0];
        let reg = u16::from_be_bytes([frame[2], frame[3]]) as usize;
        let second = u16::from_be_bytes([frame[4], frame[5]]);
        let mut out = vec![addr, frame[1]];
        match frame[1] {
            0x03 | 0x04 => {
                let bank = if frame[1] == 0x03 { &self.holdings } else { &self.inputs };
                out.push((2 * second) as u8);
                for v in &bank[reg..reg + second as usize] {
                    out.extend_from_slice(&v.to_be_bytes());
                }
            }
            0x06 => {
                self.holdings[reg] = second;
                out.extend_from_slice(&frame[2..6]);
            }
            0x10 => {
                for i in 0..second as usize {
                    self.holdings[reg + i] = u16::from_be_bytes([frame[7 + 2 * i], frame[8 + 2 * i]]);
                }
                out.extend_from_slice(&frame[2..6]);
            }
            _ => panic!("unsupported function"),
        }
        let c = async_modbus::crc(&out);
        out.extend_from_slice(&c.to_le_bytes());
        out
    }
}

fn read_holdings<const N: usize>(dev: &mut Device, addr: u8, start: u16) -> Result<[u16; N], Error<()>> {
    let req = request::ReadHoldings::new(addr, start, N as u16);
    let reply = dev.answer(&req.to_bytes());
    assert_eq!(reply.len(), response::ReadHoldings::<N>::frame_len());
    read_holdings_reply::<N, ()>(&req, &reply)
}

fn read_inputs<const N: usize>(dev: &mut Device, addr: u8, start: u16) -> Result<[u16; N], Error<()>> {
    let req = request::ReadInputs::new(addr, start, N as u16);
    let reply = dev.answer(&req.to_bytes());
    assert_eq!(reply.len(), response::ReadInputs::<N>::frame_len());
    read_inputs_reply::<N, ()>(&req, &reply)
}

fn write_holding(dev: &mut Device, addr: u8, register: u16, value: u16) -> Result<(), Error<()>> {
    let req = request::WriteHolding::new(addr, register, value);
    let reply = dev.answer(&req.to_bytes());
    write_holding_reply::<()>(&req, &reply)
}

fn write_holdings<const N: usize>(dev: &mut Device, addr: u8, start: u16, data: [u16; N]) -> Result<(), Error<()>> {
    let req = request::WriteHoldings::new(addr, start, data);
    let reply = dev.answer(&req.to_bytes());
    write_holdings_reply::<N, ()>(&req, &reply)
}

#[test]
fn test_server() {
    let mut s = Device::new();

    assert_eq!(read_holdings(&mut s, 1, 4).unwrap(), [4, 5, 6, 7]);
    write_holding(&mut s, 1, 4, 104).unwrap();
    write_holdings(&mut s, 1, 6, [59]).unwrap();
    assert_eq!(read_holdings(&mut s, 1, 2).unwrap(), [2, 3, 104, 5, 59, 7, 8]);

    assert_eq!(read_inputs(&mut s, 1, 0).unwrap(), [40_960, 40_961]);
}

#[test]
fn corrupted_reply_gives_crc_error() {
    let req = request::ReadHoldings::new(1, 0, 1);
    let mut reply = Device::new().answer(&req.to_bytes());
    reply[3] ^= 0x10;
    assert!(matches!(read_holdings_reply::<1, ()>(&req, &reply), Err(Error::Crc(_))));
}

#[test]
fn reply_from_other_device_is_unexpected() {
    let req = request::WriteHolding::new(1, 4, 104);
    let reply = Device::new().answer(&request::WriteHolding::new(2, 4, 104).to_bytes());
    assert!(matches!(write_holding_reply::<()>(&req, &reply), Err(Error::UnexpectedResponse)));
}
