//! The decisions of one request/response exchange. The transport stays with
//! the caller: it sends `to_bytes()` of the request, reads exactly
//! `frame_len()` bytes of the matching response type, and hands them here.
use vstd::prelude::*;

use crate::response::Response;
use crate::{request, response, Error, ValidationError};

verus! {

/// What a transaction returns once validation has given `o`.
pub open spec fn transaction_result<D, E>(o: Result<D, ValidationError>) -> Result<D, Error<E>> {
    match o {
        Ok(d) => Ok(d),
        Err(ValidationError::Crc(c)) => Err(Error::Crc(c)),
        Err(ValidationError::UnexpectedResponse) => Err(Error::UnexpectedResponse),
    }
}

/// Validates the reply read for a read holding registers request.
pub fn read_holdings_reply<const N: usize, E>(req: &request::ReadHoldings, reply: &[u8]) -> (r:
    Result<[u16; N], Error<E>>)
    requires
        reply@.len() == 5 + 2 * N,
    ensures
        exists|resp: response::ReadHoldings<N>| #[trigger] resp.bytes() == reply@,
        forall|resp: response::ReadHoldings<N>|
            resp.bytes() == reply@ ==> r == transaction_result::<[u16; N], E>(
                #[trigger] resp.outcome(req),
            ),
{
    let resp = response::ReadHoldings::<N>::from_bytes(reply);
    let ghost g = resp;
    let r: Result<[u16; N], Error<E>> = match resp.into_data(req) {
        Ok(d) => Ok(d),
        Err(e) => Err(Error::from(e)),
    };
    proof {
        assert forall|x: response::ReadHoldings<N>| x.bytes() == reply@ implies r == transaction_result::<[u16; N], E>(
            #[trigger] x.outcome(req),
        ) by {
            response::ReadHoldings::<N>::lemma_bytes_injective(x, g);
        }
    }
    r
}

/// Validates the reply read for a read input registers request.
pub fn read_inputs_reply<const N: usize, E>(req: &request::ReadInputs, reply: &[u8]) -> (r: Result<
    [u16; N],
    Error<E>,
>)
    requires
        reply@.len() == 5 + 2 * N,
    ensures
        exists|resp: response::ReadInputs<N>| #[trigger] resp.bytes() == reply@,
        forall|resp: response::ReadInputs<N>|
            resp.bytes() == reply@ ==> r == transaction_result::<[u16; N], E>(
                #[trigger] resp.outcome(req),
            ),
{
    let resp = response::ReadInputs::<N>::from_bytes(reply);
    let ghost g = resp;
    let r: Result<[u16; N], Error<E>> = match resp.into_data(req) {
        Ok(d) => Ok(d),
        Err(e) => Err(Error::from(e)),
    };
    proof {
        assert forall|x: response::ReadInputs<N>| x.bytes() == reply@ implies r == transaction_result::<[u16; N], E>(
            #[trigger] x.outcome(req),
        ) by {
            response::ReadInputs::<N>::lemma_bytes_injective(x, g);
        }
    }
    r
}

/// Validates the reply read for a write single holding register request.
pub fn write_holding_reply<E>(req: &request::WriteHolding, reply: &[u8]) -> (r: Result<(), Error<E>>)
    requires
        reply@.len() == 8,
    ensures
        exists|resp: response::WriteHolding| #[trigger] resp.bytes() == reply@,
        forall|resp: response::WriteHolding|
            resp.bytes() == reply@ ==> r == transaction_result::<(), E>(
                #[trigger] resp.outcome(req),
            ),
{
    let resp = response::WriteHolding::from_bytes(reply);
    let ghost g = resp;
    let r: Result<(), Error<E>> = match resp.into_data(req) {
        Ok(d) => Ok(d),
        Err(e) => Err(Error::from(e)),
    };
    proof {
        assert forall|x: response::WriteHolding| x.bytes() == reply@ implies r == transaction_result::<(), E>(
            #[trigger] x.outcome(req),
        ) by {
            response::WriteHolding::lemma_bytes_injective(x, g);
        }
    }
    r
}

/// Validates the reply read for a write multiple holding registers request.
pub fn write_holdings_reply<const N: usize, E>(req: &request::WriteHoldings<N>, reply: &[u8]) -> (r:
    Result<(), Error<E>>)
    requires
        reply@.len() == 8,
    ensures
        exists|resp: response::WriteHoldings| #[trigger] resp.bytes() == reply@,
        forall|resp: response::WriteHoldings|
            resp.bytes() == reply@ ==> r == transaction_result::<(), E>(
                #[trigger] resp.outcome(req),
            ),
{
    let resp = response::WriteHoldings::from_bytes(reply);
    let ghost g = resp;
    let r: Result<(), Error<E>> = match resp.into_data(req) {
        Ok(d) => Ok(d),
        Err(e) => Err(Error::from(e)),
    };
    proof {
        assert forall|x: response::WriteHoldings| x.bytes() == reply@ implies r == transaction_result::<(), E>(
            #[trigger] x.outcome(req),
        ) by {
            response::WriteHoldings::lemma_bytes_injective(x, g);
        }
    }
    r
}

} // verus!
