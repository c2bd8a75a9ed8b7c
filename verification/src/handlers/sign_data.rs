//! SignData: a signature over arbitrary bytes.

use vstd::prelude::*;
use vstd::slice::slice_subrange;
use crate::numeral::{be_value, read_u32_be};
use crate::status::AppSW;

verus! {

/// Length of what stands in front of the bytes to sign: account number and
/// length, four bytes each.
pub const SIGN_HEADER_LENGTH: usize = 8;

/// What a request to sign bytes asks for.
pub struct SignRequest {
    /// The account whose key signs.
    pub account_number: u32,
    /// The bytes to review and sign.
    pub payload: Seq<u8>,
}

/// What a request to sign bytes asks for: the account number in four
/// big-endian bytes, the length in four more, then the bytes, exactly as
/// many as the length says. A request too short for the two numbers fails
/// with `MsgWrongLength`, one with another length than it says with
/// `mismatch`.
pub open spec fn sign_request(data: Seq<u8>, mismatch: AppSW) -> Result<SignRequest, AppSW> {
    if data.len() < SIGN_HEADER_LENGTH {
        Err(AppSW::MsgWrongLength)
    } else if be_value(data.subrange(4, 8)) != data.len() - SIGN_HEADER_LENGTH {
        Err(mismatch)
    } else {
        Ok(
            SignRequest {
                account_number: be_value(data.subrange(0, 4)) as u32,
                payload: data.skip(SIGN_HEADER_LENGTH as int),
            },
        )
    }
}

/// Splits a request to sign bytes into the account number and the bytes.
pub fn parse_sign_request<'a>(data: &'a [u8], mismatch: AppSW) -> (result: Result<
    (u32, &'a [u8]),
    AppSW,
>)
    ensures
        match result {
            Ok((account_number, payload)) => sign_request(data@, mismatch) == Ok::<_, AppSW>(
                SignRequest { account_number, payload: payload@ },
            ),
            Err(e) => sign_request(data@, mismatch) == Err::<SignRequest, _>(e),
        },
{
    if data.len() < SIGN_HEADER_LENGTH {
        return Err(AppSW::MsgWrongLength);
    }
    let account_number: u32 = read_u32_be(data, 0);
    let data_length: u32 = read_u32_be(data, 4);
    let actual_data = slice_subrange(data, SIGN_HEADER_LENGTH, data.len());
    if data_length as u64 != actual_data.len() as u64 {
        return Err(mismatch);
    }
    Ok((account_number, actual_data))
}

/// Reads a SignData request: the account and the bytes to review and sign.
pub fn handler_sign_data(data: &[u8]) -> (result: Result<(u32, &[u8]), AppSW>)
    ensures
        match result {
            Ok((account_number, payload)) => sign_request(data@, AppSW::DataWrongLength) == Ok::<
                _,
                AppSW,
            >(SignRequest { account_number, payload: payload@ }),
            Err(e) => sign_request(data@, AppSW::DataWrongLength) == Err::<SignRequest, _>(e),
        },
{
    parse_sign_request(data, AppSW::DataWrongLength)
}

} // verus!
