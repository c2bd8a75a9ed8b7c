//! SignMsg: a signature over a message, told apart from a transaction by
//! the text that goes in front of it.

use vstd::prelude::*;
use crate::handlers::sign_data::{parse_sign_request, sign_request, SignRequest};
use crate::hash::{absorbed, blake2b_digest, hasher_finalize, hasher_new, hasher_update};
use crate::status::AppSW;
use crate::varuint::{varuint, varuint_encode};

verus! {

/// Length of the text that goes in front of a message.
pub const SIGN_MAGIC_LEN: u8 = 26;

/// The text that goes in front of a message: "Aeternity Signed Message:"
/// and a line feed.
pub open spec fn sign_magic() -> Seq<u8> {
    seq![
        0x41u8, 0x65, 0x74, 0x65, 0x72, 0x6e, 0x69, 0x74, 0x79, 0x20, 0x53, 0x69, 0x67, 0x6e,
        0x65, 0x64, 0x20, 0x4d, 0x65, 0x73, 0x73, 0x61, 0x67, 0x65, 0x3a, 0x0a,
    ]
}

/// What is hashed for a message: the length of the text in front, that
/// text, the length of the message as a compact integer, and the message.
pub open spec fn message_preimage(message: Seq<u8>) -> Seq<u8> {
    seq![SIGN_MAGIC_LEN] + sign_magic() + varuint(message.len()) + message
}

/// What is signed for a message: the digest of its preimage.
pub open spec fn message_digest(message: Seq<u8>) -> Seq<u8> {
    blake2b_digest(message_preimage(message))
}

/// Reads a SignMsg request: the account and the message to review and
/// sign.
pub fn handler_sign_message(data: &[u8]) -> (result: Result<(u32, &[u8]), AppSW>)
    ensures
        match result {
            Ok((account_number, payload)) => sign_request(data@, AppSW::MsgWrongLength) == Ok::<
                _,
                AppSW,
            >(SignRequest { account_number, payload: payload@ }),
            Err(e) => sign_request(data@, AppSW::MsgWrongLength) == Err::<SignRequest, _>(e),
        },
{
    parse_sign_request(data, AppSW::MsgWrongLength)
}

/// Builds what is hashed for `message`.
pub fn message_to_hash(message: &[u8]) -> (data_to_sign: Vec<u8>)
    ensures
        data_to_sign@ == message_preimage(message@),
{
    let magic: [u8; 26] = [
        0x41, 0x65, 0x74, 0x65, 0x72, 0x6e, 0x69, 0x74, 0x79, 0x20, 0x53, 0x69, 0x67, 0x6e, 0x65,
        0x64, 0x20, 0x4d, 0x65, 0x73, 0x73, 0x61, 0x67, 0x65, 0x3a, 0x0a,
    ];
    let length = varuint_encode(message.len());

    let mut data_to_sign: Vec<u8> = Vec::new();
    data_to_sign.push(SIGN_MAGIC_LEN);
    extend(&mut data_to_sign, magic.as_slice());
    extend(&mut data_to_sign, length.as_slice());
    extend(&mut data_to_sign, message);
    data_to_sign
}

/// Appends `more` to `bytes`.
fn extend(bytes: &mut Vec<u8>, more: &[u8])
    ensures
        final(bytes)@ == old(bytes)@ + more@,
{
    let mut i: usize = 0;
    while i < more.len()
        invariant
            i <= more@.len(),
            bytes@ == old(bytes)@ + more@.take(i as int),
        decreases more@.len() - i,
    {
        bytes.push(more[i]);
        i += 1;
    }
}

/// Computes what is signed for `message`.
pub fn sign_message(message: &[u8]) -> (hash: [u8; 32])
    ensures
        hash@ == message_digest(message@),
{
    let data_to_sign = message_to_hash(message);
    let mut blake2b = hasher_new();
    hasher_update(&mut blake2b, data_to_sign.as_slice());
    hasher_finalize(&blake2b)
}

} // verus!
