//! GetAddress: the address of an account, shown to the operator on request.

use vstd::prelude::*;
use vstd::string::StringSliceAdditionalSpecFns;
use vstd::utf8::{encode_utf8, is_ascii_chars, is_ascii_chars_encode_utf8};
use crate::address::{ae_string, checksum, to_ae_string, AeEncoding};
use crate::base58::{base58_text, lemma_base58_text_len};
use crate::numeral::{be_value, read_u32_be};
use crate::status::AppSW;

verus! {

/// Length of a public key as the key store hands it out: a marker byte,
/// then two coordinates of 32 bytes.
pub const PUBLIC_KEY_LENGTH: usize = 65;

/// The account that a GetAddress request names: its payload is exactly the
/// account number in four big-endian bytes.
pub open spec fn account_number_of(data: Seq<u8>) -> Result<u32, AppSW> {
    if data.len() == 4 {
        Ok(be_value(data) as u32)
    } else {
        Err(AppSW::WrongApduLength)
    }
}

/// The 32 bytes that stand for a public key in an address.
///
/// The key store hands out the second coordinate in the last 32 bytes, most
/// significant byte first. An address holds it least significant byte
/// first, with the lowest bit of the first coordinate (the last bit of byte
/// 32) copied into the highest bit of the last byte.
pub open spec fn compressed_key(pubkey: Seq<u8>) -> Seq<u8> {
    Seq::new(
        32,
        |i: int|
            if i == 31 && pubkey[32] & 1 != 0 {
                pubkey[33] | 0x80
            } else {
                pubkey[64 - i]
            },
    )
}

/// The address of the account with public key `pubkey`.
pub open spec fn account_address(pubkey: Seq<u8>) -> Seq<char> {
    ae_string(compressed_key(pubkey), AeEncoding::AccountAddress)
}

/// The answer that carries an address: its length in one byte, then its
/// bytes. An address of more than 255 bytes has no answer.
pub open spec fn address_reply_of(address: Seq<u8>) -> Result<Seq<u8>, AppSW> {
    if address.len() <= 255 {
        Ok(seq![address.len() as u8] + address)
    } else {
        Err(AppSW::AddrDisplayFail)
    }
}

/// Reads the account number of a GetAddress request.
pub fn handler_get_address(data: &[u8]) -> (result: Result<u32, AppSW>)
    ensures
        result == account_number_of(data@),
{
    if data.len() != 4 {
        return Err(AppSW::WrongApduLength);
    }
    assert(data@.subrange(0, 4) =~= data@);
    Ok(read_u32_be(data, 0))
}

/// Turns the public key of an account into its address.
pub fn public_key_address(pubkey: &[u8; 65]) -> (address: String)
    ensures
        address@ == account_address(pubkey@),
{
    let mut pk1: Vec<u8> = Vec::new();
    let mut i: usize = 0;
    while i < 32
        invariant
            i <= 32,
            pk1@.len() == i,
            forall|j: int| 0 <= j < i ==> pk1@[j] == pubkey@[64 - j],
        decreases 32 - i,
    {
        pk1.push(pubkey[64 - i]);
        i += 1;
    }
    // Copy the least significant bit of the first coordinate.
    if (pubkey[32] & 1) != 0 {
        let last: u8 = pk1[31] | 0x80;
        pk1.set(31, last);
    }
    assert(pk1@ =~= compressed_key(pubkey@));
    to_ae_string(pk1.as_slice(), AeEncoding::AccountAddress)
}

/// Builds the answer that carries `address`.
pub fn address_reply(address: &str) -> (result: Result<Vec<u8>, AppSW>)
    ensures
        match result {
            Ok(reply) => address_reply_of(address.spec_bytes()) == Ok::<_, AppSW>(reply@),
            Err(e) => address_reply_of(address.spec_bytes()) == Err::<Seq<u8>, _>(e),
        },
{
    let bytes = address.as_bytes();
    if bytes.len() > 255 {
        return Err(AppSW::AddrDisplayFail);
    }
    let mut reply: Vec<u8> = Vec::new();
    reply.push(bytes.len() as u8);
    let mut i: usize = 0;
    while i < bytes.len()
        invariant
            i <= bytes@.len() <= 255,
            reply@ == seq![bytes@.len() as u8] + bytes@.take(i as int),
        decreases bytes@.len() - i,
    {
        reply.push(bytes[i]);
        i += 1;
    }
    assert(bytes@.take(bytes@.len() as int) =~= bytes@);
    Ok(reply)
}

/// The address of an account always has an answer: it is ASCII text of
/// at most 111 characters, so its length fits the byte in front of it.
pub proof fn lemma_account_address_fits(pubkey: Seq<u8>)
    ensures
        is_ascii_chars(account_address(pubkey)),
        account_address(pubkey).len() <= 111,
        encode_utf8(account_address(pubkey)).len() == account_address(pubkey).len(),
        address_reply_of(encode_utf8(account_address(pubkey))) is Ok,
{
    let payload = compressed_key(pubkey);
    let bytes = payload + checksum(payload);
    let address = account_address(pubkey);
    lemma_base58_text_len(bytes);
    assert forall|i: int| 0 <= i < address.len() implies '\0' <= #[trigger] address[i]
        <= '\u{7f}' by {}
    is_ascii_chars_encode_utf8(address);
}

} // verus!
