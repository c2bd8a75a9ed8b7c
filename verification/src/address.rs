//! Addresses as text: a tag, an underscore, and the Base58 text of the
//! payload followed by its checksum.

use vstd::prelude::*;
use vstd::slice::slice_to_vec;
use vstd::string::{StrSliceExecFns, StringExecFns};
use crate::base58::{
    base58_bytes, base58_decode, base58_encode, base58_text, lemma_base58_injective,
    lemma_base58_roundtrip, lemma_base58_text_is_base58,
};
use crate::hash::{sha256, sha256_digest};

verus! {

/// Length of an address payload, in bytes.
pub const PAYLOAD_LENGTH: usize = 32;

/// Length of a checksum, in bytes.
pub const CHECK_LENGTH: usize = 4;

/// What an encoded payload stands for.
#[derive(Clone, Copy, Debug, PartialEq, Eq, Structural)]
pub enum AeEncoding {
    AccountAddress,
    Name,
    Commitment,
    OracleAddress,
    ContractAddress,
    Channel,
}

/// Why a text is no address.
#[derive(Clone, Copy, Debug, PartialEq, Eq, Structural)]
pub enum AddressError {
    /// The text does not start with a known tag and an underscore.
    InvalidPrefix,
    /// What follows the tag is not the Base58 text of 32 bytes and their
    /// checksum.
    InvalidChecksum,
}

impl AeEncoding {
    /// The two characters that announce this kind of payload.
    pub open spec fn prefix(self) -> Seq<char> {
        match self {
            AeEncoding::AccountAddress => seq!['a', 'k'],
            AeEncoding::Name => seq!['n', 'm'],
            AeEncoding::Commitment => seq!['c', 'm'],
            AeEncoding::OracleAddress => seq!['o', 'k'],
            AeEncoding::ContractAddress => seq!['c', 't'],
            AeEncoding::Channel => seq!['c', 'h'],
        }
    }

    /// The tag as text.
    pub fn to_string(&self) -> (tag: String)
        ensures
            tag@ == self.prefix(),
    {
        proof {
            reveal_strlit("ak");
            reveal_strlit("nm");
            reveal_strlit("cm");
            reveal_strlit("ok");
            reveal_strlit("ct");
            reveal_strlit("ch");
        }
        let tag = match self {
            AeEncoding::AccountAddress => String::from_str("ak"),
            AeEncoding::Name => String::from_str("nm"),
            AeEncoding::Commitment => String::from_str("cm"),
            AeEncoding::OracleAddress => String::from_str("ok"),
            AeEncoding::ContractAddress => String::from_str("ct"),
            AeEncoding::Channel => String::from_str("ch"),
        };
        tag
    }

    /// The kind of payload that two characters announce.
    pub fn from_prefix(first: char, second: char) -> (tag: Option<AeEncoding>)
        ensures
            tag == tag_of(seq![first, second]),
    {
        let tag = if first == 'a' && second == 'k' {
            Some(AeEncoding::AccountAddress)
        } else if first == 'n' && second == 'm' {
            Some(AeEncoding::Name)
        } else if first == 'c' && second == 'm' {
            Some(AeEncoding::Commitment)
        } else if first == 'o' && second == 'k' {
            Some(AeEncoding::OracleAddress)
        } else if first == 'c' && second == 't' {
            Some(AeEncoding::ContractAddress)
        } else if first == 'c' && second == 'h' {
            Some(AeEncoding::Channel)
        } else {
            None
        };
        proof {
            let text = seq![first, second];
            match tag {
                Some(found) => {
                    assert(found.prefix() =~= text);
                },
                None => {
                    assert forall|other: AeEncoding| other.prefix() != text by {}
                },
            }
            lemma_prefix_injective();
        }
        tag
    }
}

/// The tag whose prefix is `text`, if there is one.
pub open spec fn tag_of(text: Seq<char>) -> Option<AeEncoding> {
    if exists|tag: AeEncoding| tag.prefix() == text {
        Some(choose|tag: AeEncoding| tag.prefix() == text)
    } else {
        None
    }
}

/// The checksum of `payload`: the first four bytes of the SHA-256 digest of
/// its SHA-256 digest.
pub open spec fn checksum(payload: Seq<u8>) -> Seq<u8> {
    Seq::new(CHECK_LENGTH as nat, |i: int| sha256_digest(sha256_digest(payload))[i])
}

/// The text of `payload` followed by `check`, under `tag`.
pub open spec fn checked_text(payload: Seq<u8>, check: Seq<u8>, tag: AeEncoding) -> Seq<char> {
    tag.prefix() + seq!['_'] + base58_text(payload + check)
}

/// The address text of `payload` under `tag`.
pub open spec fn ae_string(payload: Seq<u8>, tag: AeEncoding) -> Seq<char> {
    checked_text(payload, checksum(payload), tag)
}

/// What a text holds that has the form of an address: payload, check bytes
/// and tag, whether or not the check bytes are the checksum of the
/// payload.
pub open spec fn split_address(text: Seq<char>) -> Result<
    (Seq<u8>, Seq<u8>, AeEncoding),
    AddressError,
> {
    if text.len() < 3 || text[2] != '_' {
        Err(AddressError::InvalidPrefix)
    } else {
        match tag_of(text.take(2)) {
            None => Err(AddressError::InvalidPrefix),
            Some(tag) => match base58_bytes(text.skip(3)) {
                None => Err(AddressError::InvalidChecksum),
                Some(bytes) => if bytes.len() == PAYLOAD_LENGTH + CHECK_LENGTH {
                    Ok((bytes.take(PAYLOAD_LENGTH as int), bytes.skip(PAYLOAD_LENGTH as int), tag))
                } else {
                    Err(AddressError::InvalidChecksum)
                },
            },
        }
    }
}

/// What an address text decodes to: the payload and its tag, or the reason
/// why the text is no address.
pub open spec fn decoded_address(text: Seq<char>) -> Result<(Seq<u8>, AeEncoding), AddressError> {
    match split_address(text) {
        Ok((payload, check, tag)) => if check == checksum(payload) {
            Ok((payload, tag))
        } else {
            Err(AddressError::InvalidChecksum)
        },
        Err(e) => Err(e),
    }
}

/// The first four bytes of a digest.
pub fn check_from_digest(digest: &[u8; 32]) -> (check: [u8; 4])
    ensures
        check@ == digest@.take(CHECK_LENGTH as int),
{
    let check: [u8; 4] = [digest[0], digest[1], digest[2], digest[3]];
    check
}

/// Computes the checksum of `input`.
pub fn make_check(input: &[u8]) -> (check: [u8; 4])
    ensures
        check@ == checksum(input@),
{
    let first = sha256(input);
    let digest = sha256(first.as_slice());
    let check = check_from_digest(&digest);
    check
}

/// Encodes `payload` followed by `check` as text under `prefix`.
pub fn encode_with_check(payload: &[u8], check: &[u8; 4], prefix: AeEncoding) -> (output: String)
    ensures
        output@ == checked_text(payload@, check@, prefix),
{
    let mut pk: Vec<u8> = slice_to_vec(payload);
    pk.push(check[0]);
    pk.push(check[1]);
    pk.push(check[2]);
    pk.push(check[3]);
    assert(pk@ =~= payload@ + check@);

    let mut output = prefix.to_string();
    proof {
        reveal_strlit("_");
    }
    output.append("_");
    let encoded = base58_encode(pk.as_slice());
    output.append(encoded.as_str());
    output
}

/// Encodes `pubkey` as address text under `prefix`.
pub fn to_ae_string(pubkey: &[u8], prefix: AeEncoding) -> (output: String)
    ensures
        output@ == ae_string(pubkey@, prefix),
{
    let check = make_check(pubkey);
    encode_with_check(pubkey, &check, prefix)
}

/// Takes a text of the form of an address apart, without looking at
/// whether the check bytes fit the payload.
///
/// Fails with `InvalidPrefix` unless the text starts with a known tag and
/// an underscore, and with `InvalidChecksum` unless the rest is the Base58
/// text of 36 bytes.
pub fn decode_with_check(text: &str) -> (result: Result<
    ([u8; 32], [u8; 4], AeEncoding),
    AddressError,
>)
    ensures
        match result {
            Ok((payload, check, tag)) => split_address(text@) == Ok::<_, AddressError>(
                (payload@, check@, tag),
            ),
            Err(e) => split_address(text@) == Err::<(Seq<u8>, Seq<u8>, AeEncoding), _>(e),
        },
{
    let len: usize = text.unicode_len();
    if len < 3 {
        return Err(AddressError::InvalidPrefix);
    }
    if text.get_char(2) != '_' {
        return Err(AddressError::InvalidPrefix);
    }
    let first: char = text.get_char(0);
    let second: char = text.get_char(1);
    assert(text@.take(2) =~= seq![first, second]);
    let tag = match AeEncoding::from_prefix(first, second) {
        Some(tag) => tag,
        None => {
            return Err(AddressError::InvalidPrefix);
        },
    };
    let rest: &str = text.substring_char(3, len);
    let bytes: Vec<u8> = match base58_decode(rest) {
        Some(bytes) => bytes,
        None => {
            proof {
                assert forall|other: Seq<u8>| base58_text(other) != rest@ by {
                    lemma_base58_text_is_base58(other);
                }
            }
            return Err(AddressError::InvalidChecksum);
        },
    };
    proof {
        lemma_base58_roundtrip(bytes@);
    }
    if bytes.len() != PAYLOAD_LENGTH + CHECK_LENGTH {
        return Err(AddressError::InvalidChecksum);
    }
    let mut payload: [u8; 32] = [0u8; 32];
    let mut i: usize = 0;
    while i < PAYLOAD_LENGTH
        invariant
            i <= PAYLOAD_LENGTH,
            bytes@.len() == PAYLOAD_LENGTH + CHECK_LENGTH,
            forall|j: int| 0 <= j < i ==> payload@[j] == bytes@[j],
        decreases PAYLOAD_LENGTH - i,
    {
        payload[i] = bytes[i];
        i += 1;
    }
    let check: [u8; 4] = [bytes[32], bytes[33], bytes[34], bytes[35]];
    assert(payload@ =~= bytes@.take(PAYLOAD_LENGTH as int));
    assert(check@ =~= bytes@.skip(PAYLOAD_LENGTH as int));
    Ok((payload, check, tag))
}

/// Decodes address text into its payload and tag.
///
/// Fails with `InvalidPrefix` unless the text starts with a known tag and
/// an underscore, and with `InvalidChecksum` unless the rest is the Base58
/// text of 32 bytes followed by their checksum.
pub fn from_ae_string(text: &str) -> (result: Result<([u8; 32], AeEncoding), AddressError>)
    ensures
        match result {
            Ok((payload, tag)) => decoded_address(text@) == Ok::<_, AddressError>((payload@, tag)),
            Err(e) => decoded_address(text@) == Err::<(Seq<u8>, AeEncoding), _>(e),
        },
{
    let (payload, check, tag) = match decode_with_check(text) {
        Ok(parts) => parts,
        Err(e) => {
            return Err(e);
        },
    };
    let expected = make_check(payload.as_slice());
    if expected[0] != check[0] || expected[1] != check[1] || expected[2] != check[2]
        || expected[3] != check[3] {
        return Err(AddressError::InvalidChecksum);
    }
    assert(check@ =~= expected@);
    Ok((payload, tag))
}

/// Different tags have different prefixes.
pub proof fn lemma_prefix_injective()
    ensures
        forall|a: AeEncoding, b: AeEncoding| a.prefix() == b.prefix() ==> a == b,
        forall|tag: AeEncoding| #[trigger] tag_of(tag.prefix()) == Some(tag),
        forall|tag: AeEncoding| #[trigger] tag.prefix().len() == 2,
{
    assert forall|a: AeEncoding, b: AeEncoding| a.prefix() == b.prefix() implies a == b by {}
}

/// Decoding what was encoded gives the payload and the tag back.
pub proof fn lemma_address_roundtrip(payload: Seq<u8>, tag: AeEncoding)
    requires
        payload.len() == PAYLOAD_LENGTH,
    ensures
        decoded_address(ae_string(payload, tag)) == Ok::<_, AddressError>((payload, tag)),
{
    let text = ae_string(payload, tag);
    let bytes = payload + checksum(payload);
    lemma_prefix_injective();
    assert(text.take(2) =~= tag.prefix());
    assert(text.skip(3) =~= base58_text(bytes));
    lemma_base58_roundtrip(bytes);
    assert(bytes.take(PAYLOAD_LENGTH as int) =~= payload);
    assert(bytes.skip(PAYLOAD_LENGTH as int) =~= checksum(payload));
}

/// Only the encoding of a payload decodes to it: a text that decodes is the
/// address text of what it decodes to, so no other text, however close,
/// is accepted in its place.
pub proof fn lemma_decoded_is_encoding(text: Seq<char>)
    requires
        decoded_address(text) is Ok,
    ensures
        decoded_address(text)->Ok_0.0.len() == PAYLOAD_LENGTH,
        text == ae_string(decoded_address(text)->Ok_0.0, decoded_address(text)->Ok_0.1),
{
    let bytes = base58_bytes(text.skip(3))->0;
    let payload = bytes.take(PAYLOAD_LENGTH as int);
    assert(bytes =~= payload + checksum(payload));
}

/// A payload followed by anything but its checksum is rejected with
/// `InvalidChecksum`.
pub proof fn lemma_wrong_checksum_rejected(payload: Seq<u8>, check: Seq<u8>, tag: AeEncoding)
    requires
        payload.len() == PAYLOAD_LENGTH,
        check != checksum(payload),
    ensures
        decoded_address(tag.prefix() + seq!['_'] + base58_text(payload + check)) == Err::<
            (Seq<u8>, AeEncoding),
            _,
        >(AddressError::InvalidChecksum),
{
    let bytes = payload + check;
    let text = tag.prefix() + seq!['_'] + base58_text(bytes);
    lemma_prefix_injective();
    assert(text.take(2) =~= tag.prefix());
    assert(text.skip(3) =~= base58_text(bytes));
    lemma_base58_roundtrip(bytes);
    assert(bytes.take(PAYLOAD_LENGTH as int) =~= payload);
    assert(bytes.skip(PAYLOAD_LENGTH as int) =~= check);
}

/// A text that has the tag of an address but another body is never taken
/// for that address: it is rejected with `InvalidChecksum`, unless the
/// body is itself the encoding of another payload with the checksum of
/// that other payload.
pub proof fn lemma_changed_body(payload: Seq<u8>, tag: AeEncoding, body: Seq<char>)
    requires
        payload.len() == PAYLOAD_LENGTH,
        body != base58_text(payload + checksum(payload)),
    ensures
        ({
            let decoded = decoded_address(tag.prefix() + seq!['_'] + body);
            ||| decoded == Err::<(Seq<u8>, AeEncoding), _>(AddressError::InvalidChecksum)
            ||| decoded matches Ok((other, same_tag)) && other != payload && same_tag == tag
                && body == base58_text(other + checksum(other))
        }),
{
    let text = tag.prefix() + seq!['_'] + body;
    lemma_prefix_injective();
    assert(text.take(2) =~= tag.prefix());
    assert(text.skip(3) =~= body);
    if decoded_address(text) is Ok {
        lemma_decoded_is_encoding(text);
        let other = decoded_address(text)->Ok_0.0;
        assert(text.skip(3) =~= base58_text(other + checksum(other)));
    }
}

/// Different payloads, or the same payload under different tags, have
/// different address texts: what the operator reads names one payload and
/// one tag only.
pub proof fn lemma_ae_string_injective(
    payload: Seq<u8>,
    tag: AeEncoding,
    other_payload: Seq<u8>,
    other_tag: AeEncoding,
)
    requires
        ae_string(payload, tag) == ae_string(other_payload, other_tag),
    ensures
        payload == other_payload,
        tag == other_tag,
{
    let text = ae_string(payload, tag);
    let bytes = payload + checksum(payload);
    let other_bytes = other_payload + checksum(other_payload);
    lemma_prefix_injective();
    assert(text.take(2) =~= other_tag.prefix());
    assert(text.skip(3) =~= base58_text(bytes));
    assert(text.skip(3) =~= base58_text(other_bytes));
    lemma_base58_injective(bytes, other_bytes);
    assert(other_payload =~= other_bytes.take(other_bytes.len() - CHECK_LENGTH));
}

} // verus!
