//! The transaction context: what survives from one chunk of a transaction
//! to the next.

use vstd::prelude::*;
use vstd::slice::{slice_subrange, slice_to_vec};
use vstd::utf8::{decode_utf8, valid_utf8};
use crate::address::{ae_string, to_ae_string, AeEncoding};
use crate::amount::{Amount, AMOUNT_MAX_LENGTH};
use crate::hash::{absorbed, blake2b_digest, hasher_finalize, hasher_new, hasher_update, unkeyed_256};
use crate::numeral::{be_value, read_u32_be};
use crate::rlp::{item_views, rlp_decode, RlpItem, RlpValue};
use crate::status::AppSW;
use crate::text::string_from_utf8;

verus! {

/// The tag of the one kind of transaction that is signed.
pub const SPEND_TRANSACTION_PREFIX: u8 = 0x0c;

/// The longest network identifier, in bytes.
pub const NETWORK_ID_MAX_LENGTH: usize = 32;

/// Length of the fixed part of a header: account number, transaction
/// length, length of the network identifier.
pub const HEADER_FIXED_LENGTH: usize = 9;

/// The fields of a transaction that the operator reviews.
#[derive(Debug)]
pub struct TxFirstChunk {
    pub recipient: String,
    pub amount: Amount,
    pub fee: Amount,
    pub payload: String,
}

/// The reviewed fields, as mathematical values.
pub struct TxSummary {
    pub recipient: Seq<char>,
    pub amount: nat,
    pub fee: nat,
    pub payload: Seq<char>,
}

impl View for TxFirstChunk {
    type V = TxSummary;

    open spec fn view(&self) -> TxSummary {
        TxSummary {
            recipient: self.recipient@,
            amount: self.amount@,
            fee: self.fee@,
            payload: self.payload@,
        }
    }
}

impl TxSummary {
    /// The summary before anything was parsed.
    pub open spec fn empty() -> TxSummary {
        TxSummary { recipient: Seq::empty(), amount: 0, fee: 0, payload: Seq::empty() }
    }
}

impl Default for TxFirstChunk {
    fn default() -> (tx: TxFirstChunk)
        ensures
            tx@ == TxSummary::empty(),
    {
        TxFirstChunk {
            recipient: String::new(),
            amount: Amount::zero(),
            fee: Amount::zero(),
            payload: String::new(),
        }
    }
}

/// The header in front of the first chunk of a transaction.
pub struct TxHeader {
    pub account_number: u32,
    pub tx_len: u32,
    pub network_id: Seq<u8>,
}

impl TxHeader {
    /// How many bytes the header takes.
    pub open spec fn len(self) -> nat {
        HEADER_FIXED_LENGTH as nat + self.network_id.len()
    }
}

/// The header that `data` starts with: four bytes of account number, four
/// of transaction length, one of length and then the network identifier.
/// `None` where `data` ends early or the identifier is longer than 32
/// bytes.
pub open spec fn tx_header(data: Seq<u8>) -> Option<TxHeader> {
    if data.len() < HEADER_FIXED_LENGTH {
        None
    } else if data[8] > NETWORK_ID_MAX_LENGTH || data.len() < HEADER_FIXED_LENGTH + data[8] {
        None
    } else {
        Some(
            TxHeader {
                account_number: be_value(data.subrange(0, 4)) as u32,
                tx_len: be_value(data.subrange(4, 8)) as u32,
                network_id: data.subrange(HEADER_FIXED_LENGTH as int, HEADER_FIXED_LENGTH + data[8]),
            },
        )
    }
}

/// The address text of a tagged payload: one byte that tells an account
/// (1) from a name (2), then 32 bytes.
pub open spec fn address_text(address: Seq<u8>) -> Option<Seq<char>> {
    if address.len() != 33 {
        None
    } else if address[0] == 1 {
        Some(ae_string(address.skip(1), AeEncoding::AccountAddress))
    } else if address[0] == 2 {
        Some(ae_string(address.skip(1), AeEncoding::Name))
    } else {
        None
    }
}

/// The bytes of field `i`, where there is such a field and it is a byte
/// string.
pub open spec fn field_bytes(fields: Seq<RlpValue>, i: int) -> Option<Seq<u8>> {
    if 0 <= i < fields.len() {
        match fields[i] {
            RlpValue::Bytes(bytes) => Some(bytes),
            RlpValue::List(_) => None,
        }
    } else {
        None
    }
}

/// What the operator reviews of the transaction encoded in `data`.
///
/// The transaction is a list. Field 0 is its one-byte tag; any tag but that
/// of a spend is denied. Fields 2 and 3 are sender and recipient, 4 and 5
/// amount and fee in at most 32 bytes, 8 the payload in UTF-8. Anything
/// else is a parsing failure. Bytes behind the list are not looked at.
pub open spec fn spend_summary(data: Seq<u8>) -> Result<TxSummary, AppSW> {
    match rlp_decode(data) {
        Some(RlpValue::List(fields)) => match field_bytes(fields, 0) {
            Some(tag) => if tag.len() != 1 {
                Err(AppSW::TxParsingFail)
            } else if tag[0] != SPEND_TRANSACTION_PREFIX {
                Err(AppSW::Deny)
            } else {
                match (
                    field_bytes(fields, 2),
                    field_bytes(fields, 3),
                    field_bytes(fields, 4),
                    field_bytes(fields, 5),
                    field_bytes(fields, 8),
                ) {
                    (Some(sender), Some(recipient), Some(amount), Some(fee), Some(payload)) => {
                        if address_text(sender) is Some && address_text(recipient) is Some
                            && amount.len() <= AMOUNT_MAX_LENGTH && fee.len() <= AMOUNT_MAX_LENGTH
                            && valid_utf8(payload) {
                            Ok(
                                TxSummary {
                                    recipient: address_text(recipient)->0,
                                    amount: be_value(amount),
                                    fee: be_value(fee),
                                    payload: decode_utf8(payload),
                                },
                            )
                        } else {
                            Err(AppSW::TxParsingFail)
                        }
                    },
                    _ => Err(AppSW::TxParsingFail),
                }
            },
            None => Err(AppSW::TxParsingFail),
        },
        _ => Err(AppSW::TxParsingFail),
    }
}

/// Turns a tagged payload into address text.
pub fn parse_address(address: &[u8]) -> (result: Result<String, AppSW>)
    ensures
        match result {
            Ok(text) => address_text(address@) == Some(text@),
            Err(e) => e == AppSW::TxParsingFail && address_text(address@) is None,
        },
{
    if address.len() != 33 {
        return Err(AppSW::TxParsingFail);
    }
    let prefix = if address[0] == 1 {
        AeEncoding::AccountAddress
    } else if address[0] == 2 {
        AeEncoding::Name
    } else {
        return Err(AppSW::TxParsingFail);
    };
    let address_bytes = slice_subrange(address, 1, 33);
    Ok(to_ae_string(address_bytes, prefix))
}

/// The bytes of field `i` of a list, or a parsing failure.
fn field<'a>(list: &'a Vec<RlpItem>, i: usize) -> (result: Result<&'a Vec<u8>, AppSW>)
    ensures
        match result {
            Ok(bytes) => field_bytes(item_views(list@), i as int) == Some(bytes@),
            Err(e) => e == AppSW::TxParsingFail && field_bytes(item_views(list@), i as int) is None,
        },
{
    if i >= list.len() {
        return Err(AppSW::TxParsingFail);
    }
    match list[i].byte_array() {
        Ok(bytes) => Ok(bytes),
        Err(_) => Err(AppSW::TxParsingFail),
    }
}

/// Decodes the transaction in `data` into what the operator reviews.
pub fn parse_spend(data: &[u8]) -> (result: Result<TxFirstChunk, AppSW>)
    ensures
        match result {
            Ok(tx) => spend_summary(data@) == Ok::<_, AppSW>(tx@),
            Err(e) => spend_summary(data@) == Err::<TxSummary, _>(e),
        },
{
    let rlp_item = match RlpItem::try_deserialize(data) {
        Ok((item, _remain)) => item,
        Err(_) => {
            return Err(AppSW::TxParsingFail);
        },
    };
    let list = match rlp_item.list() {
        Ok(list) => list,
        Err(_) => {
            return Err(AppSW::TxParsingFail);
        },
    };
    if list.len() == 0 {
        return Err(AppSW::TxParsingFail);
    }
    let tag: u8 = match list[0].to_u8() {
        Ok(tag) => tag,
        Err(_) => {
            return Err(AppSW::TxParsingFail);
        },
    };
    if tag != SPEND_TRANSACTION_PREFIX {
        // Other kinds of transaction are not signed.
        return Err(AppSW::Deny);
    }
    let sender = match field(list, 2) {
        Ok(bytes) => bytes,
        Err(e) => {
            return Err(e);
        },
    };
    let recipient = match field(list, 3) {
        Ok(bytes) => bytes,
        Err(e) => {
            return Err(e);
        },
    };
    let amount = match field(list, 4) {
        Ok(bytes) => bytes,
        Err(e) => {
            return Err(e);
        },
    };
    let fee = match field(list, 5) {
        Ok(bytes) => bytes,
        Err(e) => {
            return Err(e);
        },
    };
    let payload = match field(list, 8) {
        Ok(bytes) => bytes,
        Err(e) => {
            return Err(e);
        },
    };
    match parse_address(sender.as_slice()) {
        Ok(_) => {},
        Err(e) => {
            return Err(e);
        },
    }
    let recipient = match parse_address(recipient.as_slice()) {
        Ok(text) => text,
        Err(e) => {
            return Err(e);
        },
    };
    let amount = match Amount::from_big_endian(amount.as_slice()) {
        Some(amount) => amount,
        None => {
            return Err(AppSW::TxParsingFail);
        },
    };
    let fee = match Amount::from_big_endian(fee.as_slice()) {
        Some(fee) => fee,
        None => {
            return Err(AppSW::TxParsingFail);
        },
    };
    let payload = match string_from_utf8(payload.as_slice()) {
        Some(text) => text,
        None => {
            return Err(AppSW::TxParsingFail);
        },
    };
    Ok(TxFirstChunk { recipient, amount, fee, payload })
}

/// What survives from one chunk of a transaction to the next.
pub struct TxContext {
    /// Header data.
    account_number: u32,
    remain_tx_len: u32,
    network_id: Vec<u8>,
    /// Transaction data in the first chunk.
    tx: TxFirstChunk,
    /// Hash of all the transaction's chunks.
    blake2b: blake2b_simd::State,
}

/// The transaction context, as mathematical values.
pub struct TxContextView {
    pub account_number: u32,
    pub remain_tx_len: u32,
    pub network_id: Seq<u8>,
    pub tx: TxSummary,
    /// Every byte that went into the running hash, in order.
    pub hashed: Seq<u8>,
}

impl TxContextView {
    /// The context before any transaction.
    pub open spec fn empty() -> TxContextView {
        TxContextView {
            account_number: 0,
            remain_tx_len: 0,
            network_id: Seq::empty(),
            tx: TxSummary::empty(),
            hashed: Seq::empty(),
        }
    }

    /// What is signed once the operator has approved: the network
    /// identifier followed by the digest of the hashed bytes.
    pub open spec fn signing_input(self) -> Seq<u8> {
        self.network_id + blake2b_digest(self.hashed)
    }
}

impl View for TxContext {
    type V = TxContextView;

    closed spec fn view(&self) -> TxContextView {
        TxContextView {
            account_number: self.account_number,
            remain_tx_len: self.remain_tx_len,
            network_id: self.network_id@,
            tx: self.tx@,
            hashed: absorbed(self.blake2b),
        }
    }
}

impl Default for TxContext {
    fn default() -> (ctx: TxContext)
        ensures
            ctx@ == TxContextView::empty(),
    {
        TxContext::new()
    }
}

/// What the device does after a chunk was taken.
#[derive(Clone, Copy, Debug, PartialEq, Eq, Structural)]
pub enum TxStep {
    /// Acknowledge the chunk; nothing is shown.
    Accumulated,
    /// Show the summary to the operator and ask for approval.
    Review,
}

/// The context after a chunk, and what the device does next.
///
/// A first chunk starts from the empty context whatever was there. Its
/// header is taken off, the transaction behind it is decoded for review,
/// and the bytes behind the header, all of them and no others, go into the
/// hash. Where header or transaction are refused, the context is left
/// empty. Any other chunk goes into the hash whole and changes nothing
/// else; that holds too when no first chunk came before it.
pub open spec fn sign_tx_step(ctx: TxContextView, first_chunk: bool, data: Seq<u8>) -> (
    TxContextView,
    Result<TxStep, AppSW>,
) {
    if first_chunk {
        match tx_header(data) {
            None => (TxContextView::empty(), Err(AppSW::TxParsingFail)),
            Some(header) => {
                let tx_bytes = data.skip(header.len() as int);
                match spend_summary(tx_bytes) {
                    Err(e) => (TxContextView::empty(), Err(e)),
                    Ok(tx) => (
                        TxContextView {
                            account_number: header.account_number,
                            remain_tx_len: header.tx_len,
                            network_id: header.network_id,
                            tx,
                            hashed: tx_bytes,
                        },
                        Ok(TxStep::Review),
                    ),
                }
            },
        }
    } else {
        (TxContextView { hashed: ctx.hashed + data, ..ctx }, Ok(TxStep::Accumulated))
    }
}

impl TxContext {
    #[verifier::type_invariant]
    spec fn wf(self) -> bool {
        &&& unkeyed_256(self.blake2b)
        &&& self.network_id@.len() <= NETWORK_ID_MAX_LENGTH
    }

    /// A context that holds no transaction.
    pub fn new() -> (ctx: TxContext)
        ensures
            ctx@ == TxContextView::empty(),
    {
        TxContext {
            account_number: 0,
            remain_tx_len: 0,
            network_id: Vec::new(),
            tx: TxFirstChunk::default(),
            blake2b: hasher_new(),
        }
    }

    /// Whether the transaction is ready for review. Transactions longer
    /// than their first chunk are not reviewed further, so this holds
    /// always.
    pub fn is_finished(&self) -> (finished: bool)
        ensures
            finished,
    {
        true
    }

    /// Forgets the transaction and starts the hash anew.
    pub fn reset(&mut self)
        ensures
            final(self)@ == TxContextView::empty(),
    {
        proof {
            use_type_invariant(&*self);
        }
        self.account_number = 0;
        self.remain_tx_len = 0;
        self.network_id = Vec::new();
        self.tx = TxFirstChunk::default();
        self.blake2b = hasher_new();
    }

    /// The account whose key signs.
    pub fn account_number(&self) -> (account_number: u32)
        ensures
            account_number == self@.account_number,
    {
        self.account_number
    }

    /// The length of the transaction as the header declared it. It is kept
    /// as it came and compared with nothing.
    pub fn remain_tx_len(&self) -> (remain_tx_len: u32)
        ensures
            remain_tx_len == self@.remain_tx_len,
    {
        self.remain_tx_len
    }

    /// The network that the transaction is for, in at most 32 bytes.
    pub fn network_id(&self) -> (network_id: &Vec<u8>)
        ensures
            network_id@ == self@.network_id,
            network_id@.len() <= NETWORK_ID_MAX_LENGTH,
    {
        proof {
            use_type_invariant(self);
        }
        &self.network_id
    }

    /// What the operator reviews.
    pub fn tx(&self) -> (tx: &TxFirstChunk)
        ensures
            tx@ == self@.tx,
    {
        &self.tx
    }

    /// Takes the header off the first chunk and keeps what it says.
    fn parse_header_data<'a>(&mut self, data: &'a [u8]) -> (result: Result<&'a [u8], AppSW>)
        ensures
            match result {
                Ok(rest) => tx_header(data@) matches Some(header) && rest@ == data@.skip(
                    header.len() as int,
                ) && final(self)@ == (TxContextView {
                    account_number: header.account_number,
                    remain_tx_len: header.tx_len,
                    network_id: header.network_id,
                    ..old(self)@
                }),
                Err(e) => e == AppSW::TxParsingFail && tx_header(data@) is None && final(self)@
                    == old(self)@,
            },
    {
        proof {
            use_type_invariant(&*self);
        }
        if data.len() < HEADER_FIXED_LENGTH {
            return Err(AppSW::TxParsingFail);
        }
        let network_id_len: usize = data[8] as usize;
        if network_id_len > NETWORK_ID_MAX_LENGTH {
            return Err(AppSW::TxParsingFail);
        }
        if data.len() - HEADER_FIXED_LENGTH < network_id_len {
            return Err(AppSW::TxParsingFail);
        }
        let end: usize = HEADER_FIXED_LENGTH + network_id_len;
        let network_id = slice_subrange(data, HEADER_FIXED_LENGTH, end);
        let rest = slice_subrange(data, end, data.len());

        self.account_number = read_u32_be(data, 0);
        self.remain_tx_len = read_u32_be(data, 4);
        self.network_id = slice_to_vec(network_id);
        Ok(rest)
    }

    /// Decodes the transaction behind the header and keeps what the
    /// operator reviews.
    fn parse_tx_first_chunk(&mut self, data: &[u8]) -> (result: Result<(), AppSW>)
        ensures
            match result {
                Ok(()) => spend_summary(data@) matches Ok(tx) && final(self)@ == (TxContextView {
                    tx,
                    ..old(self)@
                }),
                Err(e) => spend_summary(data@) == Err::<TxSummary, _>(e) && final(self)@ == old(
                    self,
                )@,
            },
    {
        proof {
            use_type_invariant(&*self);
        }
        match parse_spend(data) {
            Ok(tx) => {
                self.tx = tx;
                Ok(())
            },
            Err(e) => Err(e),
        }
    }

    /// Feeds `data` to the running hash.
    fn hash_update(&mut self, data: &[u8])
        ensures
            final(self)@ == (TxContextView { hashed: old(self)@.hashed + data@, ..old(self)@ }),
    {
        proof {
            use_type_invariant(&*self);
        }
        hasher_update(&mut self.blake2b, data);
    }

    /// The message that the device signs for this transaction.
    pub fn signing_input(&self) -> (message: Vec<u8>)
        ensures
            message@ == self@.signing_input(),
    {
        proof {
            use_type_invariant(self);
        }
        let hash: [u8; 32] = hasher_finalize(&self.blake2b);
        signing_message(self.network_id.as_slice(), &hash)
    }
}

/// Puts the network identifier in front of the digest of a transaction.
pub fn signing_message(network_id: &[u8], hash: &[u8; 32]) -> (data_to_sign: Vec<u8>)
    ensures
        data_to_sign@ == network_id@ + hash@,
{
    let mut data_to_sign: Vec<u8> = slice_to_vec(network_id);
    let mut i: usize = 0;
    while i < 32
        invariant
            i <= 32,
            hash@.len() == 32,
            data_to_sign@ == network_id@ + hash@.take(i as int),
        decreases 32 - i,
    {
        data_to_sign.push(hash[i]);
        i += 1;
    }
    data_to_sign
}

/// Takes one chunk of a transaction.
///
/// A first chunk resets the context, has its header and transaction parsed
/// and its transaction bytes hashed, and asks for a review. Any other chunk
/// is hashed and acknowledged.
pub fn handler_sign_tx(data: &[u8], first_chunk: bool, ctx: &mut TxContext) -> (result: Result<
    TxStep,
    AppSW,
>)
    ensures
        (final(ctx)@, result) == sign_tx_step(old(ctx)@, first_chunk, data@),
{
    if first_chunk {
        ctx.reset();
        let tx_bytes = match ctx.parse_header_data(data) {
            Ok(tx_bytes) => tx_bytes,
            Err(e) => {
                return Err(e);
            },
        };
        match ctx.parse_tx_first_chunk(tx_bytes) {
            Ok(()) => {},
            Err(e) => {
                ctx.reset();
                return Err(e);
            },
        }
        ctx.hash_update(tx_bytes);
        Ok(TxStep::Review)
    } else {
        ctx.hash_update(data);
        Ok(TxStep::Accumulated)
    }
}

/// What follows the operator's decision on a reviewed transaction: the
/// message to sign when it was approved, `Deny` when it was not.
pub fn review_sign_tx(ctx: &TxContext, approved: bool) -> (result: Result<Vec<u8>, AppSW>)
    ensures
        match result {
            Ok(message) => approved && message@ == ctx@.signing_input(),
            Err(e) => !approved && e == AppSW::Deny,
        },
{
    if approved {
        Ok(ctx.signing_input())
    } else {
        Err(AppSW::Deny)
    }
}

/// The bytes of `chunks`, one chunk after the other.
pub open spec fn concat(chunks: Seq<Seq<u8>>) -> Seq<u8>
    decreases chunks.len(),
{
    if chunks.len() == 0 {
        Seq::empty()
    } else {
        concat(chunks.drop_last()) + chunks.last()
    }
}

/// The context after the chunks `chunks`, none of them a first chunk, were
/// taken in their order.
pub open spec fn after_chunks(ctx: TxContextView, chunks: Seq<Seq<u8>>) -> TxContextView
    decreases chunks.len(),
{
    if chunks.len() == 0 {
        ctx
    } else {
        sign_tx_step(after_chunks(ctx, chunks.drop_last()), false, chunks.last()).0
    }
}

/// A transaction in chunks: after a first chunk that was accepted and any
/// number of further chunks, the hash has taken every byte behind the
/// header, in the order of arrival, and nothing else; what is signed is the
/// network identifier of the header followed by the digest of those bytes;
/// the review was asked for once, by the first chunk, and by none of the
/// others. What the context held before the first chunk plays no part.
pub proof fn lemma_sign_tx_sequence(before: TxContextView, first: Seq<u8>, more: Seq<Seq<u8>>)
    requires
        sign_tx_step(before, true, first).1 is Ok,
    ensures
        ({
            let header = tx_header(first)->0;
            let tx_bytes = first.skip(header.len() as int);
            let started = sign_tx_step(before, true, first);
            let done = after_chunks(started.0, more);
            &&& tx_header(first) is Some
            &&& started.1 == Ok::<_, AppSW>(TxStep::Review)
            &&& forall|i: int|
                0 <= i < more.len() ==> (#[trigger] sign_tx_step(
                    after_chunks(started.0, more.take(i)),
                    false,
                    more[i],
                )).1 == Ok::<_, AppSW>(TxStep::Accumulated)
            &&& done.hashed == tx_bytes + concat(more)
            &&& done.account_number == header.account_number
            &&& done.network_id == header.network_id
            &&& done.tx == started.0.tx
            &&& done.signing_input() == header.network_id + blake2b_digest(tx_bytes + concat(more))
        }),
    decreases more.len(),
{
    let header = tx_header(first)->0;
    let tx_bytes = first.skip(header.len() as int);
    if more.len() == 0 {
        assert(tx_bytes + concat(more) =~= tx_bytes);
    } else {
        lemma_sign_tx_sequence(before, first, more.drop_last());
        assert(tx_bytes + concat(more.drop_last()) + more.last() =~= tx_bytes + concat(more));
    }
}

/// A chunk that is not a first chunk is taken as it comes, also where no
/// first chunk came before it: it goes into the hash of the empty context
/// and is acknowledged. Nothing is reviewed and nothing fails.
pub proof fn lemma_continuation_without_start(data: Seq<u8>)
    ensures
        sign_tx_step(TxContextView::empty(), false, data) == (
            TxContextView { hashed: data, ..TxContextView::empty() },
            Ok::<_, AppSW>(TxStep::Accumulated),
        ),
{
}

/// The hash never takes a byte of the header: a first chunk that is
/// accepted leaves in the hash exactly the bytes that were decoded for
/// review.
pub proof fn lemma_first_chunk_hashes_reviewed_bytes(before: TxContextView, first: Seq<u8>)
    requires
        sign_tx_step(before, true, first).1 is Ok,
    ensures
        ({
            let header = tx_header(first)->0;
            let started = sign_tx_step(before, true, first).0;
            &&& first == first.take(header.len() as int) + started.hashed
            &&& spend_summary(started.hashed) == Ok::<_, AppSW>(started.tx)
        }),
{
}

} // verus!
