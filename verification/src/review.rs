//! What the operator is shown before anything is signed or given out.

use vstd::prelude::*;
use vstd::string::StringExecFns;
use vstd::utf8::{decode_utf8, valid_utf8};
use crate::amount::{display_amount, format_amount, lemma_format_amount_injective};
use crate::handlers::sign_tx::{TxFirstChunk, TxSummary};
use crate::status::AppSW;
use crate::text::{string_from_chars, string_from_utf8};

verus! {

/// The longest data that is shown, in bytes.
pub const DISPLAYED_DATA_MAX_LENGTH: usize = 50;

/// The Base64 text of `data`, in the standard alphabet with padding.
pub uninterp spec fn base64_standard(data: Seq<u8>) -> Seq<char>;

/// Encodes bytes as Base64 text.
///
/// Trusted: this is `base64::Engine::encode` of
/// `base64::prelude::BASE64_STANDARD`, which returns the Base64 text of its
/// input and fails only where the length of that text does not fit the
/// machine.
#[verifier::external_body]
fn base64_encode(data: &[u8]) -> (text: String)
    requires
        data@.len() <= usize::MAX / 4,
    ensures
        text@ == base64_standard(data@),
{
    base64::Engine::encode(&base64::prelude::BASE64_STANDARD, data)
}

/// One line of a review.
#[derive(Debug, PartialEq, Eq)]
pub struct Field {
    pub name: String,
    pub value: String,
}

impl View for Field {
    type V = (Seq<char>, Seq<char>);

    open spec fn view(&self) -> (Seq<char>, Seq<char>) {
        (self.name@, self.value@)
    }
}

/// What a review is about.
#[derive(Clone, Copy, Debug, PartialEq, Eq, Structural)]
pub enum ReviewKind {
    Address,
    Data,
    Message,
    Transaction,
}

/// What the operator is shown and asked to approve.
#[derive(Debug, PartialEq, Eq)]
pub struct Review {
    pub kind: ReviewKind,
    pub fields: Vec<Field>,
}

/// A review, as mathematical values.
pub struct ReviewView {
    pub kind: ReviewKind,
    pub fields: Seq<(Seq<char>, Seq<char>)>,
}

impl View for Review {
    type V = ReviewView;

    open spec fn view(&self) -> ReviewView {
        ReviewView { kind: self.kind, fields: Seq::new(self.fields@.len(), |i: int| self.fields@[i]@) }
    }
}

/// Whether every byte is below 128.
pub open spec fn is_ascii_bytes(data: Seq<u8>) -> bool {
    forall|i: int| 0 <= i < data.len() ==> data[i] < 0x80
}

/// The text whose characters are the bytes of `data`.
pub open spec fn ascii_text(data: Seq<u8>) -> Seq<char> {
    Seq::new(data.len(), |i: int| data[i] as char)
}

/// How data is shown: not at all beyond 50 bytes, as it stands where it is
/// ASCII, in Base64 otherwise.
pub open spec fn data_text(data: Seq<u8>) -> Option<Seq<char>> {
    if data.len() > DISPLAYED_DATA_MAX_LENGTH {
        None
    } else if is_ascii_bytes(data) {
        Some(ascii_text(data))
    } else {
        Some(base64_standard(data))
    }
}

/// The review of an address.
pub open spec fn address_review_of(address: Seq<char>) -> ReviewView {
    ReviewView { kind: ReviewKind::Address, fields: seq![("Address"@, address)] }
}

/// The review of data to sign: one line, or none where the data is not
/// shown.
pub open spec fn data_review_of(data: Seq<u8>) -> ReviewView {
    ReviewView {
        kind: ReviewKind::Data,
        fields: match data_text(data) {
            Some(text) => seq![("Data"@, text)],
            None => Seq::empty(),
        },
    }
}

/// The review of a message to sign. A message that is not UTF-8 cannot be
/// shown.
pub open spec fn message_review_of(message: Seq<u8>) -> Result<ReviewView, AppSW> {
    if valid_utf8(message) {
        Ok(ReviewView { kind: ReviewKind::Message, fields: seq![("Message"@, decode_utf8(message))] })
    } else {
        Err(AppSW::TxDisplayFail)
    }
}

/// The review of a transaction: amount, fee and destination, and the
/// payload where there is one.
pub open spec fn tx_review_of(tx: TxSummary) -> ReviewView {
    let fields = seq![
        ("Amount"@, format_amount(tx.amount)),
        ("Fee"@, format_amount(tx.fee)),
        ("Destination"@, tx.recipient),
    ];
    ReviewView {
        kind: ReviewKind::Transaction,
        fields: if tx.payload.len() > 0 {
            fields.push(("Payload"@, tx.payload))
        } else {
            fields
        },
    }
}

/// Renders data for the screen.
pub fn format_data(data: &[u8]) -> (text: Option<String>)
    ensures
        match text {
            Some(shown) => data_text(data@) == Some(shown@),
            None => data_text(data@) is None,
        },
{
    if data.len() > DISPLAYED_DATA_MAX_LENGTH {
        return None;
    }
    let mut chars: Vec<char> = Vec::new();
    let mut i: usize = 0;
    while i < data.len()
        invariant
            i <= data@.len() <= DISPLAYED_DATA_MAX_LENGTH,
            is_ascii_bytes(data@.take(i as int)),
            chars@ == ascii_text(data@.take(i as int)),
        decreases data@.len() - i,
    {
        if data[i] >= 0x80 {
            return Some(base64_encode(data));
        }
        proof {
            let longer = data@.take(i + 1);
            assert forall|j: int| 0 <= j < longer.len() implies #[trigger] longer[j] < 0x80 by {}
        }
        chars.push(data[i] as char);
        i += 1;
    }
    assert(data@.take(i as int) =~= data@);
    Some(string_from_chars(&chars))
}

/// Builds the review of an address.
pub fn address_review(address: &String) -> (review: Review)
    ensures
        review@ == address_review_of(address@),
{
    let mut fields: Vec<Field> = Vec::new();
    fields.push(Field { name: String::from_str("Address"), value: address.clone() });
    let review = Review { kind: ReviewKind::Address, fields };
    assert(review@.fields =~= address_review_of(address@).fields);
    review
}

/// Builds the review of data to sign.
pub fn data_review(data: &[u8]) -> (review: Review)
    ensures
        review@ == data_review_of(data@),
{
    let mut fields: Vec<Field> = Vec::new();
    match format_data(data) {
        Some(text) => {
            fields.push(Field { name: String::from_str("Data"), value: text });
        },
        None => {},
    }
    let review = Review { kind: ReviewKind::Data, fields };
    assert(review@.fields =~= data_review_of(data@).fields);
    review
}

/// Builds the review of a message to sign.
pub fn message_review(message: &[u8]) -> (result: Result<Review, AppSW>)
    ensures
        match result {
            Ok(review) => message_review_of(message@) == Ok::<_, AppSW>(review@),
            Err(e) => message_review_of(message@) == Err::<ReviewView, _>(e),
        },
{
    match string_from_utf8(message) {
        Some(text) => {
            let mut fields: Vec<Field> = Vec::new();
            fields.push(Field { name: String::from_str("Message"), value: text });
            let review = Review { kind: ReviewKind::Message, fields };
            assert(review@.fields =~= message_review_of(message@)->Ok_0.fields);
            Ok(review)
        },
        None => Err(AppSW::TxDisplayFail),
    }
}

/// Builds the review of a transaction.
pub fn tx_review(tx: &TxFirstChunk) -> (review: Review)
    ensures
        review@ == tx_review_of(tx@),
{
    let amount_str = display_amount(&tx.amount);
    let fee_str = display_amount(&tx.fee);
    let to_str = tx.recipient.clone();

    let mut fields: Vec<Field> = Vec::new();
    fields.push(Field { name: String::from_str("Amount"), value: amount_str });
    fields.push(Field { name: String::from_str("Fee"), value: fee_str });
    fields.push(Field { name: String::from_str("Destination"), value: to_str });
    if !tx.payload.as_str().is_empty() {
        fields.push(Field { name: String::from_str("Payload"), value: tx.payload.clone() });
    }
    let review = Review { kind: ReviewKind::Transaction, fields };
    assert(review@.fields =~= tx_review_of(tx@).fields);
    review
}

/// The review of a transaction tells all of its summary: two transactions
/// that are shown alike have the same amount, fee, destination and
/// payload.
pub proof fn lemma_tx_review_injective(a: TxSummary, b: TxSummary)
    requires
        tx_review_of(a) == tx_review_of(b),
    ensures
        a == b,
{
    let shown_a = tx_review_of(a).fields;
    let shown_b = tx_review_of(b).fields;
    assert(shown_a[0] == shown_b[0]);
    assert(shown_a[1] == shown_b[1]);
    assert(shown_a[2] == shown_b[2]);
    lemma_format_amount_injective(a.amount, b.amount);
    lemma_format_amount_injective(a.fee, b.fee);
    if a.payload.len() > 0 {
        assert(shown_a.len() == 4);
        assert(shown_a[3] == shown_b[3]);
    } else {
        assert(shown_a.len() == 3);
        assert(a.payload =~= b.payload);
    }
}

} // verus!
