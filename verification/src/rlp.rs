//! The binary item decoder.
//!
//! A transaction travels as a tree of items. An item is a byte string or a
//! list of items. Its first byte tells which, and where its payload ends:
//!
//! | first byte    | item                                                  |
//! |---------------|-------------------------------------------------------|
//! | `00` to `7f`  | the one-byte string holding that byte                 |
//! | `80` to `b7`  | a string of `byte - 80` bytes                         |
//! | `b8` to `bf`  | a string whose length follows in `byte - b7` bytes    |
//! | `c0` to `f7`  | a list whose items take `byte - c0` bytes             |
//! | `f8` to `ff`  | a list whose length follows in `byte - f7` bytes      |

use vstd::prelude::*;
use vstd::slice::{slice_subrange, slice_to_vec};
use crate::numeral::be_value;

verus! {

/// A decoded item, as a mathematical value.
pub enum RlpValue {
    Bytes(Seq<u8>),
    List(Seq<RlpValue>),
}

/// A decoded item.
#[derive(Debug, PartialEq, Eq)]
pub enum RlpItem {
    ByteString(Vec<u8>),
    List(Vec<RlpItem>),
}

/// Why an item could not be read.
#[derive(Clone, Copy, Debug, PartialEq, Eq, Structural)]
pub enum RlpError {
    /// The buffer ends before the item that its first bytes announce.
    MalformedEncoding,
    /// The item is not a one-byte unsigned integer.
    NotAnInteger,
    /// The item is a list where a byte string was asked for.
    NotAByteString,
    /// The item is a byte string where a list was asked for.
    NotAList,
}

/// What the head of an encoded item announces.
pub struct RlpHeader {
    /// Whether the item is a list.
    pub is_list: bool,
    /// Where the payload starts.
    pub start: nat,
    /// How many bytes the payload takes.
    pub len: nat,
}

impl RlpHeader {
    /// Where the payload ends.
    pub open spec fn end(self) -> nat {
        self.start + self.len
    }

    /// The payload that this header announces in `bytes`.
    pub open spec fn payload(self, bytes: Seq<u8>) -> Seq<u8> {
        bytes.subrange(self.start as int, self.end() as int)
    }
}

/// The values of `items`, in their order.
pub open spec fn item_views(items: Seq<RlpItem>) -> Seq<RlpValue> {
    Seq::new(items.len(), |i: int| items[i]@)
}

impl View for RlpItem {
    type V = RlpValue;

    open spec fn view(&self) -> RlpValue
        decreases self,
    {
        match self {
            RlpItem::ByteString(bytes) => RlpValue::Bytes(bytes@),
            RlpItem::List(items) => RlpValue::List(
                Seq::new(
                    items.len() as nat,
                    |i: int|
                        if 0 <= i < items.len() {
                            items[i].view()
                        } else {
                            RlpValue::Bytes(Seq::empty())
                        },
                ),
            ),
        }
    }
}

/// The header with the length taken from `width` bytes after the first.
pub open spec fn long_header(bytes: Seq<u8>, is_list: bool, width: nat) -> Option<RlpHeader> {
    if bytes.len() < 1 + width {
        None
    } else {
        Some(
            RlpHeader {
                is_list,
                start: 1 + width,
                len: be_value(bytes.subrange(1, 1 + width as int)),
            },
        )
    }
}

/// The header at the front of `bytes`, if `bytes` holds all of it.
pub open spec fn rlp_header(bytes: Seq<u8>) -> Option<RlpHeader> {
    if bytes.len() == 0 {
        None
    } else if bytes[0] < 0x80 {
        Some(RlpHeader { is_list: false, start: 0, len: 1 })
    } else if bytes[0] <= 0xb7 {
        Some(RlpHeader { is_list: false, start: 1, len: (bytes[0] - 0x80) as nat })
    } else if bytes[0] <= 0xbf {
        long_header(bytes, false, (bytes[0] - 0xb7) as nat)
    } else if bytes[0] <= 0xf7 {
        Some(RlpHeader { is_list: true, start: 1, len: (bytes[0] - 0xc0) as nat })
    } else {
        long_header(bytes, true, (bytes[0] - 0xf7) as nat)
    }
}

/// The header at the front of `bytes`, if `bytes` also holds the payload
/// that it announces.
pub open spec fn rlp_span(bytes: Seq<u8>) -> Option<RlpHeader> {
    match rlp_header(bytes) {
        Some(header) => if header.end() <= bytes.len() {
            Some(header)
        } else {
            None
        },
        None => None,
    }
}

/// How many bytes the first item of `bytes` takes, header included.
pub open spec fn rlp_consumed(bytes: Seq<u8>) -> nat {
    match rlp_span(bytes) {
        Some(header) => header.end(),
        None => 0,
    }
}

/// What follows the first item of `bytes`.
pub open spec fn rlp_rest(bytes: Seq<u8>) -> Seq<u8> {
    bytes.skip(rlp_consumed(bytes) as int)
}

/// The first item of `bytes`, or `None` where `bytes` ends too early.
pub open spec fn rlp_decode(bytes: Seq<u8>) -> Option<RlpValue>
    decreases bytes.len(), 0nat,
{
    match rlp_span(bytes) {
        None => None,
        Some(header) => {
            let payload = header.payload(bytes);
            if !header.is_list {
                Some(RlpValue::Bytes(payload))
            } else {
                match rlp_decode_items(payload) {
                    Some(items) => Some(RlpValue::List(items)),
                    None => None,
                }
            }
        },
    }
}

/// The items that fill `bytes` exactly, or `None` where one of them runs
/// over the end.
pub open spec fn rlp_decode_items(bytes: Seq<u8>) -> Option<Seq<RlpValue>>
    decreases bytes.len(), 1nat,
{
    if bytes.len() == 0 {
        Some(Seq::empty())
    } else {
        match (rlp_span(bytes), rlp_decode(bytes)) {
            (Some(header), Some(first)) => match rlp_decode_items(bytes.skip(header.end() as int)) {
                Some(others) => Some(seq![first] + others),
                None => None,
            },
            _ => None,
        }
    }
}

/// A byte string spells at least the number that any of its prefixes
/// spells.
proof fn lemma_be_value_extend(front: Seq<u8>, back: Seq<u8>)
    ensures
        be_value(front) <= be_value(front + back),
    decreases back.len(),
{
    if back.len() > 0 {
        assert((front + back).drop_last() =~= front + back.drop_last());
        lemma_be_value_extend(front, back.drop_last());
    }
}

/// Reads the header of the first item and checks that the payload is there.
#[verifier::loop_isolation(false)]
fn read_header(data: &[u8]) -> (header: Option<(bool, usize, usize)>)
    ensures
        match header {
            Some((is_list, start, len)) => start + len <= data@.len() && rlp_span(data@) == Some(
                RlpHeader { is_list, start: start as nat, len: len as nat },
            ),
            None => rlp_span(data@) is None,
        },
{
    if data.len() == 0 {
        return None;
    }
    let first: u8 = data[0];
    if first < 0x80 {
        return Some((false, 0, 1));
    }
    let is_list: bool = first >= 0xc0;
    let short_base: u8 = if is_list {
        0xc0
    } else {
        0x80
    };
    if first - short_base <= 0x37 {
        let len: usize = (first - short_base) as usize;
        if len > data.len() - 1 {
            return None;
        }
        return Some((is_list, 1, len));
    }
    let width: usize = (first - short_base - 0x37) as usize;
    if data.len() - 1 < width {
        return None;
    }
    let ghost digits = data@.subrange(1, 1 + width as int);
    let mut len: u128 = 0;
    let mut i: usize = 0;
    while i < width
        invariant
            i <= width <= 8,
            1 + width <= data@.len(),
            digits == data@.subrange(1, 1 + width as int),
            len == be_value(digits.take(i as int)),
            len <= data@.len(),
        decreases width - i,
    {
        let next: u128 = len * 256 + data[1 + i] as u128;
        proof {
            assert(digits.take(i + 1).drop_last() =~= digits.take(i as int));
            assert(digits =~= digits.take(i + 1) + digits.skip(i + 1));
            lemma_be_value_extend(digits.take(i + 1), digits.skip(i + 1));
        }
        if next > data.len() as u128 {
            return None;
        }
        len = next;
        i += 1;
    }
    assert(digits.take(width as int) =~= digits);
    let start: usize = 1 + width;
    if len > (data.len() - start) as u128 {
        return None;
    }
    Some((is_list, start, len as usize))
}

impl RlpItem {
    /// Decodes the first item of `data` and returns it with what follows it.
    ///
    /// Fails with `MalformedEncoding` where `data` ends before the item, or
    /// where an item of a list runs over the end of that list.
    pub fn try_deserialize<'a>(data: &'a [u8]) -> (result: Result<(RlpItem, &'a [u8]), RlpError>)
        ensures
            match result {
                Ok((item, rest)) => rlp_decode(data@) == Some(item@) && rest@ == rlp_rest(data@),
                Err(e) => e == RlpError::MalformedEncoding && rlp_decode(data@) is None,
            },
        decreases data@.len(), 0nat,
    {
        match read_header(data) {
            None => Err(RlpError::MalformedEncoding),
            Some((is_list, start, len)) => {
                let total: usize = data.len();
                let end: usize = start + len;
                let payload = slice_subrange(data, start, end);
                let rest = slice_subrange(data, end, total);
                if is_list {
                    match decode_items(payload) {
                        Ok(items) => {
                            let item = RlpItem::List(items);
                            assert(item@ == RlpValue::List(item_views(items@))) by {
                                assert(item@->List_0 =~= item_views(items@));
                            }
                            Ok((item, rest))
                        },
                        Err(e) => Err(e),
                    }
                } else {
                    Ok((RlpItem::ByteString(slice_to_vec(payload)), rest))
                }
            },
        }
    }

    /// The items of a list.
    pub fn list(&self) -> (result: Result<&Vec<RlpItem>, RlpError>)
        ensures
            match result {
                Ok(items) => self@ == RlpValue::List(item_views(items@)),
                Err(e) => e == RlpError::NotAList && self@ is Bytes,
            },
    {
        match self {
            RlpItem::List(items) => {
                assert(self@->List_0 =~= item_views(items@));
                Ok(items)
            },
            RlpItem::ByteString(_) => Err(RlpError::NotAList),
        }
    }

    /// The bytes of a byte string.
    pub fn byte_array(&self) -> (result: Result<&Vec<u8>, RlpError>)
        ensures
            match result {
                Ok(bytes) => self@ == RlpValue::Bytes(bytes@),
                Err(e) => e == RlpError::NotAByteString && self@ is List,
            },
    {
        match self {
            RlpItem::ByteString(bytes) => Ok(bytes),
            RlpItem::List(_) => Err(RlpError::NotAByteString),
        }
    }

    /// The item as an unsigned integer of one byte.
    pub fn to_u8(&self) -> (result: Result<u8, RlpError>)
        ensures
            match result {
                Ok(value) => self@ == RlpValue::Bytes(seq![value]),
                Err(e) => e == RlpError::NotAnInteger && !(self@ matches RlpValue::Bytes(bytes)
                    && bytes.len() == 1),
            },
    {
        match self {
            RlpItem::ByteString(bytes) => {
                if bytes.len() == 1 {
                    assert(bytes@ =~= seq![bytes@[0]]);
                    Ok(bytes[0])
                } else {
                    Err(RlpError::NotAnInteger)
                }
            },
            RlpItem::List(_) => Err(RlpError::NotAnInteger),
        }
    }
}

/// Decodes the items that fill `payload`.
fn decode_items(payload: &[u8]) -> (result: Result<Vec<RlpItem>, RlpError>)
    ensures
        match result {
            Ok(items) => rlp_decode_items(payload@) == Some(item_views(items@)),
            Err(e) => e == RlpError::MalformedEncoding && rlp_decode_items(payload@) is None,
        },
    decreases payload@.len(), 1nat,
{
    let mut items: Vec<RlpItem> = Vec::new();
    let mut rest: &[u8] = payload;
    while rest.len() > 0
        invariant
            rest@.len() <= payload@.len(),
            rlp_decode_items(payload@) == match rlp_decode_items(rest@) {
                Some(others) => Some(item_views(items@) + others),
                None => None,
            },
        decreases rest@.len(),
    {
        match RlpItem::try_deserialize(rest) {
            Err(e) => {
                return Err(e);
            },
            Ok((item, after)) => {
                proof {
                    let ghost before = item_views(items@);
                    let ghost grown = item_views(items@.push(item));
                    assert forall|others: Seq<RlpValue>|
                        before + (seq![item@] + others) == grown + others by {}
                }
                items.push(item);
                rest = after;
            },
        }
    }
    Ok(items)
}

/// A buffer that ends before the payload announced by its header is
/// rejected.
pub proof fn lemma_decode_rejects_overrun(bytes: Seq<u8>)
    requires
        rlp_header(bytes) matches Some(header) && header.end() > bytes.len(),
    ensures
        rlp_decode(bytes) is None,
{
}

/// A buffer that ends before its header does is rejected.
pub proof fn lemma_decode_rejects_short_header(bytes: Seq<u8>)
    requires
        rlp_header(bytes) is None,
    ensures
        rlp_decode(bytes) is None,
{
}

/// A list is rejected when one of its items runs over the end of the list,
/// even where the buffer goes on behind the list.
pub proof fn lemma_decode_rejects_item_overrun(bytes: Seq<u8>)
    requires
        rlp_span(bytes) matches Some(header) && header.is_list && rlp_decode_items(
            header.payload(bytes),
        ) is None,
    ensures
        rlp_decode(bytes) is None,
{
}

/// Decoding reads the first item and nothing else: with any bytes behind an
/// encoded item, the same item comes back, and those bytes are what is
/// left.
pub proof fn lemma_decode_returns_suffix(encoded: Seq<u8>, tail: Seq<u8>)
    requires
        rlp_decode(encoded) is Some,
        rlp_consumed(encoded) == encoded.len(),
    ensures
        rlp_decode(encoded + tail) == rlp_decode(encoded),
        rlp_rest(encoded + tail) == tail,
{
    let whole = encoded + tail;
    let header = rlp_span(encoded)->0;
    if encoded[0] >= 0xb8 && (encoded[0] <= 0xbf || encoded[0] >= 0xf8) {
        let width = header.start - 1;
        assert(whole.subrange(1, 1 + width) =~= encoded.subrange(1, 1 + width));
    }
    assert(header.payload(whole) =~= header.payload(encoded));
}

/// Decoding reads the bytes of the first item and no others: the item takes
/// at least one byte and at most the buffer, the buffer is those bytes
/// followed by what is left, and those bytes alone decode to the same item.
pub proof fn lemma_decode_reads_item_only(bytes: Seq<u8>)
    requires
        rlp_decode(bytes) is Some,
    ensures
        1 <= rlp_consumed(bytes) <= bytes.len(),
        bytes == bytes.take(rlp_consumed(bytes) as int) + rlp_rest(bytes),
        rlp_decode(bytes.take(rlp_consumed(bytes) as int)) == rlp_decode(bytes),
        rlp_consumed(bytes.take(rlp_consumed(bytes) as int)) == rlp_consumed(bytes),
{
    let header = rlp_span(bytes)->0;
    let encoded = bytes.take(header.end() as int);
    if bytes[0] >= 0xb8 && (bytes[0] <= 0xbf || bytes[0] >= 0xf8) {
        let width = header.start - 1;
        assert(encoded.subrange(1, 1 + width) =~= bytes.subrange(1, 1 + width));
    }
    assert(header.payload(encoded) =~= header.payload(bytes));
}

} // verus!
