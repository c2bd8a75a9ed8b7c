//! Base58 text, in the Bitcoin alphabet.

use vstd::prelude::*;
use vstd::utf8::is_ascii_chars;
use crate::numeral::{be_value, lemma_be_value_leading_zeros};

verus! {

/// The 58 characters, in the order of their values.
pub open spec fn alphabet() -> Seq<char> {
    "123456789ABCDEFGHJKLMNPQRSTUVWXYZabcdefghijkmnopqrstuvwxyz"@
}

/// `n` written in base 58, most significant character first; zero is the
/// empty text.
pub open spec fn base58_numeral(n: nat) -> Seq<char>
    decreases n,
{
    if n == 0 {
        Seq::empty()
    } else {
        base58_numeral(n / 58).push(alphabet()[(n % 58) as int])
    }
}

/// How many zero bytes stand at the front of `bytes`.
pub open spec fn leading_zeros(bytes: Seq<u8>) -> nat
    decreases bytes.len(),
{
    if bytes.len() > 0 && bytes[0] == 0 {
        1 + leading_zeros(bytes.drop_first())
    } else {
        0
    }
}

/// The Base58 text of `bytes`: one `'1'` for each zero byte at the front,
/// then the number that the bytes spell, written in base 58.
pub open spec fn base58_text(bytes: Seq<u8>) -> Seq<char> {
    Seq::new(leading_zeros(bytes), |i: int| '1') + base58_numeral(be_value(bytes))
}

/// Whether every character of `text` is of the alphabet.
pub open spec fn is_base58(text: Seq<char>) -> bool {
    forall|i: int| 0 <= i < text.len() ==> alphabet().contains(#[trigger] text[i])
}

/// The bytes whose Base58 text is `text`, if there are any.
pub open spec fn base58_bytes(text: Seq<char>) -> Option<Seq<u8>> {
    if exists|bytes: Seq<u8>| base58_text(bytes) == text {
        Some(choose|bytes: Seq<u8>| base58_text(bytes) == text)
    } else {
        None
    }
}

/// Encodes bytes as Base58 text.
///
/// Trusted: this is `bs58::encode(..).into_string()` with the default
/// (Bitcoin) alphabet. It writes the input, read as one big-endian number,
/// in base 58, and puts one `'1'` in front for each leading zero byte.
#[verifier::external_body]
pub(crate) fn base58_encode(data: &[u8]) -> (text: String)
    ensures
        text@ == base58_text(data@),
{
    bs58::encode(data).into_string()
}

/// Decodes Base58 text.
///
/// Trusted: this is `bs58::decode(..).into_vec()` with the default (Bitcoin)
/// alphabet. It fails exactly when a character is not of the alphabet;
/// otherwise it returns the bytes that encode to the text.
#[verifier::external_body]
pub(crate) fn base58_decode(text: &str) -> (bytes: Option<Vec<u8>>)
    ensures
        match bytes {
            Some(decoded) => base58_text(decoded@) == text@,
            None => !is_base58(text@),
        },
{
    bs58::decode(text).into_vec().ok()
}

/// The alphabet has 58 characters, all different, and `'1'` stands for
/// zero.
pub proof fn lemma_alphabet()
    ensures
        alphabet().len() == 58,
        alphabet()[0] == '1',
        forall|i: int, j: int|
            0 <= i < 58 && 0 <= j < 58 && alphabet()[i] == alphabet()[j] ==> i == j,
{
    reveal_strlit("123456789ABCDEFGHJKLMNPQRSTUVWXYZabcdefghijkmnopqrstuvwxyz");
}

/// The value of a character of the alphabet.
spec fn digit_of(c: char) -> nat {
    choose|d: nat| d < 58 && alphabet()[d as int] == c
}

/// The number that a base-58 numeral spells.
spec fn numeral_value(text: Seq<char>) -> nat
    decreases text.len(),
{
    if text.len() == 0 {
        0
    } else {
        numeral_value(text.drop_last()) * 58 + digit_of(text.last())
    }
}

/// How many `'1'` stand at the front of `text`.
spec fn leading_ones(text: Seq<char>) -> nat
    decreases text.len(),
{
    if text.len() > 0 && text[0] == '1' {
        1 + leading_ones(text.drop_first())
    } else {
        0
    }
}

/// `n` in big-endian bytes without leading zeros; zero is empty.
spec fn be_bytes(n: nat) -> Seq<u8>
    decreases n,
{
    if n == 0 {
        Seq::empty()
    } else {
        be_bytes(n / 256).push((n % 256) as u8)
    }
}

proof fn lemma_digit_of(d: nat)
    requires
        d < 58,
    ensures
        digit_of(alphabet()[d as int]) == d,
{
    lemma_alphabet();
}

/// A numeral holds characters of the alphabet only, does not start with the
/// character for zero, and spells the number it was made from.
proof fn lemma_numeral(n: nat)
    ensures
        is_base58(base58_numeral(n)),
        n > 0 ==> base58_numeral(n).len() > 0 && base58_numeral(n)[0] != '1',
        numeral_value(base58_numeral(n)) == n,
    decreases n,
{
    lemma_alphabet();
    if n > 0 {
        lemma_numeral(n / 58);
        lemma_digit_of(n % 58);
        let front = base58_numeral(n / 58);
        let text = base58_numeral(n);
        assert(text.drop_last() =~= front);
        assert forall|i: int| 0 <= i < text.len() implies alphabet().contains(
            #[trigger] text[i],
        ) by {}
    }
}

proof fn lemma_leading_ones(k: nat, numeral: Seq<char>)
    requires
        numeral.len() > 0 ==> numeral[0] != '1',
    ensures
        leading_ones(Seq::new(k, |i: int| '1') + numeral) == k,
    decreases k,
{
    let text = Seq::new(k, |i: int| '1') + numeral;
    if k > 0 {
        assert(text.drop_first() =~= Seq::new((k - 1) as nat, |i: int| '1') + numeral);
        lemma_leading_ones((k - 1) as nat, numeral);
    }
}

/// Bytes are their leading zeros followed by the rest.
proof fn lemma_leading_zeros_split(bytes: Seq<u8>)
    ensures
        leading_zeros(bytes) <= bytes.len(),
        bytes == Seq::new(leading_zeros(bytes), |i: int| 0u8) + bytes.skip(
            leading_zeros(bytes) as int,
        ),
        leading_zeros(bytes) < bytes.len() ==> bytes[leading_zeros(bytes) as int] != 0,
    decreases bytes.len(),
{
    let k = leading_zeros(bytes);
    if bytes.len() > 0 && bytes[0] == 0 {
        let tail = bytes.drop_first();
        lemma_leading_zeros_split(tail);
        let kt = leading_zeros(tail);
        let split = Seq::new(kt, |i: int| 0u8) + tail.skip(kt as int);
        assert forall|i: int| 0 <= i < k implies bytes[i] == 0 by {
            if i > 0 {
                assert(tail[i - 1] == split[i - 1]);
            }
        }
    }
}

/// Bytes without a leading zero are the shortest spelling of their number.
proof fn lemma_be_bytes(bytes: Seq<u8>)
    requires
        bytes.len() > 0 ==> bytes[0] != 0,
    ensures
        be_bytes(be_value(bytes)) == bytes,
        bytes.len() > 0 ==> be_value(bytes) > 0,
    decreases bytes.len(),
{
    if bytes.len() > 0 {
        lemma_be_bytes(bytes.drop_last());
    }
}

/// Base58 text holds characters of the alphabet only.
pub proof fn lemma_base58_text_is_base58(bytes: Seq<u8>)
    ensures
        is_base58(base58_text(bytes)),
{
    lemma_alphabet();
    lemma_numeral(be_value(bytes));
    let text = base58_text(bytes);
    assert forall|i: int| 0 <= i < text.len() implies alphabet().contains(#[trigger] text[i]) by {}
}

/// Different bytes have different Base58 texts.
pub proof fn lemma_base58_injective(a: Seq<u8>, b: Seq<u8>)
    requires
        base58_text(a) == base58_text(b),
    ensures
        a == b,
{
    let ka = leading_zeros(a);
    let kb = leading_zeros(b);
    let na = base58_numeral(be_value(a));
    let nb = base58_numeral(be_value(b));
    lemma_numeral(be_value(a));
    lemma_numeral(be_value(b));
    lemma_leading_ones(ka, na);
    lemma_leading_ones(kb, nb);
    assert(na =~= base58_text(a).skip(ka as int));
    assert(nb =~= base58_text(b).skip(kb as int));
    lemma_leading_zeros_split(a);
    lemma_leading_zeros_split(b);
    let ra = a.skip(ka as int);
    let rb = b.skip(kb as int);
    lemma_be_value_leading_zeros(ka, ra);
    lemma_be_value_leading_zeros(kb, rb);
    lemma_be_bytes(ra);
    lemma_be_bytes(rb);
}

/// Decoding the Base58 text of bytes gives the bytes back.
pub proof fn lemma_base58_roundtrip(bytes: Seq<u8>)
    ensures
        base58_bytes(base58_text(bytes)) == Some(bytes),
{
    let text = base58_text(bytes);
    let found = choose|other: Seq<u8>| base58_text(other) == text;
    lemma_base58_injective(found, bytes);
}

/// Sixteen to the power `k`.
spec fn pow16(k: nat) -> nat
    decreases k,
{
    if k == 0 {
        1
    } else {
        16 * pow16((k - 1) as nat)
    }
}

/// A number below `16^k` takes at most `k` characters in base 58.
proof fn lemma_numeral_len(n: nat, k: nat)
    requires
        n < pow16(k),
    ensures
        base58_numeral(n).len() <= k,
    decreases k,
{
    if n > 0 {
        lemma_numeral_len(n / 58, (k - 1) as nat);
    }
}

/// Bytes spell a number below `16^(2 * length)`.
proof fn lemma_be_value_below(bytes: Seq<u8>)
    ensures
        be_value(bytes) < pow16(2 * bytes.len()),
    decreases bytes.len(),
{
    if bytes.len() > 0 {
        lemma_be_value_below(bytes.drop_last());
        let k = 2 * bytes.drop_last().len();
        assert(pow16(k + 1) == 16 * pow16(k));
    }
}

/// Base58 text is ASCII and has at most three characters for each byte.
pub proof fn lemma_base58_text_len(bytes: Seq<u8>)
    ensures
        base58_text(bytes).len() <= 3 * bytes.len(),
        is_ascii_chars(base58_text(bytes)),
{
    lemma_leading_zeros_split(bytes);
    lemma_be_value_below(bytes);
    lemma_numeral_len(be_value(bytes), 2 * bytes.len());
    lemma_base58_text_is_base58(bytes);
    lemma_alphabet_is_ascii();
    let text = base58_text(bytes);
    assert forall|i: int| 0 <= i < text.len() implies '\0' <= #[trigger] text[i] <= '\u{7f}' by {}
}

/// The characters of the alphabet are ASCII.
proof fn lemma_alphabet_is_ascii()
    ensures
        forall|c: char| alphabet().contains(c) ==> '\0' <= c <= '\u{7f}',
{
    reveal_strlit("123456789ABCDEFGHJKLMNPQRSTUVWXYZabcdefghijkmnopqrstuvwxyz");
    assert forall|c: char| alphabet().contains(c) implies '\0' <= c <= '\u{7f}' by {}
}

} // verus!
