//! Numbers as they are written: big-endian bytes and decimal digits.

use vstd::prelude::*;
use vstd::arithmetic::div_mod::{lemma_div_denominator, lemma_mod_breakdown};

verus! {

/// The number that `bytes` spell, most significant byte first.
pub open spec fn be_value(bytes: Seq<u8>) -> nat
    decreases bytes.len(),
{
    if bytes.len() == 0 {
        0
    } else {
        be_value(bytes.drop_last()) * 256 + bytes.last() as nat
    }
}

/// The character of the decimal digit `d`.
pub open spec fn digit_char(d: nat) -> char {
    if d == 0 {
        '0'
    } else if d == 1 {
        '1'
    } else if d == 2 {
        '2'
    } else if d == 3 {
        '3'
    } else if d == 4 {
        '4'
    } else if d == 5 {
        '5'
    } else if d == 6 {
        '6'
    } else if d == 7 {
        '7'
    } else if d == 8 {
        '8'
    } else {
        '9'
    }
}

/// Whether `c` is one of `'0'` to `'9'`.
pub open spec fn is_digit(c: char) -> bool {
    exists|d: nat| d < 10 && c == #[trigger] digit_char(d)
}

/// `n` in decimal, without leading zeros; zero is `"0"`.
pub open spec fn decimal_text(n: nat) -> Seq<char>
    decreases n,
{
    if n < 10 {
        seq![digit_char(n)]
    } else {
        decimal_text(n / 10).push(digit_char(n % 10))
    }
}

/// The `k` lowest decimal digits of `n`, zero-padded on the left.
pub open spec fn fixed_digits(n: nat, k: nat) -> Seq<char>
    decreases k,
{
    if k == 0 {
        Seq::empty()
    } else {
        fixed_digits(n / 10, (k - 1) as nat).push(digit_char(n % 10))
    }
}

/// `k` zero digits.
pub open spec fn zeros(k: nat) -> Seq<char> {
    Seq::new(k, |i: int| '0')
}

/// Ten to the power `k`.
pub open spec fn pow10(k: nat) -> nat
    decreases k,
{
    if k == 0 {
        1
    } else {
        10 * pow10((k - 1) as nat)
    }
}

/// `s` without the zero digits at its end.
pub open spec fn strip_trailing_zeros(s: Seq<char>) -> Seq<char>
    decreases s.len(),
{
    if s.len() > 0 && s.last() == '0' {
        strip_trailing_zeros(s.drop_last())
    } else {
        s
    }
}

/// Reads the unsigned 32-bit number that stands in four big-endian bytes at
/// `at`.
pub(crate) fn read_u32_be(data: &[u8], at: usize) -> (value: u32)
    requires
        at + 4 <= data@.len(),
    ensures
        value == be_value(data@.subrange(at as int, at + 4)),
{
    let b0: u32 = data[at] as u32;
    let b1: u32 = data[at + 1] as u32;
    let b2: u32 = data[at + 2] as u32;
    let b3: u32 = data[at + 3] as u32;
    proof {
        let word = data@.subrange(at as int, at + 4);
        let three = word.drop_last();
        let two = three.drop_last();
        let one = two.drop_last();
        assert(be_value(one.drop_last()) == 0);
        assert(be_value(one) == b0);
        assert(be_value(two) == b0 * 256 + b1);
        assert(be_value(three) == (b0 * 256 + b1) * 256 + b2);
    }
    ((b0 * 256 + b1) * 256 + b2) * 256 + b3
}

/// Zero bytes in front do not change the value.
pub proof fn lemma_be_value_leading_zeros(k: nat, bytes: Seq<u8>)
    ensures
        be_value(Seq::new(k, |i: int| 0u8) + bytes) == be_value(bytes),
    decreases bytes.len(), k,
{
    let pad = Seq::new(k, |i: int| 0u8);
    if bytes.len() == 0 {
        if k > 0 {
            let shorter = Seq::new((k - 1) as nat, |i: int| 0u8);
            assert(pad.drop_last() =~= shorter);
            lemma_be_value_leading_zeros((k - 1) as nat, bytes);
        }
    } else {
        assert((pad + bytes).drop_last() =~= pad + bytes.drop_last());
        lemma_be_value_leading_zeros(k, bytes.drop_last());
    }
}

/// A decimal numeral is never empty, holds digits only and starts with a
/// zero only when it is `"0"`.
pub proof fn lemma_decimal_text_canonical(n: nat)
    ensures
        decimal_text(n).len() >= 1,
        forall|i: int| 0 <= i < decimal_text(n).len() ==> is_digit(#[trigger] decimal_text(n)[i]),
        decimal_text(n)[0] == '0' ==> n == 0,
        n == 0 ==> decimal_text(n) == seq!['0'],
    decreases n,
{
    if n >= 10 {
        lemma_decimal_text_canonical(n / 10);
    }
}

/// Fixed-width digits are digits.
pub proof fn lemma_fixed_digits_shape(n: nat, k: nat)
    ensures
        fixed_digits(n, k).len() == k,
        forall|i: int| 0 <= i < k ==> is_digit(#[trigger] fixed_digits(n, k)[i]),
    decreases k,
{
    if k > 0 {
        lemma_fixed_digits_shape(n / 10, (k - 1) as nat);
    }
}

/// The fixed-width digits of zero are all zero.
pub proof fn lemma_fixed_digits_zero(k: nat)
    ensures
        fixed_digits(0, k) == zeros(k),
    decreases k,
{
    if k > 0 {
        lemma_fixed_digits_zero((k - 1) as nat);
    }
}

/// Stripping yields a prefix that does not end in a zero, followed in the
/// original by zeros only.
pub proof fn lemma_strip_trailing_zeros(s: Seq<char>)
    ensures
        strip_trailing_zeros(s).len() <= s.len(),
        strip_trailing_zeros(s) == s.take(strip_trailing_zeros(s).len() as int),
        strip_trailing_zeros(s).len() > 0 ==> strip_trailing_zeros(s).last() != '0',
        forall|i: int| strip_trailing_zeros(s).len() <= i < s.len() ==> s[i] == '0',
    decreases s.len(),
{
    if s.len() > 0 && s.last() == '0' {
        lemma_strip_trailing_zeros(s.drop_last());
        let t = strip_trailing_zeros(s);
        assert forall|i: int| t.len() <= i < s.len() implies s[i] == '0' by {
            if i < s.len() - 1 {
                assert(s.drop_last()[i] == s[i]);
            }
        }
    }
}

/// Cutting at `end` strips the trailing zeros when only zeros follow `end`
/// and the digit before it is not a zero.
pub proof fn lemma_strip_at(s: Seq<char>, end: int)
    requires
        0 <= end <= s.len(),
        forall|i: int| end <= i < s.len() ==> s[i] == '0',
        end > 0 ==> s[end - 1] != '0',
    ensures
        strip_trailing_zeros(s) == s.take(end),
    decreases s.len() - end,
{
    if end < s.len() {
        lemma_strip_at(s.drop_last(), end);
    }
}

/// Where the decimal numeral of `n` divides at `k` digits from its end: the
/// front is the numeral of `n / 10^k` and the back holds the digits of
/// `n % 10^k`. A numeral of at most `k` digits is below `10^k`.
pub proof fn lemma_decimal_split(n: nat, k: nat)
    ensures
        pow10(k) > 0,
        decimal_text(n).len() > k ==> {
            &&& decimal_text(n / pow10(k)) == decimal_text(n).take(decimal_text(n).len() - k)
            &&& fixed_digits(n % pow10(k), k) == decimal_text(n).skip(decimal_text(n).len() - k)
        },
        decimal_text(n).len() <= k ==> {
            &&& n < pow10(k)
            &&& fixed_digits(n, k) == zeros((k - decimal_text(n).len()) as nat) + decimal_text(n)
        },
    decreases k,
{
    let text = decimal_text(n);
    lemma_decimal_text_canonical(n);
    if k == 0 {
        let one = pow10(k);
        assert(n / one == n) by (nonlinear_arith)
            requires
                one == 1,
        ;
    } else {
        let j = (k - 1) as nat;
        let p = pow10(j);
        lemma_decimal_split(n / 10, j);
        lemma_decimal_text_canonical(n / 10);
        if n < 10 {
            lemma_fixed_digits_zero(j);
        } else {
            let front = decimal_text(n / 10);
            if front.len() > j {
                lemma_div_denominator(n as int, 10, p as int);
                lemma_mod_breakdown(n as int, 10, p as int);
                assert(text.skip(text.len() - k) =~= front.skip(front.len() - j).push(
                    digit_char(n % 10),
                ));
                assert(fixed_digits(n % pow10(k), k) == fixed_digits((n % pow10(k)) / 10, j).push(
                    digit_char((n % pow10(k)) % 10),
                ));
            }
        }
    }
}

/// The value of a decimal digit character.
pub open spec fn digit_of(c: char) -> nat {
    choose|d: nat| d < 10 && digit_char(d) == c
}

/// The number that a text of decimal digits spells.
pub open spec fn decimal_value(text: Seq<char>) -> nat
    decreases text.len(),
{
    if text.len() == 0 {
        0
    } else {
        decimal_value(text.drop_last()) * 10 + digit_of(text.last())
    }
}

/// A digit character stands for one digit only.
pub proof fn lemma_digit_of(d: nat)
    requires
        d < 10,
    ensures
        digit_of(digit_char(d)) == d,
{
}

/// A decimal numeral spells the number it was made from.
pub proof fn lemma_decimal_value(n: nat)
    ensures
        decimal_value(decimal_text(n)) == n,
    decreases n,
{
    lemma_digit_of(n % 10);
    let text = decimal_text(n);
    if n < 10 {
        assert(decimal_value(text.drop_last()) == 0);
    } else {
        lemma_decimal_value(n / 10);
        assert(text.drop_last() =~= decimal_text(n / 10));
    }
}

/// Fixed-width digits spell the number they were made from, as far as it
/// fits the width.
pub proof fn lemma_fixed_digits_value(n: nat, k: nat)
    requires
        n < pow10(k),
    ensures
        decimal_value(fixed_digits(n, k)) == n,
    decreases k,
{
    if k > 0 {
        lemma_digit_of(n % 10);
        lemma_fixed_digits_value(n / 10, (k - 1) as nat);
        let text = fixed_digits(n, k);
        assert(text.drop_last() =~= fixed_digits(n / 10, (k - 1) as nat));
    }
}

/// Zeros at the end of a text of given length can be put back.
pub proof fn lemma_strip_restores(s: Seq<char>)
    ensures
        s == strip_trailing_zeros(s) + zeros((s.len() - strip_trailing_zeros(s).len()) as nat),
{
    lemma_strip_trailing_zeros(s);
}

} // verus!
