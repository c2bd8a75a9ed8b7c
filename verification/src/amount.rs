//! Amounts in the smallest unit, and how they are shown.

use vstd::prelude::*;
use vstd::slice::slice_to_vec;
use crate::numeral::{
    be_value, decimal_text, fixed_digits, is_digit, lemma_decimal_split,
    lemma_decimal_text_canonical, lemma_decimal_value, lemma_fixed_digits_shape,
    lemma_fixed_digits_value, lemma_strip_at, lemma_strip_restores, lemma_strip_trailing_zeros,
    pow10, strip_trailing_zeros, zeros,
};
use crate::text::string_from_chars;

verus! {

/// Number of decimal places between the smallest unit and the coin.
pub const DECIMAL_PLACES: usize = 18;

/// Widest amount, in bytes.
pub const AMOUNT_MAX_LENGTH: usize = 32;

/// An unsigned amount of up to 256 bits, in the smallest unit.
#[derive(Debug)]
pub struct Amount {
    /// The value, most significant byte first.
    bytes: Vec<u8>,
}

impl View for Amount {
    type V = nat;

    closed spec fn view(&self) -> nat {
        be_value(self.bytes@)
    }
}

impl Amount {
    #[verifier::type_invariant]
    spec fn wf(self) -> bool {
        self.bytes@.len() <= AMOUNT_MAX_LENGTH
    }

    /// The amount zero.
    pub fn zero() -> (amount: Amount)
        ensures
            amount@ == 0,
    {
        Amount { bytes: Vec::new() }
    }

    /// Reads an amount from big-endian bytes; `None` when there are more
    /// than 32 of them.
    pub fn from_big_endian(bytes: &[u8]) -> (amount: Option<Amount>)
        ensures
            amount is Some <==> bytes@.len() <= AMOUNT_MAX_LENGTH,
            amount matches Some(a) ==> a@ == be_value(bytes@),
    {
        if bytes.len() > AMOUNT_MAX_LENGTH {
            None
        } else {
            Some(Amount { bytes: slice_to_vec(bytes) })
        }
    }
}

/// The text shown for an amount of `n` smallest units: the whole coins,
/// then, unless the rest is zero, a point and the rest in up to 18 decimal
/// places without trailing zeros.
pub open spec fn format_amount(n: nat) -> Seq<char> {
    let unit = pow10(DECIMAL_PLACES as nat);
    let whole = decimal_text(n / unit);
    let fraction = strip_trailing_zeros(fixed_digits(n % unit, DECIMAL_PLACES as nat));
    if fraction.len() == 0 {
        whole
    } else {
        whole + seq!['.'] + fraction
    }
}

/// One coin is 1 000 000 000 000 000 000 of the smallest unit.
pub proof fn lemma_unit()
    ensures
        pow10(DECIMAL_PLACES as nat) == 1_000_000_000_000_000_000,
{
    reveal_with_fuel(pow10, 19);
}

/// The decimal numeral of a 256-bit number given in big-endian bytes.
///
/// Trusted: this is `primitive_types::U256::from_big_endian` followed by the
/// type's `Display`. The first left-pads up to 32 bytes into the number they
/// spell; the second writes that number in decimal, `"0"` for zero and no
/// leading zeros otherwise.
#[verifier::external_body]
fn decimal_digits(bytes: &[u8]) -> (digits: Vec<char>)
    requires
        bytes@.len() <= AMOUNT_MAX_LENGTH,
    ensures
        digits@ == decimal_text(be_value(bytes@)),
{
    primitive_types::U256::from_big_endian(bytes).to_string().chars().collect()
}

/// Converts an amount in the smallest unit to the text in coins.
///
/// No floating point is involved: the decimal numeral is cut 18 digits from
/// its end.
pub fn display_amount(amount: &Amount) -> (output: String)
    ensures
        output@ == format_amount(amount@),
{
    proof {
        use_type_invariant(amount);
    }
    let digits: Vec<char> = decimal_digits(amount.bytes.as_slice());
    let len: usize = digits.len();
    let ghost n: nat = amount@;
    let ghost unit: nat = pow10(DECIMAL_PLACES as nat);
    proof {
        lemma_decimal_split(n, DECIMAL_PLACES as nat);
        lemma_decimal_text_canonical(n);
    }

    let mut out: Vec<char> = Vec::new();
    let mut fraction: Vec<char> = Vec::new();
    if len > DECIMAL_PLACES {
        let split: usize = len - DECIMAL_PLACES;
        let mut i: usize = 0;
        while i < split
            invariant
                i <= split <= len,
                len == digits@.len(),
                out@ == digits@.take(i as int),
            decreases split - i,
        {
            out.push(digits[i]);
            i += 1;
        }
        let mut j: usize = split;
        while j < len
            invariant
                split <= j <= len,
                len == digits@.len(),
                fraction@ == digits@.subrange(split as int, j as int),
            decreases len - j,
        {
            fraction.push(digits[j]);
            j += 1;
        }
    } else {
        out.push('0');
        let mut k: usize = len;
        while k < DECIMAL_PLACES
            invariant
                len <= k <= DECIMAL_PLACES,
                fraction@ == zeros((k - len) as nat),
            decreases DECIMAL_PLACES - k,
        {
            fraction.push('0');
            k += 1;
        }
        let mut j: usize = 0;
        while j < len
            invariant
                j <= len <= DECIMAL_PLACES,
                len == digits@.len(),
                fraction@ == zeros((DECIMAL_PLACES - len) as nat) + digits@.take(j as int),
            decreases len - j,
        {
            fraction.push(digits[j]);
            j += 1;
        }
        proof {
            assert(n / unit == 0) by (nonlinear_arith)
                requires
                    n < unit,
            ;
            assert(n % unit == n) by (nonlinear_arith)
                requires
                    n < unit,
            ;
            lemma_decimal_text_canonical(0);
        }
    }
    assert(fraction@ == fixed_digits(n % unit, DECIMAL_PLACES as nat));

    let mut end: usize = fraction.len();
    while end > 0 && fraction[end - 1] == '0'
        invariant
            end <= fraction@.len(),
            forall|i: int| end <= i < fraction@.len() ==> fraction@[i] == '0',
        decreases end,
    {
        end -= 1;
    }
    proof {
        lemma_strip_at(fraction@, end as int);
    }
    if end > 0 {
        let ghost whole = out@;
        out.push('.');
        let mut i: usize = 0;
        while i < end
            invariant
                i <= end <= fraction@.len(),
                out@ == whole + seq!['.'] + fraction@.take(i as int),
            decreases end - i,
        {
            out.push(fraction[i]);
            i += 1;
        }
    }
    string_from_chars(&out)
}

/// The shape of every formatted amount: digits with at most one point; the
/// whole part has no leading zero unless it is the single digit zero; a
/// point is followed by at least one digit and the last of them is not a
/// zero. Zero is shown as `"0"`.
pub proof fn lemma_format_amount_shape(n: nat)
    ensures
        format_amount(n).len() >= 1,
        forall|i: int|
            0 <= i < format_amount(n).len() ==> is_digit(#[trigger] format_amount(n)[i])
                || format_amount(n)[i] == '.',
        forall|i: int, j: int|
            0 <= i < j < format_amount(n).len() ==> !(format_amount(n)[i] == '.'
                && format_amount(n)[j] == '.'),
        is_digit(format_amount(n)[0]),
        format_amount(n)[0] == '0' ==> format_amount(n).len() == 1 || format_amount(n)[1] == '.',
        is_digit(format_amount(n).last()),
        format_amount(n).contains('.') ==> format_amount(n).last() != '0',
        format_amount(0) == seq!['0'],
{
    let unit = pow10(DECIMAL_PLACES as nat);
    let full = fixed_digits(n % unit, DECIMAL_PLACES as nat);
    let fraction = strip_trailing_zeros(full);
    let text = format_amount(n);
    lemma_decimal_split(n, DECIMAL_PLACES as nat);
    lemma_decimal_text_canonical(n / unit);
    lemma_fixed_digits_shape(n % unit, DECIMAL_PLACES as nat);
    lemma_strip_trailing_zeros(full);
    lemma_point_is_no_digit();
    assert forall|i: int| 0 <= i < fraction.len() implies is_digit(#[trigger] fraction[i]) by {}
    if fraction.len() > 0 {
        assert forall|i: int, j: int| 0 <= i < j < text.len() implies !(text[i] == '.' && text[j]
            == '.') by {}
    }
    lemma_format_zero();
}

/// The point is not a digit.
proof fn lemma_point_is_no_digit()
    ensures
        !is_digit('.'),
{
}

/// Zero is shown as `"0"`.
proof fn lemma_format_zero()
    ensures
        format_amount(0) == seq!['0'],
{
    let unit = pow10(DECIMAL_PLACES as nat);
    lemma_decimal_split(0, DECIMAL_PLACES as nat);
    lemma_decimal_text_canonical(0);
    assert(0nat / unit == 0 && 0nat % unit == 0) by (nonlinear_arith)
        requires
            unit > 0,
    ;
    crate::numeral::lemma_fixed_digits_zero(DECIMAL_PLACES as nat);
    lemma_strip_at(zeros(DECIMAL_PLACES as nat), 0);
}

/// The whole coins and the rest of an amount, as its text gives them: the
/// digits in front of the point, and the digits behind it in 18 places.
proof fn lemma_format_amount_parts(n: nat)
    ensures
        ({
            let unit = pow10(DECIMAL_PLACES as nat);
            let text = format_amount(n);
            let whole = decimal_text(n / unit);
            let fraction = strip_trailing_zeros(fixed_digits(n % unit, DECIMAL_PLACES as nat));
            &&& unit > 0
            &&& whole.len() <= text.len()
            &&& text.take(whole.len() as int) == whole
            &&& forall|i: int| 0 <= i < whole.len() ==> text[i] != '.'
            &&& text.len() > whole.len() ==> text[whole.len() as int] == '.' && text.skip(
                (whole.len() + 1) as int,
            ) == fraction
            &&& text.len() == whole.len() ==> fraction.len() == 0
            &&& fraction.len() <= DECIMAL_PLACES
        }),
{
    let unit = pow10(DECIMAL_PLACES as nat);
    lemma_decimal_split(n, DECIMAL_PLACES as nat);
    lemma_decimal_text_canonical(n / unit);
    lemma_fixed_digits_shape(n % unit, DECIMAL_PLACES as nat);
    lemma_strip_trailing_zeros(fixed_digits(n % unit, DECIMAL_PLACES as nat));
    lemma_point_is_no_digit();
}

/// Where the first point of a text stands, or its length where it has
/// none.
spec fn point_at(text: Seq<char>) -> int
    decreases text.len(),
{
    if text.len() == 0 || text[0] == '.' {
        0
    } else {
        1 + point_at(text.drop_first())
    }
}

proof fn lemma_point_at(text: Seq<char>, at: int)
    requires
        0 <= at <= text.len(),
        forall|i: int| 0 <= i < at ==> text[i] != '.',
        at < text.len() ==> text[at] == '.',
    ensures
        point_at(text) == at,
    decreases text.len(),
{
    if !(text.len() == 0 || text[0] == '.') {
        let tail = text.drop_first();
        assert forall|i: int| 0 <= i < at - 1 implies tail[i] != '.' by {}
        lemma_point_at(tail, at - 1);
    }
}

/// Different amounts are shown differently: the text that the operator
/// reads stands for one amount only.
pub proof fn lemma_format_amount_injective(a: nat, b: nat)
    requires
        format_amount(a) == format_amount(b),
    ensures
        a == b,
{
    let unit = pow10(DECIMAL_PLACES as nat);
    let text = format_amount(a);
    lemma_format_amount_parts(a);
    lemma_format_amount_parts(b);
    let whole_a = decimal_text(a / unit);
    let whole_b = decimal_text(b / unit);
    lemma_point_at(text, whole_a.len() as int);
    lemma_point_at(text, whole_b.len() as int);
    lemma_decimal_value(a / unit);
    lemma_decimal_value(b / unit);

    let full_a = fixed_digits(a % unit, DECIMAL_PLACES as nat);
    let full_b = fixed_digits(b % unit, DECIMAL_PLACES as nat);
    lemma_fixed_digits_shape(a % unit, DECIMAL_PLACES as nat);
    lemma_fixed_digits_shape(b % unit, DECIMAL_PLACES as nat);
    lemma_strip_restores(full_a);
    lemma_strip_restores(full_b);
    assert(a % unit < unit && b % unit < unit) by (nonlinear_arith)
        requires
            unit > 0,
    ;
    lemma_fixed_digits_value(a % unit, DECIMAL_PLACES as nat);
    lemma_fixed_digits_value(b % unit, DECIMAL_PLACES as nat);
    assert(a == b) by (nonlinear_arith)
        requires
            unit > 0,
            a / unit == b / unit,
            a % unit == b % unit,
    ;
}

} // verus!
