//! GetVersion: the version of the application in three bytes.

use vstd::prelude::*;
use crate::status::AppSW;
use crate::text::chars_of;

verus! {

/// The value of a decimal digit, or `None` for any other character.
pub open spec fn digit_value(c: char) -> Option<nat> {
    if 48 <= c as u32 <= 57 {
        Some((c as u32 - 48) as nat)
    } else {
        None
    }
}

/// The number that a text of decimal digits spells; `None` where a
/// character is no digit. The empty text spells zero.
pub open spec fn digits_value(text: Seq<char>) -> Option<nat>
    decreases text.len(),
{
    if text.len() == 0 {
        Some(0)
    } else {
        match (digits_value(text.drop_last()), digit_value(text.last())) {
            (Some(front), Some(digit)) => Some(front * 10 + digit),
            _ => None,
        }
    }
}

/// The number below 256 that `text` spells: decimal digits, at least one,
/// with or without a plus sign in front.
pub open spec fn parse_u8(text: Seq<char>) -> Option<u8> {
    let digits = if text.len() > 0 && text[0] == '+' {
        text.skip(1)
    } else {
        text
    };
    match digits_value(digits) {
        Some(value) => if digits.len() > 0 && value <= 255 {
            Some(value as u8)
        } else {
            None
        },
        None => None,
    }
}

/// Where the first point of `text` stands, or the length of `text` where
/// it has none.
pub open spec fn first_point(text: Seq<char>) -> int
    decreases text.len(),
{
    if text.len() == 0 || text[0] == '.' {
        0
    } else {
        1 + first_point(text.drop_first())
    }
}

/// The version that `text` spells: three numbers below 256 with a point
/// after the first and after the second. What follows a third point is not
/// looked at.
pub open spec fn parse_version(text: Seq<char>) -> Option<(u8, u8, u8)> {
    let first = first_point(text);
    let after_first = text.skip(first + 1);
    let second = first_point(after_first);
    let after_second = after_first.skip(second + 1);
    let third = first_point(after_second);
    if first >= text.len() || second >= after_first.len() {
        None
    } else {
        match (
            parse_u8(text.take(first)),
            parse_u8(after_first.take(second)),
            parse_u8(after_second.take(third)),
        ) {
            (Some(major), Some(minor), Some(patch)) => Some((major, minor, patch)),
            _ => None,
        }
    }
}

/// The answer to GetVersion: a zero byte, kept for hosts that expect the
/// settings byte of older versions there, then major, minor and patch.
pub open spec fn version_reply(text: Seq<char>) -> Result<Seq<u8>, AppSW> {
    match parse_version(text) {
        Some((major, minor, patch)) => Ok(seq![0u8, major, minor, patch]),
        None => Err(AppSW::VersionParsingFail),
    }
}

proof fn lemma_first_point(text: Seq<char>)
    ensures
        0 <= first_point(text) <= text.len(),
        first_point(text) < text.len() ==> text[first_point(text)] == '.',
        forall|i: int| 0 <= i < first_point(text) ==> text[i] != '.',
    decreases text.len(),
{
    if !(text.len() == 0 || text[0] == '.') {
        lemma_first_point(text.drop_first());
        assert forall|i: int| 0 <= i < first_point(text) implies text[i] != '.' by {
            if i > 0 {
                assert(text[i] == text.drop_first()[i - 1]);
            }
        }
    }
}

proof fn lemma_first_point_at(text: Seq<char>, at: int)
    requires
        0 <= at <= text.len(),
        at < text.len() ==> text[at] == '.',
        forall|i: int| 0 <= i < at ==> text[i] != '.',
    ensures
        first_point(text) == at,
{
    lemma_first_point(text);
}

/// Finds the first point of `chars` at or behind `from`.
fn find_point(chars: &Vec<char>, from: usize) -> (at: usize)
    requires
        from <= chars@.len(),
    ensures
        from <= at <= chars@.len(),
        at - from == first_point(chars@.skip(from as int)),
{
    let mut at: usize = from;
    while at < chars.len() && chars[at] != '.'
        invariant
            from <= at <= chars@.len(),
            forall|i: int| from <= i < at ==> chars@[i] != '.',
        decreases chars@.len() - at,
    {
        at += 1;
    }
    proof {
        lemma_first_point_at(chars@.skip(from as int), at - from);
    }
    at
}

/// Reads the number that stands in `chars` from `from` to `to`.
#[verifier::loop_isolation(false)]
fn parse_part(chars: &Vec<char>, from: usize, to: usize) -> (value: Option<u8>)
    requires
        from <= to <= chars@.len(),
    ensures
        value == parse_u8(chars@.subrange(from as int, to as int)),
{
    let ghost text = chars@.subrange(from as int, to as int);
    let start: usize = if from < to && chars[from] == '+' {
        from + 1
    } else {
        from
    };
    let ghost digits = chars@.subrange(start as int, to as int);
    assert(digits =~= if text.len() > 0 && text[0] == '+' {
        text.skip(1)
    } else {
        text
    });
    if start == to {
        return None;
    }
    let mut value: u32 = 0;
    let mut i: usize = start;
    while i < to
        invariant
            start <= i <= to <= chars@.len(),
            digits == chars@.subrange(start as int, to as int),
            value <= 1000,
            match digits_value(digits.take(i - start)) {
                Some(exact) => value == if exact <= 1000 {
                    exact
                } else {
                    1000
                },
                None => false,
            },
        decreases to - i,
    {
        let c: char = chars[i];
        let code: u32 = c as u32;
        proof {
            assert(digits.take(i + 1 - start).drop_last() =~= digits.take(i - start));
        }
        if code < 48 || code > 57 {
            proof {
                lemma_digits_value_prefix(digits, i + 1 - start);
            }
            return None;
        }
        let next: u32 = value * 10 + (code - 48);
        value = if next > 1000 {
            1000
        } else {
            next
        };
        i += 1;
    }
    assert(digits.take(to - start) =~= digits);
    if value <= 255 {
        Some(value as u8)
    } else {
        None
    }
}

/// A text with a prefix that is no number is no number.
proof fn lemma_digits_value_prefix(text: Seq<char>, n: int)
    requires
        0 <= n <= text.len(),
        digits_value(text.take(n)) is None,
    ensures
        digits_value(text) is None,
    decreases text.len() - n,
{
    if n == text.len() {
        assert(text.take(n) =~= text);
    } else {
        assert(text.drop_last().take(n) =~= text.take(n));
        lemma_digits_value_prefix(text.drop_last(), n);
    }
}

/// Reads a version of the form `major.minor.patch`.
pub fn parse_version_string(input: &str) -> (version: Option<(u8, u8, u8)>)
    ensures
        version == parse_version(input@),
{
    let chars = chars_of(input);
    let len: usize = chars.len();
    let first: usize = find_point(&chars, 0);
    assert(chars@.skip(0) =~= chars@);
    if first >= len {
        return None;
    }
    let second: usize = find_point(&chars, first + 1);
    if second >= len {
        return None;
    }
    let third: usize = find_point(&chars, second + 1);
    proof {
        let after_first = chars@.skip(first + 1);
        let after_second = after_first.skip(second - first);
        assert(after_second =~= chars@.skip(second + 1));
        assert(after_first.take(second - first - 1) =~= chars@.subrange(
            first + 1,
            second as int,
        ));
        assert(after_second.take(third - second - 1) =~= chars@.subrange(
            second + 1,
            third as int,
        ));
    }
    let major = parse_part(&chars, 0, first);
    let minor = parse_part(&chars, first + 1, second);
    let patch = parse_part(&chars, second + 1, third);
    match (major, minor, patch) {
        (Some(major), Some(minor), Some(patch)) => Some((major, minor, patch)),
        _ => None,
    }
}

/// Answers GetVersion for an application of version `version`.
pub fn handler_get_version(version: &str) -> (result: Result<Vec<u8>, AppSW>)
    ensures
        match result {
            Ok(reply) => version_reply(version@) == Ok::<_, AppSW>(reply@),
            Err(e) => version_reply(version@) == Err::<Seq<u8>, _>(e),
        },
{
    match parse_version_string(version) {
        Some((major, minor, patch)) => {
            let mut reply: Vec<u8> = Vec::new();
            reply.push(0x00);
            reply.push(major);
            reply.push(minor);
            reply.push(patch);
            assert(reply@ =~= seq![0u8, major, minor, patch]);
            Ok(reply)
        },
        None => Err(AppSW::VersionParsingFail),
    }
}

} // verus!
