//! Compact variable-length integers, as used in front of a signed message.

use vstd::prelude::*;

verus! {

/// The `k` low bytes of `n`, least significant first.
pub open spec fn le_bytes(n: nat, k: nat) -> Seq<u8>
    decreases k,
{
    if k == 0 {
        Seq::empty()
    } else {
        seq![(n % 256) as u8] + le_bytes(n / 256, (k - 1) as nat)
    }
}

/// The compact encoding of `n`: one byte up to 0xFC, else a marker byte
/// followed by the value in two (marker 0xFD) or four (marker 0xFE)
/// little-endian bytes. Values above 32 bits keep their low 32 bits.
pub open spec fn varuint(n: nat) -> Seq<u8> {
    if n <= 0xFC {
        seq![n as u8]
    } else if n <= 0xFFFF {
        seq![0xFDu8] + le_bytes(n, 2)
    } else {
        seq![0xFEu8] + le_bytes(n % 0x1_0000_0000, 4)
    }
}

/// Encodes `n` as a compact variable-length integer.
pub fn varuint_encode(n: usize) -> (output: Vec<u8>)
    ensures
        output@ == varuint(n as nat),
{
    let mut output: Vec<u8> = Vec::new();
    if n <= 0xFC {
        output.push(n as u8);
    } else if n <= 0xFFFF {
        output.push(0xFD);
        output.push((n % 256) as u8);
        output.push((n / 256) as u8);
        proof {
            reveal_with_fuel(le_bytes, 3);
        }
    } else {
        let low: u64 = (n as u64) % 0x1_0000_0000;
        output.push(0xFE);
        output.push((low % 256) as u8);
        output.push((low / 256 % 256) as u8);
        output.push((low / 65536 % 256) as u8);
        output.push((low / 16777216) as u8);
        proof {
            reveal_with_fuel(le_bytes, 5);
        }
    }
    output
}

/// The number that `bytes` spell, least significant byte first.
pub open spec fn le_value(bytes: Seq<u8>) -> nat
    decreases bytes.len(),
{
    if bytes.len() == 0 {
        0
    } else {
        bytes[0] as nat + 256 * le_value(bytes.drop_first())
    }
}

/// The compact integer at the front of `data` and the number of bytes it
/// takes, or `None` where `data` ends early or starts with 0xFF, the marker
/// of a width that is not in use. Any spelling is read, the shortest or
/// not.
pub open spec fn varuint_value(data: Seq<u8>) -> Option<(nat, nat)> {
    if data.len() == 0 {
        None
    } else if data[0] <= 0xFC {
        Some((data[0] as nat, 1))
    } else if data[0] == 0xFD {
        if data.len() < 3 {
            None
        } else {
            Some((le_value(data.subrange(1, 3)), 3))
        }
    } else if data[0] == 0xFE {
        if data.len() < 5 {
            None
        } else {
            Some((le_value(data.subrange(1, 5)), 5))
        }
    } else {
        None
    }
}

/// Decodes the compact variable-length integer at the front of `data` and
/// says how many bytes it takes.
pub fn varuint_decode(data: &[u8]) -> (result: Option<(u32, usize)>)
    ensures
        match result {
            Some((value, used)) => varuint_value(data@) == Some((value as nat, used as nat)),
            None => varuint_value(data@) is None,
        },
{
    if data.len() == 0 {
        return None;
    }
    let marker: u8 = data[0];
    if marker <= 0xFC {
        Some((marker as u32, 1))
    } else if marker == 0xFD {
        if data.len() < 3 {
            return None;
        }
        let value: u32 = data[1] as u32 + 256 * (data[2] as u32);
        proof {
            reveal_with_fuel(le_value, 3);
        }
        Some((value, 3))
    } else if marker == 0xFE {
        if data.len() < 5 {
            return None;
        }
        let low: u32 = data[1] as u32 + 256 * (data[2] as u32);
        let high: u32 = data[3] as u32 + 256 * (data[4] as u32);
        let value: u32 = low + 65536 * high;
        proof {
            reveal_with_fuel(le_value, 5);
        }
        Some((value, 5))
    } else {
        None
    }
}

/// Decoding reads back what was encoded, whatever follows it: the number
/// itself below 2^32, its low 32 bits otherwise.
pub proof fn lemma_varuint_roundtrip(n: nat, tail: Seq<u8>)
    ensures
        varuint_value(varuint(n) + tail) == Some((n % 0x1_0000_0000, varuint(n).len())),
{
    reveal_with_fuel(le_bytes, 5);
    reveal_with_fuel(le_value, 5);
}

} // verus!
