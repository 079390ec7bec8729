//! SQLite's variable-length integers: one to nine bytes, big-endian, seven
//! bits a byte with the high bit as continuation flag, except that a ninth
//! byte carries eight bits.

use crate::error::Error;
use vstd::prelude::*;

verus! {

/// `128^k`: how many values `k` seven-bit digits can tell apart.
pub open spec fn cap(k: nat) -> nat
    decreases k,
{
    if k == 0 {
        1
    } else {
        128 * cap((k - 1) as nat)
    }
}

/// What a reader finds that stands before byte `i` of `bytes` and has gathered
/// `acc` from the bytes before it: the value and the total length of the
/// varint, or `None` where the bytes end before the varint does.
pub open spec fn varint_from(bytes: Seq<u8>, i: nat, acc: nat) -> Option<(nat, nat)>
    decreases 9 - i,
{
    if i >= bytes.len() || i > 8 {
        None
    } else if i == 8 {
        Some((acc * 256 + bytes[i as int] as nat, 9nat))
    } else if bytes[i as int] < 128 {
        Some((acc * 128 + bytes[i as int] as nat, i + 1))
    } else {
        varint_from(bytes, i + 1, acc * 128 + (bytes[i as int] - 128) as nat)
    }
}

/// The varint at the start of `bytes`: its value and its length in bytes.
pub open spec fn spec_decode_varint(bytes: Seq<u8>) -> Option<(nat, nat)> {
    varint_from(bytes, 0, 0)
}

/// The number of bytes in the shortest varint that holds `v`.
pub open spec fn varint_width(v: u64) -> nat {
    if v < 0x80 {
        1
    } else if v < 0x4000 {
        2
    } else if v < 0x20_0000 {
        3
    } else if v < 0x1000_0000 {
        4
    } else if v < 0x8_0000_0000 {
        5
    } else if v < 0x400_0000_0000 {
        6
    } else if v < 0x2_0000_0000_0000 {
        7
    } else if v < 0x100_0000_0000_0000 {
        8
    } else {
        9
    }
}

/// The `k` low base-128 digits of `x`, most significant first, each with the
/// continuation flag set.
pub open spec fn continued(x: nat, k: nat) -> Seq<u8>
    decreases k,
{
    if k == 0 {
        Seq::empty()
    } else {
        continued(x / 128, (k - 1) as nat).push((128 + x % 128) as u8)
    }
}

/// The canonical (shortest) varint of `v`.
pub open spec fn spec_encode_varint(v: u64) -> Seq<u8> {
    let w = varint_width(v);
    if w <= 8 {
        continued(v as nat / 128, (w - 1) as nat).push((v % 128) as u8)
    } else {
        continued(v as nat / 256, 8).push((v % 256) as u8)
    }
}

/// The powers of 128 up to the eighth.
pub proof fn lemma_cap_values()
    ensures
        cap(0) == 1,
        cap(1) == 0x80,
        cap(2) == 0x4000,
        cap(3) == 0x20_0000,
        cap(4) == 0x1000_0000,
        cap(5) == 0x8_0000_0000,
        cap(6) == 0x400_0000_0000,
        cap(7) == 0x2_0000_0000_0000,
        cap(8) == 0x100_0000_0000_0000,
{
    reveal_with_fuel(cap, 9);
}

/// A varint is one to nine bytes long, lies within the bytes it was read
/// from, and its value fits 64 bits.
pub proof fn lemma_varint_bounds(bytes: Seq<u8>)
    ensures
        spec_decode_varint(bytes) matches Some((v, n)) ==> v <= u64::MAX && 1 <= n <= 9 && n
            <= bytes.len(),
{
    lemma_cap_values();
    lemma_varint_from_bounds(bytes, 0, 0);
}

proof fn lemma_varint_from_bounds(bytes: Seq<u8>, i: nat, acc: nat)
    requires
        i <= 8,
        acc < cap(i),
    ensures
        varint_from(bytes, i, acc) matches Some((v, n)) ==> v <= u64::MAX && i < n <= 9 && n
            <= bytes.len(),
    decreases 9 - i,
{
    lemma_cap_values();
    if i < bytes.len() && i < 8 && bytes[i as int] >= 128 {
        assert(cap(i + 1) == 128 * cap(i));
        lemma_varint_from_bounds(bytes, i + 1, acc * 128 + (bytes[i as int] - 128) as nat);
    } else if i < bytes.len() && i < 8 {
        assert(cap(i + 1) == 128 * cap(i)) by {
            reveal_with_fuel(cap, 2);
        }
        assert(cap(i + 1) <= cap(8)) by {
            lemma_cap_monotone(i + 1, 8);
        }
    }
}

proof fn lemma_cap_monotone(a: nat, b: nat)
    requires
        a <= b,
    ensures
        cap(a) <= cap(b),
        cap(a) >= 1,
    decreases b,
{
    if a < b {
        lemma_cap_monotone(a, (b - 1) as nat);
    } else if a > 0 {
        lemma_cap_monotone((a - 1) as nat, (a - 1) as nat);
    }
}

proof fn lemma_continued_len(x: nat, k: nat)
    ensures
        continued(x, k).len() == k,
    decreases k,
{
    if k > 0 {
        lemma_continued_len(x / 128, (k - 1) as nat);
    }
}

/// A reader that starts on `k` continued digits of `x` arrives behind them
/// with `x` gathered.
proof fn lemma_read_continued(x: nat, k: nat, rest: Seq<u8>)
    requires
        k <= 8,
        x < cap(k),
    ensures
        varint_from(continued(x, k) + rest, 0, 0) == varint_from(continued(x, k) + rest, k, x),
    decreases k,
{
    if k > 0 {
        let head = continued(x / 128, (k - 1) as nat);
        let digit = (128 + x % 128) as u8;
        let whole = continued(x, k) + rest;
        lemma_continued_len(x / 128, (k - 1) as nat);
        assert(whole =~= head + (seq![digit] + rest));
        lemma_read_continued(x / 128, (k - 1) as nat, seq![digit] + rest);
        assert(whole[k - 1] == digit);
    }
}

/// Reading the canonical varint of any 64-bit value gives the value back,
/// together with the width of that value; the width lies between one and
/// nine, and a value that needs all nine bytes comes back whole.
pub proof fn lemma_varint_round_trip(v: u64)
    ensures
        spec_decode_varint(spec_encode_varint(v)) == Some((v as nat, varint_width(v))),
        1 <= varint_width(v) <= 9,
        spec_encode_varint(v).len() == varint_width(v),
{
    lemma_cap_values();
    let w = varint_width(v);
    if w <= 8 {
        let x = v as nat / 128;
        let k = (w - 1) as nat;
        let last = seq![(v % 128) as u8];
        lemma_continued_len(x, k);
        assert(spec_encode_varint(v) =~= continued(x, k) + last);
        lemma_read_continued(x, k, last);
        assert((continued(x, k) + last)[k as int] == (v % 128) as u8);
    } else {
        let x = v as nat / 256;
        let last = seq![(v % 256) as u8];
        lemma_continued_len(x, 8);
        assert(spec_encode_varint(v) =~= continued(x, 8) + last);
        lemma_read_continued(x, 8, last);
        assert((continued(x, 8) + last)[8] == (v % 256) as u8);
    }
}

/// Reads the varint at the start of `data`: its value and the number of bytes
/// it takes. Fails where `data` ends before the varint does.
pub fn decode_varint(data: &[u8]) -> (r: Result<(u64, usize), Error>)
    ensures
        match spec_decode_varint(data@) {
            Some((v, n)) => r == Ok::<(u64, usize), Error>((v as u64, n as usize)) && v
                <= u64::MAX && 1 <= n <= 9 && n <= data@.len(),
            None => r == Err::<(u64, usize), Error>(Error::Decode),
        },
{
    let mut result: u64 = 0;
    let mut i: usize = 0;
    proof {
        lemma_varint_bounds(data@);
        lemma_cap_values();
    }
    while i < data.len() && i < 9
        invariant
            i <= 8,
            result < cap(i as nat),
            spec_decode_varint(data@) == varint_from(data@, i as nat, result as nat),
            spec_decode_varint(data@) matches Some((v, n)) ==> v <= u64::MAX && 1 <= n <= 9 && n
                <= data@.len(),
        decreases 9 - i,
    {
        let byte = data[i];
        proof {
            lemma_cap_values();
            lemma_cap_monotone(i as nat, 8);
            assert(cap((i + 1) as nat) == 128 * cap(i as nat)) by {
                reveal_with_fuel(cap, 2);
            }
        }
        if i == 8 {
            assert((result << 8) | (byte as u64) == result * 256 + byte) by (bit_vector)
                requires
                    result < 0x100_0000_0000_0000u64,
            ;
            return Ok(((result << 8) | (byte as u64), 9));
        }
        assert((result << 7) | ((byte & 0x7f) as u64) == result * 128 + byte % 128) by (bit_vector)
            requires
                result < 0x100_0000_0000_0000u64,
        ;
        result = (result << 7) | ((byte & 0x7f) as u64);
        if byte < 0x80 {
            return Ok((result, i + 1));
        }
        i += 1;
    }
    Err(Error::Decode)
}

fn push_continued(out: &mut Vec<u8>, x: u64, k: usize)
    ensures
        final(out)@ == old(out)@ + continued(x as nat, k as nat),
    decreases k,
{
    if k > 0 {
        push_continued(out, x / 128, k - 1);
        out.push(128 + (x % 128) as u8);
        assert(final(out)@ =~= old(out)@ + continued(x as nat, k as nat));
    } else {
        assert(out@ =~= old(out)@ + continued(x as nat, k as nat));
    }
}

/// Writes `v` as its canonical varint.
pub fn encode_varint(v: u64) -> (out: Vec<u8>)
    ensures
        out@ == spec_encode_varint(v),
{
    let w: usize = if v < 0x80 {
        1
    } else if v < 0x4000 {
        2
    } else if v < 0x20_0000 {
        3
    } else if v < 0x1000_0000 {
        4
    } else if v < 0x8_0000_0000 {
        5
    } else if v < 0x400_0000_0000 {
        6
    } else if v < 0x2_0000_0000_0000 {
        7
    } else if v < 0x100_0000_0000_0000 {
        8
    } else {
        9
    };
    let mut out: Vec<u8> = Vec::new();
    if w <= 8 {
        push_continued(&mut out, v / 128, w - 1);
        out.push((v % 128) as u8);
    } else {
        push_continued(&mut out, v / 256, 8);
        out.push((v % 256) as u8);
    }
    assert(out@ =~= spec_encode_varint(v));
    out
}

} // verus!
