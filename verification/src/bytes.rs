//! Big-endian integers of one to eight bytes.

use vstd::prelude::*;

verus! {

/// `256^n`.
pub open spec fn pow256(n: nat) -> nat
    decreases n,
{
    if n == 0 {
        1
    } else {
        256 * pow256((n - 1) as nat)
    }
}

/// The unsigned number that `bytes` spell, most significant byte first.
pub open spec fn be_unsigned(bytes: Seq<u8>) -> nat
    decreases bytes.len(),
{
    if bytes.len() == 0 {
        0
    } else {
        be_unsigned(bytes.drop_last()) * 256 + bytes.last() as nat
    }
}

/// The two's-complement number that `bytes` spell, most significant byte
/// first: a leading byte of 128 or more makes it negative.
pub open spec fn be_signed(bytes: Seq<u8>) -> int {
    if bytes.len() > 0 && bytes[0] >= 128 {
        be_unsigned(bytes) - pow256(bytes.len())
    } else {
        be_unsigned(bytes) as int
    }
}

/// The 64-bit pattern of a signed number.
pub open spec fn twos_complement(v: i64) -> u64 {
    if v >= 0 {
        v as u64
    } else {
        (v + 0x1_0000_0000_0000_0000) as u64
    }
}

/// The powers of 256 up to the eighth.
pub proof fn lemma_pow256_values()
    ensures
        pow256(0) == 1,
        pow256(1) == 0x100,
        pow256(2) == 0x1_0000,
        pow256(3) == 0x100_0000,
        pow256(4) == 0x1_0000_0000,
        pow256(5) == 0x100_0000_0000,
        pow256(6) == 0x1_0000_0000_0000,
        pow256(7) == 0x100_0000_0000_0000,
        pow256(8) == 0x1_0000_0000_0000_0000,
{
    reveal_with_fuel(pow256, 9);
}

/// A number of `n` bytes is below `256^n`, and its leading byte decides in
/// which half of that range it lies.
pub proof fn lemma_be_unsigned_bounds(bytes: Seq<u8>)
    ensures
        be_unsigned(bytes) < pow256(bytes.len()),
        bytes.len() > 0 && bytes[0] >= 128 ==> 2 * be_unsigned(bytes) >= pow256(bytes.len()),
        bytes.len() > 0 && bytes[0] < 128 ==> 2 * be_unsigned(bytes) + 2 <= pow256(bytes.len()),
    decreases bytes.len(),
{
    if bytes.len() > 0 {
        lemma_be_unsigned_bounds(bytes.drop_last());
        if bytes.len() > 1 {
            assert(bytes.drop_last()[0] == bytes[0]);
        } else {
            assert(be_unsigned(bytes.drop_last()) == 0);
            reveal_with_fuel(pow256, 2);
        }
    }
}

/// The signed reading of `n` bytes lies in the two's-complement range of
/// `n` bytes.
pub proof fn lemma_be_signed_bounds(bytes: Seq<u8>)
    ensures
        -(pow256(bytes.len()) as int) <= 2 * be_signed(bytes) < pow256(bytes.len()),
{
    lemma_be_unsigned_bounds(bytes);
}

/// Reads the `n` bytes of `data` from `start` on as an unsigned number.
pub fn read_be(data: &[u8], start: usize, n: usize) -> (v: u64)
    requires
        n <= 8,
        start + n <= data@.len(),
    ensures
        v == be_unsigned(data@.subrange(start as int, start + n)),
{
    let mut acc: u64 = 0;
    let mut i: usize = 0;
    while i < n
        invariant
            i <= n <= 8,
            start + n <= data.len(),
            acc == be_unsigned(data@.subrange(start as int, start + i)),
            acc < pow256(i as nat),
        decreases n - i,
    {
        proof {
            lemma_pow256_values();
            let longer = data@.subrange(start as int, start + i + 1);
            assert(longer.drop_last() =~= data@.subrange(start as int, start + i));
            assert(pow256((i + 1) as nat) == 256 * pow256(i as nat));
            lemma_pow256_monotone((i + 1) as nat, 8);
        }
        acc = acc * 256 + data[start + i] as u64;
        i += 1;
    }
    acc
}

proof fn lemma_pow256_monotone(a: nat, b: nat)
    requires
        a <= b,
    ensures
        pow256(a) <= pow256(b),
    decreases b,
{
    if a < b {
        lemma_pow256_monotone(a, (b - 1) as nat);
    }
}

/// Reads the `n` bytes of `data` from `start` on as a two's-complement number.
pub fn read_be_signed(data: &[u8], start: usize, n: usize) -> (v: i64)
    requires
        1 <= n <= 8,
        start + n <= data@.len(),
    ensures
        v == be_signed(data@.subrange(start as int, start + n)),
        -(pow256(n as nat) as int) <= 2 * v < pow256(n as nat),
{
    let u = read_be(data, start, n);
    proof {
        lemma_pow256_values();
        lemma_pow256_monotone(n as nat, 8);
        lemma_be_unsigned_bounds(data@.subrange(start as int, start + n));
    }
    if data[start] >= 128 {
        let mut full: u128 = 1;
        let mut i: usize = 0;
        while i < n
            invariant
                i <= n <= 8,
                full == pow256(i as nat),
            decreases n - i,
        {
            proof {
                lemma_pow256_values();
                lemma_pow256_monotone((i + 1) as nat, 8);
            }
            full = full * 256;
            i += 1;
        }
        (u as i128 - full as i128) as i64
    } else {
        u as i64
    }
}

/// The 64-bit pattern of `v`.
pub fn to_unsigned(v: i64) -> (u: u64)
    ensures
        u == twos_complement(v),
{
    if v >= 0 {
        v as u64
    } else {
        (v as i128 + 0x1_0000_0000_0000_0000i128) as u64
    }
}

} // verus!
