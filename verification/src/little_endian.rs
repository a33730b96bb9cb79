//! Little-endian integer fields read out of raw account bytes.

use vstd::prelude::*;

verus! {

/// The value of a byte string read as a little-endian natural number.
pub open spec fn le_nat(s: Seq<u8>) -> nat
    decreases s.len(),
{
    if s.len() == 0 {
        0
    } else {
        s[0] as nat + 256 * le_nat(s.subrange(1, s.len() as int))
    }
}

/// 256 raised to the given power: the bound on an n-byte little-endian value.
pub open spec fn pow256(n: nat) -> nat
    decreases n,
{
    if n == 0 {
        1
    } else {
        256 * pow256((n - 1) as nat)
    }
}

/// An n-byte little-endian value is below 256^n.
pub proof fn lemma_le_nat_bound(s: Seq<u8>)
    ensures
        le_nat(s) < pow256(s.len()),
    decreases s.len(),
{
    if s.len() > 0 {
        lemma_le_nat_bound(s.subrange(1, s.len() as int));
    }
}

/// The concrete powers of 256 up to a 16-byte field.
pub proof fn lemma_pow256_values()
    ensures
        pow256(4) == 0x1_0000_0000,
        pow256(7) == 0x100_0000_0000_0000,
        pow256(8) == 0x1_0000_0000_0000_0000,
        pow256(15) == 0x100_0000_0000_0000_0000_0000_0000_0000,
        pow256(16) == 0x1_0000_0000_0000_0000_0000_0000_0000_0000,
{
    assert(pow256(0) == 1);
    assert(pow256(1) == 256);
    assert(pow256(2) == 0x1_0000);
    assert(pow256(3) == 0x100_0000);
    assert(pow256(4) == 0x1_0000_0000);
    assert(pow256(5) == 0x100_0000_0000);
    assert(pow256(6) == 0x1_0000_0000_0000);
    assert(pow256(7) == 0x100_0000_0000_0000);
    assert(pow256(8) == 0x1_0000_0000_0000_0000);
    assert(pow256(9) == 0x100_0000_0000_0000_0000);
    assert(pow256(10) == 0x1_0000_0000_0000_0000_0000);
    assert(pow256(11) == 0x100_0000_0000_0000_0000_0000);
    assert(pow256(12) == 0x1_0000_0000_0000_0000_0000_0000);
    assert(pow256(13) == 0x100_0000_0000_0000_0000_0000_0000);
    assert(pow256(14) == 0x1_0000_0000_0000_0000_0000_0000_0000);
    assert(pow256(15) == 0x100_0000_0000_0000_0000_0000_0000_0000);
    assert(pow256(16) == 0x1_0000_0000_0000_0000_0000_0000_0000_0000);
}

/// The 4-byte little-endian field at `off`.
pub open spec fn le_u32_at(data: Seq<u8>, off: int) -> nat {
    le_nat(data.subrange(off, off + 4))
}

/// The 8-byte little-endian field at `off`.
pub open spec fn le_u64_at(data: Seq<u8>, off: int) -> nat {
    le_nat(data.subrange(off, off + 8))
}

/// The 16-byte little-endian field at `off`.
pub open spec fn le_u128_at(data: Seq<u8>, off: int) -> nat {
    le_nat(data.subrange(off, off + 16))
}

/// The `n` raw bytes at `off`.
pub open spec fn bytes_at(data: Seq<u8>, off: int, n: int) -> Seq<u8> {
    data.subrange(off, off + n)
}

/// Reads the little-endian value of `data[off .. off + n]`, for `n <= 16`.
fn read_le(data: &Vec<u8>, off: usize, n: usize) -> (r: u128)
    requires
        n <= 16,
        off + n <= data@.len(),
    ensures
        r as nat == le_nat(data@.subrange(off as int, off as int + n as int)),
{
    proof {
        lemma_pow256_values();
    }
    let data_len: usize = data.len();
    let mut i: usize = n;
    let mut acc: u128 = 0;
    while i > 0
        invariant
            n <= 16,
            off + n <= data@.len(),
            data@.len() == data_len,
            0 <= i <= n,
            acc as nat == le_nat(data@.subrange(off + i, off as int + n as int)),
            (acc as nat) < pow256((n - i) as nat),
            pow256(16) == 0x1_0000_0000_0000_0000_0000_0000_0000_0000,
        decreases i,
    {
        i = i - 1;
        let ghost s = data@.subrange(off + i, off as int + n as int);
        proof {
            assert(s.subrange(1, s.len() as int) =~= data@.subrange(
                off + i + 1,
                off as int + n as int,
            ));
            assert(le_nat(s) == s[0] as nat + 256 * le_nat(s.subrange(1, s.len() as int)));
            lemma_pow256_mono((n - i - 1) as nat, 15);
        }
        acc = acc * 256 + data[off + i] as u128;
    }
    acc
}

/// pow256 never decreases as the exponent grows.
proof fn lemma_pow256_mono(a: nat, b: nat)
    requires
        a <= b,
    ensures
        pow256(a) <= pow256(b),
    decreases b,
{
    if a < b {
        lemma_pow256_mono(a, (b - 1) as nat);
    }
}

/// Reads the 4-byte little-endian field at `off`.
pub fn read_u32_le(data: &Vec<u8>, off: usize) -> (r: u32)
    requires
        off + 4 <= data@.len(),
    ensures
        r as nat == le_u32_at(data@, off as int),
{
    proof {
        lemma_pow256_values();
        lemma_le_nat_bound(data@.subrange(off as int, off as int + 4));
        lemma_pow256_mono(4, 16);
    }
    read_le(data, off, 4) as u32
}

/// Reads the 8-byte little-endian field at `off`.
pub fn read_u64_le(data: &Vec<u8>, off: usize) -> (r: u64)
    requires
        off + 8 <= data@.len(),
    ensures
        r as nat == le_u64_at(data@, off as int),
{
    proof {
        lemma_pow256_values();
        lemma_le_nat_bound(data@.subrange(off as int, off as int + 8));
        lemma_pow256_mono(8, 16);
    }
    read_le(data, off, 8) as u64
}

/// Reads the 16-byte little-endian field at `off`.
pub fn read_u128_le(data: &Vec<u8>, off: usize) -> (r: u128)
    requires
        off + 16 <= data@.len(),
    ensures
        r as nat == le_u128_at(data@, off as int),
{
    proof {
        lemma_le_nat_bound(data@.subrange(off as int, off as int + 16));
    }
    read_le(data, off, 16)
}

} // verus!
