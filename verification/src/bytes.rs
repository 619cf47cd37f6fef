//! Little-endian integers in byte strings.

use vstd::prelude::*;

verus! {

/// 256 to the power `n`.
pub open spec fn pow256(n: nat) -> nat
    decreases n,
{
    if n == 0 {
        1
    } else {
        256 * pow256((n - 1) as nat)
    }
}

/// The number that `bytes` spells, least significant byte first.
pub open spec fn le_value(bytes: Seq<u8>) -> nat
    decreases bytes.len(),
{
    if bytes.len() == 0 {
        0
    } else {
        bytes[0] as nat + 256 * le_value(bytes.drop_first())
    }
}

/// The `width` low bytes of `value`, least significant byte first.
pub open spec fn le_bytes(value: nat, width: nat) -> Seq<u8>
    decreases width,
{
    if width == 0 {
        Seq::empty()
    } else {
        seq![(value % 256) as u8] + le_bytes(value / 256, (width - 1) as nat)
    }
}

/// The unsigned number whose low 128 bits spell `value` in two's complement.
pub open spec fn twos_complement_128(value: int) -> nat {
    if value >= 0 {
        value as nat
    } else {
        (value + 0x1_0000_0000_0000_0000_0000_0000_0000_0000) as nat
    }
}

pub proof fn lemma_pow256_monotonic(a: nat, b: nat)
    requires
        a <= b,
    ensures
        pow256(a) <= pow256(b),
        pow256(a) >= 1,
    decreases b,
{
    if a < b {
        lemma_pow256_monotonic(a, (b - 1) as nat);
    } else if a > 0 {
        lemma_pow256_monotonic((a - 1) as nat, (a - 1) as nat);
    }
}

pub proof fn lemma_pow256_values()
    ensures
        pow256(2) == 0x1_0000,
        pow256(4) == 0x1_0000_0000,
        pow256(8) == 0x1_0000_0000_0000_0000,
        pow256(16) == 0x1_0000_0000_0000_0000_0000_0000_0000_0000,
{
    reveal_with_fuel(pow256, 3);
    assert(pow256(2) == 0x1_0000);
    assert(pow256(4) == 0x1_0000 * pow256(2));
    assert(pow256(6) == 0x1_0000 * pow256(4));
    assert(pow256(8) == 0x1_0000 * pow256(6));
    assert(pow256(10) == 0x1_0000 * pow256(8));
    assert(pow256(12) == 0x1_0000 * pow256(10));
    assert(pow256(14) == 0x1_0000 * pow256(12));
    assert(pow256(16) == 0x1_0000 * pow256(14));
}

/// `le_bytes` has the width asked for.
pub proof fn lemma_le_bytes_len(value: nat, width: nat)
    ensures
        le_bytes(value, width).len() == width,
    decreases width,
{
    if width > 0 {
        lemma_le_bytes_len(value / 256, (width - 1) as nat);
    }
}

/// Reading back what `le_bytes` wrote gives the number, where it fits the width.
pub proof fn lemma_le_round_trip(value: nat, width: nat)
    requires
        value < pow256(width),
    ensures
        le_value(le_bytes(value, width)) == value,
    decreases width,
{
    if width > 0 {
        lemma_le_round_trip(value / 256, (width - 1) as nat);
        assert(le_bytes(value, width).drop_first() =~= le_bytes(value / 256, (width - 1) as nat));
    }
}

/// Reads `width` bytes at `at` as a little-endian number.
pub fn read_le(data: &[u8], at: usize, width: usize) -> (r: u128)
    requires
        width <= 16,
        at + width <= data@.len(),
    ensures
        r as nat == le_value(data@.subrange(at as int, at + width)),
        r < pow256(width as nat),
{
    let mut acc: u128 = 0;
    let mut i: usize = width;
    let len = data.len();
    proof {
        assert(data@.subrange(at + width, at + width).len() == 0);
    }
    while i > 0
        invariant
            i <= width <= 16,
            at + width <= data@.len() == len,
            acc as nat == le_value(data@.subrange(at + i, at + width)),
            acc < pow256((width - i) as nat),
        decreases i,
    {
        i -= 1;
        let b = data[at + i];
        proof {
            let tail = data@.subrange(at + i, at + width);
            assert(tail.drop_first() =~= data@.subrange(at + i + 1, at + width));
            assert(tail[0] == b);
            lemma_pow256_monotonic((width - i) as nat, 16);
            lemma_pow256_values();
        }
        acc = acc * 256 + b as u128;
    }
    acc
}

/// Reads the `u16` stored at `at`.
pub fn read_u16(data: &[u8], at: usize) -> (r: u16)
    requires
        at + 2 <= data@.len(),
    ensures
        r as nat == le_value(data@.subrange(at as int, at + 2)),
{
    let v = read_le(data, at, 2);
    proof {
        lemma_pow256_values();
    }
    v as u16
}

/// Reads the `u32` stored at `at`.
pub fn read_u32(data: &[u8], at: usize) -> (r: u32)
    requires
        at + 4 <= data@.len(),
    ensures
        r as nat == le_value(data@.subrange(at as int, at + 4)),
{
    let v = read_le(data, at, 4);
    proof {
        lemma_pow256_values();
    }
    v as u32
}

/// Reads the `u64` stored at `at`.
pub fn read_u64(data: &[u8], at: usize) -> (r: u64)
    requires
        at + 8 <= data@.len(),
    ensures
        r as nat == le_value(data@.subrange(at as int, at + 8)),
{
    let v = read_le(data, at, 8);
    proof {
        lemma_pow256_values();
    }
    v as u64
}

/// The unsigned number whose low 64 bits spell `value` in two's complement.
pub open spec fn twos_complement_64(value: int) -> nat {
    if value >= 0 {
        value as nat
    } else {
        (value + 0x1_0000_0000_0000_0000) as nat
    }
}

/// Reads the `i64` stored at `at` in two's complement.
pub fn read_i64(data: &[u8], at: usize) -> (r: i64)
    requires
        at + 8 <= data@.len(),
    ensures
        twos_complement_64(r as int) == le_value(data@.subrange(at as int, at + 8)),
{
    let v = read_le(data, at, 8);
    proof {
        lemma_pow256_values();
    }
    if v <= 0x7fff_ffff_ffff_ffff {
        v as i64
    } else {
        let below: u128 = 0xffff_ffff_ffff_ffff - v;
        -1 - (below as i64)
    }
}

/// Reads the 32 bytes stored at `at`.
pub fn read_array_32(data: &[u8], at: usize) -> (r: [u8; 32])
    requires
        at + 32 <= data@.len(),
    ensures
        r@ == data@.subrange(at as int, at + 32),
{
    let len = data.len();
    let mut bytes = [0u8; 32];
    let mut i: usize = 0;
    while i < 32
        invariant
            i <= 32,
            at + 32 <= data@.len() == len,
            forall|j: int| 0 <= j < i ==> bytes[j] == data[at + j],
        decreases 32 - i,
    {
        bytes[i] = data[at + i];
        i += 1;
    }
    assert(bytes@ =~= data@.subrange(at as int, at + 32));
    bytes
}

/// Reads the 64 bytes stored at `at`.
pub fn read_array_64(data: &[u8], at: usize) -> (r: [u8; 64])
    requires
        at + 64 <= data@.len(),
    ensures
        r@ == data@.subrange(at as int, at + 64),
{
    let len = data.len();
    let mut bytes = [0u8; 64];
    let mut i: usize = 0;
    while i < 64
        invariant
            i <= 64,
            at + 64 <= data@.len() == len,
            forall|j: int| 0 <= j < i ==> bytes[j] == data[at + j],
        decreases 64 - i,
    {
        bytes[i] = data[at + i];
        i += 1;
    }
    assert(bytes@ =~= data@.subrange(at as int, at + 64));
    bytes
}

/// Reads the `i128` stored at `at` in two's complement.
pub fn read_i128(data: &[u8], at: usize) -> (r: i128)
    requires
        at + 16 <= data@.len(),
    ensures
        twos_complement_128(r as int) == le_value(data@.subrange(at as int, at + 16)),
{
    let v = read_le(data, at, 16);
    proof {
        lemma_pow256_values();
    }
    if v <= 0x7fff_ffff_ffff_ffff_ffff_ffff_ffff_ffff {
        v as i128
    } else {
        let below: u128 = 0xffff_ffff_ffff_ffff_ffff_ffff_ffff_ffff - v;
        -1 - (below as i128)
    }
}

/// Appends the `width` low bytes of `value`, least significant byte first.
pub fn push_le(out: &mut Vec<u8>, value: u128, width: usize)
    ensures
        final(out)@ == old(out)@ + le_bytes(value as nat, width as nat),
{
    let mut rest: u128 = value;
    let mut i: usize = 0;
    assert(out@ + le_bytes(value as nat, width as nat) =~= old(out)@ + le_bytes(
        value as nat,
        width as nat,
    ));
    while i < width
        invariant
            i <= width,
            out@ + le_bytes(rest as nat, (width - i) as nat) == old(out)@ + le_bytes(
                value as nat,
                width as nat,
            ),
        decreases width - i,
    {
        let ghost before = out@;
        out.push((rest % 256) as u8);
        proof {
            assert(before + le_bytes(rest as nat, (width - i) as nat) =~= out@ + le_bytes(
                (rest / 256) as nat,
                (width - i - 1) as nat,
            ));
        }
        rest = rest / 256;
        i += 1;
    }
    assert(out@ + le_bytes(rest as nat, 0) =~= out@);
}

/// Appends an `i128` in two's complement, least significant byte first.
pub fn push_i128(out: &mut Vec<u8>, value: i128)
    ensures
        final(out)@ == old(out)@ + le_bytes(twos_complement_128(value as int), 16),
{
    if value >= 0 {
        push_le(out, value as u128, 16);
    } else {
        let below: u128 = (-(value + 1)) as u128;
        push_le(out, 0xffff_ffff_ffff_ffff_ffff_ffff_ffff_ffff - below, 16);
    }
}

/// Appends every byte of `bytes`.
pub fn push_all(out: &mut Vec<u8>, bytes: &[u8])
    ensures
        final(out)@ == old(out)@ + bytes@,
{
    let mut i: usize = 0;
    assert(out@ =~= old(out)@ + bytes@.subrange(0, 0));
    while i < bytes.len()
        invariant
            i <= bytes@.len(),
            out@ == old(out)@ + bytes@.subrange(0, i as int),
        decreases bytes@.len() - i,
    {
        out.push(bytes[i]);
        assert(out@ =~= old(out)@ + bytes@.subrange(0, i + 1));
        i += 1;
    }
    assert(bytes@.subrange(0, i as int) =~= bytes@);
}

} // verus!
