//! Fixed-width little-endian readers and small byte-level helpers used
//! by the record decoder.

use vstd::prelude::*;

verus! {

/// The 16-bit little-endian value at byte offset `off`.
pub open spec fn le_u16(b: Seq<u8>, off: int) -> int {
    b[off] + 0x100 * b[off + 1]
}

/// The 32-bit little-endian value at byte offset `off`.
pub open spec fn le_u32(b: Seq<u8>, off: int) -> int {
    b[off] + 0x100 * b[off + 1] + 0x1_0000 * b[off + 2] + 0x100_0000 * b[off + 3]
}

/// The 64-bit little-endian value at byte offset `off`.
pub open spec fn le_u64(b: Seq<u8>, off: int) -> int {
    b[off] + 0x100 * b[off + 1] + 0x1_0000 * b[off + 2] + 0x100_0000 * b[off + 3] + 0x1_0000_0000
        * b[off + 4] + 0x100_0000_0000 * b[off + 5] + 0x1_0000_0000_0000 * b[off + 6]
        + 0x100_0000_0000_0000 * b[off + 7]
}

/// The sequence of `n` 64-bit little-endian values starting at `off`.
pub open spec fn le_u64_seq(b: Seq<u8>, off: int, n: int) -> Seq<u64> {
    Seq::new(n as nat, |i: int| le_u64(b, off + 8 * i) as u64)
}

pub fn read_u16(buf: &Vec<u8>, off: usize) -> (r: u16)
    requires
        off + 2 <= buf@.len(),
    ensures
        r == le_u16(buf@, off as int),
{
    let _n = buf.len();
    buf[off] as u16 + 0x100 * (buf[off + 1] as u16)
}

pub fn read_u32(buf: &Vec<u8>, off: usize) -> (r: u32)
    requires
        off + 4 <= buf@.len(),
    ensures
        r == le_u32(buf@, off as int),
{
    let _n = buf.len();
    buf[off] as u32 + 0x100 * (buf[off + 1] as u32) + 0x1_0000 * (buf[off + 2] as u32)
        + 0x100_0000 * (buf[off + 3] as u32)
}

pub fn read_u64(buf: &Vec<u8>, off: usize) -> (r: u64)
    requires
        off + 8 <= buf@.len(),
    ensures
        r == le_u64(buf@, off as int),
{
    let _n = buf.len();
    buf[off] as u64 + 0x100 * (buf[off + 1] as u64) + 0x1_0000 * (buf[off + 2] as u64)
        + 0x100_0000 * (buf[off + 3] as u64) + 0x1_0000_0000 * (buf[off + 4] as u64)
        + 0x100_0000_0000 * (buf[off + 5] as u64) + 0x1_0000_0000_0000 * (buf[off + 6] as u64)
        + 0x100_0000_0000_0000 * (buf[off + 7] as u64)
}

/// Copies `buf[start..end]` into a fresh vector.
pub fn subvec(buf: &Vec<u8>, start: usize, end: usize) -> (r: Vec<u8>)
    requires
        start <= end <= buf@.len(),
    ensures
        r@ == buf@.subrange(start as int, end as int),
{
    let mut r: Vec<u8> = Vec::new();
    let mut i: usize = start;
    while i < end
        invariant
            start <= i <= end <= buf@.len(),
            r@ == buf@.subrange(start as int, i as int),
        decreases end - i,
    {
        r.push(buf[i]);
        i += 1;
        proof {
            assert(r@ =~= buf@.subrange(start as int, i as int));
        }
    }
    r
}

/// The number of leading bytes of `b` before its first zero byte; the
/// length of `b` when no byte is zero.
pub open spec fn cstr_len(b: Seq<u8>) -> int
    decreases b.len(),
{
    if b.len() == 0 {
        0
    } else if b[0] == 0 {
        0
    } else {
        1 + cstr_len(b.drop_first())
    }
}

/// The leading bytes of `b` before its first zero byte: the content of a
/// zero-terminated, zero-padded string field.
pub open spec fn cstr(b: Seq<u8>) -> Seq<u8> {
    b.take(cstr_len(b))
}

/// `cstr_len` is the position of the first zero byte.
pub proof fn lemma_cstr_len_at(b: Seq<u8>, k: int)
    requires
        0 <= k <= b.len(),
        forall|j: int| 0 <= j < k ==> b[j] != 0,
        k < b.len() ==> b[k] == 0,
    ensures
        cstr_len(b) == k,
    decreases k,
{
    if b.len() == 0 {
    } else if k == 0 {
    } else {
        lemma_cstr_len_at(b.drop_first(), k - 1);
    }
}

/// Extracts the leading zero-terminated string of `buf[start..end]`.
pub fn read_cstr(buf: &Vec<u8>, start: usize, end: usize) -> (r: Vec<u8>)
    requires
        start <= end <= buf@.len(),
    ensures
        r@ == cstr(buf@.subrange(start as int, end as int)),
{
    let ghost field = buf@.subrange(start as int, end as int);
    let mut i: usize = start;
    while i < end && buf[i] != 0
        invariant
            start <= i <= end <= buf@.len(),
            forall|j: int| start <= j < i ==> buf@[j] != 0,
        decreases end - i,
    {
        i += 1;
    }
    proof {
        lemma_cstr_len_at(field, i - start);
    }
    subvec(buf, start, i)
}

/// The number of set bits in `n`.
pub open spec fn spec_popcount(n: nat) -> nat
    decreases n,
{
    if n == 0 {
        0
    } else {
        (n % 2) + spec_popcount(n / 2)
    }
}

/// A value below `pow2(bits)` has at most `bits` set bits.
pub proof fn lemma_popcount_bound(n: nat, bits: nat)
    requires
        n < vstd::arithmetic::power2::pow2(bits),
    ensures
        spec_popcount(n) <= bits,
    decreases bits,
{
    if n == 0 {
    } else {
        assert(bits > 0) by {
            if bits == 0 {
                vstd::arithmetic::power2::lemma2_to64();
            }
        }
        vstd::arithmetic::power2::lemma_pow2_unfold(bits);
        lemma_popcount_bound(n / 2, (bits - 1) as nat);
    }
}

/// Counts the set bits of `x`.
pub fn popcount64(x: u64) -> (r: u32)
    ensures
        r == spec_popcount(x as nat),
        r <= 64,
{
    proof {
        vstd::arithmetic::power2::lemma2_to64_rest();
        assert(x < vstd::arithmetic::power2::pow2(64));
        lemma_popcount_bound(x as nat, 64);
    }
    let mut rest: u64 = x;
    let mut count: u32 = 0;
    while rest > 0
        invariant
            count + spec_popcount(rest as nat) == spec_popcount(x as nat),
            spec_popcount(x as nat) <= 64,
        decreases rest,
    {
        count = count + (rest % 2) as u32;
        rest = rest / 2;
    }
    count
}

} // verus!
