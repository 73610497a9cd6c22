//! Big-endian conversion between byte sequences and unsigned integers.

use vstd::prelude::*;
use vstd::array::array_as_slice;
use vstd::slice::slice_subrange;

verus! {

/// The unsigned number that the bytes of `s` spell in big-endian order.
pub open spec fn be_value(s: Seq<u8>) -> nat
    decreases s.len(),
{
    if s.len() == 0 {
        0
    } else {
        (be_value(s.drop_last()) * 256 + s.last()) as nat
    }
}

/// `256` raised to the power `n`: the number of values that `n` bytes can spell.
pub open spec fn pow256(n: nat) -> nat
    decreases n,
{
    if n == 0 {
        1
    } else {
        256 * pow256((n - 1) as nat)
    }
}

/// The two bytes of `v`, most significant first.
pub open spec fn u16_bytes(v: u16) -> Seq<u8> {
    seq![(v >> 8u16) as u8, v as u8]
}

/// The four bytes of `v`, most significant first.
pub open spec fn u32_bytes(v: u32) -> Seq<u8> {
    u16_bytes((v >> 16u32) as u16) + u16_bytes(v as u16)
}

/// The eight bytes of `v`, most significant first.
pub open spec fn u64_bytes(v: u64) -> Seq<u8> {
    u32_bytes((v >> 32u64) as u32) + u32_bytes(v as u32)
}

/// The sixteen bytes of `v`, most significant first.
pub open spec fn u128_bytes(v: u128) -> Seq<u8> {
    u64_bytes((v >> 64u128) as u64) + u64_bytes(v as u64)
}

/// Appending bytes shifts what stands before them by one byte per byte appended.
pub proof fn lemma_be_value_concat(a: Seq<u8>, b: Seq<u8>)
    ensures
        be_value(a + b) == be_value(a) * pow256(b.len()) + be_value(b),
    decreases b.len(),
{
    if b.len() == 0 {
        assert(a + b =~= a);
        assert(be_value(b) == 0 && pow256(0) == 1);
    } else {
        let b0 = b.drop_last();
        lemma_be_value_concat(a, b0);
        assert((a + b).drop_last() =~= a + b0);
        assert((a + b).last() == b.last());
        assert(be_value(a + b) == be_value(a + b0) * 256 + b.last());
        assert(be_value(b) == be_value(b0) * 256 + b.last());
        assert(pow256(b.len()) == 256 * pow256(b0.len()));
        let va = be_value(a) as int;
        let p = pow256(b0.len()) as int;
        let vb0 = be_value(b0) as int;
        assert((va * p + vb0) * 256 + b.last() == va * (256 * p) + (vb0 * 256 + b.last()))
            by (nonlinear_arith);
    }
}

/// A number spelled by `n` bytes is below `256` to the power `n`.
pub proof fn lemma_be_value_bound(s: Seq<u8>)
    ensures
        be_value(s) < pow256(s.len()),
    decreases s.len(),
{
    if s.len() == 0 {
        assert(be_value(s) == 0 && pow256(0) == 1);
    } else {
        let d = s.drop_last();
        lemma_be_value_bound(d);
        assert(be_value(s) == be_value(d) * 256 + s.last());
        assert(pow256(s.len()) == 256 * pow256(d.len()));
        let v = be_value(d) as int;
        let p = pow256(d.len()) as int;
        let l = s.last() as int;
        assert(v < p && l < 256 ==> v * 256 + l < 256 * p) by (nonlinear_arith);
    }
}

/// The powers of `256` that the fixed widths use.
pub proof fn lemma_pow256_widths()
    ensures
        pow256(2) == 0x1_0000,
        pow256(4) == 0x1_0000_0000,
        pow256(8) == 0x1_0000_0000_0000_0000,
        pow256(16) == 0x1_0000_0000_0000_0000_0000_0000_0000_0000,
{
    assert(pow256(0) == 1);
    assert(pow256(1) == 0x100);
    assert(pow256(2) == 0x1_0000);
    assert(pow256(3) == 0x100_0000);
    assert(pow256(4) == 0x1_0000_0000);
    assert(pow256(5) == 0x100_0000_0000);
    assert(pow256(6) == 0x1_0000_0000_0000);
    assert(pow256(7) == 0x100_0000_0000_0000);
    assert(pow256(8) == 0x1_0000_0000_0000_0000);
    assert(pow256(9) == 0x100_0000_0000_0000_0000);
    assert(pow256(10) == 0x1_0000_0000_0000_0000_0000);
    assert(pow256(11) == 0x100_0000_0000_0000_0000_0000);
    assert(pow256(12) == 0x1_0000_0000_0000_0000_0000_0000);
    assert(pow256(13) == 0x100_0000_0000_0000_0000_0000_0000);
    assert(pow256(14) == 0x1_0000_0000_0000_0000_0000_0000_0000);
    assert(pow256(15) == 0x100_0000_0000_0000_0000_0000_0000_0000);
    assert(pow256(16) == 0x1_0000_0000_0000_0000_0000_0000_0000_0000);
}

/// Splits the first `n` bytes of `s` at `k` for `be_value`.
proof fn lemma_be_value_split(s: Seq<u8>, k: int, n: int)
    requires
        0 <= k <= n <= s.len(),
    ensures
        be_value(s.subrange(0, n)) == be_value(s.subrange(0, k)) * pow256((n - k) as nat)
            + be_value(s.subrange(k, n)),
{
    assert(s.subrange(0, n) =~= s.subrange(0, k) + s.subrange(k, n));
    lemma_be_value_concat(s.subrange(0, k), s.subrange(k, n));
}

/// Reads the first two bytes of `buf` as a big-endian number.
pub fn format_bytes16(buf: &[u8]) -> (r: u16)
    requires
        buf@.len() >= 2,
    ensures
        r == be_value(buf@.subrange(0, 2)),
{
    let b0 = buf[0];
    let b1 = buf[1];
    proof {
        let s = buf@.subrange(0, 2);
        assert(s[0] == b0 && s[1] == b1);
        assert(be_value(s.drop_last().drop_last()) == 0);
        assert(be_value(s.drop_last()) == b0);
        assert(((b0 as u16) << 8u16) | (b1 as u16) == b0 * 256 + b1) by (bit_vector);
    }
    ((b0 as u16) << 8u16) | (b1 as u16)
}

/// Reads the first four bytes of `buf` as a big-endian number.
pub fn format_bytes32(buf: &[u8]) -> (r: u32)
    requires
        buf@.len() >= 4,
    ensures
        r == be_value(buf@.subrange(0, 4)),
{
    let hi_bytes = slice_subrange(buf, 0, 2);
    let lo_bytes = slice_subrange(buf, 2, 4);
    let hi = format_bytes16(hi_bytes);
    let lo = format_bytes16(lo_bytes);
    proof {
        assert(hi_bytes@.subrange(0, 2) =~= buf@.subrange(0, 2));
        assert(lo_bytes@.subrange(0, 2) =~= buf@.subrange(2, 4));
        lemma_be_value_split(buf@, 2, 4);
        lemma_pow256_widths();
        assert(((hi as u32) << 16u32) | (lo as u32) == hi * 0x1_0000 + lo) by (bit_vector);
    }
    ((hi as u32) << 16u32) | (lo as u32)
}

/// Reads the first eight bytes of `buf` as a big-endian number.
pub fn format_bytes64(buf: &[u8]) -> (r: u64)
    requires
        buf@.len() >= 8,
    ensures
        r == be_value(buf@.subrange(0, 8)),
{
    let hi_bytes = slice_subrange(buf, 0, 4);
    let lo_bytes = slice_subrange(buf, 4, 8);
    let hi = format_bytes32(hi_bytes);
    let lo = format_bytes32(lo_bytes);
    proof {
        assert(hi_bytes@.subrange(0, 4) =~= buf@.subrange(0, 4));
        assert(lo_bytes@.subrange(0, 4) =~= buf@.subrange(4, 8));
        lemma_be_value_split(buf@, 4, 8);
        lemma_pow256_widths();
        assert(((hi as u64) << 32u64) | (lo as u64) == hi * 0x1_0000_0000 + lo) by (bit_vector);
    }
    ((hi as u64) << 32u64) | (lo as u64)
}

/// Reads the twelve bytes of `buf` as a big-endian 96-bit number.
pub fn format_bytes96(buf: &[u8; 12]) -> (r: u128)
    ensures
        r == be_value(buf@),
        r < 0x1_0000_0000_0000_0000_0000_0000,
{
    let all = array_as_slice(buf);
    let a_bytes = slice_subrange(all, 0, 4);
    let b_bytes = slice_subrange(all, 4, 8);
    let c_bytes = slice_subrange(all, 8, 12);
    let a = format_bytes32(a_bytes);
    let b = format_bytes32(b_bytes);
    let c = format_bytes32(c_bytes);
    proof {
        let s = buf@;
        assert(a_bytes@.subrange(0, 4) =~= s.subrange(0, 4));
        assert(b_bytes@.subrange(0, 4) =~= s.subrange(4, 8));
        assert(c_bytes@.subrange(0, 4) =~= s.subrange(8, 12));
        assert(s.subrange(0, 12) =~= s);
        lemma_be_value_split(s, 8, 12);
        lemma_be_value_split(s, 4, 8);
        assert(s.subrange(0, 8).subrange(0, 4) =~= s.subrange(0, 4));
        lemma_pow256_widths();
        assert(((a as u128) << 64u128) | ((b as u128) << 32u128) | (c as u128)
            == (a * 0x1_0000_0000 + b) * 0x1_0000_0000 + c) by (bit_vector);
        assert((a * 0x1_0000_0000 + b) * 0x1_0000_0000 + c < 0x1_0000_0000_0000_0000_0000_0000)
            by (nonlinear_arith);
    }
    ((a as u128) << 64u128) | ((b as u128) << 32u128) | (c as u128)
}

/// Reads the first sixteen bytes of `buf` as a big-endian number.
pub fn format_bytes128(buf: &[u8]) -> (r: u128)
    requires
        buf@.len() >= 16,
    ensures
        r == be_value(buf@.subrange(0, 16)),
{
    let hi_bytes = slice_subrange(buf, 0, 8);
    let lo_bytes = slice_subrange(buf, 8, 16);
    let hi = format_bytes64(hi_bytes);
    let lo = format_bytes64(lo_bytes);
    proof {
        assert(hi_bytes@.subrange(0, 8) =~= buf@.subrange(0, 8));
        assert(lo_bytes@.subrange(0, 8) =~= buf@.subrange(8, 16));
        lemma_be_value_split(buf@, 8, 16);
        lemma_pow256_widths();
        assert(((hi as u128) << 64u128) | (lo as u128) == hi * 0x1_0000_0000_0000_0000 + lo)
            by (bit_vector);
    }
    ((hi as u128) << 64u128) | (lo as u128)
}

/// Reading back the bytes of a 16-bit number gives the number.
pub proof fn lemma_u16_bytes_value(v: u16)
    ensures
        u16_bytes(v).len() == 2,
        be_value(u16_bytes(v)) == v,
{
    let s = u16_bytes(v);
    assert(s.drop_last().drop_last().len() == 0);
    assert(be_value(s.drop_last().drop_last()) == 0);
    assert(be_value(s.drop_last()) == (v >> 8u16) as u8);
    assert(((v >> 8u16) as u8) * 256 + (v as u8) == v) by (bit_vector);
}

/// Reading back the bytes of a 32-bit number gives the number.
pub proof fn lemma_u32_bytes_value(v: u32)
    ensures
        u32_bytes(v).len() == 4,
        be_value(u32_bytes(v)) == v,
{
    let hi = (v >> 16u32) as u16;
    let lo = v as u16;
    lemma_u16_bytes_value(hi);
    lemma_u16_bytes_value(lo);
    lemma_be_value_concat(u16_bytes(hi), u16_bytes(lo));
    lemma_pow256_widths();
    assert(((v >> 16u32) as u16) * 0x1_0000 + (v as u16) == v) by (bit_vector);
}

/// Reading back the bytes of a 64-bit number gives the number.
pub proof fn lemma_u64_bytes_value(v: u64)
    ensures
        u64_bytes(v).len() == 8,
        be_value(u64_bytes(v)) == v,
{
    let hi = (v >> 32u64) as u32;
    let lo = v as u32;
    lemma_u32_bytes_value(hi);
    lemma_u32_bytes_value(lo);
    lemma_be_value_concat(u32_bytes(hi), u32_bytes(lo));
    lemma_pow256_widths();
    assert(((v >> 32u64) as u32) * 0x1_0000_0000 + (v as u32) == v) by (bit_vector);
}

/// Reading back the bytes of a 128-bit number gives the number.
pub proof fn lemma_u128_bytes_value(v: u128)
    ensures
        u128_bytes(v).len() == 16,
        be_value(u128_bytes(v)) == v,
{
    let hi = (v >> 64u128) as u64;
    let lo = v as u64;
    lemma_u64_bytes_value(hi);
    lemma_u64_bytes_value(lo);
    lemma_be_value_concat(u64_bytes(hi), u64_bytes(lo));
    lemma_pow256_widths();
    assert(((v >> 64u128) as u64) * 0x1_0000_0000_0000_0000 + (v as u64) == v) by (bit_vector);
}

/// Appends the two bytes of `v`, most significant first.
pub fn push_u16(out: &mut Vec<u8>, v: u16)
    ensures
        final(out)@ == old(out)@ + u16_bytes(v),
{
    out.push((v >> 8u16) as u8);
    out.push(v as u8);
    assert(final(out)@ =~= old(out)@ + u16_bytes(v));
}

/// Appends the four bytes of `v`, most significant first.
pub fn push_u32(out: &mut Vec<u8>, v: u32)
    ensures
        final(out)@ == old(out)@ + u32_bytes(v),
{
    push_u16(out, (v >> 16u32) as u16);
    push_u16(out, v as u16);
    assert(final(out)@ =~= old(out)@ + u32_bytes(v));
}

/// Appends the eight bytes of `v`, most significant first.
pub fn push_u64(out: &mut Vec<u8>, v: u64)
    ensures
        final(out)@ == old(out)@ + u64_bytes(v),
{
    push_u32(out, (v >> 32u64) as u32);
    push_u32(out, v as u32);
    assert(final(out)@ =~= old(out)@ + u64_bytes(v));
}

/// Appends the sixteen bytes of `v`, most significant first.
pub fn push_u128(out: &mut Vec<u8>, v: u128)
    ensures
        final(out)@ == old(out)@ + u128_bytes(v),
{
    push_u64(out, (v >> 64u128) as u64);
    push_u64(out, v as u64);
    assert(final(out)@ =~= old(out)@ + u128_bytes(v));
}

/// Appends the bytes of `s` in order.
pub fn push_bytes(out: &mut Vec<u8>, s: &[u8])
    ensures
        final(out)@ == old(out)@ + s@,
{
    let ghost start = out@;
    let mut i: usize = 0;
    while i < s.len()
        invariant
            i <= s@.len(),
            out@ == start + s@.subrange(0, i as int),
        decreases s@.len() - i,
    {
        out.push(s[i]);
        i = i + 1;
        assert(out@ =~= start + s@.subrange(0, i as int));
    }
    assert(s@.subrange(0, i as int) =~= s@);
}

} // verus!
