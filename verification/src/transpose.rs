//! The 8x8 bit transposer: eight bytes in, one byte per bit position out.
//!
//! Bits are counted from the most significant one, which is the first to go
//! out on the wire. Byte `k` of the result collects bit `k` of every input
//! byte, and bit `s` of the result comes from input byte `s`.

use vstd::prelude::*;

verus! {

/// Bit `k` of `b`, counted from the most significant bit.
pub open spec fn bit_at(b: u8, k: int) -> bool {
    b & (0x80u8 >> (k as u8)) != 0
}

/// The byte whose bit `s` is the top bit of `xs`.
pub open spec fn or_high(x0: u8, x1: u8, x2: u8, x3: u8, x4: u8, x5: u8, x6: u8, x7: u8) -> u8 {
    (x0 & 0x80) | ((x1 & 0x80) >> 1) | ((x2 & 0x80) >> 2) | ((x3 & 0x80) >> 3) | ((x4 & 0x80) >> 4)
        | ((x5 & 0x80) >> 5) | ((x6 & 0x80) >> 6) | ((x7 & 0x80) >> 7)
}

/// The top bits of the eight bytes of `b`, the first byte in the top place.
pub open spec fn high_bits(b: Seq<u8>) -> u8 {
    or_high(b[0], b[1], b[2], b[3], b[4], b[5], b[6], b[7])
}

/// Every byte of `b` shifted `k` places to the left; all zero from eight
/// places on.
pub open spec fn shl_all(b: Seq<u8>, k: int) -> Seq<u8> {
    Seq::new(
        8,
        |s: int|
            if 0 <= k < 8 {
                b[s] << (k as u8)
            } else {
                0u8
            },
    )
}

/// The transposed bit matrix of the eight bytes of `b`.
pub open spec fn transpose(b: Seq<u8>) -> Seq<u8> {
    Seq::new(8, |k: int| high_bits(shl_all(b, k)))
}

proof fn lemma_or_high_bit(x0: u8, x1: u8, x2: u8, x3: u8, x4: u8, x5: u8, x6: u8, x7: u8)
    by (bit_vector)
    ensures
        (or_high(x0, x1, x2, x3, x4, x5, x6, x7) & 0x80u8 != 0) == (x0 & 0x80u8 != 0),
        (or_high(x0, x1, x2, x3, x4, x5, x6, x7) & 0x40u8 != 0) == (x1 & 0x80u8 != 0),
        (or_high(x0, x1, x2, x3, x4, x5, x6, x7) & 0x20u8 != 0) == (x2 & 0x80u8 != 0),
        (or_high(x0, x1, x2, x3, x4, x5, x6, x7) & 0x10u8 != 0) == (x3 & 0x80u8 != 0),
        (or_high(x0, x1, x2, x3, x4, x5, x6, x7) & 0x08u8 != 0) == (x4 & 0x80u8 != 0),
        (or_high(x0, x1, x2, x3, x4, x5, x6, x7) & 0x04u8 != 0) == (x5 & 0x80u8 != 0),
        (or_high(x0, x1, x2, x3, x4, x5, x6, x7) & 0x02u8 != 0) == (x6 & 0x80u8 != 0),
        (or_high(x0, x1, x2, x3, x4, x5, x6, x7) & 0x01u8 != 0) == (x7 & 0x80u8 != 0),
{
}

proof fn lemma_mask(k: u8)
    by (bit_vector)
    requires
        k < 8,
    ensures
        k == 0 ==> 0x80u8 >> k == 0x80u8,
        k == 1 ==> 0x80u8 >> k == 0x40u8,
        k == 2 ==> 0x80u8 >> k == 0x20u8,
        k == 3 ==> 0x80u8 >> k == 0x10u8,
        k == 4 ==> 0x80u8 >> k == 0x08u8,
        k == 5 ==> 0x80u8 >> k == 0x04u8,
        k == 6 ==> 0x80u8 >> k == 0x02u8,
        k == 7 ==> 0x80u8 >> k == 0x01u8,
{
}

proof fn lemma_shifted_top(x: u8, k: u8)
    by (bit_vector)
    requires
        k < 8,
    ensures
        ((x << k) & 0x80u8 != 0) == (x & (0x80u8 >> k) != 0),
{
}

proof fn lemma_shift_again(x: u8, k: u8)
    by (bit_vector)
    requires
        k < 8,
    ensures
        k < 7 ==> (x << k) << 1u8 == x << ((k + 1) as u8),
        k == 7 ==> (x << k) << 1u8 == 0u8,
        x << 0u8 == x,
        0u8 << 1u8 == 0u8,
{
}

proof fn lemma_byte_by_bits(a: u8, b: u8)
    by (bit_vector)
    requires
        (a & 0x80u8 != 0) == (b & 0x80u8 != 0),
        (a & 0x40u8 != 0) == (b & 0x40u8 != 0),
        (a & 0x20u8 != 0) == (b & 0x20u8 != 0),
        (a & 0x10u8 != 0) == (b & 0x10u8 != 0),
        (a & 0x08u8 != 0) == (b & 0x08u8 != 0),
        (a & 0x04u8 != 0) == (b & 0x04u8 != 0),
        (a & 0x02u8 != 0) == (b & 0x02u8 != 0),
        (a & 0x01u8 != 0) == (b & 0x01u8 != 0),
    ensures
        a == b,
{
}

/// Two bytes that agree in every bit are equal.
pub proof fn lemma_bits_determine_byte(a: u8, b: u8)
    requires
        forall|k: int| 0 <= k < 8 ==> bit_at(a, k) == bit_at(b, k),
    ensures
        a == b,
{
    assert(bit_at(a, 0) == bit_at(b, 0));
    assert(bit_at(a, 1) == bit_at(b, 1));
    assert(bit_at(a, 2) == bit_at(b, 2));
    assert(bit_at(a, 3) == bit_at(b, 3));
    assert(bit_at(a, 4) == bit_at(b, 4));
    assert(bit_at(a, 5) == bit_at(b, 5));
    assert(bit_at(a, 6) == bit_at(b, 6));
    assert(bit_at(a, 7) == bit_at(b, 7));
    lemma_mask(0);
    lemma_mask(1);
    lemma_mask(2);
    lemma_mask(3);
    lemma_mask(4);
    lemma_mask(5);
    lemma_mask(6);
    lemma_mask(7);
    lemma_byte_by_bits(a, b);
}

/// Bit `s` of the top bits of `b` is the top bit of `b[s]`.
pub proof fn lemma_high_bits(b: Seq<u8>, s: int)
    requires
        0 <= s < 8,
    ensures
        bit_at(high_bits(b), s) == bit_at(b[s], 0),
{
    lemma_or_high_bit(b[0], b[1], b[2], b[3], b[4], b[5], b[6], b[7]);
    lemma_mask(s as u8);
    lemma_mask(0);
}

/// Bit `s` of byte `k` of the transposed matrix is bit `k` of byte `s` of the
/// matrix.
pub proof fn lemma_transpose_bit(b: Seq<u8>, k: int, s: int)
    requires
        0 <= k < 8,
        0 <= s < 8,
    ensures
        bit_at(transpose(b)[k], s) == bit_at(b[s], k),
{
    let row = shl_all(b, k);
    lemma_high_bits(row, s);
    lemma_shifted_top(b[s], k as u8);
    lemma_mask(0);
}

/// Transposing twice gives the matrix back.
pub proof fn lemma_transpose_involution(b: Seq<u8>)
    requires
        b.len() == 8,
    ensures
        transpose(transpose(b)) == b,
{
    let t = transpose(b);
    let tt = transpose(t);
    assert forall|s: int| 0 <= s < 8 implies tt[s] == b[s] by {
        assert forall|k: int| 0 <= k < 8 implies bit_at(tt[s], k) == bit_at(b[s], k) by {
            lemma_transpose_bit(t, s, k);
            lemma_transpose_bit(b, k, s);
        }
        lemma_bits_determine_byte(tt[s], b[s]);
    }
    assert(tt =~= b);
}

/// Collects the top bit of each of the eight bytes into one byte, the bit of
/// the first byte in the top place.
///
/// The eight bytes are read as two words, the top bits are masked out, and
/// three shift-and-or steps bring them together in the top byte.
pub fn compress_bit(i: &[u8; 8]) -> (r: u8)
    ensures
        r == high_bits(i@),
{
    let x0 = i[0];
    let x1 = i[1];
    let x2 = i[2];
    let x3 = i[3];
    let x4 = i[4];
    let x5 = i[5];
    let x6 = i[6];
    let x7 = i[7];
    let upper: u32 = ((x0 as u32) << 24) | ((x1 as u32) << 16) | ((x2 as u32) << 8) | (x3 as u32);
    let lower: u32 = ((x4 as u32) << 24) | ((x5 as u32) << 16) | ((x6 as u32) << 8) | (x7 as u32);
    let upper = upper & 0x80_80_80_80u32;
    let lower = lower & 0x80_80_80_80u32;
    let merge = upper | (lower >> 4);
    let merge = merge | (merge << 7);
    let merge = merge | (merge << 14);
    let r = (merge >> 24) as u8;
    assert(r == or_high(x0, x1, x2, x3, x4, x5, x6, x7)) by (bit_vector)
        requires
            upper == (((x0 as u32) << 24) | ((x1 as u32) << 16) | ((x2 as u32) << 8) | (x3 as u32))
                & 0x80_80_80_80u32,
            lower == (((x4 as u32) << 24) | ((x5 as u32) << 16) | ((x6 as u32) << 8) | (x7 as u32))
                & 0x80_80_80_80u32,
            merge == ((upper | (lower >> 4)) | ((upper | (lower >> 4)) << 7)) | (((upper | (lower
                >> 4)) | ((upper | (lower >> 4)) << 7)) << 14),
            r == (merge >> 24) as u8,
    ;
    r
}

/// Shifts every byte one place to the left, dropping the top bits.
pub fn shift(i: &mut [u8; 8])
    ensures
        forall|s: int| 0 <= s < 8 ==> final(i)[s] == old(i)[s] << 1u8,
{
    let mut s: usize = 0;
    while s < 8
        invariant
            0 <= s <= 8,
            forall|t: int| 0 <= t < s ==> i[t] == old(i)[t] << 1u8,
            forall|t: int| s <= t < 8 ==> i[t] == old(i)[t],
        decreases 8 - s,
    {
        i[s] = i[s] << 1;
        s += 1;
    }
}

/// Splits the eight bytes of `i` by bits: `out[k]` receives bit `k` of every
/// byte. With eight bytes of output this is the transposed matrix.
///
/// `i` is used up: each step shifts it one place to the left.
pub fn compress_byte(i: &mut [u8; 8], out: &mut [u8])
    ensures
        final(out)@.len() == old(out)@.len(),
        forall|k: int| 0 <= k < old(out)@.len() ==> final(out)[k] == high_bits(shl_all(old(i)@, k)),
        final(i)@ == shl_all(old(i)@, old(out)@.len() as int),
        old(out)@.len() == 8 ==> final(out)@ == transpose(old(i)@),
{
    let n = out.len();
    let mut k: usize = 0;
    proof {
        assert forall|s: int| 0 <= s < 8 implies i[s] == #[trigger] shl_all(old(i)@, 0)[s] by {
            lemma_shift_again(i[s], 0);
        }
        assert(i@ =~= shl_all(old(i)@, 0));
    }
    while k < n
        invariant
            0 <= k <= n,
            n == out@.len(),
            out@.len() == old(out)@.len(),
            i@ == shl_all(old(i)@, k as int),
            forall|t: int| 0 <= t < k ==> out[t] == high_bits(shl_all(old(i)@, t)),
        decreases n - k,
    {
        let ghost before = i@;
        out[k] = compress_bit(i);
        shift(i);
        proof {
            assert forall|s: int| 0 <= s < 8 implies i[s] == #[trigger] shl_all(old(i)@, k + 1)[s] by {
                if k < 8 {
                    lemma_shift_again(old(i)[s], k as u8);
                } else {
                    lemma_shift_again(0, 0);
                }
            }
            assert(i@ =~= shl_all(old(i)@, k + 1));
        }
        k += 1;
    }
    assert(n == 8 ==> out@ =~= transpose(old(i)@));
}

} // verus!
