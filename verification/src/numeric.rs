//! Big-endian byte encoding of fixed-width integers, and the two's-complement
//! correspondence between signed and unsigned values of the same width.
//!
//! Everything is stated arithmetically (division and remainder by 256) so the
//! proofs stay in linear arithmetic as far as possible.

use vstd::prelude::*;

verus! {

/// 256 raised to the power `n`: the number of values a big-endian encoding of
/// `n` bytes can represent.
pub open spec fn pow256(n: nat) -> nat
    decreases n,
{
    if n == 0 {
        1
    } else {
        256 * pow256((n - 1) as nat)
    }
}

pub proof fn lemma_pow256_pos(n: nat)
    ensures
        pow256(n) >= 1,
    decreases n,
{
    if n > 0 {
        lemma_pow256_pos((n - 1) as nat);
    }
}

/// Dividing by 256 steps down one level of `pow256`.
pub proof fn lemma_div256_bound(v: nat, n: nat)
    requires
        n >= 1,
        v < pow256(n),
    ensures
        v / 256 < pow256((n - 1) as nat),
{
    lemma_pow256_pos((n - 1) as nat);
    assert(v / 256 < pow256((n - 1) as nat)) by (nonlinear_arith)
        requires
            v < 256 * pow256((n - 1) as nat),
            pow256((n - 1) as nat) >= 1,
    ;
}

/// `pow256(16)` is exactly one more than `u128::MAX`.
pub proof fn lemma_pow256_16()
    ensures
        pow256(16) == 0x1_0000_0000_0000_0000_0000_0000_0000_0000,
{
    reveal_with_fuel(pow256, 17);
}

/// The powers of 256 at the widths the protocol uses.
pub proof fn lemma_pow256_vals()
    ensures
        pow256(1) == 0x100,
        pow256(2) == 0x1_0000,
        pow256(4) == 0x1_0000_0000,
        pow256(8) == 0x1_0000_0000_0000_0000,
        pow256(16) == 0x1_0000_0000_0000_0000_0000_0000_0000_0000,
{
    reveal_with_fuel(pow256, 17);
}

/// `pow256` is monotone in the exponent.
pub proof fn lemma_pow256_mono(a: nat, b: nat)
    requires
        a <= b,
    ensures
        pow256(a) <= pow256(b),
    decreases b,
{
    if a < b {
        lemma_pow256_mono(a, (b - 1) as nat);
        lemma_pow256_pos((b - 1) as nat);
    }
}

/// The big-endian encoding of the low `n` bytes of `v`: most significant
/// byte first.
pub open spec fn be_enc(v: nat, n: nat) -> Seq<u8>
    decreases n,
{
    if n == 0 {
        Seq::empty()
    } else {
        be_enc(v / 256, (n - 1) as nat) + seq![(v % 256) as u8]
    }
}

/// The value of a big-endian byte sequence.
pub open spec fn be_val(s: Seq<u8>) -> nat
    decreases s.len(),
{
    if s.len() == 0 {
        0
    } else {
        be_val(s.drop_last()) * 256 + s.last() as nat
    }
}

pub proof fn lemma_be_enc_len(v: nat, n: nat)
    ensures
        be_enc(v, n).len() == n,
    decreases n,
{
    if n > 0 {
        lemma_be_enc_len(v / 256, (n - 1) as nat);
    }
}

/// Decoding inverts encoding for values that fit in `n` bytes.
pub proof fn lemma_be_val_enc(v: nat, n: nat)
    requires
        v < pow256(n),
    ensures
        be_val(be_enc(v, n)) == v,
    decreases n,
{
    if n > 0 {
        lemma_div256_bound(v, n);
        lemma_be_val_enc(v / 256, (n - 1) as nat);
        lemma_be_enc_len(v / 256, (n - 1) as nat);
        let s = be_enc(v, n);
        let prefix = be_enc(v / 256, (n - 1) as nat);
        assert(s.drop_last() =~= prefix);
        assert(s.last() == (v % 256) as u8);
    }
}

/// The value of `n` bytes is below `pow256(n)`.
pub proof fn lemma_be_val_bound(s: Seq<u8>)
    ensures
        be_val(s) < pow256(s.len()),
    decreases s.len(),
{
    if s.len() > 0 {
        lemma_be_val_bound(s.drop_last());
        let p = pow256((s.len() - 1) as nat);
        assert(be_val(s.drop_last()) <= p - 1);
        assert((p - 1) * 256 + 255 < 256 * p) by (nonlinear_arith)
            requires
                p >= 1,
        ;
        assert(be_val(s.drop_last()) * 256 <= (p - 1) * 256) by (nonlinear_arith)
            requires
                be_val(s.drop_last()) <= p - 1,
        ;
    }
}

/// Appends the `n`-byte big-endian encoding of `v` to `out`.
pub fn encode_be(out: &mut Vec<u8>, v: u128, n: usize)
    requires
        n <= 16,
    ensures
        final(out)@ == old(out)@ + be_enc(v as nat, n as nat),
    decreases n,
{
    if n == 0 {
        assert(out@ =~= old(out)@ + be_enc(v as nat, 0));
        return ;
    }
    encode_be(out, v / 256, n - 1);
    out.push((v % 256) as u8);
    assert(out@ =~= old(out)@ + be_enc(v as nat, n as nat));
}

/// Reads `n` bytes at `pos` as a big-endian value.
pub fn decode_be(bytes: &Vec<u8>, pos: usize, n: usize) -> (r: u128)
    requires
        n <= 16,
        pos + n <= bytes@.len(),
    ensures
        r as nat == be_val(bytes@.subrange(pos as int, pos + n)),
    decreases n,
{
    if n == 0 {
        assert(bytes@.subrange(pos as int, pos as int).len() == 0);
        return 0;
    }
    let total = bytes.len();
    let hi = decode_be(bytes, pos, n - 1);
    let b = bytes[pos + n - 1];
    proof {
        let whole = bytes@.subrange(pos as int, pos + n);
        assert(whole.drop_last() =~= bytes@.subrange(pos as int, pos + n - 1));
        assert(whole.last() == b);
        lemma_be_val_bound(bytes@.subrange(pos as int, pos + n - 1));
        lemma_pow256_mono((n - 1) as nat, 15);
        lemma_pow256_16();
        lemma_pow256_mono(n as nat, 16);
        let p = pow256((n - 1) as nat);
        assert(hi as nat <= p - 1);
        assert((p - 1) * 256 + 255 < 256 * p) by (nonlinear_arith)
            requires
                p >= 1,
        ;
        assert(hi as nat * 256 <= (p - 1) * 256) by (nonlinear_arith)
            requires
                hi as nat <= p - 1,
        ;
        lemma_pow256_pos((n - 1) as nat);
    }
    hi * 256 + (b as u128)
}

/// The unsigned value with the same 8-bit pattern as `v`.
pub open spec fn u8_of_i8(v: i8) -> u8 {
    if v >= 0 {
        v as u8
    } else {
        (v + 0x100) as u8
    }
}

/// The signed value with the same 8-bit pattern as `v`.
pub open spec fn i8_of_u8(v: u8) -> i8 {
    if v < 0x80 {
        v as i8
    } else {
        (v - 0x100) as i8
    }
}

pub open spec fn u16_of_i16(v: i16) -> u16 {
    if v >= 0 {
        v as u16
    } else {
        (v + 0x1_0000) as u16
    }
}

pub open spec fn i16_of_u16(v: u16) -> i16 {
    if v < 0x8000 {
        v as i16
    } else {
        (v - 0x1_0000) as i16
    }
}

pub open spec fn u32_of_i32(v: i32) -> u32 {
    if v >= 0 {
        v as u32
    } else {
        (v + 0x1_0000_0000) as u32
    }
}

pub open spec fn i32_of_u32(v: u32) -> i32 {
    if v < 0x8000_0000 {
        v as i32
    } else {
        (v - 0x1_0000_0000) as i32
    }
}

pub open spec fn u64_of_i64(v: i64) -> u64 {
    if v >= 0 {
        v as u64
    } else {
        (v + 0x1_0000_0000_0000_0000) as u64
    }
}

pub open spec fn i64_of_u64(v: u64) -> i64 {
    if v < 0x8000_0000_0000_0000 {
        v as i64
    } else {
        (v - 0x1_0000_0000_0000_0000) as i64
    }
}

pub open spec fn u128_of_i128(v: i128) -> u128 {
    if v >= 0 {
        v as u128
    } else {
        (v + 0x1_0000_0000_0000_0000_0000_0000_0000_0000) as u128
    }
}

pub open spec fn i128_of_u128(v: u128) -> i128 {
    if v < 0x8000_0000_0000_0000_0000_0000_0000_0000 {
        v as i128
    } else {
        (v - 0x1_0000_0000_0000_0000_0000_0000_0000_0000) as i128
    }
}

pub fn u8_from_i8(v: i8) -> (r: u8)
    ensures
        r == u8_of_i8(v),
{
    if v >= 0 {
        v as u8
    } else {
        u8::MAX - ((-1 - v) as u8)
    }
}

pub fn i8_from_u8(v: u8) -> (r: i8)
    ensures
        r == i8_of_u8(v),
{
    if v < 0x80 {
        v as i8
    } else {
        -1 - ((u8::MAX - v) as i8)
    }
}

pub fn u16_from_i16(v: i16) -> (r: u16)
    ensures
        r == u16_of_i16(v),
{
    if v >= 0 {
        v as u16
    } else {
        u16::MAX - ((-1 - v) as u16)
    }
}

pub fn i16_from_u16(v: u16) -> (r: i16)
    ensures
        r == i16_of_u16(v),
{
    if v < 0x8000 {
        v as i16
    } else {
        -1 - ((u16::MAX - v) as i16)
    }
}

pub fn u32_from_i32(v: i32) -> (r: u32)
    ensures
        r == u32_of_i32(v),
{
    if v >= 0 {
        v as u32
    } else {
        u32::MAX - ((-1 - v) as u32)
    }
}

pub fn i32_from_u32(v: u32) -> (r: i32)
    ensures
        r == i32_of_u32(v),
{
    if v < 0x8000_0000 {
        v as i32
    } else {
        -1 - ((u32::MAX - v) as i32)
    }
}

pub fn u64_from_i64(v: i64) -> (r: u64)
    ensures
        r == u64_of_i64(v),
{
    if v >= 0 {
        v as u64
    } else {
        u64::MAX - ((-1 - v) as u64)
    }
}

pub fn i64_from_u64(v: u64) -> (r: i64)
    ensures
        r == i64_of_u64(v),
{
    if v < 0x8000_0000_0000_0000 {
        v as i64
    } else {
        -1 - ((u64::MAX - v) as i64)
    }
}

pub fn u128_from_i128(v: i128) -> (r: u128)
    ensures
        r == u128_of_i128(v),
{
    if v >= 0 {
        v as u128
    } else {
        u128::MAX - ((-1 - v) as u128)
    }
}

pub fn i128_from_u128(v: u128) -> (r: i128)
    ensures
        r == i128_of_u128(v),
{
    if v < 0x8000_0000_0000_0000_0000_0000_0000_0000 {
        v as i128
    } else {
        -1 - ((u128::MAX - v) as i128)
    }
}

} // verus!
