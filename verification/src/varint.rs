//! The variable-length integer: a 32-bit signed value carried in one to five
//! bytes, seven data bits per byte, least significant group first, the high
//! bit of each byte marking continuation. Negative values travel as their
//! unsigned bit pattern, so they always occupy the full five bytes.
//!
//! Over-long (non-minimal) encodings that still fit in 32 bits are accepted,
//! mirroring the reference server; the fifth byte can contribute only its low
//! four bits, and a continuation bit on the fifth byte is an error.

use vstd::prelude::*;
use vstd::arithmetic::div_mod::{lemma_div_decreases, lemma_fundamental_div_mod};
use vstd::arithmetic::power2::{pow2, lemma2_to64, lemma_pow2_adds, lemma_pow2_pos};
use crate::codec::{Error, MinecraftData};
use crate::numeric::{u32_of_i32, i32_of_u32, u32_from_i32, i32_from_u32};
use crate::seqs::{lemma_concat_skip, lemma_skip_skip, lemma_concat_assoc};

verus! {

/// Canonical encoding of an unsigned 32-bit value.
pub open spec fn varint_enc_u(v: u32) -> Seq<u8>
    decreases v,
{
    if v < 128 {
        seq![v as u8]
    } else {
        proof {
            lemma_div_decreases(v as int, 128);
        }
        seq![(v % 128 + 128) as u8] + varint_enc_u(v / 128)
    }
}

/// Specification-level decoder, at recursion depth `k` (bytes already
/// consumed). The returned value is the contribution of the remaining bytes,
/// unshifted; the fifth byte keeps only its low four bits, as only four bits
/// of the 32 remain at that depth.
pub open spec fn varint_dec_rec(s: Seq<u8>, k: nat) -> Option<(u32, int)>
    decreases 5 - k,
{
    if k >= 5 || s.len() == 0 {
        None
    } else {
        let b = s[0];
        let data = (b % 128) as u32;
        if b < 128 {
            Some((if k == 4 { (data % 16) as u32 } else { data }, 1int))
        } else {
            match varint_dec_rec(s.skip(1), k + 1) {
                Some(p) => Some(((data + 128 * p.0) as u32, p.1 + 1)),
                None => None,
            }
        }
    }
}

/// Bounds on what the decoder can return: one to `5 - k` bytes consumed, and
/// a value that fits in the bits remaining at depth `k`.
pub proof fn lemma_varint_dec_bound(s: Seq<u8>, k: nat)
    requires
        k <= 4,
    ensures
        varint_dec_rec(s, k) matches Some(p) ==> {
            &&& 1 <= p.1 <= s.len()
            &&& p.1 <= 5 - k
            &&& (p.0 as nat) < pow2((32 - 7 * k) as nat)
        },
    decreases 5 - k,
{
    lemma2_to64();
    if varint_dec_rec(s, k) is Some {
        let b = s[0];
        let data = (b % 128) as u32;
        if b < 128 {
            if k == 4 {
                assert(((data % 16) as nat) < pow2(4));
            } else {
                assert(pow2(7) <= pow2((32 - 7 * k) as nat)) by {
                    lemma_pow2_adds(7, (25 - 7 * k) as nat);
                    lemma_pow2_pos((25 - 7 * k) as nat);
                }
            }
        } else {
            if k + 1 <= 4 {
                lemma_varint_dec_bound(s.skip(1), k + 1);
                let p = varint_dec_rec(s.skip(1), k + 1).unwrap();
                assert(pow2((32 - 7 * (k + 1)) as nat) * 128 == pow2((32 - 7 * k) as nat)) by {
                    lemma_pow2_adds((25 - 7 * k) as nat, 7);
                }
                assert(((data + 128 * p.0) as nat) < pow2((32 - 7 * k) as nat)) by (nonlinear_arith)
                    requires
                        data < 128,
                        (p.0 as nat) < pow2((32 - 7 * (k + 1)) as nat),
                        pow2((32 - 7 * (k + 1)) as nat) * 128 == pow2((32 - 7 * k) as nat),
                ;
            }
        }
    }
}

/// The canonical encoding of a value that fits in `7 * n` bits takes at most
/// `n` bytes.
pub proof fn lemma_varint_enc_len_bound(v: u32, n: nat)
    requires
        n >= 1,
        (v as nat) < pow2(7 * n),
    ensures
        varint_enc_u(v).len() <= n,
    decreases v,
{
    lemma2_to64();
    if v >= 128 {
        assert(n >= 2) by {
            if n == 1 {
                assert(pow2(7) == 128);
            }
        }
        lemma_div_decreases(v as int, 128);
        lemma_fundamental_div_mod(v as int, 128);
        assert(pow2(7 * (n - 1) as nat) * 128 == pow2(7 * n)) by {
            lemma_pow2_adds((7 * n - 7) as nat, 7);
        }
        assert(((v / 128) as nat) < pow2(7 * (n - 1) as nat)) by (nonlinear_arith)
            requires
                (v as nat) < pow2(7 * n),
                pow2(7 * (n - 1) as nat) * 128 == pow2(7 * n),
                v == 128 * (v as int / 128) + (v as int % 128),
                0 <= v as int % 128 < 128,
        ;
        lemma_varint_enc_len_bound(v / 128, (n - 1) as nat);
    }
}

/// Every canonical encoding takes one to five bytes.
pub proof fn lemma_varint_enc_len(v: u32)
    ensures
        1 <= varint_enc_u(v).len() <= 5,
{
    lemma2_to64();
    assert(pow2(35) == pow2(32) * 8) by {
        lemma_pow2_adds(32, 3);
    }
    lemma_varint_enc_len_bound(v, 5);
}

/// Round trip: at depth `k`, decoding the canonical encoding of a value that
/// still fits yields that value and consumes exactly the encoding.
pub proof fn lemma_varint_round_trip(v: u32, k: nat, rest: Seq<u8>)
    requires
        k <= 4,
        (v as nat) < pow2((32 - 7 * k) as nat),
    ensures
        varint_dec_rec(varint_enc_u(v) + rest, k) == Some((v, varint_enc_u(v).len() as int)),
    decreases v,
{
    lemma2_to64();
    let s = varint_enc_u(v) + rest;
    if v < 128 {
        assert(s[0] == v as u8);
        if k == 4 {
            assert(v < pow2(4));
            assert((v as u8 % 128) as u32 % 16 == v);
        }
    } else {
        assert(k <= 3) by {
            if k == 4 {
                assert(pow2(4) == 16);
            }
        }
        let b0 = (v % 128 + 128) as u8;
        assert(s[0] == b0);
        assert(b0 >= 128);
        assert((b0 % 128) as u32 == v % 128);
        lemma_fundamental_div_mod(v as int, 128);
        assert(pow2((32 - 7 * (k + 1)) as nat) * 128 == pow2((32 - 7 * k) as nat)) by {
            lemma_pow2_adds((25 - 7 * k) as nat, 7);
        }
        assert(((v / 128) as nat) < pow2((32 - 7 * (k + 1)) as nat)) by (nonlinear_arith)
            requires
                (v as nat) < pow2((32 - 7 * k) as nat),
                pow2((32 - 7 * (k + 1)) as nat) * 128 == pow2((32 - 7 * k) as nat),
                v == 128 * (v as int / 128) + (v as int % 128),
                0 <= v as int % 128 < 128,
        ;
        lemma_div_decreases(v as int, 128);
        lemma_varint_round_trip(v / 128, k + 1, rest);
        assert(s.skip(1) == varint_enc_u(v / 128) + rest) by {
            lemma_concat_assoc(seq![b0], varint_enc_u(v / 128), rest);
            lemma_concat_skip(seq![b0], varint_enc_u(v / 128) + rest);
        }
        let p = varint_dec_rec(s.skip(1), k + 1).unwrap();
        assert(p.0 == v / 128);
        assert(((b0 % 128) as u32 + 128 * p.0) as u32 == v);
    }
}

/// Appends the canonical encoding of `v` to `out`.
pub fn varint_encode_u(out: &mut Vec<u8>, v: u32)
    ensures
        final(out)@ == old(out)@ + varint_enc_u(v),
    decreases v,
{
    if v < 128 {
        out.push(v as u8);
        assert(out@ =~= old(out)@ + varint_enc_u(v));
    } else {
        out.push((v % 128 + 128) as u8);
        proof {
            lemma_div_decreases(v as int, 128);
        }
        varint_encode_u(out, v / 128);
        assert(out@ =~= old(out)@ + varint_enc_u(v));
    }
}

/// The length of the canonical encoding of `v`.
pub fn varint_size_u(v: u32) -> (r: usize)
    ensures
        r == varint_enc_u(v).len(),
        1 <= r <= 5,
    decreases v,
{
    proof {
        lemma_varint_enc_len(v);
    }
    if v < 128 {
        1
    } else {
        proof {
            lemma_div_decreases(v as int, 128);
        }
        1 + varint_size_u(v / 128)
    }
}

/// Reads a variable-length integer at `pos`, `k` bytes already consumed.
pub fn varint_decode_rec(bytes: &Vec<u8>, pos: usize, k: usize) -> (r: Result<(u32, usize), Error>)
    requires
        pos <= bytes@.len(),
        k <= 5,
    ensures
        match r {
            Ok(p) => {
                &&& varint_dec_rec(bytes@.skip(pos as int), k as nat) == Some((p.0, p.1 as int))
                &&& pos + p.1 <= bytes@.len()
            },
            Err(e) => {
                &&& varint_dec_rec(bytes@.skip(pos as int), k as nat) is None
                &&& (e == Error::VarIntTooLong || e == Error::UnexpectedEnd)
            },
        },
    decreases 5 - k,
{
    if k >= 5 {
        return Err(Error::VarIntTooLong);
    }
    if pos == bytes.len() {
        return Err(Error::UnexpectedEnd);
    }
    let b = bytes[pos];
    proof {
        assert(bytes@.skip(pos as int)[0] == b);
    }
    let data = (b % 128) as u32;
    if b < 128 {
        let value = if k == 4 {
            data % 16
        } else {
            data
        };
        proof {
            assert(varint_dec_rec(bytes@.skip(pos as int), k as nat) == Some((value, 1int)));
        }
        Ok((value, 1))
    } else {
        match varint_decode_rec(bytes, pos + 1, k + 1) {
            Ok((v, n)) => {
                proof {
                    lemma_skip_skip(bytes@, pos as int, 1);
                    if k + 1 <= 4 {
                        lemma_varint_dec_bound(bytes@.skip(pos as int + 1), (k + 1) as nat);
                    }
                    lemma2_to64();
                    assert(varint_dec_rec(bytes@.skip(pos as int).skip(1), (k + 1) as nat)
                        == Some((v, n as int)));
                    assert(varint_dec_rec(bytes@.skip(pos as int), k as nat)
                        == Some(((data + 128 * v) as u32, n + 1 as int)));
                }
                Ok((data + 128 * v, n + 1))
            },
            Err(e) => {
                proof {
                    lemma_skip_skip(bytes@, pos as int, 1);
                }
                Err(e)
            },
        }
    }
}

/// A 32-bit signed integer with the variable-length wire encoding.
#[derive(Debug, Clone, Copy, PartialEq, Eq)]
pub struct VarInt(pub i32);

impl DeepView for VarInt {
    type V = VarInt;

    open spec fn deep_view(&self) -> VarInt {
        *self
    }
}

impl MinecraftData for VarInt {
    open spec fn wf(m: VarInt) -> bool {
        true
    }

    open spec fn enc(m: VarInt) -> Seq<u8> {
        varint_enc_u(u32_of_i32(m.0))
    }

    open spec fn dec(s: Seq<u8>) -> Option<(VarInt, int)> {
        match varint_dec_rec(s, 0) {
            Some(p) => Some((VarInt(i32_of_u32(p.0)), p.1)),
            None => None,
        }
    }

    proof fn lemma_round_trip(m: VarInt, rest: Seq<u8>) {
        lemma2_to64();
        lemma_varint_round_trip(u32_of_i32(m.0), 0, rest);
    }

    proof fn lemma_dec_props(s: Seq<u8>) {
        lemma_varint_dec_bound(s, 0);
    }

    fn decode(bytes: &Vec<u8>, pos: usize) -> (r: Result<(Self, usize), Error>) {
        let total = bytes.len();
        match varint_decode_rec(bytes, pos, 0) {
            Ok((u, n)) => Ok((VarInt(i32_from_u32(u)), pos + n)),
            Err(e) => Err(e),
        }
    }

    fn encode(&self, out: &mut Vec<u8>) -> (r: Result<(), Error>) {
        varint_encode_u(out, u32_from_i32(self.0));
        Ok(())
    }

    fn num_bytes(&self) -> (r: usize) {
        varint_size_u(u32_from_i32(self.0))
    }
}

} // verus!
