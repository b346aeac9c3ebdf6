//! Codecs for the fixed-width primitives: booleans, the unsigned and signed
//! integers from 8 to 128 bits (big-endian on the wire), and the 128-bit
//! UUID. Signed values travel as their two's-complement unsigned pattern.

use vstd::prelude::*;
use crate::codec::{Error, MinecraftData};
use crate::numeric::{
    be_enc, be_val, encode_be, decode_be, pow256, lemma_be_enc_len, lemma_be_val_enc,
    lemma_be_val_bound, lemma_pow256_vals, u8_of_i8, i8_of_u8, u8_from_i8, i8_from_u8,
    u16_of_i16, i16_of_u16, u16_from_i16, i16_from_u16, u32_of_i32, i32_of_u32, u32_from_i32,
    i32_from_u32, u64_of_i64, i64_of_u64, u64_from_i64, i64_from_u64, u128_of_i128, i128_of_u128,
    u128_from_i128, i128_from_u128,
};
use crate::seqs::lemma_concat_take;

verus! {

/// Reads `n` big-endian bytes at `pos`, or fails if fewer remain.
pub(crate) fn decode_fixed(bytes: &Vec<u8>, pos: usize, n: usize) -> (r: Result<
    (u128, usize),
    Error,
>)
    requires
        pos <= bytes@.len(),
        1 <= n <= 16,
    ensures
        match r {
            Ok(p) => {
                &&& pos + n <= bytes@.len()
                &&& p.1 == pos + n
                &&& (p.0 as nat) == be_val(bytes@.skip(pos as int).take(n as int))
                &&& (p.0 as nat) < pow256(n as nat)
            },
            Err(e) => {
                &&& bytes@.len() - pos < n
                &&& e == Error::UnexpectedEnd
            },
        },
{
    let total = bytes.len();
    if total - pos < n {
        return Err(Error::UnexpectedEnd);
    }
    let v = decode_be(bytes, pos, n);
    proof {
        assert(bytes@.subrange(pos as int, pos + n) =~= bytes@.skip(pos as int).take(n as int));
        lemma_be_val_bound(bytes@.subrange(pos as int, pos + n));
    }
    Ok((v, pos + n))
}

impl MinecraftData for bool {
    open spec fn wf(m: bool) -> bool {
        true
    }

    open spec fn enc(m: bool) -> Seq<u8> {
        seq![if m { 1u8 } else { 0u8 }]
    }

    open spec fn dec(s: Seq<u8>) -> Option<(bool, int)> {
        if s.len() == 0 {
            None
        } else if s[0] == 0 {
            Some((false, 1int))
        } else if s[0] == 1 {
            Some((true, 1int))
        } else {
            None
        }
    }

    proof fn lemma_round_trip(m: bool, rest: Seq<u8>) {
        assert((Self::enc(m) + rest)[0] == Self::enc(m)[0]);
    }

    proof fn lemma_dec_props(s: Seq<u8>) {
    }

    fn decode(bytes: &Vec<u8>, pos: usize) -> (r: Result<(Self, usize), Error>) {
        let total = bytes.len();
        if total - pos < 1 {
            return Err(Error::UnexpectedEnd);
        }
        let b = bytes[pos];
        proof {
            assert(bytes@.skip(pos as int)[0] == b);
        }
        if b == 0 {
            Ok((false, pos + 1))
        } else if b == 1 {
            Ok((true, pos + 1))
        } else {
            Err(Error::InvalidBool)
        }
    }

    fn encode(&self, out: &mut Vec<u8>) -> (r: Result<(), Error>) {
        out.push(if *self {
            1u8
        } else {
            0u8
        });
        assert(out@ =~= old(out)@ + Self::enc(self.deep_view()));
        Ok(())
    }

    fn num_bytes(&self) -> (r: usize) {
        1
    }
}

impl MinecraftData for u8 {
    open spec fn wf(m: u8) -> bool {
        true
    }

    open spec fn enc(m: u8) -> Seq<u8> {
        be_enc(m as nat, 1)
    }

    open spec fn dec(s: Seq<u8>) -> Option<(u8, int)> {
        if s.len() >= 1 {
            Some((((be_val(s.take(1)) % 0x100) as u8), 1int))
        } else {
            None
        }
    }

    proof fn lemma_round_trip(m: u8, rest: Seq<u8>) {
        lemma_pow256_vals();
        lemma_be_enc_len(m as nat, 1);
        lemma_be_val_enc(m as nat, 1);
        lemma_concat_take(Self::enc(m), rest);
    }

    proof fn lemma_dec_props(s: Seq<u8>) {
    }

    fn decode(bytes: &Vec<u8>, pos: usize) -> (r: Result<(Self, usize), Error>) {
        proof {
            lemma_pow256_vals();
        }
        match decode_fixed(bytes, pos, 1) {
            Ok((v, end)) => Ok((v as u8, end)),
            Err(e) => Err(e),
        }
    }

    fn encode(&self, out: &mut Vec<u8>) -> (r: Result<(), Error>) {
        encode_be(out, *self as u128, 1);
        Ok(())
    }

    fn num_bytes(&self) -> (r: usize) {
        proof {
            lemma_be_enc_len(*self as nat, 1);
        }
        1
    }
}

impl MinecraftData for u16 {
    open spec fn wf(m: u16) -> bool {
        true
    }

    open spec fn enc(m: u16) -> Seq<u8> {
        be_enc(m as nat, 2)
    }

    open spec fn dec(s: Seq<u8>) -> Option<(u16, int)> {
        if s.len() >= 2 {
            Some((((be_val(s.take(2)) % 0x1_0000) as u16), 2int))
        } else {
            None
        }
    }

    proof fn lemma_round_trip(m: u16, rest: Seq<u8>) {
        lemma_pow256_vals();
        lemma_be_enc_len(m as nat, 2);
        lemma_be_val_enc(m as nat, 2);
        lemma_concat_take(Self::enc(m), rest);
    }

    proof fn lemma_dec_props(s: Seq<u8>) {
    }

    fn decode(bytes: &Vec<u8>, pos: usize) -> (r: Result<(Self, usize), Error>) {
        proof {
            lemma_pow256_vals();
        }
        match decode_fixed(bytes, pos, 2) {
            Ok((v, end)) => Ok((v as u16, end)),
            Err(e) => Err(e),
        }
    }

    fn encode(&self, out: &mut Vec<u8>) -> (r: Result<(), Error>) {
        encode_be(out, *self as u128, 2);
        Ok(())
    }

    fn num_bytes(&self) -> (r: usize) {
        proof {
            lemma_be_enc_len(*self as nat, 2);
        }
        2
    }
}

impl MinecraftData for u32 {
    open spec fn wf(m: u32) -> bool {
        true
    }

    open spec fn enc(m: u32) -> Seq<u8> {
        be_enc(m as nat, 4)
    }

    open spec fn dec(s: Seq<u8>) -> Option<(u32, int)> {
        if s.len() >= 4 {
            Some((((be_val(s.take(4)) % 0x1_0000_0000) as u32), 4int))
        } else {
            None
        }
    }

    proof fn lemma_round_trip(m: u32, rest: Seq<u8>) {
        lemma_pow256_vals();
        lemma_be_enc_len(m as nat, 4);
        lemma_be_val_enc(m as nat, 4);
        lemma_concat_take(Self::enc(m), rest);
    }

    proof fn lemma_dec_props(s: Seq<u8>) {
    }

    fn decode(bytes: &Vec<u8>, pos: usize) -> (r: Result<(Self, usize), Error>) {
        proof {
            lemma_pow256_vals();
        }
        match decode_fixed(bytes, pos, 4) {
            Ok((v, end)) => Ok((v as u32, end)),
            Err(e) => Err(e),
        }
    }

    fn encode(&self, out: &mut Vec<u8>) -> (r: Result<(), Error>) {
        encode_be(out, *self as u128, 4);
        Ok(())
    }

    fn num_bytes(&self) -> (r: usize) {
        proof {
            lemma_be_enc_len(*self as nat, 4);
        }
        4
    }
}

impl MinecraftData for u64 {
    open spec fn wf(m: u64) -> bool {
        true
    }

    open spec fn enc(m: u64) -> Seq<u8> {
        be_enc(m as nat, 8)
    }

    open spec fn dec(s: Seq<u8>) -> Option<(u64, int)> {
        if s.len() >= 8 {
            Some((((be_val(s.take(8)) % 0x1_0000_0000_0000_0000) as u64), 8int))
        } else {
            None
        }
    }

    proof fn lemma_round_trip(m: u64, rest: Seq<u8>) {
        lemma_pow256_vals();
        lemma_be_enc_len(m as nat, 8);
        lemma_be_val_enc(m as nat, 8);
        lemma_concat_take(Self::enc(m), rest);
    }

    proof fn lemma_dec_props(s: Seq<u8>) {
    }

    fn decode(bytes: &Vec<u8>, pos: usize) -> (r: Result<(Self, usize), Error>) {
        proof {
            lemma_pow256_vals();
        }
        match decode_fixed(bytes, pos, 8) {
            Ok((v, end)) => Ok((v as u64, end)),
            Err(e) => Err(e),
        }
    }

    fn encode(&self, out: &mut Vec<u8>) -> (r: Result<(), Error>) {
        encode_be(out, *self as u128, 8);
        Ok(())
    }

    fn num_bytes(&self) -> (r: usize) {
        proof {
            lemma_be_enc_len(*self as nat, 8);
        }
        8
    }
}

impl MinecraftData for u128 {
    open spec fn wf(m: u128) -> bool {
        true
    }

    open spec fn enc(m: u128) -> Seq<u8> {
        be_enc(m as nat, 16)
    }

    open spec fn dec(s: Seq<u8>) -> Option<(u128, int)> {
        if s.len() >= 16 {
            Some((((be_val(s.take(16)) % pow256(16)) as u128), 16int))
        } else {
            None
        }
    }

    proof fn lemma_round_trip(m: u128, rest: Seq<u8>) {
        lemma_pow256_vals();
        lemma_be_enc_len(m as nat, 16);
        lemma_be_val_enc(m as nat, 16);
        lemma_concat_take(Self::enc(m), rest);
    }

    proof fn lemma_dec_props(s: Seq<u8>) {
    }

    fn decode(bytes: &Vec<u8>, pos: usize) -> (r: Result<(Self, usize), Error>) {
        proof {
            lemma_pow256_vals();
        }
        match decode_fixed(bytes, pos, 16) {
            Ok((v, end)) => Ok((v, end)),
            Err(e) => Err(e),
        }
    }

    fn encode(&self, out: &mut Vec<u8>) -> (r: Result<(), Error>) {
        encode_be(out, *self, 16);
        Ok(())
    }

    fn num_bytes(&self) -> (r: usize) {
        proof {
            lemma_be_enc_len(*self as nat, 16);
        }
        16
    }
}

impl MinecraftData for i8 {
    open spec fn wf(m: i8) -> bool {
        true
    }

    open spec fn enc(m: i8) -> Seq<u8> {
        be_enc(u8_of_i8(m) as nat, 1)
    }

    open spec fn dec(s: Seq<u8>) -> Option<(i8, int)> {
        if s.len() >= 1 {
            Some((i8_of_u8((be_val(s.take(1)) % 0x100) as u8), 1int))
        } else {
            None
        }
    }

    proof fn lemma_round_trip(m: i8, rest: Seq<u8>) {
        lemma_pow256_vals();
        lemma_be_enc_len(u8_of_i8(m) as nat, 1);
        lemma_be_val_enc(u8_of_i8(m) as nat, 1);
        lemma_concat_take(Self::enc(m), rest);
    }

    proof fn lemma_dec_props(s: Seq<u8>) {
    }

    fn decode(bytes: &Vec<u8>, pos: usize) -> (r: Result<(Self, usize), Error>) {
        proof {
            lemma_pow256_vals();
        }
        match decode_fixed(bytes, pos, 1) {
            Ok((v, end)) => Ok((i8_from_u8(v as u8), end)),
            Err(e) => Err(e),
        }
    }

    fn encode(&self, out: &mut Vec<u8>) -> (r: Result<(), Error>) {
        encode_be(out, u8_from_i8(*self) as u128, 1);
        Ok(())
    }

    fn num_bytes(&self) -> (r: usize) {
        proof {
            lemma_be_enc_len(u8_of_i8(*self) as nat, 1);
        }
        1
    }
}

impl MinecraftData for i16 {
    open spec fn wf(m: i16) -> bool {
        true
    }

    open spec fn enc(m: i16) -> Seq<u8> {
        be_enc(u16_of_i16(m) as nat, 2)
    }

    open spec fn dec(s: Seq<u8>) -> Option<(i16, int)> {
        if s.len() >= 2 {
            Some((i16_of_u16((be_val(s.take(2)) % 0x1_0000) as u16), 2int))
        } else {
            None
        }
    }

    proof fn lemma_round_trip(m: i16, rest: Seq<u8>) {
        lemma_pow256_vals();
        lemma_be_enc_len(u16_of_i16(m) as nat, 2);
        lemma_be_val_enc(u16_of_i16(m) as nat, 2);
        lemma_concat_take(Self::enc(m), rest);
    }

    proof fn lemma_dec_props(s: Seq<u8>) {
    }

    fn decode(bytes: &Vec<u8>, pos: usize) -> (r: Result<(Self, usize), Error>) {
        proof {
            lemma_pow256_vals();
        }
        match decode_fixed(bytes, pos, 2) {
            Ok((v, end)) => Ok((i16_from_u16(v as u16), end)),
            Err(e) => Err(e),
        }
    }

    fn encode(&self, out: &mut Vec<u8>) -> (r: Result<(), Error>) {
        encode_be(out, u16_from_i16(*self) as u128, 2);
        Ok(())
    }

    fn num_bytes(&self) -> (r: usize) {
        proof {
            lemma_be_enc_len(u16_of_i16(*self) as nat, 2);
        }
        2
    }
}

impl MinecraftData for i32 {
    open spec fn wf(m: i32) -> bool {
        true
    }

    open spec fn enc(m: i32) -> Seq<u8> {
        be_enc(u32_of_i32(m) as nat, 4)
    }

    open spec fn dec(s: Seq<u8>) -> Option<(i32, int)> {
        if s.len() >= 4 {
            Some((i32_of_u32((be_val(s.take(4)) % 0x1_0000_0000) as u32), 4int))
        } else {
            None
        }
    }

    proof fn lemma_round_trip(m: i32, rest: Seq<u8>) {
        lemma_pow256_vals();
        lemma_be_enc_len(u32_of_i32(m) as nat, 4);
        lemma_be_val_enc(u32_of_i32(m) as nat, 4);
        lemma_concat_take(Self::enc(m), rest);
    }

    proof fn lemma_dec_props(s: Seq<u8>) {
    }

    fn decode(bytes: &Vec<u8>, pos: usize) -> (r: Result<(Self, usize), Error>) {
        proof {
            lemma_pow256_vals();
        }
        match decode_fixed(bytes, pos, 4) {
            Ok((v, end)) => Ok((i32_from_u32(v as u32), end)),
            Err(e) => Err(e),
        }
    }

    fn encode(&self, out: &mut Vec<u8>) -> (r: Result<(), Error>) {
        encode_be(out, u32_from_i32(*self) as u128, 4);
        Ok(())
    }

    fn num_bytes(&self) -> (r: usize) {
        proof {
            lemma_be_enc_len(u32_of_i32(*self) as nat, 4);
        }
        4
    }
}

impl MinecraftData for i64 {
    open spec fn wf(m: i64) -> bool {
        true
    }

    open spec fn enc(m: i64) -> Seq<u8> {
        be_enc(u64_of_i64(m) as nat, 8)
    }

    open spec fn dec(s: Seq<u8>) -> Option<(i64, int)> {
        if s.len() >= 8 {
            Some((i64_of_u64((be_val(s.take(8)) % 0x1_0000_0000_0000_0000) as u64), 8int))
        } else {
            None
        }
    }

    proof fn lemma_round_trip(m: i64, rest: Seq<u8>) {
        lemma_pow256_vals();
        lemma_be_enc_len(u64_of_i64(m) as nat, 8);
        lemma_be_val_enc(u64_of_i64(m) as nat, 8);
        lemma_concat_take(Self::enc(m), rest);
    }

    proof fn lemma_dec_props(s: Seq<u8>) {
    }

    fn decode(bytes: &Vec<u8>, pos: usize) -> (r: Result<(Self, usize), Error>) {
        proof {
            lemma_pow256_vals();
        }
        match decode_fixed(bytes, pos, 8) {
            Ok((v, end)) => Ok((i64_from_u64(v as u64), end)),
            Err(e) => Err(e),
        }
    }

    fn encode(&self, out: &mut Vec<u8>) -> (r: Result<(), Error>) {
        encode_be(out, u64_from_i64(*self) as u128, 8);
        Ok(())
    }

    fn num_bytes(&self) -> (r: usize) {
        proof {
            lemma_be_enc_len(u64_of_i64(*self) as nat, 8);
        }
        8
    }
}

impl MinecraftData for i128 {
    open spec fn wf(m: i128) -> bool {
        true
    }

    open spec fn enc(m: i128) -> Seq<u8> {
        be_enc(u128_of_i128(m) as nat, 16)
    }

    open spec fn dec(s: Seq<u8>) -> Option<(i128, int)> {
        if s.len() >= 16 {
            Some((i128_of_u128((be_val(s.take(16)) % pow256(16)) as u128), 16int))
        } else {
            None
        }
    }

    proof fn lemma_round_trip(m: i128, rest: Seq<u8>) {
        lemma_pow256_vals();
        lemma_be_enc_len(u128_of_i128(m) as nat, 16);
        lemma_be_val_enc(u128_of_i128(m) as nat, 16);
        lemma_concat_take(Self::enc(m), rest);
    }

    proof fn lemma_dec_props(s: Seq<u8>) {
    }

    fn decode(bytes: &Vec<u8>, pos: usize) -> (r: Result<(Self, usize), Error>) {
        proof {
            lemma_pow256_vals();
        }
        match decode_fixed(bytes, pos, 16) {
            Ok((v, end)) => Ok((i128_from_u128(v), end)),
            Err(e) => Err(e),
        }
    }

    fn encode(&self, out: &mut Vec<u8>) -> (r: Result<(), Error>) {
        encode_be(out, u128_from_i128(*self), 16);
        Ok(())
    }

    fn num_bytes(&self) -> (r: usize) {
        proof {
            lemma_be_enc_len(u128_of_i128(*self) as nat, 16);
        }
        16
    }
}

/// A 128-bit universally unique identifier, carried as sixteen raw bytes.
#[derive(Debug, Clone, Copy, PartialEq, Eq)]
pub struct UUID(pub u128);

impl DeepView for UUID {
    type V = UUID;

    open spec fn deep_view(&self) -> UUID {
        *self
    }
}

impl MinecraftData for UUID {
    open spec fn wf(m: UUID) -> bool {
        true
    }

    open spec fn enc(m: UUID) -> Seq<u8> {
        be_enc(m.0 as nat, 16)
    }

    open spec fn dec(s: Seq<u8>) -> Option<(UUID, int)> {
        if s.len() >= 16 {
            Some((UUID((be_val(s.take(16)) % pow256(16)) as u128), 16int))
        } else {
            None
        }
    }

    proof fn lemma_round_trip(m: UUID, rest: Seq<u8>) {
        lemma_pow256_vals();
        lemma_be_enc_len(m.0 as nat, 16);
        lemma_be_val_enc(m.0 as nat, 16);
        lemma_concat_take(Self::enc(m), rest);
    }

    proof fn lemma_dec_props(s: Seq<u8>) {
    }

    fn decode(bytes: &Vec<u8>, pos: usize) -> (r: Result<(Self, usize), Error>) {
        proof {
            lemma_pow256_vals();
        }
        match decode_fixed(bytes, pos, 16) {
            Ok((v, end)) => Ok((UUID(v), end)),
            Err(e) => Err(e),
        }
    }

    fn encode(&self, out: &mut Vec<u8>) -> (r: Result<(), Error>) {
        encode_be(out, self.0, 16);
        Ok(())
    }

    fn num_bytes(&self) -> (r: usize) {
        proof {
            lemma_be_enc_len(self.0 as nat, 16);
        }
        16
    }
}

} // verus!
