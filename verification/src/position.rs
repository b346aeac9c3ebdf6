//! The bit-packed block position: one 64-bit big-endian word holding
//! x (26 bits) ‖ z (26 bits) ‖ y (12 bits), each field two's-complement.
//! The accessors sign-extend their field; packing keeps only the field's
//! low bits.

use vstd::prelude::*;
use crate::codec::{Error, MinecraftData};
use crate::numeric::{
    be_enc, be_val, encode_be, pow256, lemma_be_enc_len, lemma_be_val_enc, lemma_pow256_vals,
    u32_of_i32, u32_from_i32,
};
use crate::primitives::decode_fixed;
use crate::seqs::lemma_concat_take;

verus! {

/// The packed word for the coordinates `(x, y, z)`.
pub open spec fn pos_word(x: i32, y: i32, z: i32) -> u64 {
    (((u32_of_i32(x) as u64) & 0x3FF_FFFF) << 38) | (((u32_of_i32(z) as u64) & 0x3FF_FFFF) << 12)
        | ((u32_of_i32(y) as u64) & 0xFFF)
}

/// The x coordinate of a packed word: the top 26 bits, sign-extended.
pub open spec fn pos_x(w: u64) -> i32 {
    let f = w >> 38;
    if f >= 0x200_0000 {
        (f - 0x400_0000) as i32
    } else {
        f as i32
    }
}

/// The y coordinate of a packed word: the low 12 bits, sign-extended.
pub open spec fn pos_y(w: u64) -> i32 {
    let f = w & 0xFFF;
    if f >= 0x800 {
        (f - 0x1000) as i32
    } else {
        f as i32
    }
}

/// The z coordinate of a packed word: bits 12 to 37, sign-extended.
pub open spec fn pos_z(w: u64) -> i32 {
    let f = (w >> 12) & 0x3FF_FFFF;
    if f >= 0x200_0000 {
        (f - 0x400_0000) as i32
    } else {
        f as i32
    }
}

/// A block position, packed into one 64-bit word on the wire.
#[derive(Debug, Clone, Copy, PartialEq, Eq)]
pub struct Position(u64);

impl Position {
    /// The packed 64-bit word.
    pub closed spec fn word(&self) -> u64 {
        self.0
    }

    /// Packs three coordinates; bits beyond each field's width are dropped.
    pub fn new(x: i32, y: i32, z: i32) -> (r: Position)
        ensures
            r.word() == pos_word(x, y, z),
    {
        let xu = u32_from_i32(x) as u64;
        let zu = u32_from_i32(z) as u64;
        let yu = u32_from_i32(y) as u64;
        Position(((xu & 0x3FF_FFFF) << 38) | ((zu & 0x3FF_FFFF) << 12) | (yu & 0xFFF))
    }

    pub fn x(&self) -> (r: i32)
        ensures
            r == pos_x(self.word()),
    {
        let f = self.0 >> 38;
        proof {
            let w = self.0;
            assert(w >> 38 < 0x400_0000) by (bit_vector);
        }
        if f >= 0x200_0000 {
            ((f as i64) - 0x400_0000) as i32
        } else {
            f as i32
        }
    }

    pub fn y(&self) -> (r: i32)
        ensures
            r == pos_y(self.word()),
    {
        let f = self.0 & 0xFFF;
        proof {
            let w = self.0;
            assert(w & 0xFFF < 0x1000) by (bit_vector);
        }
        if f >= 0x800 {
            ((f as i64) - 0x1000) as i32
        } else {
            f as i32
        }
    }

    pub fn z(&self) -> (r: i32)
        ensures
            r == pos_z(self.word()),
    {
        let f = (self.0 >> 12) & 0x3FF_FFFF;
        proof {
            let w = self.0;
            assert((w >> 12) & 0x3FF_FFFF < 0x400_0000) by (bit_vector);
        }
        if f >= 0x200_0000 {
            ((f as i64) - 0x400_0000) as i32
        } else {
            f as i32
        }
    }
}

/// Position packing inverts: for coordinates within the fields' ranges, the
/// accessors of `Position::new(x, y, z)` return `x`, `y` and `z` themselves.
pub proof fn lemma_position_round_trip(x: i32, y: i32, z: i32)
    requires
        -0x200_0000 <= x < 0x200_0000,
        -0x800 <= y < 0x800,
        -0x200_0000 <= z < 0x200_0000,
    ensures
        pos_x(pos_word(x, y, z)) == x,
        pos_y(pos_word(x, y, z)) == y,
        pos_z(pos_word(x, y, z)) == z,
{
    let xu = u32_of_i32(x) as u64;
    let yu = u32_of_i32(y) as u64;
    let zu = u32_of_i32(z) as u64;
    let w = pos_word(x, y, z);
    assert(w == ((xu & 0x3FF_FFFF) << 38) | ((zu & 0x3FF_FFFF) << 12) | (yu & 0xFFF));
    assert((((xu & 0x3FF_FFFF) << 38) | ((zu & 0x3FF_FFFF) << 12) | (yu & 0xFFF)) >> 38 == xu
        & 0x3FF_FFFF) by (bit_vector);
    assert(((((xu & 0x3FF_FFFF) << 38) | ((zu & 0x3FF_FFFF) << 12) | (yu & 0xFFF)) >> 12)
        & 0x3FF_FFFF == zu & 0x3FF_FFFF) by (bit_vector);
    assert((((xu & 0x3FF_FFFF) << 38) | ((zu & 0x3FF_FFFF) << 12) | (yu & 0xFFF)) & 0xFFF == yu
        & 0xFFF) by (bit_vector);
    if x >= 0 {
        assert(xu < 0x200_0000);
        assert(xu < 0x200_0000 ==> xu & 0x3FF_FFFF == xu) by (bit_vector);
    } else {
        assert(xu >= 0xFE00_0000 && xu < 0x1_0000_0000);
        assert((xu >= 0xFE00_0000 && xu < 0x1_0000_0000) ==> xu & 0x3FF_FFFF == xu - 0xFC00_0000)
            by (bit_vector);
    }
    if z >= 0 {
        assert(zu < 0x200_0000);
        assert(zu < 0x200_0000 ==> zu & 0x3FF_FFFF == zu) by (bit_vector);
    } else {
        assert(zu >= 0xFE00_0000 && zu < 0x1_0000_0000);
        assert((zu >= 0xFE00_0000 && zu < 0x1_0000_0000) ==> zu & 0x3FF_FFFF == zu - 0xFC00_0000)
            by (bit_vector);
    }
    if y >= 0 {
        assert(yu < 0x800);
        assert(yu < 0x800 ==> yu & 0xFFF == yu) by (bit_vector);
    } else {
        assert(yu >= 0xFFFF_F800 && yu < 0x1_0000_0000);
        assert((yu >= 0xFFFF_F800 && yu < 0x1_0000_0000) ==> yu & 0xFFF == yu - 0xFFFF_F000)
            by (bit_vector);
    }
}

impl DeepView for Position {
    type V = Position;

    open spec fn deep_view(&self) -> Position {
        *self
    }
}

impl MinecraftData for Position {
    open spec fn wf(m: Position) -> bool {
        true
    }

    open spec fn enc(m: Position) -> Seq<u8> {
        be_enc(m.word() as nat, 8)
    }

    closed spec fn dec(s: Seq<u8>) -> Option<(Position, int)> {
        if s.len() >= 8 {
            Some((Position((be_val(s.take(8)) % 0x1_0000_0000_0000_0000) as u64), 8int))
        } else {
            None
        }
    }

    proof fn lemma_round_trip(m: Position, rest: Seq<u8>) {
        lemma_pow256_vals();
        lemma_be_enc_len(m.word() as nat, 8);
        lemma_be_val_enc(m.word() as nat, 8);
        lemma_concat_take(Self::enc(m), rest);
    }

    proof fn lemma_dec_props(s: Seq<u8>) {
    }

    fn decode(bytes: &Vec<u8>, pos: usize) -> (r: Result<(Self, usize), Error>) {
        proof {
            lemma_pow256_vals();
        }
        match decode_fixed(bytes, pos, 8) {
            Ok((v, end)) => Ok((Position(v as u64), end)),
            Err(e) => Err(e),
        }
    }

    fn encode(&self, out: &mut Vec<u8>) -> (r: Result<(), Error>) {
        encode_be(out, self.0 as u128, 8);
        Ok(())
    }

    fn num_bytes(&self) -> (r: usize) {
        proof {
            lemma_be_enc_len(self.0 as nat, 8);
        }
        8
    }
}

} // verus!
