//! Bounded strings: a VarInt byte-length prefix, at most `N`, followed by
//! that many bytes of UTF-8. The bound is enforced on both encode and
//! decode; UTF-8 validity is checked on decode and at construction.

use vstd::prelude::*;
use crate::codec::{Error, MinecraftData, utf8_ok, check_utf8, append_bytes, copy_range};
use crate::varint::{
    varint_enc_u, varint_dec_rec, varint_encode_u, varint_size_u, lemma_varint_round_trip,
    lemma_varint_dec_bound, VarInt,
};
use crate::numeric::i32_of_u32;
use crate::seqs::{lemma_concat_skip, lemma_concat_assoc};
use vstd::arithmetic::power2::lemma2_to64;

verus! {

/// A UTF-8 string of byte-length at most `N`.
#[derive(Debug, Clone, PartialEq, Eq)]
pub struct MString<const N: usize>(Vec<u8>);

/// A namespaced identifier such as `minecraft:brand`.
pub type Identifier = MString<32767>;

impl<const N: usize> DeepView for MString<N> {
    type V = Seq<u8>;

    closed spec fn deep_view(&self) -> Seq<u8> {
        self.0@
    }
}

impl<const N: usize> MString<N> {
    /// Wraps UTF-8 bytes of byte-length at most `N`.
    pub fn from_bytes(v: Vec<u8>) -> (r: Result<MString<N>, Error>)
        ensures
            r matches Ok(s) ==> s.deep_view() == v@,
            r is Ok <==> v@.len() <= N && v@.len() <= 0x7FFF_FFFF && utf8_ok(v@),
    {
        if v.len() > N || v.len() > 0x7FFF_FFFF {
            return Err(Error::StringTooLong);
        }
        if !check_utf8(&v) {
            return Err(Error::InvalidUtf8);
        }
        Ok(MString(v))
    }

    /// The underlying UTF-8 bytes.
    pub fn as_bytes(&self) -> (r: &Vec<u8>)
        ensures
            r@ == self.deep_view(),
    {
        &self.0
    }

    /// The byte length of the string.
    pub fn len(&self) -> (r: usize)
        ensures
            r == self.deep_view().len(),
    {
        self.0.len()
    }
}

impl<const N: usize> MinecraftData for MString<N> {
    open spec fn wf(m: Seq<u8>) -> bool {
        &&& m.len() <= N
        &&& m.len() <= 0x7FFF_FFFF
        &&& utf8_ok(m)
    }

    open spec fn enc(m: Seq<u8>) -> Seq<u8> {
        varint_enc_u(m.len() as u32) + m
    }

    open spec fn dec(s: Seq<u8>) -> Option<(Seq<u8>, int)> {
        match varint_dec_rec(s, 0) {
            Some(p) => {
                let len = i32_of_u32(p.0);
                if 0 <= len && len <= N && p.1 + len <= s.len() {
                    let body = s.subrange(p.1, p.1 + len);
                    if utf8_ok(body) {
                        Some((body, p.1 + len))
                    } else {
                        None
                    }
                } else {
                    None
                }
            },
            None => None,
        }
    }

    proof fn lemma_round_trip(m: Seq<u8>, rest: Seq<u8>) {
        lemma2_to64();
        let lenb = varint_enc_u(m.len() as u32);
        lemma_concat_assoc(lenb, m, rest);
        lemma_varint_round_trip(m.len() as u32, 0, m + rest);
        let s = Self::enc(m) + rest;
        assert(s == lenb + (m + rest));
        lemma_concat_skip(lenb, m + rest);
        assert(s.subrange(lenb.len() as int, lenb.len() as int + m.len() as int)
            =~= s.skip(lenb.len() as int).take(m.len() as int));
        assert((m + rest).take(m.len() as int) =~= m);
    }

    proof fn lemma_dec_props(s: Seq<u8>) {
        lemma_varint_dec_bound(s, 0);
    }

    fn decode(bytes: &Vec<u8>, pos: usize) -> (r: Result<(Self, usize), Error>) {
        let total = bytes.len();
        let (len_v, body_start) = match VarInt::decode(bytes, pos) {
            Ok(x) => x,
            Err(e) => {
                return Err(e);
            },
        };
        if len_v.0 < 0 {
            return Err(Error::NegativeLength);
        }
        let len = len_v.0 as usize;
        if len > N {
            return Err(Error::StringTooLong);
        }
        if total - body_start < len {
            return Err(Error::UnexpectedEnd);
        }
        let body = copy_range(bytes, body_start, len);
        proof {
            assert(bytes@.subrange(body_start as int, body_start + len)
                =~= bytes@.skip(pos as int).subrange(
                body_start - pos,
                body_start - pos + len,
            ));
        }
        if !check_utf8(&body) {
            return Err(Error::InvalidUtf8);
        }
        Ok((MString(body), body_start + len))
    }

    fn encode(&self, out: &mut Vec<u8>) -> (r: Result<(), Error>) {
        let len = self.0.len();
        if len > N || len > 0x7FFF_FFFF {
            return Err(Error::StringTooLong);
        }
        if !check_utf8(&self.0) {
            return Err(Error::InvalidUtf8);
        }
        varint_encode_u(out, len as u32);
        append_bytes(out, &self.0);
        Ok(())
    }

    fn num_bytes(&self) -> (r: usize) {
        varint_size_u(self.0.len() as u32) + self.0.len()
    }
}

} // verus!
