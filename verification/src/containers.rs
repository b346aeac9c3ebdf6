//! Codecs for the two generic containers: length-prefixed sequences
//! (`Vec<T>`: a VarInt count, then that many values) and optionals
//! (`Option<T>`: one boolean byte, then the value if and only if it was
//! `0x01`). Also the array helpers that read or write a run of values with
//! no prefix of their own.

use vstd::prelude::*;
use crate::codec::{Error, MinecraftData};
use crate::varint::{
    varint_enc_u, varint_dec_rec, varint_encode_u, varint_size_u, lemma_varint_round_trip,
    lemma_varint_dec_bound, VarInt,
};
use crate::numeric::i32_of_u32;
use crate::seqs::{lemma_concat_skip, lemma_skip_skip, lemma_concat_assoc};
use vstd::arithmetic::power2::lemma2_to64;

verus! {

/// The concatenated encodings of a run of models, with no prefix.
pub open spec fn elems_enc<T: MinecraftData>(m: Seq<T::V>) -> Seq<u8>
    decreases m.len(),
{
    if m.len() == 0 {
        Seq::empty()
    } else {
        T::enc(m[0]) + elems_enc::<T>(m.skip(1))
    }
}

/// Decodes exactly `count` consecutive values.
pub open spec fn elems_dec<T: MinecraftData>(s: Seq<u8>, count: nat) -> Option<(Seq<T::V>, int)>
    decreases count,
{
    if count == 0 {
        Some((Seq::empty(), 0int))
    } else {
        match T::dec(s) {
            Some(p) => match elems_dec::<T>(s.skip(p.1), (count - 1) as nat) {
                Some(q) => Some((seq![p.0] + q.0, p.1 + q.1)),
                None => None,
            },
            None => None,
        }
    }
}

/// What a successful run decode guarantees: the count is met, the bytes lie
/// within the input, and every element is well formed.
pub proof fn lemma_elems_dec_props<T: MinecraftData>(s: Seq<u8>, count: nat)
    ensures
        elems_dec::<T>(s, count) matches Some(q) ==> {
            &&& 0 <= q.1 <= s.len()
            &&& q.0.len() == count
            &&& forall|i: int| 0 <= i < count ==> T::wf(#[trigger] q.0[i])
        },
    decreases count,
{
    if count > 0 {
        T::lemma_dec_props(s);
        if T::dec(s) is Some {
            let p = T::dec(s).unwrap();
            lemma_elems_dec_props::<T>(s.skip(p.1), (count - 1) as nat);
        }
    }
}

/// Round trip for a run: decoding the concatenated encodings of `m.len()`
/// well-formed models yields them back.
pub proof fn lemma_elems_round_trip<T: MinecraftData>(m: Seq<T::V>, rest: Seq<u8>)
    requires
        forall|i: int| 0 <= i < m.len() ==> T::wf(#[trigger] m[i]),
    ensures
        elems_dec::<T>(elems_enc::<T>(m) + rest, m.len()) == Some(
            (m, elems_enc::<T>(m).len() as int),
        ),
    decreases m.len(),
{
    if m.len() == 0 {
        assert(elems_enc::<T>(m) + rest =~= rest);
        assert(m =~= Seq::<T::V>::empty());
    } else {
        let e0 = T::enc(m[0]);
        let etail = elems_enc::<T>(m.skip(1));
        lemma_concat_assoc(e0, etail, rest);
        T::lemma_round_trip(m[0], etail + rest);
        let s = elems_enc::<T>(m) + rest;
        assert(s == e0 + (etail + rest));
        lemma_concat_skip(e0, etail + rest);
        assert forall|i: int| 0 <= i < m.skip(1).len() implies T::wf(#[trigger] m.skip(1)[i]) by {
            assert(m.skip(1)[i] == m[i + 1]);
        }
        lemma_elems_round_trip::<T>(m.skip(1), rest);
        assert(seq![m[0]] + m.skip(1) =~= m);
    }
}

/// Splitting a run at `i` splits its encoding.
pub proof fn lemma_elems_enc_split<T: MinecraftData>(m: Seq<T::V>, i: int)
    requires
        0 <= i <= m.len(),
    ensures
        elems_enc::<T>(m) == elems_enc::<T>(m.take(i)) + elems_enc::<T>(m.skip(i)),
    decreases i,
{
    if i == 0 {
        assert(m.skip(0) =~= m);
        assert(Seq::<u8>::empty() + elems_enc::<T>(m) =~= elems_enc::<T>(m));
    } else {
        lemma_elems_enc_split::<T>(m.skip(1), i - 1);
        assert(m.skip(1).take(i - 1) =~= m.take(i).skip(1));
        assert(m.skip(1).skip(i - 1) =~= m.skip(i));
        assert(m.take(i)[0] == m[0]);
        let e0 = T::enc(m[0]);
        lemma_concat_assoc(e0, elems_enc::<T>(m.take(i).skip(1)), elems_enc::<T>(m.skip(i)));
    }
}

/// Reads `count` consecutive values starting at `pos`.
pub fn decode_array<T: MinecraftData>(bytes: &Vec<u8>, pos: usize, count: usize) -> (r: Result<
    (Vec<T>, usize),
    Error,
>)
    requires
        pos <= bytes@.len(),
    ensures
        match r {
            Ok(p) => {
                &&& pos <= p.1 <= bytes@.len()
                &&& elems_dec::<T>(bytes@.skip(pos as int), count as nat) == Some(
                    (p.0.deep_view(), p.1 - pos),
                )
            },
            Err(_) => elems_dec::<T>(bytes@.skip(pos as int), count as nat) is None,
        },
    decreases count,
{
    if count == 0 {
        let empty: Vec<T> = Vec::new();
        proof {
            assert(empty.deep_view() =~= Seq::<T::V>::empty());
        }
        return Ok((empty, pos));
    }
    let (v, p) = match T::decode(bytes, pos) {
        Ok(x) => x,
        Err(e) => {
            return Err(e);
        },
    };
    proof {
        lemma_skip_skip(bytes@, pos as int, p - pos);
    }
    match decode_array::<T>(bytes, p, count - 1) {
        Ok((mut vs, end)) => {
            let ghost tail_view = vs.deep_view();
            vs.insert(0, v);
            proof {
                assert(vs.deep_view() =~= seq![v.deep_view()] + tail_view);
            }
            Ok((vs, end))
        },
        Err(e) => Err(e),
    }
}

/// Writes the values of `data` one after the other, with no prefix.
pub fn encode_array<T: MinecraftData>(data: &Vec<T>, out: &mut Vec<u8>) -> (r: Result<(), Error>)
    ensures
        r is Ok <==> (forall|i: int|
            0 <= i < data.deep_view().len() ==> T::wf(#[trigger] data.deep_view()[i])),
        r is Ok ==> final(out)@ == old(out)@ + elems_enc::<T>(data.deep_view()),
{
    let n = data.len();
    let mut i: usize = 0;
    while i < n
        invariant
            i <= n,
            n == data@.len(),
            forall|j: int| 0 <= j < i ==> T::wf(#[trigger] data.deep_view()[j]),
            out@ == old(out)@ + elems_enc::<T>(data.deep_view().take(i as int)),
        decreases n - i,
    {
        let ghost before = data.deep_view().take(i as int);
        let elem = &data[i];
        proof {
            assert(elem.deep_view() == data.deep_view()[i as int]);
        }
        match elem.encode(out) {
            Ok(()) => {},
            Err(e) => {
                proof {
                    assert(!T::wf(data.deep_view()[i as int]));
                }
                return Err(e);
            },
        }
        proof {
            lemma_elems_enc_push::<T>(before, data.deep_view()[i as int]);
            assert(data.deep_view().take(i + 1) =~= before.push(data.deep_view()[i as int]));
            lemma_concat_assoc(
                old(out)@,
                elems_enc::<T>(before),
                T::enc(data.deep_view()[i as int]),
            );
        }
        i = i + 1;
    }
    proof {
        assert(data.deep_view().take(n as int) =~= data.deep_view());
    }
    Ok(())
}

/// Appending one model to a run appends its encoding.
pub proof fn lemma_elems_enc_push<T: MinecraftData>(m: Seq<T::V>, x: T::V)
    ensures
        elems_enc::<T>(m.push(x)) == elems_enc::<T>(m) + T::enc(x),
    decreases m.len(),
{
    if m.len() == 0 {
        assert(m.push(x)[0] == x);
        assert(m.push(x).skip(1) =~= Seq::<T::V>::empty());
        assert(elems_enc::<T>(Seq::<T::V>::empty()) == Seq::<u8>::empty());
        assert(elems_enc::<T>(m.push(x)) == T::enc(x) + Seq::<u8>::empty());
        assert(T::enc(x) + Seq::<u8>::empty() =~= T::enc(x));
        assert(Seq::<u8>::empty() + T::enc(x) =~= T::enc(x));
    } else {
        assert(m.push(x)[0] == m[0]);
        assert(m.push(x).skip(1) =~= m.skip(1).push(x));
        lemma_elems_enc_push::<T>(m.skip(1), x);
        lemma_concat_assoc(T::enc(m[0]), elems_enc::<T>(m.skip(1)), T::enc(x));
    }
}

/// The total byte length of a run of values.
pub fn num_bytes_array<T: MinecraftData>(data: &Vec<T>) -> (r: usize)
    requires
        forall|i: int| 0 <= i < data.deep_view().len() ==> T::wf(#[trigger] data.deep_view()[i]),
        elems_enc::<T>(data.deep_view()).len() <= usize::MAX,
    ensures
        r == elems_enc::<T>(data.deep_view()).len(),
{
    let n = data.len();
    let mut acc: usize = 0;
    let mut i: usize = 0;
    while i < n
        invariant
            i <= n,
            n == data@.len(),
            forall|j: int|
                0 <= j < data.deep_view().len() ==> T::wf(#[trigger] data.deep_view()[j]),
            elems_enc::<T>(data.deep_view()).len() <= usize::MAX,
            acc == elems_enc::<T>(data.deep_view().take(i as int)).len(),
        decreases n - i,
    {
        proof {
            lemma_elems_enc_split::<T>(data.deep_view(), i + 1);
            lemma_elems_enc_push::<T>(
                data.deep_view().take(i as int),
                data.deep_view()[i as int],
            );
            assert(data.deep_view().take(i + 1) =~= data.deep_view().take(i as int).push(
                data.deep_view()[i as int],
            ));
        }
        let nb = data[i].num_bytes();
        acc = acc + nb;
        i = i + 1;
    }
    proof {
        assert(data.deep_view().take(n as int) =~= data.deep_view());
    }
    acc
}

/// The encoding of a presence-gated field: the value's bytes if present,
/// nothing otherwise. Unlike `Option<T>`, no boolean byte is written — an
/// earlier field of the record is the presence predicate.
pub open spec fn gated_enc<T: MinecraftData>(m: Option<T::V>) -> Seq<u8> {
    match m {
        Some(x) => T::enc(x),
        None => Seq::empty(),
    }
}

/// Decoding a presence-gated field: the predicate `c` over the earlier
/// fields decides whether any bytes are read.
pub open spec fn gated_dec<T: MinecraftData>(c: bool, s: Seq<u8>) -> Option<(Option<T::V>, int)> {
    if c {
        match T::dec(s) {
            Some(p) => Some((Some(p.0), p.1)),
            None => None,
        }
    } else {
        Some((None, 0int))
    }
}

/// A gated field is well formed when presence agrees with the predicate and
/// a present value is itself well formed.
pub open spec fn gated_wf<T: MinecraftData>(c: bool, m: Option<T::V>) -> bool {
    &&& c <==> m is Some
    &&& (m matches Some(x) ==> T::wf(x))
}

/// The sequencing step for a gated field, in both branches of the predicate.
pub proof fn lemma_gated_field_step<T: MinecraftData>(c: bool, m: Option<T::V>, rest: Seq<u8>)
    requires
        gated_wf::<T>(c, m),
    ensures
        gated_dec::<T>(c, gated_enc::<T>(m) + rest) == Some(
            (m, gated_enc::<T>(m).len() as int),
        ),
        (gated_enc::<T>(m) + rest).skip(gated_enc::<T>(m).len() as int) == rest,
{
    match m {
        Some(x) => {
            T::lemma_round_trip(x, rest);
            lemma_concat_skip(T::enc(x), rest);
        },
        None => {
            assert(gated_enc::<T>(m) + rest =~= rest);
            assert((gated_enc::<T>(m) + rest).skip(0) =~= rest);
        },
    }
}

pub proof fn lemma_gated_dec_props<T: MinecraftData>(c: bool, s: Seq<u8>)
    ensures
        gated_dec::<T>(c, s) matches Some(p) ==> {
            &&& 0 <= p.1 <= s.len()
            &&& gated_wf::<T>(c, p.0)
        },
{
    if c {
        T::lemma_dec_props(s);
    }
}

/// Reads a presence-gated field at `pos`: nothing when the predicate is
/// false, one value when it is true.
pub fn gated_decode<T: MinecraftData>(bytes: &Vec<u8>, pos: usize, c: bool) -> (r: Result<
    (Option<T>, usize),
    Error,
>)
    requires
        pos <= bytes@.len(),
    ensures
        match r {
            Ok(p) => {
                &&& pos <= p.1 <= bytes@.len()
                &&& gated_dec::<T>(c, bytes@.skip(pos as int)) == Some(
                    (p.0.deep_view(), p.1 - pos),
                )
            },
            Err(_) => gated_dec::<T>(c, bytes@.skip(pos as int)) is None,
        },
{
    if c {
        match T::decode(bytes, pos) {
            Ok((v, end)) => Ok((Some(v), end)),
            Err(e) => Err(e),
        }
    } else {
        Ok((None, pos))
    }
}

/// Writes a presence-gated field; rejects a value whose presence disagrees
/// with the predicate.
pub fn gated_encode<T: MinecraftData>(c: bool, v: &Option<T>, out: &mut Vec<u8>) -> (r: Result<
    (),
    Error,
>)
    ensures
        r is Ok <==> gated_wf::<T>(c, v.deep_view()),
        r is Ok ==> final(out)@ == old(out)@ + gated_enc::<T>(v.deep_view()),
{
    match v {
        Some(x) => {
            if !c {
                return Err(Error::InconsistentValue);
            }
            match x.encode(out) {
                Ok(()) => Ok(()),
                Err(e) => Err(e),
            }
        },
        None => {
            if c {
                return Err(Error::InconsistentValue);
            }
            proof {
                assert(out@ =~= old(out)@ + gated_enc::<T>(v.deep_view()));
            }
            Ok(())
        },
    }
}

/// The byte length of a presence-gated field.
pub fn gated_num_bytes<T: MinecraftData>(v: &Option<T>) -> (r: usize)
    requires
        v.deep_view() matches Some(x) ==> T::wf(x) && T::enc(x).len() <= usize::MAX,
    ensures
        r == gated_enc::<T>(v.deep_view()).len(),
{
    match v {
        Some(x) => x.num_bytes(),
        None => 0,
    }
}

impl<T: MinecraftData> MinecraftData for Vec<T> {
    open spec fn wf(m: Seq<T::V>) -> bool {
        &&& m.len() <= 0x7FFF_FFFF
        &&& forall|i: int| 0 <= i < m.len() ==> T::wf(#[trigger] m[i])
    }

    open spec fn enc(m: Seq<T::V>) -> Seq<u8> {
        varint_enc_u(m.len() as u32) + elems_enc::<T>(m)
    }

    open spec fn dec(s: Seq<u8>) -> Option<(Seq<T::V>, int)> {
        match varint_dec_rec(s, 0) {
            Some(p) => {
                let len = i32_of_u32(p.0);
                if len < 0 {
                    None
                } else {
                    match elems_dec::<T>(s.skip(p.1), len as nat) {
                        Some(q) => Some((q.0, p.1 + q.1)),
                        None => None,
                    }
                }
            },
            None => None,
        }
    }

    proof fn lemma_round_trip(m: Seq<T::V>, rest: Seq<u8>) {
        lemma2_to64();
        let lenb = varint_enc_u(m.len() as u32);
        let body = elems_enc::<T>(m);
        lemma_concat_assoc(lenb, body, rest);
        lemma_varint_round_trip(m.len() as u32, 0, body + rest);
        let s = Self::enc(m) + rest;
        assert(s == lenb + (body + rest));
        lemma_concat_skip(lenb, body + rest);
        lemma_elems_round_trip::<T>(m, rest);
    }

    proof fn lemma_dec_props(s: Seq<u8>) {
        lemma_varint_dec_bound(s, 0);
        if varint_dec_rec(s, 0) is Some {
            let p = varint_dec_rec(s, 0).unwrap();
            let len = i32_of_u32(p.0);
            if len >= 0 {
                lemma_elems_dec_props::<T>(s.skip(p.1), len as nat);
            }
        }
    }

    fn decode(bytes: &Vec<u8>, pos: usize) -> (r: Result<(Self, usize), Error>) {
        let (len_v, body_start) = match VarInt::decode(bytes, pos) {
            Ok(x) => x,
            Err(e) => {
                return Err(e);
            },
        };
        if len_v.0 < 0 {
            return Err(Error::NegativeLength);
        }
        let count = len_v.0 as usize;
        proof {
            lemma_skip_skip(bytes@, pos as int, body_start - pos);
        }
        match decode_array::<T>(bytes, body_start, count) {
            Ok((vs, end)) => Ok((vs, end)),
            Err(e) => Err(e),
        }
    }

    fn encode(&self, out: &mut Vec<u8>) -> (r: Result<(), Error>) {
        let len = self.len();
        if len > 0x7FFF_FFFF {
            return Err(Error::LengthOverflow);
        }
        varint_encode_u(out, len as u32);
        let ghost mid = out@;
        match encode_array::<T>(self, out) {
            Ok(()) => {
                proof {
                    lemma_concat_assoc(
                        old(out)@,
                        varint_enc_u(len as u32),
                        elems_enc::<T>(self.deep_view()),
                    );
                }
                Ok(())
            },
            Err(e) => Err(e),
        }
    }

    fn num_bytes(&self) -> (r: usize) {
        let prefix = varint_size_u(self.len() as u32);
        let body = num_bytes_array::<T>(self);
        prefix + body
    }
}

impl<T: MinecraftData> MinecraftData for Option<T> {
    open spec fn wf(m: Option<T::V>) -> bool {
        match m {
            Some(x) => T::wf(x),
            None => true,
        }
    }

    open spec fn enc(m: Option<T::V>) -> Seq<u8> {
        match m {
            Some(x) => seq![1u8] + T::enc(x),
            None => seq![0u8],
        }
    }

    open spec fn dec(s: Seq<u8>) -> Option<(Option<T::V>, int)> {
        if s.len() == 0 {
            None
        } else if s[0] == 0 {
            Some((None, 1int))
        } else if s[0] == 1 {
            match T::dec(s.skip(1)) {
                Some(p) => Some((Some(p.0), p.1 + 1)),
                None => None,
            }
        } else {
            None
        }
    }

    proof fn lemma_round_trip(m: Option<T::V>, rest: Seq<u8>) {
        match m {
            Some(x) => {
                let e = T::enc(x);
                lemma_concat_assoc(seq![1u8], e, rest);
                let s = Self::enc(m) + rest;
                assert(s == seq![1u8] + (e + rest));
                assert(s[0] == 1);
                lemma_concat_skip(seq![1u8], e + rest);
                T::lemma_round_trip(x, rest);
            },
            None => {
                let s = Self::enc(m) + rest;
                assert(s[0] == 0);
            },
        }
    }

    proof fn lemma_dec_props(s: Seq<u8>) {
        if s.len() > 0 && s[0] == 1 {
            T::lemma_dec_props(s.skip(1));
        }
    }

    fn decode(bytes: &Vec<u8>, pos: usize) -> (r: Result<(Self, usize), Error>) {
        let (present, body_start) = match bool::decode(bytes, pos) {
            Ok(x) => x,
            Err(e) => {
                proof {
                    let s = bytes@.skip(pos as int);
                    assert(bool::dec(s) is None);
                    assert(Self::dec(s) is None);
                }
                return Err(e);
            },
        };
        proof {
            lemma_skip_skip(bytes@, pos as int, 1);
        }
        if present {
            match T::decode(bytes, body_start) {
                Ok((v, end)) => Ok((Some(v), end)),
                Err(e) => Err(e),
            }
        } else {
            Ok((None, body_start))
        }
    }

    fn encode(&self, out: &mut Vec<u8>) -> (r: Result<(), Error>) {
        match self {
            Some(v) => {
                out.push(1u8);
                let ghost mid = out@;
                match v.encode(out) {
                    Ok(()) => {
                        proof {
                            assert(mid =~= old(out)@ + seq![1u8]);
                            lemma_concat_assoc(old(out)@, seq![1u8], T::enc(v.deep_view()));
                        }
                        Ok(())
                    },
                    Err(e) => Err(e),
                }
            },
            None => {
                out.push(0u8);
                proof {
                    assert(out@ =~= old(out)@ + Self::enc(self.deep_view()));
                }
                Ok(())
            },
        }
    }

    fn num_bytes(&self) -> (r: usize) {
        match self {
            Some(v) => 1 + v.num_bytes(),
            None => 1,
        }
    }
}

} // verus!
