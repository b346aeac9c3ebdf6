//! The packet catalog and the framing layer. Every packet on the wire is
//! `VarInt totalLen` then `VarInt id` then the payload, where `totalLen`
//! counts the id and the payload. Identifiers collide across phases, so a
//! packet's id is only meaningful together with the connection phase.

use vstd::prelude::*;
use vstd::arithmetic::power2::lemma2_to64;
use crate::codec::{Error, MinecraftData, lemma_field_step, append_bytes};
use crate::varint::{VarInt, varint_enc_u, varint_encode_u, lemma_varint_enc_len};
use crate::numeric::u32_of_i32;
use crate::seqs::{lemma_concat_assoc, lemma_concat_skip, lemma_skip_skip};

verus! {

/// The on-wire frame of a packet model: the total length of id and payload,
/// the id, then the payload.
pub open spec fn spec_frame<P: Packet>(m: P::V) -> Seq<u8> {
    let idb = varint_enc_u(P::spec_id() as u32);
    let payload = P::enc(m);
    varint_enc_u((idb.len() + payload.len()) as u32) + idb + payload
}

/// A typed packet: a codable payload together with its protocol identifier.
pub trait Packet: MinecraftData {
    /// The packet's identifier within its phase.
    spec fn spec_id() -> int;

    /// Identifiers are small non-negative values.
    proof fn lemma_id_bounds()
        ensures
            0 <= Self::spec_id() <= 0x7FFF_FFFF,
    ;

    /// The identifier as a value.
    fn id() -> (r: i32)
        ensures
            r as int == Self::spec_id(),
    ;

    /// Reads the typed payload: the counterpart of `encode_packet` once the
    /// header has been read.
    fn decode_packet(bytes: &Vec<u8>, pos: usize) -> (r: Result<(Self, usize), Error>)
        requires
            pos <= bytes@.len(),
        ensures
            match r {
                Ok((v, end)) => {
                    &&& pos <= end <= bytes@.len()
                    &&& Self::dec(bytes@.skip(pos as int)) == Some((v.deep_view(), end - pos))
                },
                Err(_) => Self::dec(bytes@.skip(pos as int)) is None,
            },
    {
        Self::decode(bytes, pos)
    }

    /// Appends the full frame - length, id, payload - to `out`.
    fn encode_packet(&self, out: &mut Vec<u8>) -> (r: Result<(), Error>)
        ensures
            r is Ok <==> Self::wf(self.deep_view()) && varint_enc_u(Self::spec_id() as u32).len()
                + Self::enc(self.deep_view()).len() <= 0x7FFF_FFFF,
            r is Ok ==> final(out)@ == old(out)@ + ({
                let idb = varint_enc_u(Self::spec_id() as u32);
                let payload = Self::enc(self.deep_view());
                varint_enc_u((idb.len() + payload.len()) as u32) + idb + payload
            }),
    {
        let mut payload: Vec<u8> = Vec::new();
        match self.encode(&mut payload) {
            Ok(()) => {},
            Err(e) => {
                return Err(e);
            },
        }
        let mut idbuf: Vec<u8> = Vec::new();
        proof {
            Self::lemma_id_bounds();
        }
        let id = Self::id();
        varint_encode_u(&mut idbuf, id as u32);
        proof {
            lemma_varint_enc_len(id as u32);
        }
        if payload.len() > 0x7FFF_FFFF - idbuf.len() {
            return Err(Error::LengthOverflow);
        }
        let total = idbuf.len() + payload.len();
        varint_encode_u(out, total as u32);
        append_bytes(out, &idbuf);
        append_bytes(out, &payload);
        proof {
            let idb = varint_enc_u(Self::spec_id() as u32);
            let pl = Self::enc(self.deep_view());
            assert(out@ =~= old(out)@ + (varint_enc_u((idb.len() + pl.len()) as u32) + idb + pl));
        }
        Ok(())
    }
}

/// A packet frame's leading pair: the outer length and the packet id.
#[derive(Debug, Clone, Copy, PartialEq, Eq)]
pub struct PacketHeader {
    pub len: VarInt,
    pub id: VarInt,
}

/// The specification-level header decoder: two VarInts.
pub open spec fn header_dec(s: Seq<u8>) -> Option<(PacketHeader, int)> {
    match <VarInt as MinecraftData>::dec(s) {
        Some(p0) => match <VarInt as MinecraftData>::dec(s.skip(p0.1)) {
            Some(p1) => Some(((PacketHeader { len: p0.0, id: p1.0 }), p0.1 + p1.1)),
            None => None,
        },
        None => None,
    }
}

/// Reads a packet header (outer length, then id) at `pos`.
pub fn decode_packet_header(bytes: &Vec<u8>, pos: usize) -> (r: Result<
    (PacketHeader, usize),
    Error,
>)
    requires
        pos <= bytes@.len(),
    ensures
        match r {
            Ok(p) => {
                &&& pos <= p.1 <= bytes@.len()
                &&& header_dec(bytes@.skip(pos as int)) == Some((p.0, p.1 - pos))
            },
            Err(_) => header_dec(bytes@.skip(pos as int)) is None,
        },
{
    let (len, p1) = match <VarInt as MinecraftData>::decode(bytes, pos) {
        Ok(x) => x,
        Err(e) => {
            return Err(e);
        },
    };
    proof {
        lemma_skip_skip(bytes@, pos as int, p1 - pos);
    }
    let (id, p2) = match <VarInt as MinecraftData>::decode(bytes, p1) {
        Ok(x) => x,
        Err(e) => {
            return Err(e);
        },
    };
    Ok(((PacketHeader { len, id }), p2))
}

/// The number of payload bytes a header announces: the outer length minus
/// the id's encoding.
pub open spec fn spec_payload_len(h: PacketHeader) -> int {
    h.len.0 - varint_enc_u(u32_of_i32(h.id.0)).len()
}

/// Computes the payload length of a frame, rejecting a header whose outer
/// length is negative or smaller than its own id.
pub fn payload_len(h: &PacketHeader) -> (r: Result<usize, Error>)
    ensures
        r matches Ok(n) ==> n == spec_payload_len(*h),
        r is Ok <==> 0 <= h.len.0 && 0 <= spec_payload_len(*h),
{
    if h.len.0 < 0 {
        return Err(Error::NegativeLength);
    }
    proof {
        lemma_varint_enc_len(u32_of_i32(h.id.0));
    }
    let idn = h.id.num_bytes();
    let l = h.len.0 as usize;
    if l < idn {
        return Err(Error::InconsistentValue);
    }
    Ok(l - idn)
}

/// Framing invertibility: on the frame of a well-formed packet, decoding
/// the header and then the typed payload consumes exactly the bytes the
/// encoder produced, and the header's length field counts exactly the id
/// and the payload.
pub proof fn lemma_frame_round_trip<P: Packet>(m: P::V, rest: Seq<u8>)
    requires
        P::wf(m),
        varint_enc_u(P::spec_id() as u32).len() + P::enc(m).len() <= 0x7FFF_FFFF,
    ensures
        ({
            let idb = varint_enc_u(P::spec_id() as u32);
            let payload = P::enc(m);
            let frame = spec_frame::<P>(m);
            let lenb = varint_enc_u((idb.len() + payload.len()) as u32);
            let header = PacketHeader {
                len: VarInt((idb.len() + payload.len()) as i32),
                id: VarInt(P::spec_id() as i32),
            };
            &&& header_dec(frame + rest) == Some((header, lenb.len() as int + idb.len() as int))
            &&& P::dec((frame + rest).skip(lenb.len() as int + idb.len() as int)) == Some(
                (m, payload.len() as int),
            )
            &&& frame.len() == lenb.len() + idb.len() + payload.len()
            &&& spec_payload_len(header) == payload.len()
        }),
{
    P::lemma_id_bounds();
    lemma2_to64();
    let idb = varint_enc_u(P::spec_id() as u32);
    let payload = P::enc(m);
    let total = idb.len() + payload.len();
    let lenb = varint_enc_u(total as u32);
    let frame = spec_frame::<P>(m);
    lemma_concat_assoc(lenb + idb, payload, rest);
    lemma_concat_assoc(lenb, idb, payload + rest);
    assert(<VarInt as MinecraftData>::enc(VarInt(total as i32)) == lenb);
    lemma_field_step::<VarInt>(VarInt(total as i32), idb + (payload + rest));
    assert(<VarInt as MinecraftData>::enc(VarInt(P::spec_id() as i32)) == idb);
    lemma_field_step::<VarInt>(VarInt(P::spec_id() as i32), payload + rest);
    P::lemma_round_trip(m, rest);
    lemma_concat_skip(payload, rest);
    lemma_skip_skip(frame + rest, lenb.len() as int, idb.len() as int);
}

} // verus!
