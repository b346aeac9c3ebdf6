//! The protocol's compound vocabulary: game profiles, registry tags, tagged
//! identifier sets, item slots with dependent fields, and the recursive
//! slot-display union. Records encode as the concatenation of their fields
//! in declaration order; a field gated by a presence predicate occupies
//! bytes if and only if the predicate over the earlier fields holds.

use vstd::prelude::*;
use vstd::arithmetic::power2::lemma2_to64;
use crate::codec::{Error, MinecraftData, lemma_field_step};
use crate::varint::{
    VarInt, varint_enc_u, varint_dec_rec, varint_encode_u, varint_size_u,
    lemma_varint_round_trip, lemma_varint_dec_bound, lemma_varint_enc_len, varint_decode_rec,
};
use crate::strings::{MString, Identifier};
use crate::primitives::UUID;
use crate::containers::{
    elems_enc, elems_dec, decode_array, encode_array, num_bytes_array, lemma_elems_round_trip,
    lemma_elems_dec_props,
};
use crate::numeric::i32_of_u32;
use crate::seqs::{lemma_concat_assoc, lemma_concat_skip, lemma_skip_skip};

verus! {

/// The model of a game profile property.
pub struct GameProfilePropertyModel {
    pub name: Seq<u8>,
    pub value: Seq<u8>,
    pub signature: Option<Seq<u8>>,
}

/// One property of a game profile: a named value with an optional signature.
#[derive(Debug, Clone)]
pub struct GameProfileProperty {
    pub name: MString<64>,
    pub value: MString<32767>,
    pub signature: Option<MString<1024>>,
}

impl DeepView for GameProfileProperty {
    type V = GameProfilePropertyModel;

    open spec fn deep_view(&self) -> GameProfilePropertyModel {
        GameProfilePropertyModel {
            name: self.name.deep_view(),
            value: self.value.deep_view(),
            signature: self.signature.deep_view(),
        }
    }
}

impl MinecraftData for GameProfileProperty {
    open spec fn wf(m: GameProfilePropertyModel) -> bool {
        &&& <MString<64> as MinecraftData>::wf(m.name)
        &&& <MString<32767> as MinecraftData>::wf(m.value)
        &&& <Option<MString<1024>> as MinecraftData>::wf(m.signature)
    }

    open spec fn enc(m: GameProfilePropertyModel) -> Seq<u8> {
        <MString<64> as MinecraftData>::enc(m.name) + <MString<32767> as MinecraftData>::enc(
            m.value,
        ) + <Option<MString<1024>> as MinecraftData>::enc(m.signature)
    }

    open spec fn dec(s: Seq<u8>) -> Option<(GameProfilePropertyModel, int)> {
        match <MString<64> as MinecraftData>::dec(s) {
            Some(p0) => match <MString<32767> as MinecraftData>::dec(s.skip(p0.1)) {
                Some(p1) => match <Option<MString<1024>> as MinecraftData>::dec(
                    s.skip(p0.1).skip(p1.1),
                ) {
                    Some(p2) => Some(
                        (
                            GameProfilePropertyModel { name: p0.0, value: p1.0, signature: p2.0 },
                            p0.1 + p1.1 + p2.1,
                        ),
                    ),
                    None => None,
                },
                None => None,
            },
            None => None,
        }
    }

    proof fn lemma_round_trip(m: GameProfilePropertyModel, rest: Seq<u8>) {
        let ea = <MString<64> as MinecraftData>::enc(m.name);
        let eb = <MString<32767> as MinecraftData>::enc(m.value);
        let ec = <Option<MString<1024>> as MinecraftData>::enc(m.signature);
        lemma_concat_assoc(ea + eb, ec, rest);
        lemma_concat_assoc(ea, eb, ec + rest);
        lemma_field_step::<MString<64>>(m.name, eb + (ec + rest));
        lemma_field_step::<MString<32767>>(m.value, ec + rest);
        lemma_field_step::<Option<MString<1024>>>(m.signature, rest);
    }

    proof fn lemma_dec_props(s: Seq<u8>) {
        <MString<64> as MinecraftData>::lemma_dec_props(s);
        if <MString<64> as MinecraftData>::dec(s) is Some {
            let p0 = <MString<64> as MinecraftData>::dec(s).unwrap();
            let s1 = s.skip(p0.1);
            <MString<32767> as MinecraftData>::lemma_dec_props(s1);
            if <MString<32767> as MinecraftData>::dec(s1) is Some {
                let p1 = <MString<32767> as MinecraftData>::dec(s1).unwrap();
                let s2 = s1.skip(p1.1);
                <Option<MString<1024>> as MinecraftData>::lemma_dec_props(s2);
            }
        }
    }

    fn decode(bytes: &Vec<u8>, pos: usize) -> (r: Result<(Self, usize), Error>) {
        let (name, p1) = match <MString<64> as MinecraftData>::decode(bytes, pos) {
            Ok(x) => x,
            Err(e) => {
                return Err(e);
            },
        };
        proof {
            lemma_skip_skip(bytes@, pos as int, p1 - pos);
        }
        let (value, p2) = match <MString<32767> as MinecraftData>::decode(bytes, p1) {
            Ok(x) => x,
            Err(e) => {
                return Err(e);
            },
        };
        proof {
            lemma_skip_skip(bytes@, p1 as int, p2 - p1);
        }
        let (signature, p3) = match <Option<MString<1024>> as MinecraftData>::decode(bytes, p2) {
            Ok(x) => x,
            Err(e) => {
                return Err(e);
            },
        };
        Ok((GameProfileProperty { name, value, signature }, p3))
    }

    fn encode(&self, out: &mut Vec<u8>) -> (r: Result<(), Error>) {
        match self.name.encode(out) {
            Ok(()) => {},
            Err(e) => {
                return Err(e);
            },
        }
        match self.value.encode(out) {
            Ok(()) => {},
            Err(e) => {
                return Err(e);
            },
        }
        match self.signature.encode(out) {
            Ok(()) => {},
            Err(e) => {
                return Err(e);
            },
        }
        proof {
            assert(out@ =~= old(out)@ + Self::enc(self.deep_view()));
        }
        Ok(())
    }

    fn num_bytes(&self) -> (r: usize) {
        self.name.num_bytes() + self.value.num_bytes() + self.signature.num_bytes()
    }
}

/// An item slot: a leading count; if it is positive, the item id and the
/// two component counts follow, with no boolean prefixes of their own — the
/// count is the presence predicate. Item components themselves are not
/// carried by this client, so a slot announcing any is rejected.
#[derive(Debug, Clone, Copy, PartialEq, Eq)]
pub struct Slot {
    pub count: VarInt,
    pub id: Option<VarInt>,
    pub num_components_add: Option<VarInt>,
    pub num_components_remove: Option<VarInt>,
}

impl Slot {
    /// The empty slot: count zero, no dependent fields.
    pub fn empty() -> (r: Slot)
        ensures
            r == (Slot {
                count: VarInt(0),
                id: None,
                num_components_add: None,
                num_components_remove: None,
            }),
    {
        Slot { count: VarInt(0), id: None, num_components_add: None, num_components_remove: None }
    }
}

impl DeepView for Slot {
    type V = Slot;

    open spec fn deep_view(&self) -> Slot {
        *self
    }
}

impl MinecraftData for Slot {
    open spec fn wf(m: Slot) -> bool {
        if m.count.0 > 0 {
            &&& m.id is Some
            &&& (m.num_components_add matches Some(a) && a.0 <= 0)
            &&& (m.num_components_remove matches Some(x) && x.0 <= 0)
        } else {
            &&& m.id is None
            &&& m.num_components_add is None
            &&& m.num_components_remove is None
        }
    }

    open spec fn enc(m: Slot) -> Seq<u8> {
        if m.count.0 > 0 {
            <VarInt as MinecraftData>::enc(m.count) + <VarInt as MinecraftData>::enc(
                m.id.unwrap(),
            ) + <VarInt as MinecraftData>::enc(m.num_components_add.unwrap())
                + <VarInt as MinecraftData>::enc(m.num_components_remove.unwrap())
        } else {
            <VarInt as MinecraftData>::enc(m.count)
        }
    }

    open spec fn dec(s: Seq<u8>) -> Option<(Slot, int)> {
        match <VarInt as MinecraftData>::dec(s) {
            Some(p0) => {
                if p0.0.0 <= 0 {
                    Some(
                        (
                            Slot {
                                count: p0.0,
                                id: None,
                                num_components_add: None,
                                num_components_remove: None,
                            },
                            p0.1,
                        ),
                    )
                } else {
                    match <VarInt as MinecraftData>::dec(s.skip(p0.1)) {
                        Some(p1) => match <VarInt as MinecraftData>::dec(s.skip(p0.1).skip(p1.1)) {
                            Some(p2) => match <VarInt as MinecraftData>::dec(
                                s.skip(p0.1).skip(p1.1).skip(p2.1),
                            ) {
                                Some(p3) => {
                                    if p2.0.0 > 0 || p3.0.0 > 0 {
                                        None
                                    } else {
                                        Some(
                                            (
                                                Slot {
                                                    count: p0.0,
                                                    id: Some(p1.0),
                                                    num_components_add: Some(p2.0),
                                                    num_components_remove: Some(p3.0),
                                                },
                                                p0.1 + p1.1 + p2.1 + p3.1,
                                            ),
                                        )
                                    }
                                },
                                None => None,
                            },
                            None => None,
                        },
                        None => None,
                    }
                }
            },
            None => None,
        }
    }

    proof fn lemma_round_trip(m: Slot, rest: Seq<u8>) {
        if m.count.0 > 0 {
            let ea = <VarInt as MinecraftData>::enc(m.count);
            let eb = <VarInt as MinecraftData>::enc(m.id.unwrap());
            let ec = <VarInt as MinecraftData>::enc(m.num_components_add.unwrap());
            let ed = <VarInt as MinecraftData>::enc(m.num_components_remove.unwrap());
            lemma_concat_assoc(ea + eb + ec, ed, rest);
            lemma_concat_assoc(ea + eb, ec, ed + rest);
            lemma_concat_assoc(ea, eb, ec + (ed + rest));
            lemma_field_step::<VarInt>(m.count, eb + (ec + (ed + rest)));
            lemma_field_step::<VarInt>(m.id.unwrap(), ec + (ed + rest));
            lemma_field_step::<VarInt>(m.num_components_add.unwrap(), ed + rest);
            lemma_field_step::<VarInt>(m.num_components_remove.unwrap(), rest);
        } else {
            lemma_field_step::<VarInt>(m.count, rest);
        }
    }

    proof fn lemma_dec_props(s: Seq<u8>) {
        <VarInt as MinecraftData>::lemma_dec_props(s);
        if <VarInt as MinecraftData>::dec(s) is Some {
            let p0 = <VarInt as MinecraftData>::dec(s).unwrap();
            let s1 = s.skip(p0.1);
            <VarInt as MinecraftData>::lemma_dec_props(s1);
            if <VarInt as MinecraftData>::dec(s1) is Some {
                let p1 = <VarInt as MinecraftData>::dec(s1).unwrap();
                let s2 = s1.skip(p1.1);
                <VarInt as MinecraftData>::lemma_dec_props(s2);
                if <VarInt as MinecraftData>::dec(s2) is Some {
                    let p2 = <VarInt as MinecraftData>::dec(s2).unwrap();
                    <VarInt as MinecraftData>::lemma_dec_props(s2.skip(p2.1));
                }
            }
        }
    }

    fn decode(bytes: &Vec<u8>, pos: usize) -> (r: Result<(Self, usize), Error>) {
        let (count, p1) = match <VarInt as MinecraftData>::decode(bytes, pos) {
            Ok(x) => x,
            Err(e) => {
                return Err(e);
            },
        };
        if count.0 <= 0 {
            return Ok(
                (
                    Slot {
                        count,
                        id: None,
                        num_components_add: None,
                        num_components_remove: None,
                    },
                    p1,
                ),
            );
        }
        proof {
            lemma_skip_skip(bytes@, pos as int, p1 - pos);
        }
        let (id, p2) = match <VarInt as MinecraftData>::decode(bytes, p1) {
            Ok(x) => x,
            Err(e) => {
                return Err(e);
            },
        };
        proof {
            lemma_skip_skip(bytes@, p1 as int, p2 - p1);
        }
        let (nca, p3) = match <VarInt as MinecraftData>::decode(bytes, p2) {
            Ok(x) => x,
            Err(e) => {
                return Err(e);
            },
        };
        proof {
            lemma_skip_skip(bytes@, p2 as int, p3 - p2);
        }
        let (ncr, p4) = match <VarInt as MinecraftData>::decode(bytes, p3) {
            Ok(x) => x,
            Err(e) => {
                return Err(e);
            },
        };
        if nca.0 > 0 || ncr.0 > 0 {
            return Err(Error::Unsupported);
        }
        Ok(
            (
                Slot {
                    count,
                    id: Some(id),
                    num_components_add: Some(nca),
                    num_components_remove: Some(ncr),
                },
                p4,
            ),
        )
    }

    fn encode(&self, out: &mut Vec<u8>) -> (r: Result<(), Error>) {
        if self.count.0 > 0 {
            let id = match self.id {
                Some(v) => v,
                None => {
                    return Err(Error::InconsistentValue);
                },
            };
            let nca = match self.num_components_add {
                Some(v) => v,
                None => {
                    return Err(Error::InconsistentValue);
                },
            };
            let ncr = match self.num_components_remove {
                Some(v) => v,
                None => {
                    return Err(Error::InconsistentValue);
                },
            };
            if nca.0 > 0 || ncr.0 > 0 {
                return Err(Error::Unsupported);
            }
            let _ = self.count.encode(out);
            let _ = id.encode(out);
            let _ = nca.encode(out);
            let _ = ncr.encode(out);
            proof {
                assert(out@ =~= old(out)@ + Self::enc(self.deep_view()));
            }
            Ok(())
        } else {
            if self.id.is_some() || self.num_components_add.is_some()
                || self.num_components_remove.is_some() {
                return Err(Error::InconsistentValue);
            }
            let _ = self.count.encode(out);
            Ok(())
        }
    }

    fn num_bytes(&self) -> (r: usize) {
        let mut n = self.count.num_bytes();
        if self.count.0 > 0 {
            if let Some(v) = self.id {
                n = n + v.num_bytes();
            }
            if let Some(v) = self.num_components_add {
                n = n + v.num_bytes();
            }
            if let Some(v) = self.num_components_remove {
                n = n + v.num_bytes();
            }
        }
        n
    }
}

/// The model of a game profile.
pub struct GameProfileModel {
    pub uuid: UUID,
    pub username: Seq<u8>,
    pub properties: Seq<GameProfilePropertyModel>,
}

/// A player's profile: uuid, name, and signed properties.
#[derive(Debug, Clone)]
pub struct GameProfile {
    pub uuid: UUID,
    pub username: MString<16>,
    pub properties: Vec<GameProfileProperty>,
}

impl DeepView for GameProfile {
    type V = GameProfileModel;

    open spec fn deep_view(&self) -> GameProfileModel {
        GameProfileModel {
            uuid: self.uuid,
            username: self.username.deep_view(),
            properties: self.properties.deep_view(),
        }
    }
}

impl MinecraftData for GameProfile {
    open spec fn wf(m: GameProfileModel) -> bool {
        &&& <UUID as MinecraftData>::wf(m.uuid)
        &&& <MString<16> as MinecraftData>::wf(m.username)
        &&& <Vec<GameProfileProperty> as MinecraftData>::wf(m.properties)
    }

    open spec fn enc(m: GameProfileModel) -> Seq<u8> {
        <UUID as MinecraftData>::enc(m.uuid) + <MString<16> as MinecraftData>::enc(m.username)
            + <Vec<GameProfileProperty> as MinecraftData>::enc(m.properties)
    }

    open spec fn dec(s: Seq<u8>) -> Option<(GameProfileModel, int)> {
        match <UUID as MinecraftData>::dec(s) {
            Some(p0) => match <MString<16> as MinecraftData>::dec(s.skip(p0.1)) {
                Some(p1) => match <Vec<GameProfileProperty> as MinecraftData>::dec(
                    s.skip(p0.1).skip(p1.1),
                ) {
                    Some(p2) => Some(
                        (
                            GameProfileModel { uuid: p0.0, username: p1.0, properties: p2.0 },
                            p0.1 + p1.1 + p2.1,
                        ),
                    ),
                    None => None,
                },
                None => None,
            },
            None => None,
        }
    }

    proof fn lemma_round_trip(m: GameProfileModel, rest: Seq<u8>) {
        let ea = <UUID as MinecraftData>::enc(m.uuid);
        let eb = <MString<16> as MinecraftData>::enc(m.username);
        let ec = <Vec<GameProfileProperty> as MinecraftData>::enc(m.properties);
        lemma_concat_assoc(ea + eb, ec, rest);
        lemma_concat_assoc(ea, eb, ec + rest);
        lemma_field_step::<UUID>(m.uuid, eb + (ec + rest));
        lemma_field_step::<MString<16>>(m.username, ec + rest);
        lemma_field_step::<Vec<GameProfileProperty>>(m.properties, rest);
    }

    proof fn lemma_dec_props(s: Seq<u8>) {
        <UUID as MinecraftData>::lemma_dec_props(s);
        if <UUID as MinecraftData>::dec(s) is Some {
            let p0 = <UUID as MinecraftData>::dec(s).unwrap();
            let s1 = s.skip(p0.1);
            <MString<16> as MinecraftData>::lemma_dec_props(s1);
            if <MString<16> as MinecraftData>::dec(s1) is Some {
                let p1 = <MString<16> as MinecraftData>::dec(s1).unwrap();
                <Vec<GameProfileProperty> as MinecraftData>::lemma_dec_props(s1.skip(p1.1));
            }
        }
    }

    fn decode(bytes: &Vec<u8>, pos: usize) -> (r: Result<(Self, usize), Error>) {
        let (uuid, p1) = match <UUID as MinecraftData>::decode(bytes, pos) {
            Ok(x) => x,
            Err(e) => {
                return Err(e);
            },
        };
        proof {
            lemma_skip_skip(bytes@, pos as int, p1 - pos);
        }
        let (username, p2) = match <MString<16> as MinecraftData>::decode(bytes, p1) {
            Ok(x) => x,
            Err(e) => {
                return Err(e);
            },
        };
        proof {
            lemma_skip_skip(bytes@, p1 as int, p2 - p1);
        }
        let (properties, p3) = match <Vec<GameProfileProperty> as MinecraftData>::decode(
            bytes,
            p2,
        ) {
            Ok(x) => x,
            Err(e) => {
                return Err(e);
            },
        };
        Ok((GameProfile { uuid, username, properties }, p3))
    }

    fn encode(&self, out: &mut Vec<u8>) -> (r: Result<(), Error>) {
        match self.uuid.encode(out) {
            Ok(()) => {},
            Err(e) => {
                return Err(e);
            },
        }
        match self.username.encode(out) {
            Ok(()) => {},
            Err(e) => {
                return Err(e);
            },
        }
        match self.properties.encode(out) {
            Ok(()) => {},
            Err(e) => {
                return Err(e);
            },
        }
        proof {
            assert(out@ =~= old(out)@ + Self::enc(self.deep_view()));
        }
        Ok(())
    }

    fn num_bytes(&self) -> (r: usize) {
        self.uuid.num_bytes() + self.username.num_bytes() + self.properties.num_bytes()
    }
}

/// The model of a registry tag.
pub struct TagModel {
    pub name: Seq<u8>,
    pub entries: Seq<VarInt>,
}

/// One named tag of a registry: its identifier and the ids it covers.
#[derive(Debug, Clone)]
pub struct Tag {
    pub name: Identifier,
    pub entries: Vec<VarInt>,
}

impl DeepView for Tag {
    type V = TagModel;

    open spec fn deep_view(&self) -> TagModel {
        TagModel { name: self.name.deep_view(), entries: self.entries.deep_view() }
    }
}

impl MinecraftData for Tag {
    open spec fn wf(m: TagModel) -> bool {
        &&& <Identifier as MinecraftData>::wf(m.name)
        &&& <Vec<VarInt> as MinecraftData>::wf(m.entries)
    }

    open spec fn enc(m: TagModel) -> Seq<u8> {
        <Identifier as MinecraftData>::enc(m.name) + <Vec<VarInt> as MinecraftData>::enc(m.entries)
    }

    open spec fn dec(s: Seq<u8>) -> Option<(TagModel, int)> {
        match <Identifier as MinecraftData>::dec(s) {
            Some(p0) => match <Vec<VarInt> as MinecraftData>::dec(s.skip(p0.1)) {
                Some(p1) => Some((TagModel { name: p0.0, entries: p1.0 }, p0.1 + p1.1)),
                None => None,
            },
            None => None,
        }
    }

    proof fn lemma_round_trip(m: TagModel, rest: Seq<u8>) {
        let ea = <Identifier as MinecraftData>::enc(m.name);
        let eb = <Vec<VarInt> as MinecraftData>::enc(m.entries);
        lemma_concat_assoc(ea, eb, rest);
        lemma_field_step::<Identifier>(m.name, eb + rest);
        lemma_field_step::<Vec<VarInt>>(m.entries, rest);
    }

    proof fn lemma_dec_props(s: Seq<u8>) {
        <Identifier as MinecraftData>::lemma_dec_props(s);
        if <Identifier as MinecraftData>::dec(s) is Some {
            let p0 = <Identifier as MinecraftData>::dec(s).unwrap();
            <Vec<VarInt> as MinecraftData>::lemma_dec_props(s.skip(p0.1));
        }
    }

    fn decode(bytes: &Vec<u8>, pos: usize) -> (r: Result<(Self, usize), Error>) {
        let (name, p1) = match <Identifier as MinecraftData>::decode(bytes, pos) {
            Ok(x) => x,
            Err(e) => {
                return Err(e);
            },
        };
        proof {
            lemma_skip_skip(bytes@, pos as int, p1 - pos);
        }
        let (entries, p2) = match <Vec<VarInt> as MinecraftData>::decode(bytes, p1) {
            Ok(x) => x,
            Err(e) => {
                return Err(e);
            },
        };
        Ok((Tag { name, entries }, p2))
    }

    fn encode(&self, out: &mut Vec<u8>) -> (r: Result<(), Error>) {
        match self.name.encode(out) {
            Ok(()) => {},
            Err(e) => {
                return Err(e);
            },
        }
        match self.entries.encode(out) {
            Ok(()) => {},
            Err(e) => {
                return Err(e);
            },
        }
        proof {
            assert(out@ =~= old(out)@ + Self::enc(self.deep_view()));
        }
        Ok(())
    }

    fn num_bytes(&self) -> (r: usize) {
        self.name.num_bytes() + self.entries.num_bytes()
    }
}

/// The model of a tagged identifier set.
pub enum IDSetModel {
    Named(Seq<u8>),
    Enumerated(Seq<VarInt>),
}

/// A set of registry ids, in one of two wire shapes sharing a length trick:
/// a leading VarInt; zero means one identifier (a named tag) follows, and
/// `n >= 1` means exactly `n - 1` VarInt ids follow.
#[derive(Debug, Clone)]
pub enum IDSet {
    Named(Identifier),
    Enumerated(Vec<VarInt>),
}

impl DeepView for IDSet {
    type V = IDSetModel;

    open spec fn deep_view(&self) -> IDSetModel {
        match self {
            IDSet::Named(t) => IDSetModel::Named(t.deep_view()),
            IDSet::Enumerated(v) => IDSetModel::Enumerated(v.deep_view()),
        }
    }
}

impl MinecraftData for IDSet {
    open spec fn wf(m: IDSetModel) -> bool {
        match m {
            IDSetModel::Named(t) => <Identifier as MinecraftData>::wf(t),
            IDSetModel::Enumerated(ids) => ids.len() + 1 <= 0x7FFF_FFFF,
        }
    }

    open spec fn enc(m: IDSetModel) -> Seq<u8> {
        match m {
            IDSetModel::Named(t) => varint_enc_u(0) + <Identifier as MinecraftData>::enc(t),
            IDSetModel::Enumerated(ids) => varint_enc_u((ids.len() + 1) as u32) + elems_enc::<
                VarInt,
            >(ids),
        }
    }

    open spec fn dec(s: Seq<u8>) -> Option<(IDSetModel, int)> {
        match varint_dec_rec(s, 0) {
            Some(p) => {
                let len = i32_of_u32(p.0);
                if len < 0 {
                    None
                } else if len == 0 {
                    match <Identifier as MinecraftData>::dec(s.skip(p.1)) {
                        Some(q) => Some((IDSetModel::Named(q.0), p.1 + q.1)),
                        None => None,
                    }
                } else {
                    match elems_dec::<VarInt>(s.skip(p.1), (len - 1) as nat) {
                        Some(q) => Some((IDSetModel::Enumerated(q.0), p.1 + q.1)),
                        None => None,
                    }
                }
            },
            None => None,
        }
    }

    proof fn lemma_round_trip(m: IDSetModel, rest: Seq<u8>) {
        lemma2_to64();
        match m {
            IDSetModel::Named(t) => {
                let lenb = varint_enc_u(0);
                let body = <Identifier as MinecraftData>::enc(t);
                lemma_concat_assoc(lenb, body, rest);
                lemma_varint_round_trip(0, 0, body + rest);
                lemma_concat_skip(lenb, body + rest);
                lemma_field_step::<Identifier>(t, rest);
            },
            IDSetModel::Enumerated(ids) => {
                let lenb = varint_enc_u((ids.len() + 1) as u32);
                let body = elems_enc::<VarInt>(ids);
                lemma_concat_assoc(lenb, body, rest);
                lemma_varint_round_trip((ids.len() + 1) as u32, 0, body + rest);
                lemma_concat_skip(lenb, body + rest);
                lemma_elems_round_trip::<VarInt>(ids, rest);
            },
        }
    }

    proof fn lemma_dec_props(s: Seq<u8>) {
        lemma_varint_dec_bound(s, 0);
        if varint_dec_rec(s, 0) is Some {
            let p = varint_dec_rec(s, 0).unwrap();
            let len = i32_of_u32(p.0);
            if len == 0 {
                <Identifier as MinecraftData>::lemma_dec_props(s.skip(p.1));
            } else if len > 0 {
                lemma_elems_dec_props::<VarInt>(s.skip(p.1), (len - 1) as nat);
            }
        }
    }

    fn decode(bytes: &Vec<u8>, pos: usize) -> (r: Result<(Self, usize), Error>) {
        let (len_v, body_start) = match <VarInt as MinecraftData>::decode(bytes, pos) {
            Ok(x) => x,
            Err(e) => {
                return Err(e);
            },
        };
        if len_v.0 < 0 {
            return Err(Error::NegativeLength);
        }
        proof {
            lemma_skip_skip(bytes@, pos as int, body_start - pos);
        }
        if len_v.0 == 0 {
            match <Identifier as MinecraftData>::decode(bytes, body_start) {
                Ok((t, end)) => Ok((IDSet::Named(t), end)),
                Err(e) => Err(e),
            }
        } else {
            let count = (len_v.0 as usize) - 1;
            match decode_array::<VarInt>(bytes, body_start, count) {
                Ok((ids, end)) => Ok((IDSet::Enumerated(ids), end)),
                Err(e) => Err(e),
            }
        }
    }

    fn encode(&self, out: &mut Vec<u8>) -> (r: Result<(), Error>) {
        match self {
            IDSet::Named(t) => {
                varint_encode_u(out, 0);
                let ghost mid = out@;
                match t.encode(out) {
                    Ok(()) => {
                        proof {
                            lemma_concat_assoc(
                                old(out)@,
                                varint_enc_u(0),
                                <Identifier as MinecraftData>::enc(t.deep_view()),
                            );
                        }
                        Ok(())
                    },
                    Err(e) => Err(e),
                }
            },
            IDSet::Enumerated(ids) => {
                let len = ids.len();
                if len > 0x7FFF_FFFE {
                    return Err(Error::LengthOverflow);
                }
                varint_encode_u(out, (len as u32) + 1);
                let ghost mid = out@;
                match encode_array::<VarInt>(ids, out) {
                    Ok(()) => {
                        proof {
                            lemma_concat_assoc(
                                old(out)@,
                                varint_enc_u((len + 1) as u32),
                                elems_enc::<VarInt>(ids.deep_view()),
                            );
                        }
                        Ok(())
                    },
                    Err(e) => Err(e),
                }
            },
        }
    }

    fn num_bytes(&self) -> (r: usize) {
        match self {
            IDSet::Named(t) => varint_size_u(0) + t.num_bytes(),
            IDSet::Enumerated(ids) => {
                let prefix = varint_size_u((ids.len() as u32) + 1);
                let body = num_bytes_array::<VarInt>(ids);
                prefix + body
            },
        }
    }
}

/// The model of a slot display.
pub enum SlotDisplayModel {
    Empty,
    AnyFuel,
    Item { item_type: VarInt },
    ItemStack { item_stack: Slot },
    Tag { tag: Seq<u8> },
    SmithingTrim { base: Box<SlotDisplayModel>, material: Box<SlotDisplayModel>, pattern: VarInt },
    WithRemainder { ingredient: Box<SlotDisplayModel>, remainder: Box<SlotDisplayModel> },
    Composite { options: Seq<SlotDisplayModel> },
}

/// How a recipe slot is displayed: a recursive tagged union, encoded as a
/// VarInt discriminant followed by the variant's fields.
#[derive(Debug)]
pub enum SlotDisplay {
    Empty,
    AnyFuel,
    Item { item_type: VarInt },
    ItemStack { item_stack: Slot },
    Tag { tag: Identifier },
    SmithingTrim { base: Box<SlotDisplay>, material: Box<SlotDisplay>, pattern: VarInt },
    WithRemainder { ingredient: Box<SlotDisplay>, remainder: Box<SlotDisplay> },
    Composite { options: Vec<SlotDisplay> },
}

/// The model of a slot display value.
pub open spec fn slot_display_view(d: SlotDisplay) -> SlotDisplayModel
    decreases d,
{
    match d {
        SlotDisplay::Empty => SlotDisplayModel::Empty,
        SlotDisplay::AnyFuel => SlotDisplayModel::AnyFuel,
        SlotDisplay::Item { item_type } => SlotDisplayModel::Item { item_type },
        SlotDisplay::ItemStack { item_stack } => SlotDisplayModel::ItemStack { item_stack },
        SlotDisplay::Tag { tag } => SlotDisplayModel::Tag { tag: tag.deep_view() },
        SlotDisplay::SmithingTrim { base, material, pattern } => SlotDisplayModel::SmithingTrim {
            base: Box::new(slot_display_view(*base)),
            material: Box::new(slot_display_view(*material)),
            pattern,
        },
        SlotDisplay::WithRemainder { ingredient, remainder } => SlotDisplayModel::WithRemainder {
            ingredient: Box::new(slot_display_view(*ingredient)),
            remainder: Box::new(slot_display_view(*remainder)),
        },
        SlotDisplay::Composite { options } => SlotDisplayModel::Composite {
            options: slot_display_seq_view(options@),
        },
    }
}

/// The models of a run of slot displays.
pub open spec fn slot_display_seq_view(s: Seq<SlotDisplay>) -> Seq<SlotDisplayModel>
    decreases s,
{
    if s.len() == 0 {
        Seq::empty()
    } else {
        seq![slot_display_view(s[0])] + slot_display_seq_view(s.skip(1))
    }
}

/// How `slot_display_seq_view` relates to its input, element by element.
pub proof fn lemma_slot_display_seq_view_props(s: Seq<SlotDisplay>)
    ensures
        slot_display_seq_view(s).len() == s.len(),
        forall|i: int|
            0 <= i < s.len() ==> #[trigger] slot_display_seq_view(s)[i] == slot_display_view(s[i]),
    decreases s.len(),
{
    if s.len() > 0 {
        lemma_slot_display_seq_view_props(s.skip(1));
    }
}

/// The models the encoder accepts.
pub open spec fn slot_display_wf(m: SlotDisplayModel) -> bool
    decreases m,
{
    match m {
        SlotDisplayModel::Empty => true,
        SlotDisplayModel::AnyFuel => true,
        SlotDisplayModel::Item { item_type } => true,
        SlotDisplayModel::ItemStack { item_stack } => <Slot as MinecraftData>::wf(item_stack),
        SlotDisplayModel::Tag { tag } => <Identifier as MinecraftData>::wf(tag),
        SlotDisplayModel::SmithingTrim { base, material, pattern } => slot_display_wf(*base)
            && slot_display_wf(*material),
        SlotDisplayModel::WithRemainder { ingredient, remainder } => slot_display_wf(*ingredient)
            && slot_display_wf(*remainder),
        SlotDisplayModel::Composite { options } => options.len() <= 0x7FFF_FFFF
            && slot_display_seq_wf(options),
    }
}

pub open spec fn slot_display_seq_wf(ms: Seq<SlotDisplayModel>) -> bool
    decreases ms,
{
    if ms.len() == 0 {
        true
    } else {
        slot_display_wf(ms[0]) && slot_display_seq_wf(ms.skip(1))
    }
}

/// A run of models is well formed exactly when each one is.
pub proof fn lemma_slot_display_seq_wf_iff(ms: Seq<SlotDisplayModel>)
    ensures
        slot_display_seq_wf(ms) <==> (forall|i: int|
            0 <= i < ms.len() ==> slot_display_wf(#[trigger] ms[i])),
    decreases ms.len(),
{
    if ms.len() > 0 {
        lemma_slot_display_seq_wf_iff(ms.skip(1));
        if slot_display_wf(ms[0]) && slot_display_seq_wf(ms.skip(1)) {
            assert forall|i: int| 0 <= i < ms.len() implies slot_display_wf(#[trigger] ms[i]) by {
                if i > 0 {
                    assert(ms.skip(1)[i - 1] == ms[i]);
                }
            }
        }
        if forall|i: int| 0 <= i < ms.len() ==> slot_display_wf(#[trigger] ms[i]) {
            assert forall|i: int|
                0 <= i < ms.skip(1).len() implies slot_display_wf(#[trigger] ms.skip(1)[i]) by {
                assert(ms.skip(1)[i] == ms[i + 1]);
            }
        }
    }
}

/// The canonical encoding of a slot display model.
pub open spec fn slot_display_enc(m: SlotDisplayModel) -> Seq<u8>
    decreases m,
{
    match m {
        SlotDisplayModel::Empty => varint_enc_u(0),
        SlotDisplayModel::AnyFuel => varint_enc_u(1),
        SlotDisplayModel::Item { item_type } => varint_enc_u(2) + <VarInt as MinecraftData>::enc(
            item_type,
        ),
        SlotDisplayModel::ItemStack { item_stack } => varint_enc_u(3)
            + <Slot as MinecraftData>::enc(item_stack),
        SlotDisplayModel::Tag { tag } => varint_enc_u(4) + <Identifier as MinecraftData>::enc(tag),
        SlotDisplayModel::SmithingTrim { base, material, pattern } => varint_enc_u(5)
            + slot_display_enc(*base) + slot_display_enc(*material)
            + <VarInt as MinecraftData>::enc(pattern),
        SlotDisplayModel::WithRemainder { ingredient, remainder } => varint_enc_u(6)
            + slot_display_enc(*ingredient) + slot_display_enc(*remainder),
        SlotDisplayModel::Composite { options } => varint_enc_u(7) + varint_enc_u(
            options.len() as u32,
        ) + slot_display_seq_enc(options),
    }
}

pub open spec fn slot_display_seq_enc(ms: Seq<SlotDisplayModel>) -> Seq<u8>
    decreases ms,
{
    if ms.len() == 0 {
        Seq::empty()
    } else {
        slot_display_enc(ms[0]) + slot_display_seq_enc(ms.skip(1))
    }
}

/// Every slot display encoding starts with its discriminant, so it is
/// never empty.
pub proof fn lemma_slot_display_enc_len(m: SlotDisplayModel)
    ensures
        slot_display_enc(m).len() >= 1,
{
    lemma_varint_enc_len(0);
    lemma_varint_enc_len(1);
    lemma_varint_enc_len(2);
    lemma_varint_enc_len(3);
    lemma_varint_enc_len(4);
    lemma_varint_enc_len(5);
    lemma_varint_enc_len(6);
    lemma_varint_enc_len(7);
}

/// The specification-level decoder of a slot display.
pub open spec fn slot_display_dec(s: Seq<u8>) -> Option<(SlotDisplayModel, int)>
    decreases s.len(), 0nat,
{
    match varint_dec_rec(s, 0) {
        Some(p0) => {
            proof {
                lemma_varint_dec_bound(s, 0);
            }
            let d = p0.0;
            let n0 = p0.1;
            let s1 = s.skip(n0);
            if d == 0 {
                Some((SlotDisplayModel::Empty, n0))
            } else if d == 1 {
                Some((SlotDisplayModel::AnyFuel, n0))
            } else if d == 2 {
                match <VarInt as MinecraftData>::dec(s1) {
                    Some(q) => Some((SlotDisplayModel::Item { item_type: q.0 }, n0 + q.1)),
                    None => None,
                }
            } else if d == 3 {
                match <Slot as MinecraftData>::dec(s1) {
                    Some(q) => Some((SlotDisplayModel::ItemStack { item_stack: q.0 }, n0 + q.1)),
                    None => None,
                }
            } else if d == 4 {
                match <Identifier as MinecraftData>::dec(s1) {
                    Some(q) => Some((SlotDisplayModel::Tag { tag: q.0 }, n0 + q.1)),
                    None => None,
                }
            } else if d == 5 {
                match slot_display_dec(s1) {
                    Some(q1) => {
                        if 1 <= q1.1 <= s1.len() {
                            let s2 = s1.skip(q1.1);
                            match slot_display_dec(s2) {
                                Some(q2) => {
                                    if 1 <= q2.1 <= s2.len() {
                                        match <VarInt as MinecraftData>::dec(s2.skip(q2.1)) {
                                            Some(q3) => Some(
                                                (
                                                    SlotDisplayModel::SmithingTrim {
                                                        base: Box::new(q1.0),
                                                        material: Box::new(q2.0),
                                                        pattern: q3.0,
                                                    },
                                                    n0 + q1.1 + q2.1 + q3.1,
                                                ),
                                            ),
                                            None => None,
                                        }
                                    } else {
                                        None
                                    }
                                },
                                None => None,
                            }
                        } else {
                            None
                        }
                    },
                    None => None,
                }
            } else if d == 6 {
                match slot_display_dec(s1) {
                    Some(q1) => {
                        if 1 <= q1.1 <= s1.len() {
                            let s2 = s1.skip(q1.1);
                            match slot_display_dec(s2) {
                                Some(q2) => Some(
                                    (
                                        SlotDisplayModel::WithRemainder {
                                            ingredient: Box::new(q1.0),
                                            remainder: Box::new(q2.0),
                                        },
                                        n0 + q1.1 + q2.1,
                                    ),
                                ),
                                None => None,
                            }
                        } else {
                            None
                        }
                    },
                    None => None,
                }
            } else if d == 7 {
                match varint_dec_rec(s1, 0) {
                    Some(p1) => {
                        proof {
                            lemma_varint_dec_bound(s1, 0);
                        }
                        let len = i32_of_u32(p1.0);
                        if len < 0 {
                            None
                        } else {
                            match slot_display_elems_dec(s1.skip(p1.1), len as nat) {
                                Some(q) => Some(
                                    (
                                        SlotDisplayModel::Composite { options: q.0 },
                                        n0 + p1.1 + q.1,
                                    ),
                                ),
                                None => None,
                            }
                        }
                    },
                    None => None,
                }
            } else {
                None
            }
        },
        None => None,
    }
}

/// Decodes exactly `count` consecutive slot displays.
pub open spec fn slot_display_elems_dec(s: Seq<u8>, count: nat) -> Option<
    (Seq<SlotDisplayModel>, int),
>
    decreases s.len(), count,
{
    if count == 0 {
        Some((Seq::empty(), 0int))
    } else {
        match slot_display_dec(s) {
            Some(p) => {
                if 1 <= p.1 <= s.len() {
                    match slot_display_elems_dec(s.skip(p.1), (count - 1) as nat) {
                        Some(q) => Some((seq![p.0] + q.0, p.1 + q.1)),
                        None => None,
                    }
                } else {
                    None
                }
            },
            None => None,
        }
    }
}

/// Viewing a run one element at a time.
pub proof fn lemma_slot_display_seq_view_cons(v: SlotDisplay, s: Seq<SlotDisplay>)
    ensures
        slot_display_seq_view(seq![v] + s) == seq![slot_display_view(v)] + slot_display_seq_view(
            s,
        ),
{
    assert((seq![v] + s)[0] == v);
    assert((seq![v] + s).skip(1) =~= s);
}

/// What a successful slot-display decode guarantees: at least the
/// discriminant byte is consumed, the bytes lie within the input, and the
/// model is well formed.
pub proof fn lemma_slot_display_dec_props(s: Seq<u8>)
    ensures
        slot_display_dec(s) matches Some(p) ==> {
            &&& 1 <= p.1 <= s.len()
            &&& slot_display_wf(p.0)
        },
    decreases s.len(), 0nat,
{
    lemma_varint_dec_bound(s, 0);
    if varint_dec_rec(s, 0) is Some {
        let p0 = varint_dec_rec(s, 0).unwrap();
        let d = p0.0;
        let n0 = p0.1;
        let s1 = s.skip(n0);
        if d == 2 {
            <VarInt as MinecraftData>::lemma_dec_props(s1);
        } else if d == 3 {
            <Slot as MinecraftData>::lemma_dec_props(s1);
        } else if d == 4 {
            <Identifier as MinecraftData>::lemma_dec_props(s1);
        } else if d == 5 {
            lemma_slot_display_dec_props(s1);
            if slot_display_dec(s1) is Some {
                let q1 = slot_display_dec(s1).unwrap();
                if 1 <= q1.1 <= s1.len() {
                    let s2 = s1.skip(q1.1);
                    lemma_slot_display_dec_props(s2);
                    if slot_display_dec(s2) is Some {
                        let q2 = slot_display_dec(s2).unwrap();
                        if 1 <= q2.1 <= s2.len() {
                            <VarInt as MinecraftData>::lemma_dec_props(s2.skip(q2.1));
                        }
                    }
                }
            }
        } else if d == 6 {
            lemma_slot_display_dec_props(s1);
            if slot_display_dec(s1) is Some {
                let q1 = slot_display_dec(s1).unwrap();
                if 1 <= q1.1 <= s1.len() {
                    lemma_slot_display_dec_props(s1.skip(q1.1));
                }
            }
        } else if d == 7 {
            lemma_varint_dec_bound(s1, 0);
            if varint_dec_rec(s1, 0) is Some {
                let p1 = varint_dec_rec(s1, 0).unwrap();
                let len = i32_of_u32(p1.0);
                if len >= 0 {
                    lemma_slot_display_elems_dec_props(s1.skip(p1.1), len as nat);
                }
            }
        }
    }
}

pub proof fn lemma_slot_display_elems_dec_props(s: Seq<u8>, count: nat)
    ensures
        slot_display_elems_dec(s, count) matches Some(q) ==> {
            &&& 0 <= q.1 <= s.len()
            &&& q.0.len() == count
            &&& slot_display_seq_wf(q.0)
        },
    decreases s.len(), count,
{
    if count > 0 {
        lemma_slot_display_dec_props(s);
        if slot_display_dec(s) is Some {
            let p = slot_display_dec(s).unwrap();
            if 1 <= p.1 <= s.len() {
                lemma_slot_display_elems_dec_props(s.skip(p.1), (count - 1) as nat);
                if slot_display_elems_dec(s.skip(p.1), (count - 1) as nat) is Some {
                    let q = slot_display_elems_dec(s.skip(p.1), (count - 1) as nat).unwrap();
                    assert((seq![p.0] + q.0)[0] == p.0);
                    assert((seq![p.0] + q.0).skip(1) =~= q.0);
                }
            }
        }
    }
}

/// Round trip for a slot display: decoding the canonical encoding of a
/// well-formed model, followed by anything, yields that model back.
pub proof fn lemma_slot_display_round_trip(m: SlotDisplayModel, rest: Seq<u8>)
    requires
        slot_display_wf(m),
    ensures
        slot_display_dec(slot_display_enc(m) + rest) == Some(
            (m, slot_display_enc(m).len() as int),
        ),
    decreases m,
{
    lemma2_to64();
    match m {
        SlotDisplayModel::Empty => {
            lemma_varint_round_trip(0, 0, rest);
        },
        SlotDisplayModel::AnyFuel => {
            lemma_varint_round_trip(1, 0, rest);
        },
        SlotDisplayModel::Item { item_type } => {
            let e0 = varint_enc_u(2);
            let eb = <VarInt as MinecraftData>::enc(item_type);
            lemma_concat_assoc(e0, eb, rest);
            lemma_varint_round_trip(2, 0, eb + rest);
            lemma_concat_skip(e0, eb + rest);
            lemma_field_step::<VarInt>(item_type, rest);
        },
        SlotDisplayModel::ItemStack { item_stack } => {
            let e0 = varint_enc_u(3);
            let eb = <Slot as MinecraftData>::enc(item_stack);
            lemma_concat_assoc(e0, eb, rest);
            lemma_varint_round_trip(3, 0, eb + rest);
            lemma_concat_skip(e0, eb + rest);
            lemma_field_step::<Slot>(item_stack, rest);
        },
        SlotDisplayModel::Tag { tag } => {
            let e0 = varint_enc_u(4);
            let eb = <Identifier as MinecraftData>::enc(tag);
            lemma_concat_assoc(e0, eb, rest);
            lemma_varint_round_trip(4, 0, eb + rest);
            lemma_concat_skip(e0, eb + rest);
            lemma_field_step::<Identifier>(tag, rest);
        },
        SlotDisplayModel::SmithingTrim { base, material, pattern } => {
            let e0 = varint_enc_u(5);
            let eb = slot_display_enc(*base);
            let em = slot_display_enc(*material);
            let ep = <VarInt as MinecraftData>::enc(pattern);
            lemma_concat_assoc(e0 + eb + em, ep, rest);
            lemma_concat_assoc(e0 + eb, em, ep + rest);
            lemma_concat_assoc(e0, eb, em + (ep + rest));
            lemma_varint_round_trip(5, 0, eb + (em + (ep + rest)));
            lemma_concat_skip(e0, eb + (em + (ep + rest)));
            lemma_slot_display_round_trip(*base, em + (ep + rest));
            lemma_concat_skip(eb, em + (ep + rest));
            lemma_slot_display_enc_len(*base);
            lemma_slot_display_round_trip(*material, ep + rest);
            lemma_concat_skip(em, ep + rest);
            lemma_slot_display_enc_len(*material);
            lemma_field_step::<VarInt>(pattern, rest);
        },
        SlotDisplayModel::WithRemainder { ingredient, remainder } => {
            let e0 = varint_enc_u(6);
            let eb = slot_display_enc(*ingredient);
            let em = slot_display_enc(*remainder);
            lemma_concat_assoc(e0 + eb, em, rest);
            lemma_concat_assoc(e0, eb, em + rest);
            lemma_varint_round_trip(6, 0, eb + (em + rest));
            lemma_concat_skip(e0, eb + (em + rest));
            lemma_slot_display_round_trip(*ingredient, em + rest);
            lemma_concat_skip(eb, em + rest);
            lemma_slot_display_enc_len(*ingredient);
            lemma_slot_display_round_trip(*remainder, rest);
            lemma_concat_skip(em, rest);
            lemma_slot_display_enc_len(*remainder);
        },
        SlotDisplayModel::Composite { options } => {
            let e0 = varint_enc_u(7);
            let el = varint_enc_u(options.len() as u32);
            let eb = slot_display_seq_enc(options);
            lemma_concat_assoc(e0 + el, eb, rest);
            lemma_concat_assoc(e0, el, eb + rest);
            lemma_varint_round_trip(7, 0, el + (eb + rest));
            lemma_concat_skip(e0, el + (eb + rest));
            lemma_varint_round_trip(options.len() as u32, 0, eb + rest);
            lemma_concat_skip(el, eb + rest);
            lemma_slot_display_seq_round_trip(options, rest);
        },
    }
}

pub proof fn lemma_slot_display_seq_round_trip(ms: Seq<SlotDisplayModel>, rest: Seq<u8>)
    requires
        slot_display_seq_wf(ms),
    ensures
        slot_display_elems_dec(slot_display_seq_enc(ms) + rest, ms.len()) == Some(
            (ms, slot_display_seq_enc(ms).len() as int),
        ),
    decreases ms,
{
    if ms.len() == 0 {
        assert(slot_display_seq_enc(ms) + rest =~= rest);
        assert(ms =~= Seq::<SlotDisplayModel>::empty());
    } else {
        let e0 = slot_display_enc(ms[0]);
        let etail = slot_display_seq_enc(ms.skip(1));
        lemma_concat_assoc(e0, etail, rest);
        lemma_slot_display_round_trip(ms[0], etail + rest);
        lemma_concat_skip(e0, etail + rest);
        lemma_slot_display_enc_len(ms[0]);
        lemma_slot_display_seq_round_trip(ms.skip(1), rest);
        assert(seq![ms[0]] + ms.skip(1) =~= ms);
    }
}

/// Appending one model to a run appends its encoding.
pub proof fn lemma_slot_display_seq_enc_push(ms: Seq<SlotDisplayModel>, x: SlotDisplayModel)
    ensures
        slot_display_seq_enc(ms.push(x)) == slot_display_seq_enc(ms) + slot_display_enc(x),
    decreases ms.len(),
{
    if ms.len() == 0 {
        assert(ms.push(x)[0] == x);
        assert(ms.push(x).skip(1) =~= Seq::<SlotDisplayModel>::empty());
        assert(slot_display_seq_enc(Seq::<SlotDisplayModel>::empty()) == Seq::<u8>::empty());
        assert(slot_display_seq_enc(ms.push(x)) == slot_display_enc(x) + Seq::<u8>::empty());
        assert(slot_display_enc(x) + Seq::<u8>::empty() =~= slot_display_enc(x));
        assert(Seq::<u8>::empty() + slot_display_enc(x) =~= slot_display_enc(x));
    } else {
        assert(ms.push(x)[0] == ms[0]);
        assert(ms.push(x).skip(1) =~= ms.skip(1).push(x));
        lemma_slot_display_seq_enc_push(ms.skip(1), x);
        lemma_concat_assoc(
            slot_display_enc(ms[0]),
            slot_display_seq_enc(ms.skip(1)),
            slot_display_enc(x),
        );
    }
}

/// Splitting a run at `i` splits its encoding.
pub proof fn lemma_slot_display_seq_enc_split(ms: Seq<SlotDisplayModel>, i: int)
    requires
        0 <= i <= ms.len(),
    ensures
        slot_display_seq_enc(ms) == slot_display_seq_enc(ms.take(i)) + slot_display_seq_enc(
            ms.skip(i),
        ),
    decreases i,
{
    if i == 0 {
        assert(ms.skip(0) =~= ms);
        assert(Seq::<u8>::empty() + slot_display_seq_enc(ms) =~= slot_display_seq_enc(ms));
    } else {
        lemma_slot_display_seq_enc_split(ms.skip(1), i - 1);
        assert(ms.skip(1).take(i - 1) =~= ms.take(i).skip(1));
        assert(ms.skip(1).skip(i - 1) =~= ms.skip(i));
        assert(ms.take(i)[0] == ms[0]);
        lemma_concat_assoc(
            slot_display_enc(ms[0]),
            slot_display_seq_enc(ms.take(i).skip(1)),
            slot_display_seq_enc(ms.skip(i)),
        );
    }
}

/// The number of nodes in a slot display model: the measure that the
/// executable recursion over the tree decreases.
pub open spec fn slot_display_size(m: SlotDisplayModel) -> nat
    decreases m,
{
    match m {
        SlotDisplayModel::SmithingTrim { base, material, pattern } => 1 + slot_display_size(*base)
            + slot_display_size(*material),
        SlotDisplayModel::WithRemainder { ingredient, remainder } => 1 + slot_display_size(
            *ingredient,
        ) + slot_display_size(*remainder),
        SlotDisplayModel::Composite { options } => 1 + slot_display_seq_size(options),
        _ => 1,
    }
}

pub open spec fn slot_display_seq_size(ms: Seq<SlotDisplayModel>) -> nat
    decreases ms,
{
    if ms.len() == 0 {
        0
    } else {
        slot_display_size(ms[0]) + slot_display_seq_size(ms.skip(1))
    }
}

/// Each element of a run weighs no more than the whole run.
pub proof fn lemma_slot_display_seq_size_index(ms: Seq<SlotDisplayModel>, i: int)
    requires
        0 <= i < ms.len(),
    ensures
        slot_display_size(ms[i]) <= slot_display_seq_size(ms),
    decreases ms.len(),
{
    if i > 0 {
        lemma_slot_display_seq_size_index(ms.skip(1), i - 1);
        assert(ms.skip(1)[i - 1] == ms[i]);
    }
}

/// Reads one slot display at `pos`.
#[verifier::rlimit(100)]
#[verifier::spinoff_prover]
pub fn slot_display_decode(bytes: &Vec<u8>, pos: usize) -> (r: Result<(SlotDisplay, usize), Error>)
    requires
        pos <= bytes@.len(),
    ensures
        match r {
            Ok(p) => {
                &&& pos <= p.1 <= bytes@.len()
                &&& slot_display_dec(bytes@.skip(pos as int)) == Some(
                    (slot_display_view(p.0), p.1 - pos),
                )
            },
            Err(_) => slot_display_dec(bytes@.skip(pos as int)) is None,
        },
    decreases bytes@.len() - pos, 1nat,
{
    let total = bytes.len();
    proof {
        lemma_varint_dec_bound(bytes@.skip(pos as int), 0);
    }
    let (d, n0) = match varint_decode_rec(bytes, pos, 0) {
        Ok(x) => x,
        Err(e) => {
            return Err(e);
        },
    };
    let dpos = pos + n0;
    proof {
        lemma_skip_skip(bytes@, pos as int, n0 as int);
    }
    if d == 0 {
        Ok((SlotDisplay::Empty, dpos))
    } else if d == 1 {
        Ok((SlotDisplay::AnyFuel, dpos))
    } else if d == 2 {
        match <VarInt as MinecraftData>::decode(bytes, dpos) {
            Ok((item_type, end)) => Ok((SlotDisplay::Item { item_type }, end)),
            Err(e) => Err(e),
        }
    } else if d == 3 {
        match <Slot as MinecraftData>::decode(bytes, dpos) {
            Ok((item_stack, end)) => Ok((SlotDisplay::ItemStack { item_stack }, end)),
            Err(e) => Err(e),
        }
    } else if d == 4 {
        match <Identifier as MinecraftData>::decode(bytes, dpos) {
            Ok((tag, end)) => Ok((SlotDisplay::Tag { tag }, end)),
            Err(e) => Err(e),
        }
    } else if d == 5 {
        slot_display_decode_smithing(bytes, pos, dpos)
    } else if d == 6 {
        slot_display_decode_with_remainder(bytes, pos, dpos)
    } else if d == 7 {
        slot_display_decode_composite(bytes, pos, dpos)
    } else {
        Err(Error::UnknownDiscriminant)
    }
}

/// Reads the two nested displays and the pattern of a smithing-trim
/// display, the discriminant already consumed.
#[verifier::rlimit(100)]
#[verifier::spinoff_prover]
fn slot_display_decode_smithing(bytes: &Vec<u8>, pos: usize, dpos: usize) -> (r: Result<
    (SlotDisplay, usize),
    Error,
>)
    requires
        pos <= dpos <= bytes@.len(),
        varint_dec_rec(bytes@.skip(pos as int), 0) == Some((5u32, dpos - pos)),
        dpos - pos >= 1,
    ensures
        match r {
            Ok(p) => {
                &&& pos <= p.1 <= bytes@.len()
                &&& slot_display_dec(bytes@.skip(pos as int)) == Some(
                    (slot_display_view(p.0), p.1 - pos),
                )
            },
            Err(_) => slot_display_dec(bytes@.skip(pos as int)) is None,
        },
    decreases bytes@.len() - pos, 0nat,
{
    proof {
        lemma_skip_skip(bytes@, pos as int, dpos - pos);
        lemma_slot_display_dec_props(bytes@.skip(dpos as int));
    }
    let (base, p1) = match slot_display_decode(bytes, dpos) {
        Ok(x) => x,
        Err(e) => {
            return Err(e);
        },
    };
    proof {
        lemma_skip_skip(bytes@, dpos as int, p1 - dpos);
        lemma_slot_display_dec_props(bytes@.skip(p1 as int));
    }
    let (material, p2) = match slot_display_decode(bytes, p1) {
        Ok(x) => x,
        Err(e) => {
            return Err(e);
        },
    };
    proof {
        lemma_skip_skip(bytes@, p1 as int, p2 - p1);
    }
    let (pattern, p3) = match <VarInt as MinecraftData>::decode(bytes, p2) {
        Ok(x) => x,
        Err(e) => {
            return Err(e);
        },
    };
    Ok(
        (
            SlotDisplay::SmithingTrim { base: Box::new(base), material: Box::new(material), pattern },
            p3,
        ),
    )
}

/// Reads the ingredient and remainder of a with-remainder display, the
/// discriminant already consumed.
#[verifier::rlimit(100)]
#[verifier::spinoff_prover]
fn slot_display_decode_with_remainder(bytes: &Vec<u8>, pos: usize, dpos: usize) -> (r: Result<
    (SlotDisplay, usize),
    Error,
>)
    requires
        pos <= dpos <= bytes@.len(),
        varint_dec_rec(bytes@.skip(pos as int), 0) == Some((6u32, dpos - pos)),
        dpos - pos >= 1,
    ensures
        match r {
            Ok(p) => {
                &&& pos <= p.1 <= bytes@.len()
                &&& slot_display_dec(bytes@.skip(pos as int)) == Some(
                    (slot_display_view(p.0), p.1 - pos),
                )
            },
            Err(_) => slot_display_dec(bytes@.skip(pos as int)) is None,
        },
    decreases bytes@.len() - pos, 0nat,
{
    proof {
        lemma_skip_skip(bytes@, pos as int, dpos - pos);
        lemma_slot_display_dec_props(bytes@.skip(dpos as int));
    }
    let (ingredient, p1) = match slot_display_decode(bytes, dpos) {
        Ok(x) => x,
        Err(e) => {
            return Err(e);
        },
    };
    proof {
        lemma_skip_skip(bytes@, dpos as int, p1 - dpos);
    }
    let (remainder, p2) = match slot_display_decode(bytes, p1) {
        Ok(x) => x,
        Err(e) => {
            return Err(e);
        },
    };
    Ok(
        (
            SlotDisplay::WithRemainder {
                ingredient: Box::new(ingredient),
                remainder: Box::new(remainder),
            },
            p2,
        ),
    )
}

/// Reads the length-prefixed options of a composite display, the
/// discriminant already consumed.
#[verifier::rlimit(100)]
#[verifier::spinoff_prover]
fn slot_display_decode_composite(bytes: &Vec<u8>, pos: usize, dpos: usize) -> (r: Result<
    (SlotDisplay, usize),
    Error,
>)
    requires
        pos <= dpos <= bytes@.len(),
        varint_dec_rec(bytes@.skip(pos as int), 0) == Some((7u32, dpos - pos)),
        dpos - pos >= 1,
    ensures
        match r {
            Ok(p) => {
                &&& pos <= p.1 <= bytes@.len()
                &&& slot_display_dec(bytes@.skip(pos as int)) == Some(
                    (slot_display_view(p.0), p.1 - pos),
                )
            },
            Err(_) => slot_display_dec(bytes@.skip(pos as int)) is None,
        },
    decreases bytes@.len() - pos, 0nat,
{
    proof {
        lemma_skip_skip(bytes@, pos as int, dpos - pos);
    }
    let (len_v, body_start) = match <VarInt as MinecraftData>::decode(bytes, dpos) {
        Ok(x) => x,
        Err(e) => {
            return Err(e);
        },
    };
    if len_v.0 < 0 {
        return Err(Error::NegativeLength);
    }
    proof {
        lemma_skip_skip(bytes@, dpos as int, body_start - dpos);
        lemma_varint_dec_bound(bytes@.skip(dpos as int), 0);
    }
    match slot_display_decode_elems(bytes, body_start, len_v.0 as usize) {
        Ok((options, end)) => Ok((SlotDisplay::Composite { options }, end)),
        Err(e) => Err(e),
    }
}

/// Reads `count` consecutive slot displays at `pos`.
pub fn slot_display_decode_elems(bytes: &Vec<u8>, pos: usize, count: usize) -> (r: Result<
    (Vec<SlotDisplay>, usize),
    Error,
>)
    requires
        pos <= bytes@.len(),
    ensures
        match r {
            Ok(p) => {
                &&& pos <= p.1 <= bytes@.len()
                &&& slot_display_elems_dec(bytes@.skip(pos as int), count as nat) == Some(
                    (slot_display_seq_view(p.0@), p.1 - pos),
                )
            },
            Err(_) => slot_display_elems_dec(bytes@.skip(pos as int), count as nat) is None,
        },
    decreases bytes@.len() - pos, count + 2,
{
    if count == 0 {
        let empty: Vec<SlotDisplay> = Vec::new();
        proof {
            assert(slot_display_seq_view(empty@) =~= Seq::<SlotDisplayModel>::empty());
        }
        return Ok((empty, pos));
    }
    proof {
        lemma_slot_display_dec_props(bytes@.skip(pos as int));
    }
    let (v, p) = match slot_display_decode(bytes, pos) {
        Ok(x) => x,
        Err(e) => {
            return Err(e);
        },
    };
    proof {
        lemma_skip_skip(bytes@, pos as int, p - pos);
    }
    match slot_display_decode_elems(bytes, p, count - 1) {
        Ok((mut vs, end)) => {
            let ghost tail = vs@;
            vs.insert(0, v);
            proof {
                assert(vs@ =~= seq![v] + tail);
                lemma_slot_display_seq_view_cons(v, tail);
            }
            Ok((vs, end))
        },
        Err(e) => Err(e),
    }
}

/// Appends the canonical encoding of one slot display to `out`.
pub fn slot_display_encode(v: &SlotDisplay, out: &mut Vec<u8>) -> (r: Result<(), Error>)
    ensures
        r is Ok <==> slot_display_wf(slot_display_view(*v)),
        r is Ok ==> final(out)@ == old(out)@ + slot_display_enc(slot_display_view(*v)),
    decreases slot_display_size(slot_display_view(*v)),
{
    match v {
        SlotDisplay::Empty => {
            varint_encode_u(out, 0);
            Ok(())
        },
        SlotDisplay::AnyFuel => {
            varint_encode_u(out, 1);
            Ok(())
        },
        SlotDisplay::Item { item_type } => {
            varint_encode_u(out, 2);
            let _ = item_type.encode(out);
            proof {
                assert(out@ =~= old(out)@ + slot_display_enc(slot_display_view(*v)));
            }
            Ok(())
        },
        SlotDisplay::ItemStack { item_stack } => {
            varint_encode_u(out, 3);
            match item_stack.encode(out) {
                Ok(()) => {
                    proof {
                        assert(out@ =~= old(out)@ + slot_display_enc(slot_display_view(*v)));
                    }
                    Ok(())
                },
                Err(e) => Err(e),
            }
        },
        SlotDisplay::Tag { tag } => {
            varint_encode_u(out, 4);
            match tag.encode(out) {
                Ok(()) => {
                    proof {
                        assert(out@ =~= old(out)@ + slot_display_enc(slot_display_view(*v)));
                    }
                    Ok(())
                },
                Err(e) => Err(e),
            }
        },
        SlotDisplay::SmithingTrim { base, material, pattern } => {
            varint_encode_u(out, 5);
            match slot_display_encode(base, out) {
                Ok(()) => {},
                Err(e) => {
                    return Err(e);
                },
            }
            match slot_display_encode(material, out) {
                Ok(()) => {},
                Err(e) => {
                    return Err(e);
                },
            }
            let _ = pattern.encode(out);
            proof {
                assert(out@ =~= old(out)@ + slot_display_enc(slot_display_view(*v)));
            }
            Ok(())
        },
        SlotDisplay::WithRemainder { ingredient, remainder } => {
            varint_encode_u(out, 6);
            match slot_display_encode(ingredient, out) {
                Ok(()) => {},
                Err(e) => {
                    return Err(e);
                },
            }
            match slot_display_encode(remainder, out) {
                Ok(()) => {},
                Err(e) => {
                    return Err(e);
                },
            }
            proof {
                assert(out@ =~= old(out)@ + slot_display_enc(slot_display_view(*v)));
            }
            Ok(())
        },
        SlotDisplay::Composite { options } => {
            let n = options.len();
            proof {
                lemma_slot_display_seq_view_props(options@);
            }
            if n > 0x7FFF_FFFF {
                return Err(Error::LengthOverflow);
            }
            varint_encode_u(out, 7);
            varint_encode_u(out, n as u32);
            let ghost mid = out@;
            let ghost views = slot_display_seq_view(options@);
            let mut i: usize = 0;
            while i < n
                invariant
                    i <= n,
                    n == options@.len(),
                    n <= 0x7FFF_FFFF,
                    views == slot_display_seq_view(options@),
                    slot_display_view(*v) == (SlotDisplayModel::Composite { options: views }),
                    views.len() == n,
                    forall|j: int|
                        0 <= j < n ==> #[trigger] views[j] == slot_display_view(options@[j]),
                    forall|j: int| 0 <= j < i ==> slot_display_wf(#[trigger] views[j]),
                    out@ == mid + slot_display_seq_enc(views.take(i as int)),
                    mid == old(out)@ + varint_enc_u(7) + varint_enc_u(n as u32),
                decreases n - i,
            {
                let ghost before = views.take(i as int);
                proof {
                    assert(slot_display_view(*v) == SlotDisplayModel::Composite {
                        options: views,
                    });
                    lemma_slot_display_seq_size_index(views, i as int);
                }
                match slot_display_encode(&options[i], out) {
                    Ok(()) => {},
                    Err(e) => {
                        proof {
                            lemma_slot_display_seq_wf_iff(views);
                            assert(!slot_display_wf(views[i as int]));
                        }
                        return Err(e);
                    },
                }
                proof {
                    lemma_slot_display_seq_enc_push(before, views[i as int]);
                    assert(views.take(i + 1) =~= before.push(views[i as int]));
                    lemma_concat_assoc(
                        mid,
                        slot_display_seq_enc(before),
                        slot_display_enc(views[i as int]),
                    );
                }
                i = i + 1;
            }
            proof {
                assert(views.take(n as int) =~= views);
                lemma_slot_display_seq_wf_iff(views);
                assert(out@ =~= old(out)@ + slot_display_enc(slot_display_view(*v)));
            }
            Ok(())
        },
    }
}

/// The exact byte length of one slot display's encoding.
pub fn slot_display_num_bytes(v: &SlotDisplay) -> (r: usize)
    requires
        slot_display_wf(slot_display_view(*v)),
        slot_display_enc(slot_display_view(*v)).len() <= usize::MAX,
    ensures
        r == slot_display_enc(slot_display_view(*v)).len(),
    decreases slot_display_size(slot_display_view(*v)),
{
    match v {
        SlotDisplay::Empty => varint_size_u(0),
        SlotDisplay::AnyFuel => varint_size_u(1),
        SlotDisplay::Item { item_type } => varint_size_u(2) + item_type.num_bytes(),
        SlotDisplay::ItemStack { item_stack } => varint_size_u(3) + item_stack.num_bytes(),
        SlotDisplay::Tag { tag } => varint_size_u(4) + tag.num_bytes(),
        SlotDisplay::SmithingTrim { base, material, pattern } => {
            let a = slot_display_num_bytes(base);
            let b = slot_display_num_bytes(material);
            let c = pattern.num_bytes();
            varint_size_u(5) + a + b + c
        },
        SlotDisplay::WithRemainder { ingredient, remainder } => {
            let a = slot_display_num_bytes(ingredient);
            let b = slot_display_num_bytes(remainder);
            varint_size_u(6) + a + b
        },
        SlotDisplay::Composite { options } => {
            let n = options.len();
            proof {
                lemma_slot_display_seq_view_props(options@);
                lemma_slot_display_seq_wf_iff(slot_display_seq_view(options@));
            }
            let ghost views = slot_display_seq_view(options@);
            let prefix = varint_size_u(7);
            let lenb = varint_size_u(n as u32);
            let mut acc: usize = 0;
            let mut i: usize = 0;
            while i < n
                invariant
                    i <= n,
                    n == options@.len(),
                    views == slot_display_seq_view(options@),
                    slot_display_view(*v) == (SlotDisplayModel::Composite { options: views }),
                    views.len() == n,
                    forall|j: int|
                        0 <= j < n ==> #[trigger] views[j] == slot_display_view(options@[j]),
                    forall|j: int| 0 <= j < n ==> slot_display_wf(#[trigger] views[j]),
                    slot_display_seq_enc(views).len() <= usize::MAX,
                    acc == slot_display_seq_enc(views.take(i as int)).len(),
                decreases n - i,
            {
                proof {
                    lemma_slot_display_seq_enc_split(views, i + 1);
                    lemma_slot_display_seq_enc_push(views.take(i as int), views[i as int]);
                    assert(views.take(i + 1) =~= views.take(i as int).push(views[i as int]));
                    assert(slot_display_view(*v) == SlotDisplayModel::Composite {
                        options: views,
                    });
                    lemma_slot_display_seq_size_index(views, i as int);
                }
                let nb = slot_display_num_bytes(&options[i]);
                acc = acc + nb;
                i = i + 1;
            }
            proof {
                assert(views.take(n as int) =~= views);
            }
            prefix + lenb + acc
        },
    }
}

impl DeepView for SlotDisplay {
    type V = SlotDisplayModel;

    open spec fn deep_view(&self) -> SlotDisplayModel {
        slot_display_view(*self)
    }
}

impl MinecraftData for SlotDisplay {
    open spec fn wf(m: SlotDisplayModel) -> bool {
        slot_display_wf(m)
    }

    open spec fn enc(m: SlotDisplayModel) -> Seq<u8> {
        slot_display_enc(m)
    }

    open spec fn dec(s: Seq<u8>) -> Option<(SlotDisplayModel, int)> {
        slot_display_dec(s)
    }

    proof fn lemma_round_trip(m: SlotDisplayModel, rest: Seq<u8>) {
        lemma_slot_display_round_trip(m, rest);
    }

    proof fn lemma_dec_props(s: Seq<u8>) {
        lemma_slot_display_dec_props(s);
    }

    fn decode(bytes: &Vec<u8>, pos: usize) -> (r: Result<(Self, usize), Error>) {
        slot_display_decode(bytes, pos)
    }

    fn encode(&self, out: &mut Vec<u8>) -> (r: Result<(), Error>) {
        slot_display_encode(self, out)
    }

    fn num_bytes(&self) -> (r: usize) {
        slot_display_num_bytes(self)
    }
}

} // verus!
